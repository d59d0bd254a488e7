use maolan_sampler::group::{group_is_active, Group, Part, TriggerConjunction, TriggerType};

#[test]
fn test_group_is_active_none() {
    let group = Group::default();
    let part = Part::default();
    let cc = [0u8; 128];
    let held = [false; 128];
    assert!(group_is_active(&group, &part, &cc, &held));
}

#[test]
fn test_group_is_active_keyswitch_last() {
    let group = Group {
        sw_last: Some(24),
        ..Default::default()
    };
    let mut part = Part::default();
    let cc = [0u8; 128];
    let held = [false; 128];
    assert!(!group_is_active(&group, &part, &cc, &held));
    part.last_keyswitch_note = Some(24);
    assert!(group_is_active(&group, &part, &cc, &held));
}

#[test]
fn test_group_is_active_keyswitch_range() {
    let group = Group {
        sw_lolast: Some(24),
        sw_hilast: Some(26),
        ..Default::default()
    };
    let mut part = Part::default();
    let cc = [0u8; 128];
    let held = [false; 128];
    part.last_keyswitch_note = Some(25);
    assert!(group_is_active(&group, &part, &cc, &held));
    part.last_keyswitch_note = Some(27);
    assert!(!group_is_active(&group, &part, &cc, &held));
}

#[test]
fn test_group_is_active_keyswitch_previous() {
    let group = Group {
        sw_previous: Some(60),
        ..Default::default()
    };
    let mut part = Part::default();
    let cc = [0u8; 128];
    let held = [false; 128];
    assert!(!group_is_active(&group, &part, &cc, &held));
    part.previous_note = Some(60);
    assert!(group_is_active(&group, &part, &cc, &held));
}

#[test]
fn test_group_is_active_keyswitch_down_and_up() {
    let down_group = Group {
        sw_down: Some(24),
        ..Default::default()
    };
    let up_group = Group {
        sw_up: Some(24),
        ..Default::default()
    };
    let part = Part::default();
    let cc = [0u8; 128];
    let mut held = [false; 128];
    assert!(!group_is_active(&down_group, &part, &cc, &held));
    assert!(group_is_active(&up_group, &part, &cc, &held));
    held[24] = true;
    assert!(group_is_active(&down_group, &part, &cc, &held));
    assert!(!group_is_active(&up_group, &part, &cc, &held));
}

#[test]
fn test_group_midi_cc_trigger() {
    let mut group = Group {
        trigger_type: TriggerType::MidiCc,
        ..Default::default()
    };
    group.trigger_conditions[0].cc = 10;
    group.trigger_conditions[0].cc_value = 64;
    let part = Part::default();
    let mut cc = [0u8; 128];
    let held = [false; 128];

    cc[10] = 63;
    assert!(!group_is_active(&group, &part, &cc, &held));

    cc[10] = 64;
    assert!(group_is_active(&group, &part, &cc, &held));
}

#[test]
fn test_trigger_conjunction_and() {
    let mut group = Group {
        trigger_type: TriggerType::MidiCc,
        ..Default::default()
    };
    group.trigger_conditions[0].cc = 10;
    group.trigger_conditions[0].cc_value = 64;
    group.trigger_conditions[1].cc = 11;
    group.trigger_conditions[1].cc_value = 64;
    group.trigger_conjunctions[0] = TriggerConjunction::And;
    let part = Part::default();
    let mut cc = [0u8; 128];
    let held = [false; 128];
    cc[10] = 64;

    assert!(!group_is_active(&group, &part, &cc, &held));
    cc[11] = 64;
    assert!(group_is_active(&group, &part, &cc, &held));
}

#[test]
fn test_trigger_conjunction_or() {
    let mut group = Group {
        trigger_type: TriggerType::MidiCc,
        ..Default::default()
    };
    group.trigger_conditions[0].cc = 10;
    group.trigger_conditions[0].cc_value = 64;
    group.trigger_conditions[1].cc = 11;
    group.trigger_conditions[1].cc_value = 64;
    group.trigger_conjunctions[0] = TriggerConjunction::Or;
    let part = Part::default();
    let mut cc = [0u8; 128];
    let held = [false; 128];
    cc[10] = 64;

    assert!(group_is_active(&group, &part, &cc, &held));
    cc[10] = 0;
    assert!(!group_is_active(&group, &part, &cc, &held));
}

#[test]
fn ungated_group_plays_for_any_input() {
    let group = Group::default();
    let mut part = Part::default();
    part.last_keyswitch_note = Some(3);
    part.previous_note = Some(99);
    let cc = [127u8; 128];
    let held = [true; 128];
    assert!(group_is_active(&group, &part, &cc, &held));
}

#[test]
fn and_not_conjunction_negates_second_condition() {
    let mut group = Group {
        trigger_type: TriggerType::MidiCc,
        ..Default::default()
    };
    group.trigger_conditions[0].cc = 1;
    group.trigger_conditions[0].cc_value = 10;
    group.trigger_conditions[1].cc = 2;
    group.trigger_conditions[1].cc_value = 10;
    group.trigger_conjunctions[0] = TriggerConjunction::AndNot;
    group.trigger_conjunctions[1] = TriggerConjunction::Or;
    group.trigger_conjunctions[2] = TriggerConjunction::Or;
    group.trigger_conditions[2].cc_value = 200;
    group.trigger_conditions[3].cc_value = 200;
    let part = Part::default();
    let mut cc = [0u8; 128];
    let held = [false; 128];
    cc[1] = 10;
    assert!(group_is_active(&group, &part, &cc, &held));
    cc[2] = 10;
    assert!(!group_is_active(&group, &part, &cc, &held));
}

#[test]
fn keyswitch_range_needs_a_last_keyswitch() {
    let group = Group {
        sw_hilast: Some(30),
        ..Default::default()
    };
    let mut part = Part::default();
    let cc = [0u8; 128];
    let held = [false; 128];
    assert!(!group_is_active(&group, &part, &cc, &held));
    part.last_keyswitch_note = Some(0);
    assert!(group_is_active(&group, &part, &cc, &held));
    part.last_keyswitch_note = Some(31);
    assert!(!group_is_active(&group, &part, &cc, &held));
}
