use maolan_sampler::editor_options::{
    GroupEditField, ZoneCreateKind, ZoneEdge, ZoneEditField, ZoneListSelection,
};
use maolan_sampler::zone_list::{
    copy_zones, create_zone_list_item, delete_zone_list_selection, find_group,
    move_zone_to_group, rename_zone, selection_extra_opcode_text, set_group_extra_sfz,
    set_group_sw_label, set_group_value, set_zone_extra_sfz, undo_zone_edit,
};
use maolan_sampler::zone_conditions::CcCondition;
use maolan_sampler::zone_map::{
    add_cc_condition, drag_zone_edge, drop_sample_file, move_zone_body, new_zone_key_span,
    remove_cc_condition, set_cc_condition_cc, set_cc_condition_high, set_cc_condition_low,
    set_zone_range_value, zone_at,
};
use maolan_sampler::zones::{SampleGroup, SampleZone};

fn zone(name: &str, start: usize, end: usize, vel_low: u8, vel_high: u8, group: &str) -> SampleZone {
    SampleZone::new_basic(
        name.to_string(),
        Vec::new(),
        start,
        end,
        vel_low,
        vel_high,
        group.to_string(),
    )
}

fn ranges(z: &SampleZone) -> (usize, usize, u8, u8) {
    (z.start_note, z.end_note, z.vel_low, z.vel_high)
}

#[test]
fn dragging_an_edge_stops_at_the_opposite_edge() {
    let mut z = zone("a", 40, 50, 10, 100, "g");
    drag_zone_edge(&mut z, ZoneEdge::Start, 45, 0);
    assert_eq!(ranges(&z), (45, 50, 10, 100));
    drag_zone_edge(&mut z, ZoneEdge::Start, 60, 0);
    assert_eq!(ranges(&z), (50, 50, 10, 100));
    drag_zone_edge(&mut z, ZoneEdge::End, 30, 0);
    assert_eq!(ranges(&z), (50, 50, 10, 100));
    drag_zone_edge(&mut z, ZoneEdge::End, 70, 0);
    assert_eq!(ranges(&z), (50, 70, 10, 100));
    drag_zone_edge(&mut z, ZoneEdge::Top, 0, 5);
    assert_eq!(ranges(&z), (50, 70, 10, 10));
    drag_zone_edge(&mut z, ZoneEdge::Top, 0, 90);
    assert_eq!(ranges(&z), (50, 70, 10, 90));
    drag_zone_edge(&mut z, ZoneEdge::Bottom, 0, 120);
    assert_eq!(ranges(&z), (50, 70, 90, 90));
    drag_zone_edge(&mut z, ZoneEdge::Bottom, 0, 1);
    assert_eq!(ranges(&z), (50, 70, 1, 90));
    assert_eq!(z.name, "a");
}

#[test]
fn moving_a_zone_keeps_its_shape_on_the_map() {
    let mut z = zone("a", 40, 50, 10, 30, "g");
    move_zone_body(&mut z, 5, 0);
    assert_eq!(ranges(&z), (5, 15, 0, 20));
    move_zone_body(&mut z, 120, 110);
    assert_eq!(ranges(&z), (117, 127, 107, 127));
    move_zone_body(&mut z, 0, 250);
    assert_eq!(ranges(&z), (0, 10, 107, 127));
    let mut wide = zone("w", 0, 127, 0, 127, "g");
    move_zone_body(&mut wide, 3, 3);
    assert_eq!(ranges(&wide), (0, 127, 0, 127));
}

#[test]
fn dropped_zone_key_span_is_centred_and_on_the_map() {
    assert_eq!(new_zone_key_span(60, 4), (58, 61));
    assert_eq!(new_zone_key_span(60, 5), (58, 62));
    assert_eq!(new_zone_key_span(127, 4), (124, 127));
    assert_eq!(new_zone_key_span(0, 4), (0, 3));
    assert_eq!(new_zone_key_span(60, 0), (60, 60));
    assert_eq!(new_zone_key_span(60, 1), (60, 60));
    assert_eq!(new_zone_key_span(60, 500), (0, 127));
}

#[test]
fn zone_at_finds_the_first_zone_holding_a_point() {
    let zones = vec![zone("a", 40, 50, 0, 63, ""), zone("b", 45, 60, 0, 127, "")];
    assert_eq!(zone_at(&zones, 45, 10), Some(0));
    assert_eq!(zone_at(&zones, 45, 100), Some(1));
    assert_eq!(zone_at(&zones, 61, 10), None);
    assert_eq!(zone_at(&[], 61, 10), None);
}

#[test]
fn dropping_on_a_zone_adds_the_file_to_it() {
    let mut zones = vec![zone("a", 40, 50, 0, 63, "g"), zone("b", 45, 60, 0, 127, "g")];
    let mut groups = vec![SampleGroup::new("g".to_string())];
    let added = drop_sample_file(&mut zones, &mut groups, &None, 46, 20, 4, "kick.wav".to_string());
    assert!(!added);
    assert_eq!(zones.len(), 2);
    assert_eq!(zones[0].files, vec!["kick.wav".to_string()]);
    assert!(zones[1].files.is_empty());
    assert_eq!(groups.len(), 1);
}

#[test]
fn dropping_on_free_space_creates_a_zone() {
    let mut zones = vec![zone("New Zone", 60, 62, 0, 63, "Keys")];
    let mut groups = vec![SampleGroup::new("Keys".to_string())];
    let added = drop_sample_file(&mut zones, &mut groups, &None, 61, 100, 3, "hat.wav".to_string());
    assert!(added);
    assert_eq!(zones.len(), 2);
    let z = &zones[1];
    assert_eq!(z.name, "New Zone 2");
    assert_eq!(z.files, vec!["hat.wav".to_string()]);
    assert_eq!(ranges(z), (60, 62, 64, 127));
    assert_eq!(z.root_key, 60);
    assert_eq!(z.group, "Keys");
    assert_eq!(groups.len(), 1);

    let selected = Some(ZoneListSelection::Group("Drums".to_string()));
    let added = drop_sample_file(&mut zones, &mut groups, &selected, 10, 64, 1, "snare.wav".to_string());
    assert!(added);
    assert_eq!(zones.len(), 3);
    assert_eq!(ranges(&zones[2]), (10, 10, 0, 127));
    assert_eq!(zones[2].group, "Drums");
    assert_eq!(groups.len(), 2);
    assert_eq!(groups[1].name, "Drums");
}

#[test]
fn range_fields_keep_the_zone_in_order() {
    let mut z = zone("a", 40, 50, 10, 100, "g");
    assert!(set_zone_range_value(&mut z, ZoneEditField::StartNote, 70));
    assert_eq!(ranges(&z), (50, 50, 10, 100));
    assert!(set_zone_range_value(&mut z, ZoneEditField::StartNote, 20));
    assert_eq!(ranges(&z), (20, 50, 10, 100));
    assert!(set_zone_range_value(&mut z, ZoneEditField::EndNote, 200));
    assert_eq!(ranges(&z), (20, 127, 10, 100));
    assert!(set_zone_range_value(&mut z, ZoneEditField::EndNote, 5));
    assert_eq!(ranges(&z), (20, 20, 10, 100));
    assert!(set_zone_range_value(&mut z, ZoneEditField::VelLow, 300));
    assert_eq!(ranges(&z), (20, 20, 100, 100));
    assert!(set_zone_range_value(&mut z, ZoneEditField::VelLow, 0));
    assert!(set_zone_range_value(&mut z, ZoneEditField::VelHigh, 200));
    assert_eq!(ranges(&z), (20, 20, 0, 127));
    assert!(set_zone_range_value(&mut z, ZoneEditField::RootKey, 1000));
    assert_eq!(z.root_key, 127);
    assert!(!set_zone_range_value(&mut z, ZoneEditField::GainDb, 3));
    assert_eq!(ranges(&z), (20, 20, 0, 127));
}

#[test]
fn fade_fields_start_from_the_zone_edge() {
    let mut z = zone("a", 40, 50, 10, 100, "g");
    assert!(set_zone_range_value(&mut z, ZoneEditField::KeyFadeInHigh, 45));
    assert_eq!(z.key_fade_in, Some((40, 45)));
    assert_eq!(z.key_fade_low, 5);
    assert!(set_zone_range_value(&mut z, ZoneEditField::KeyFadeInLow, 47));
    assert_eq!(z.key_fade_in, Some((45, 47)));
    assert_eq!(z.key_fade_low, 2);
    assert!(set_zone_range_value(&mut z, ZoneEditField::KeyFadeOutLow, 44));
    assert_eq!(z.key_fade_out, Some((44, 50)));
    assert!(set_zone_range_value(&mut z, ZoneEditField::VelFadeInHigh, 500));
    assert_eq!(z.vel_fade_in, Some((10, 127)));
    assert!(set_zone_range_value(&mut z, ZoneEditField::VelFadeOutLow, 90));
    assert_eq!(z.vel_fade_out, Some((90, 100)));
    assert!(set_zone_range_value(&mut z, ZoneEditField::VelFadeOutHigh, 95));
    assert_eq!(z.vel_fade_out, Some((90, 95)));
    assert_eq!(z.vel_fade_high, 5);
    assert_eq!(z.key_fade_high, 6);
    assert_eq!(z.vel_fade_low, 117);
}

fn names(zones: &[SampleZone]) -> Vec<String> {
    zones.iter().map(|z| z.name.clone()).collect()
}

#[test]
fn creating_list_items_selects_them_and_can_be_undone() {
    let mut zones = vec![zone("a", 40, 50, 0, 127, "Keys")];
    let mut groups = vec![SampleGroup::new("Keys".to_string()), SampleGroup::new("New Group".to_string())];
    let mut history: Vec<Vec<SampleZone>> = Vec::new();

    let sel = create_zone_list_item(&mut zones, &mut groups, &mut history, &None, ZoneCreateKind::Group);
    assert_eq!(sel, ZoneListSelection::Group("New Group 2".to_string()));
    assert_eq!(groups.len(), 3);
    assert_eq!(groups[2].name, "New Group 2");
    assert_eq!(history.len(), 1);

    let selected = Some(ZoneListSelection::Zone(0));
    let sel = create_zone_list_item(&mut zones, &mut groups, &mut history, &selected, ZoneCreateKind::Zone);
    assert_eq!(sel, ZoneListSelection::Zone(1));
    assert_eq!(names(&zones), vec!["a".to_string(), "New Zone".to_string()]);
    assert_eq!(ranges(&zones[1]), (60, 60, 0, 127));
    assert_eq!(zones[1].group, "Keys");
    assert_eq!(groups.len(), 3);
    assert_eq!(history.len(), 2);

    assert!(undo_zone_edit(&mut zones, &mut history));
    assert_eq!(names(&zones), vec!["a".to_string()]);
    assert!(undo_zone_edit(&mut zones, &mut history));
    assert_eq!(names(&zones), vec!["a".to_string()]);
    assert!(!undo_zone_edit(&mut zones, &mut history));
    assert_eq!(names(&zones), vec!["a".to_string()]);
}

#[test]
fn deleting_a_group_deletes_its_zones() {
    let mut zones = vec![
        zone("a", 40, 50, 0, 127, "Keys"),
        zone("b", 40, 50, 0, 127, "Drums"),
        zone("c", 40, 50, 0, 127, "Keys"),
    ];
    let mut groups = vec![SampleGroup::new("Keys".to_string()), SampleGroup::new("Drums".to_string())];
    let mut history: Vec<Vec<SampleZone>> = Vec::new();
    delete_zone_list_selection(&mut zones, &mut groups, &mut history, ZoneListSelection::Group("Keys".to_string()));
    assert_eq!(names(&zones), vec!["b".to_string()]);
    assert_eq!(groups.len(), 1);
    assert_eq!(groups[0].name, "Drums");
    delete_zone_list_selection(&mut zones, &mut groups, &mut history, ZoneListSelection::Zone(5));
    assert_eq!(names(&zones), vec!["b".to_string()]);
    delete_zone_list_selection(&mut zones, &mut groups, &mut history, ZoneListSelection::Zone(0));
    assert!(zones.is_empty());
    assert_eq!(history.len(), 3);
    assert!(undo_zone_edit(&mut zones, &mut history));
    assert_eq!(names(&zones), vec!["b".to_string()]);
    assert!(undo_zone_edit(&mut zones, &mut history));
    assert!(undo_zone_edit(&mut zones, &mut history));
    assert_eq!(names(&zones), vec!["a".to_string(), "b".to_string(), "c".to_string()]);
    assert_eq!(zones[1].group, "Drums");
}

#[test]
fn moving_and_renaming_zones() {
    let mut zones = vec![zone("a", 40, 50, 0, 127, "Keys")];
    let mut history: Vec<Vec<SampleZone>> = Vec::new();
    assert!(!move_zone_to_group(&mut zones, &mut history, 0, "Keys".to_string()));
    assert!(!move_zone_to_group(&mut zones, &mut history, 3, "Pads".to_string()));
    assert!(history.is_empty());
    assert!(move_zone_to_group(&mut zones, &mut history, 0, "Pads".to_string()));
    assert_eq!(zones[0].group, "Pads");
    assert_eq!(history.len(), 1);
    assert!(rename_zone(&mut zones, 0, "Lead".to_string()));
    assert!(!rename_zone(&mut zones, 1, "x".to_string()));
    assert_eq!(zones[0].name, "Lead");
    assert!(undo_zone_edit(&mut zones, &mut history));
    assert_eq!(zones[0].group, "Keys");
    assert_eq!(zones[0].name, "a");
}

#[test]
fn copied_zones_keep_every_entry() {
    let mut z = zone("a", 40, 50, 3, 90, "Keys");
    z.files = vec!["x.wav".to_string(), "y.wav".to_string()];
    z.key_fade_in = Some((1, 2));
    let copy = copy_zones(&[z]);
    assert_eq!(copy.len(), 1);
    assert_eq!(copy[0].files, vec!["x.wav".to_string(), "y.wav".to_string()]);
    assert_eq!(copy[0].key_fade_in, Some((1, 2)));
    assert_eq!(ranges(&copy[0]), (40, 50, 3, 90));
    assert_eq!(copy[0].group, "Keys");
}

#[test]
fn extra_opcode_text_follows_the_selection() {
    let mut groups = vec![SampleGroup::new("Keys".to_string()), SampleGroup::new("Keys".to_string())];
    let mut zones = vec![zone("a", 40, 50, 0, 127, "Keys")];
    assert_eq!(find_group(&groups, "Keys"), Some(0));
    assert_eq!(find_group(&groups, "Pads"), None);
    assert!(set_group_extra_sfz(&mut groups, "Keys", "amp_random=2  bogus  xf_cccurve=gain"));
    assert_eq!(
        groups[0].extra_sfz_opcodes,
        vec![
            ("amp_random".to_string(), "2".to_string()),
            ("xf_cccurve".to_string(), "gain".to_string())
        ]
    );
    assert!(groups[1].extra_sfz_opcodes.is_empty());
    assert!(!set_group_extra_sfz(&mut groups, "Pads", "amp_random=1"));
    assert!(set_zone_extra_sfz(&mut zones, 0, "pitch_random=5"));
    assert!(!set_zone_extra_sfz(&mut zones, 1, "pitch_random=5"));
    assert_eq!(
        zones[0].extra_sfz_opcodes,
        vec![("pitch_random".to_string(), "5".to_string())]
    );
    let group_sel = ZoneListSelection::Group("Keys".to_string());
    assert_eq!(
        selection_extra_opcode_text(&groups, &zones, &group_sel),
        "amp_random=2 xf_cccurve=gain"
    );
    assert_eq!(
        selection_extra_opcode_text(&groups, &zones, &ZoneListSelection::Zone(0)),
        "pitch_random=5"
    );
    assert_eq!(selection_extra_opcode_text(&groups, &zones, &ZoneListSelection::Zone(4)), "");
    let missing = ZoneListSelection::Group("Pads".to_string());
    assert_eq!(selection_extra_opcode_text(&groups, &zones, &missing), "");
}

#[test]
fn group_values_are_held_to_their_ranges() {
    let mut groups = vec![SampleGroup::new("Keys".to_string()), SampleGroup::new("Pads".to_string())];
    assert!(set_group_value(&mut groups, "Pads", GroupEditField::PolyLimit, -3));
    assert_eq!(groups[1].poly_limit, 0);
    assert!(set_group_value(&mut groups, "Pads", GroupEditField::PolyLimit, 16));
    assert_eq!(groups[1].poly_limit, 16);
    assert!(set_group_value(&mut groups, "Pads", GroupEditField::ExclusiveGroup, 300));
    assert_eq!(groups[1].exclusive_group, 255);
    assert!(set_group_value(&mut groups, "Pads", GroupEditField::Output, 40));
    assert_eq!(groups[1].output, 31);
    assert!(set_group_value(&mut groups, "Pads", GroupEditField::SwLast, 36));
    assert_eq!(groups[1].sw_last, Some(36));
    assert!(set_group_value(&mut groups, "Pads", GroupEditField::SwLast, 128));
    assert_eq!(groups[1].sw_last, None);
    assert!(set_group_value(&mut groups, "Pads", GroupEditField::SwDefault, 0));
    assert_eq!(groups[1].sw_default, Some(0));
    assert!(!set_group_value(&mut groups, "Pads", GroupEditField::GainDb, 3));
    assert!(!set_group_value(&mut groups, "Drums", GroupEditField::Output, 3));
    assert_eq!(groups[0].output, 0);
    assert_eq!(groups[0].poly_limit, 0);
}

#[test]
fn keyswitch_label_is_cleared_by_empty_text() {
    let mut groups = vec![SampleGroup::new("Keys".to_string())];
    assert!(set_group_sw_label(&mut groups, "Keys", "Legato".to_string()));
    assert_eq!(groups[0].sw_label, Some("Legato".to_string()));
    assert!(set_group_sw_label(&mut groups, "Keys", String::new()));
    assert_eq!(groups[0].sw_label, None);
    assert!(!set_group_sw_label(&mut groups, "Pads", "x".to_string()));
}

#[test]
fn controller_conditions_take_the_first_free_controller() {
    let mut z = zone("a", 40, 50, 0, 127, "g");
    add_cc_condition(&mut z);
    add_cc_condition(&mut z);
    assert_eq!(
        z.cc_conditions,
        vec![CcCondition { cc: 0, low: 1, high: 127 }, CcCondition { cc: 1, low: 1, high: 127 }]
    );
    assert!(remove_cc_condition(&mut z, 0));
    assert!(!remove_cc_condition(&mut z, 5));
    add_cc_condition(&mut z);
    assert_eq!(z.cc_conditions[1].cc, 0);
    let mut full = zone("f", 0, 0, 0, 0, "g");
    for _ in 0..128 {
        add_cc_condition(&mut full);
    }
    add_cc_condition(&mut full);
    assert_eq!(full.cc_conditions[127].cc, 127);
    assert_eq!(full.cc_conditions[128].cc, 0);
}

#[test]
fn controller_condition_ends_stay_in_order() {
    let mut z = zone("a", 40, 50, 0, 127, "g");
    add_cc_condition(&mut z);
    assert!(set_cc_condition_cc(&mut z, 0, 300));
    assert_eq!(z.cc_conditions[0].cc, 127);
    assert!(set_cc_condition_high(&mut z, 0, 40));
    assert!(set_cc_condition_low(&mut z, 0, 60));
    assert_eq!(z.cc_conditions[0], CcCondition { cc: 127, low: 40, high: 40 });
    assert!(set_cc_condition_low(&mut z, 0, 10));
    assert!(set_cc_condition_high(&mut z, 0, 5));
    assert_eq!(z.cc_conditions[0], CcCondition { cc: 127, low: 10, high: 10 });
    assert!(!set_cc_condition_low(&mut z, 1, 10));
}
