use maolan_sampler::group::{Group, Part, Zone};
use maolan_sampler::zone_conditions::CcCondition;

fn zone(name: &str, key_low: u8, key_high: u8) -> Zone {
    let mut z = Zone::default();
    z.name = String::from(name);
    z.key_low = key_low;
    z.key_high = key_high;
    z
}

fn group_of(zones: Vec<Zone>) -> Group {
    let mut g = Group::default();
    g.zones = zones;
    g
}

#[test]
fn channel_and_cc_conditions_gate_a_zone() {
    let mut z = zone("a", 0, 127);
    z.channel_low = 2;
    z.channel_high = 2;
    z.cc_conditions = vec![CcCondition { cc: 7, low: 64, high: 127 }];
    let mut cc = [0u8; 128];
    assert!(!z.contains_with_context(60, 100, 0, &cc, 0));
    assert!(!z.contains_with_context(60, 100, 1, &cc, 0));
    cc[7] = 100;
    assert!(z.contains_with_context(60, 100, 1, &cc, 0));
    assert!(!z.contains_with_context(60, 100, 0, &cc, 0));
}

#[test]
fn pitch_bend_range_gates_a_zone() {
    let mut z = zone("a", 0, 127);
    z.pitch_bend_low = 1000;
    z.pitch_bend_high = 8192;
    let cc = [0u8; 128];
    assert!(!z.contains_with_context(60, 100, 0, &cc, 0));
    assert!(z.contains_with_context(60, 100, 0, &cc, 2048));
}

#[test]
fn key_and_velocity_ranges_gate_a_zone() {
    let mut z = zone("a", 48, 59);
    z.vel_low = 10;
    z.vel_high = 90;
    let cc = [0u8; 128];
    assert!(z.contains_with_context(48, 10, 0, &cc, 0));
    assert!(z.contains_with_context(59, 90, 0, &cc, 0));
    assert!(!z.contains_with_context(60, 50, 0, &cc, 0));
    assert!(!z.contains_with_context(50, 91, 0, &cc, 0));
}

#[test]
fn group_gives_its_first_playing_zone() {
    let g = group_of(vec![zone("low", 0, 59), zone("mid", 48, 72), zone("wide", 0, 127)]);
    let cc = [0u8; 128];
    assert_eq!(g.find_zone(50, 100, 0, &cc, 0).map(|z| z.name.as_str()), Some("low"));
    assert_eq!(g.find_zone(65, 100, 0, &cc, 0).map(|z| z.name.as_str()), Some("mid"));
    assert_eq!(g.find_zone(100, 100, 0, &cc, 0).map(|z| z.name.as_str()), Some("wide"));
    let narrow = group_of(vec![zone("c4", 60, 60)]);
    assert!(narrow.find_zone(61, 100, 0, &cc, 0).is_none());
}

#[test]
fn part_skips_inactive_groups_and_groups_without_a_zone() {
    let mut gated = group_of(vec![zone("gated", 0, 127)]);
    gated.sw_down = Some(24);
    let high = group_of(vec![zone("high", 72, 127)]);
    let open = group_of(vec![zone("open", 0, 127)]);
    let mut part = Part::default();
    part.groups = vec![gated, high, open];
    let cc = [0u8; 128];
    let mut held = [false; 128];

    let found = part.find_zone(60, 100, 0, &cc, 0, &held).map(|(gi, _, z)| (gi, z.name.clone()));
    assert_eq!(found, Some((2, String::from("open"))));

    held[24] = true;
    let found = part.find_zone(60, 100, 0, &cc, 0, &held).map(|(gi, _, z)| (gi, z.name.clone()));
    assert_eq!(found, Some((0, String::from("gated"))));

    let empty = Part::default();
    assert!(empty.find_zone(60, 100, 0, &cc, 0, &held).is_none());
}

#[test]
fn untouched_zone_plays_every_note() {
    let z = Zone::default();
    let cc = [0u8; 128];
    for (note, velocity, channel, bend) in [(0u8, 0u8, 0u8, -8192i16), (127, 127, 15, 8192), (60, 64, 9, 0)] {
        assert!(z.contains_with_context(note, velocity, channel, &cc, bend));
    }
}
