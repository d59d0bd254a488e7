use maolan_sampler::group::{Group, Zone};
use maolan_sampler::sfz_build::{build_group_zones, build_groups, build_region_zone};
use maolan_sampler::sfz_layout::{layout_of_text, RegionLayout, SfzLayout};
use maolan_sampler::sfz_opcode_map::OpcodeMap;
use maolan_sampler::sfz_region::{FadeOpcodes, GroupOpcodes, PlaybackOpcodes, RegionMapping};
use maolan_sampler::sfz_values::{boolean_word, parse_note_name};
use maolan_sampler::zone_conditions::cc_conditions;
use maolan_sampler::zone_modes::{LoopDirection, LoopMode, OffMode, SamplePlayMode};

enum Value {
    Int(i32),
    Float(f64),
    Bool(bool),
    Text,
}

fn value_of(opcodes: &OpcodeMap, key: &str) -> Option<Value> {
    let v = opcodes.get_str(key)?;
    let t = v.trim();
    if t.is_empty() {
        return Some(Value::Text);
    }
    if let Some(b) = boolean_word(&t.to_lowercase()) {
        return Some(Value::Bool(b));
    }
    if let Some(n) = parse_note_name(t) {
        return Some(Value::Int(n as i32));
    }
    if let Ok(i) = t.parse::<i32>() {
        return Some(Value::Int(i));
    }
    if let Ok(f) = t.parse::<f64>() {
        return Some(Value::Float(f));
    }
    Some(Value::Text)
}

fn int_of(opcodes: &OpcodeMap, key: &str) -> Option<i32> {
    match value_of(opcodes, key)? {
        Value::Int(i) => Some(i),
        Value::Float(f) => Some(f.round() as i32),
        _ => None,
    }
}

fn note_of(opcodes: &OpcodeMap, key: &str) -> Option<u8> {
    match value_of(opcodes, key)? {
        Value::Int(i) => Some(i.clamp(0, 127) as u8),
        Value::Float(f) => Some(f.round().clamp(0.0, 127.0) as u8),
        _ => None,
    }
}

fn bool_of(opcodes: &OpcodeMap, key: &str) -> Option<bool> {
    match value_of(opcodes, key)? {
        Value::Bool(b) => Some(b),
        Value::Int(0) => Some(false),
        Value::Int(i) if i > 0 => Some(true),
        _ => None,
    }
}

fn fade_of(opcodes: &OpcodeMap, low: &str, high: &str) -> FadeOpcodes {
    FadeOpcodes {
        given: opcodes.get_str(low).is_some() || opcodes.get_str(high).is_some(),
        low: int_of(opcodes, low),
        high: int_of(opcodes, high),
    }
}

/// A region's opcodes read as the instrument loader reads them.
fn mapping_of(o: &OpcodeMap) -> RegionMapping {
    let lows: Vec<Option<i32>> = (0..128).map(|cc| int_of(o, &format!("locc{cc}"))).collect();
    let highs: Vec<Option<i32>> = (0..128).map(|cc| int_of(o, &format!("hicc{cc}"))).collect();
    RegionMapping {
        key: note_of(o, "key"),
        lokey: note_of(o, "lokey"),
        hikey: note_of(o, "hikey"),
        pitch_keycenter: note_of(o, "pitch_keycenter"),
        lovel: int_of(o, "lovel"),
        hivel: int_of(o, "hivel"),
        velcurve: o.get_str("velcurve"),
        lochan: int_of(o, "lochan"),
        hichan: int_of(o, "hichan"),
        lobend: int_of(o, "lobend"),
        hibend: int_of(o, "hibend"),
        cc_conditions: cc_conditions(&lows, &highs),
        xfin_key: fade_of(o, "xfin_lokey", "xfin_hikey"),
        xfout_key: fade_of(o, "xfout_lokey", "xfout_hikey"),
        xfin_vel: fade_of(o, "xfin_lovel", "xfin_hivel"),
        xfout_vel: fade_of(o, "xfout_lovel", "xfout_hivel"),
        playback: PlaybackOpcodes {
            output: int_of(o, "output"),
            offset: int_of(o, "offset"),
            offset_random: int_of(o, "offset_random"),
            end: int_of(o, "end"),
            count: int_of(o, "count"),
            direction: o.get_str("direction"),
            trigger: o.get_str("trigger"),
            loop_mode_flag: bool_of(o, "loop_mode"),
            loop_mode: o.get_str("loop_mode"),
            loop_start: int_of(o, "loop_start"),
            loop_end: int_of(o, "loop_end"),
            loop_crossfade: int_of(o, "loop_crossfade"),
            loop_count: int_of(o, "loop_count"),
            loop_direction: o.get_str("loop_direction"),
            seq_length: int_of(o, "seq_length"),
            seq_position: int_of(o, "seq_position"),
            off_by: int_of(o, "off_by"),
            off_mode: o.get_str("off_mode"),
        },
    }
}

/// A group's opcodes read as the instrument loader reads them.
fn group_opcodes_of(o: &OpcodeMap) -> GroupOpcodes {
    GroupOpcodes {
        sw_last: note_of(o, "sw_last"),
        sw_down: note_of(o, "sw_down"),
        sw_up: note_of(o, "sw_up"),
        sw_previous: note_of(o, "sw_previous"),
        sw_lolast: note_of(o, "sw_lolast"),
        sw_hilast: note_of(o, "sw_hilast"),
        sw_default: note_of(o, "sw_default"),
        sw_label: o.get_str("sw_label"),
        polyphony: int_of(o, "polyphony"),
        group: int_of(o, "group"),
        output: int_of(o, "output"),
    }
}

fn groups_of(text: &str, base_dir: &str) -> Vec<Group> {
    let layout: SfzLayout = layout_of_text(text);
    let empty = OpcodeMap::new();
    let settings: Vec<GroupOpcodes> =
        layout.groups.iter().map(|g| group_opcodes_of(g.opcodes.as_ref().unwrap_or(&empty))).collect();
    let mappings: Vec<Vec<RegionMapping>> = layout
        .groups
        .iter()
        .map(|g| g.regions.iter().map(|r| mapping_of(&r.opcodes)).collect())
        .collect();
    build_groups(&layout, &settings, &mappings, base_dir)
}

fn opcodes(pairs: &[(&str, &str)]) -> OpcodeMap {
    let mut m = OpcodeMap::new();
    for (k, v) in pairs {
        m.insert_str(k, v);
    }
    m
}

fn zone_of(pairs: &[(&str, &str)], base_dir: &str) -> Option<Zone> {
    let ops = opcodes(pairs);
    build_region_zone(&ops, &mapping_of(&ops), base_dir)
}

#[test]
fn test_parse_sfz_silence_samples() {
    let text = r#"
<group>
<region> sample=* key=60
<region> sample=*silence key=61
<region> sample=kick.wav key=62
"#;
    let groups = groups_of(text, "/tmp");
    let zones = &groups[0].zones;
    assert_eq!(zones.len(), 2, "* should be skipped, *silence and real sample kept");
    assert!(zones[0].files.is_empty(), "*silence zone should have no sample file");
    assert_eq!(zones[0].key_low, 61);
    assert_eq!(zones[1].files.len(), 1);
    assert!(zones[1].files[0].ends_with("kick.wav"));
    assert_eq!(zones[1].key_low, 62);
}

#[test]
fn sample_file_is_found_in_the_instrument_folder() {
    let z = zone_of(&[("sample", "kick.wav"), ("key", "36")], "/tmp").unwrap();
    assert_eq!(z.name, "kick.wav");
    assert_eq!(z.files, vec![String::from("/tmp/kick.wav")]);
    assert_eq!((z.key_low, z.key_high, z.root_key), (36, 36, 36));
}

#[test]
fn sample_file_goes_through_default_path() {
    let z = zone_of(&[("sample", "kick.wav"), ("default_path", "Samples/")], "/tmp/kit").unwrap();
    assert_eq!(z.files, vec![String::from("/tmp/kit/Samples/kick.wav")]);
    let z = zone_of(&[("sample", "drums/snare.wav"), ("default_path", "Samples")], "/tmp/kit").unwrap();
    assert_eq!(z.files, vec![String::from("/tmp/kit/Samples/drums/snare.wav")]);
}

#[test]
fn absolute_sample_replaces_the_folder() {
    let z = zone_of(&[("sample", "/data/kick.wav")], "/tmp").unwrap();
    assert_eq!(z.files, vec![String::from("/data/kick.wav")]);
}

#[test]
fn region_without_sample_makes_no_zone() {
    assert!(zone_of(&[("key", "60")], "/tmp").is_none());
    assert!(zone_of(&[("sample", "")], "/tmp").is_none());
    assert!(zone_of(&[("sample", "*")], "/tmp").is_none());
}

#[test]
fn silence_in_any_case_has_no_file() {
    let z = zone_of(&[("sample", "*SILENCE")], "/tmp").unwrap();
    assert_eq!(z.name, "*silence");
    assert!(z.files.is_empty());
}

#[test]
fn untouched_zone_is_neutral() {
    let z = zone_of(&[("sample", "a.wav")], "").unwrap();
    assert_eq!(z.files, vec![String::from("a.wav")]);
    assert_eq!((z.key_low, z.key_high, z.root_key), (0, 127, 60));
    assert_eq!((z.vel_low, z.vel_high), (0, 127));
    assert_eq!((z.channel_low, z.channel_high), (1, 16));
    assert_eq!((z.pitch_bend_low, z.pitch_bend_high), (-8192, 8192));
    assert!(z.extra_sfz_opcodes.is_empty());
}

#[test]
fn region_keeps_its_extra_opcodes() {
    let z = zone_of(&[("sample", "a.wav"), ("zz_custom", "1"), ("key", "60"), ("aa_custom", "x")], "/tmp").unwrap();
    assert_eq!(
        z.extra_sfz_opcodes,
        vec![
            (String::from("aa_custom"), String::from("x")),
            (String::from("zz_custom"), String::from("1"))
        ]
    );
}

#[test]
fn global_keeps_the_group_being_built_with_its_regions() {
    let text = "<group>\n<region> sample=a.wav key=60\n<global>\n<group>\n<region> sample=b.wav key=61\n";
    let groups = groups_of(text, "/tmp");
    assert_eq!(groups.len(), 2);
    assert_eq!(groups[0].zones.len(), 1);
    assert_eq!(groups[0].zones[0].key_low, 60);
    assert_eq!(groups[1].zones.len(), 1);
    assert_eq!(groups[1].zones[0].key_low, 61);
}

#[test]
fn zones_follow_the_order_of_regions() {
    let regions = vec![
        RegionLayout { opcodes: opcodes(&[("sample", "b.wav")]), curves_before: 0 },
        RegionLayout { opcodes: opcodes(&[("sample", "*")]), curves_before: 0 },
        RegionLayout { opcodes: opcodes(&[("sample", "a.wav")]), curves_before: 0 },
    ];
    let mappings: Vec<RegionMapping> = regions.iter().map(|r| mapping_of(&r.opcodes)).collect();
    let zones = build_group_zones(&regions, &mappings, "/tmp");
    let names: Vec<&str> = zones.iter().map(|z| z.name.as_str()).collect();
    assert_eq!(names, vec!["b.wav", "a.wav"]);
}

#[test]
fn test_parse_sfz_keyswitches() {
    let text = r#"
<group> sw_last=24 sw_label=Sustain polyphony=4
<region> sample=silent.wav key=60
<group> sw_down=25 sw_default=25 sw_previous=50
<region> sample=silent.wav key=62 bend_up=1200 bend_down=1200 keytracking=50
<group> sw_lolast=36 sw_hilast=38
<region> sample=silent.wav key=64
"#;
    let groups = groups_of(text, "/tmp");
    assert_eq!(groups.len(), 3);

    let group_a = &groups[0];
    assert_eq!(group_a.sw_last, Some(24));
    assert_eq!(group_a.sw_label.as_deref(), Some("Sustain"));
    assert_eq!(group_a.poly_limit, 4);

    let group_b = &groups[1];
    assert_eq!(group_b.sw_down, Some(25));
    assert_eq!(group_b.sw_default, Some(25));
    assert_eq!(group_b.sw_previous, Some(50));

    let group_c = &groups[2];
    assert_eq!(group_c.sw_lolast, Some(36));
    assert_eq!(group_c.sw_hilast, Some(38));
}

#[test]
fn test_parse_sfz_note_names() {
    let text = r#"
<region> sample=silent.wav key=c4 lokey=Db3 hikey=F#5 pitch_keycenter=G4
"#;
    let groups = groups_of(text, "/tmp");
    let zone = &groups[0].zones[0];
    assert_eq!(zone.key_low, 49); // Db3
    assert_eq!(zone.key_high, 78); // F#5
    assert_eq!(zone.root_key, 67); // G4
}

#[test]
fn test_parse_sfz_loop_modes() {
    let text = r#"
<region> sample=silent.wav key=60 loop_mode=loop_continuous loop_start=100 loop_end=1000 loop_direction=alternate
"#;
    let groups = groups_of(text, "/tmp");
    let zone = &groups[0].zones[0];
    assert_eq!(zone.playback.loop_mode, LoopMode::DuringVoice);
    assert_eq!(zone.playback.loop_start, 100);
    assert_eq!(zone.playback.loop_end, 1000);
    assert_eq!(zone.playback.loop_direction, LoopDirection::Alternate);
}

#[test]
fn test_parse_sfz_one_shot() {
    let text = r#"
<region> sample=silent.wav key=60 loop_mode=one_shot
"#;
    let groups = groups_of(text, "/tmp");
    let zone = &groups[0].zones[0];
    assert_eq!(zone.playback.play_mode, SamplePlayMode::OneShot);
}

#[test]
fn test_parse_preserves_non_vendor_extra_opcodes() {
    let text = r#"
<group> off_by=7 script=ignored.as delay=0.1
<region> sample=silent.wav key=60 locc1=10 hicc1=90 hint_foo=bar
"#;
    let groups = groups_of(text, "/tmp");
    let group = &groups[0];
    assert!(group.extra_sfz_opcodes.contains(&(String::from("off_by"), String::from("7"))));
    assert!(group.extra_sfz_opcodes.contains(&(String::from("delay"), String::from("0.1"))));
    assert!(!group.extra_sfz_opcodes.iter().any(|(key, _)| key == "script"));

    let zone = &group.zones[0];
    assert_eq!(zone.cc_conditions.len(), 1);
    assert_eq!(zone.cc_conditions[0].cc, 1);
    assert_eq!(zone.cc_conditions[0].low, 10);
    assert_eq!(zone.cc_conditions[0].high, 90);
    assert!(!zone.extra_sfz_opcodes.iter().any(|(key, _)| key == "hint_foo"));
}

#[test]
fn test_parse_zone_count_off_mode_trigger_first_legato() {
    let text = r#"
<region> sample=silent.wav key=60 count=3 off_mode=normal trigger=first
<region> sample=silent.wav key=62 count=2 off_mode=fast trigger=legato
"#;
    let groups = groups_of(text, "/tmp");
    let zones = &groups[0].zones;
    assert_eq!(zones[0].playback.count, 3);
    assert_eq!(zones[0].playback.off_mode, OffMode::Normal);
    assert_eq!(zones[0].playback.play_mode, SamplePlayMode::First);
    assert_eq!(zones[1].playback.count, 2);
    assert_eq!(zones[1].playback.off_mode, OffMode::Fast);
    assert_eq!(zones[1].playback.play_mode, SamplePlayMode::Legato);
}
