use maolan_sampler::browser::{arrange_browser_entries, BrowserEntryKind, DirEntryInfo};
use maolan_sampler::ariax::{ariax_slot_entries, ariax_slots_from_events, XmlEvent, XmlTag};
use maolan_sampler::editor_sync::{build_groups_from_patch, build_zones_from_patch, normalize_groups};
use maolan_sampler::file_kinds::{
    detect_format, format_for_extension, has_audio_extension, is_audio_extension,
    is_instrument_file, path_display, InstrumentFormat,
};
use maolan_sampler::group::{Group, Part, Patch, Zone};
use maolan_sampler::load_status::{load_status_message, SamplerLoadStatus};
use maolan_sampler::note_names::build_note_names;
use maolan_sampler::sfz_values::{boolean_word, note_name_in_range, parse_i32, parse_note_name};
use maolan_sampler::zones::{SampleGroup, SampleZone};
use maolan_sampler::zone_conditions::CcCondition;
use maolan_sampler::zone_modes::{CurveType, ZonePlayback};

#[test]
fn test_detect_format_sfz() {
    assert_eq!(detect_format("/tmp/kick.sfz"), Some(InstrumentFormat::Sfz));
}

#[test]
fn test_detect_format_sf2() {
    assert_eq!(detect_format("/tmp/piano.SF2"), Some(InstrumentFormat::Sf2));
}

#[test]
fn test_detect_format_unknown() {
    assert_eq!(detect_format("/tmp/kick.wav"), None);
}

#[test]
fn formats_and_audio_extensions() {
    assert_eq!(format_for_extension(Some("ariax")), Some(InstrumentFormat::Ariax));
    assert_eq!(format_for_extension(Some("ARIAX")), Some(InstrumentFormat::Ariax));
    assert_eq!(format_for_extension(Some("Sfz")), None);
    assert_eq!(format_for_extension(None), None);
    assert!(is_instrument_file("presets/strings.ariax"));
    assert!(!is_instrument_file("noext"));
    assert!(is_audio_extension(Some("WAV")));
    assert!(is_audio_extension(Some("m4a")));
    assert!(!is_audio_extension(Some("txt")));
    assert!(!is_audio_extension(None));
    assert!(has_audio_extension("/samples/Kick.FLAC"));
    assert!(!has_audio_extension("/samples/readme"));
}

#[test]
fn test_opcode_value_note_names_by_name() {
    for (text, note) in [("c4", 60), ("C#4", 61), ("Db5", 73), ("F#3", 54), ("g-1", 7)] {
        assert!(note_name_in_range(text));
        assert_eq!(parse_note_name(text), Some(note));
    }
}

#[test]
fn note_names_edge_cases() {
    assert_eq!(parse_note_name("b4"), Some(71));
    assert_eq!(parse_note_name("bb4"), Some(70));
    assert_eq!(parse_note_name("bb"), None);
    assert_eq!(parse_note_name("cs3"), Some(49));
    assert_eq!(parse_note_name("h4"), None);
    assert_eq!(parse_note_name("60"), None);
    assert_eq!(parse_note_name("g9"), Some(127));
    assert_eq!(parse_note_name("a9"), None);
    assert_eq!(parse_note_name("c-2"), None);
    assert_eq!(parse_note_name("c+4"), Some(60));
    assert!(!note_name_in_range("c999999999"));
    assert!(note_name_in_range("c99999999999"));
    assert_eq!(parse_note_name("c99999999999"), None);
}

#[test]
fn boolean_words_and_integers() {
    assert_eq!(boolean_word("on"), Some(true));
    assert_eq!(boolean_word("yes"), Some(true));
    assert_eq!(boolean_word("false"), Some(false));
    assert_eq!(boolean_word("maybe"), None);
    let chars = |s: &str| s.chars().collect::<Vec<char>>();
    assert_eq!(parse_i32(&chars("-12")), Some(-12));
    assert_eq!(parse_i32(&chars("+7")), Some(7));
    assert_eq!(parse_i32(&chars("2147483647")), Some(i32::MAX));
    assert_eq!(parse_i32(&chars("-2147483648")), Some(i32::MIN));
    assert_eq!(parse_i32(&chars("2147483648")), None);
    assert_eq!(parse_i32(&chars("1.5")), None);
    assert_eq!(parse_i32(&chars("")), None);
    assert_eq!(parse_i32(&chars("-")), None);
}

fn basic_zone(name: &str, start: usize, end: usize, group: &str) -> SampleZone {
    SampleZone::new_basic(name.to_string(), Vec::new(), start, end, 0, 127, group.to_string())
}

#[test]
fn build_note_names_publishes_group_names_per_note() {
    let zones = vec![
        SampleZone::new_basic(
            String::from("Kick sample"),
            Vec::new(),
            36,
            36,
            0,
            127,
            String::from("Kick"),
        ),
        SampleZone::new_basic(
            String::from("Snare sample"),
            Vec::new(),
            38,
            38,
            0,
            127,
            String::from("Snare"),
        ),
        SampleZone::new_basic(
            String::new(),
            Vec::new(),
            42,
            42,
            0,
            127,
            String::from("Hats"),
        ),
    ];
    let names = build_note_names(&zones);
    assert_eq!(names.len(), 3);
    assert!(names.contains(&(36, "Kick".to_string())));
    assert!(names.contains(&(38, "Snare".to_string())));
    assert!(names.contains(&(42, "Hats".to_string())));
}

#[test]
fn note_names_join_and_order() {
    let zones = vec![
        basic_zone("a", 62, 60, "Pad"),
        basic_zone("b", 61, 61, "Lead"),
        basic_zone("c", 61, 61, "Pad"),
        basic_zone("d", 200, 130, ""),
        basic_zone("", 10, 10, ""),
        basic_zone("e", 60, 60, " Lead "),
    ];
    let names = build_note_names(&zones);
    assert_eq!(
        names,
        vec![
            (60, "Pad /  Lead ".to_string()),
            (61, "Pad / Lead".to_string()),
            (62, "Pad".to_string()),
            (127, "d".to_string()),
        ]
    );
}

#[test]
fn status_messages() {
    assert_eq!(load_status_message(&SamplerLoadStatus::Empty), "No instrument loaded");
    assert_eq!(load_status_message(&SamplerLoadStatus::Parsing), "Parsing instrument");
    assert_eq!(
        load_status_message(&SamplerLoadStatus::LoadingSamples { loaded: 3, total: 10 }),
        "Loading samples 3/10"
    );
    assert_eq!(load_status_message(&SamplerLoadStatus::Resampling), "Resampling samples");
    assert_eq!(
        load_status_message(&SamplerLoadStatus::Ready {
            name: "Piano".to_string(),
            sample_count: 12,
            zone_count: 0
        }),
        "Ready: Piano (12 samples, 0 zones)"
    );
    assert_eq!(
        load_status_message(&SamplerLoadStatus::Error("boom".to_string())),
        "Error: boom"
    );
}

fn named_group(name: &str, poly: usize) -> Group {
    Group {
        name: name.to_string(),
        poly_limit: poly,
        ..Default::default()
    }
}

#[test]
fn groups_from_patch_keep_first_of_each_name() {
    let mut part_a = Part::default();
    part_a.groups = vec![named_group("Kick", 2), named_group("Snare", 0), named_group("Kick", 9)];
    let mut part_b = Part::default();
    part_b.groups = vec![named_group("Snare", 5), named_group("Hats", 1)];
    let patch = Patch { parts: vec![part_a, part_b] };
    let groups = build_groups_from_patch(&patch);
    let names: Vec<&str> = groups.iter().map(|g| g.name.as_str()).collect();
    assert_eq!(names, vec!["Kick", "Snare", "Hats"]);
    assert_eq!(groups[0].poly_limit, 2);
    assert_eq!(groups[2].poly_limit, 1);
}

#[test]
fn normalize_groups_drops_unnamed_and_adds_zone_groups() {
    let groups = vec![
        SampleGroup::new(String::new()),
        SampleGroup::new("Drums".to_string()),
    ];
    let zones = vec![basic_zone("a", 1, 1, "Drums"), basic_zone("b", 1, 1, "Keys"), basic_zone("c", 1, 1, "Keys")];
    let out = normalize_groups(groups, &zones);
    let names: Vec<&str> = out.iter().map(|g| g.name.as_str()).collect();
    assert_eq!(names, vec!["Drums", "Keys"]);
    let with_unnamed_zone = normalize_groups(Vec::new(), &[basic_zone("x", 1, 1, "")]);
    assert_eq!(with_unnamed_zone.len(), 1);
    assert_eq!(with_unnamed_zone[0].name, "");
}

fn tag(name: &str, attrs: &[(&str, &str)]) -> XmlTag {
    XmlTag {
        name: name.to_string(),
        attributes: attrs.iter().map(|(k, v)| (k.to_string(), v.to_string())).collect(),
    }
}

#[test]
fn ariax_slots_from_event_list() {
    let events = vec![
        XmlEvent::Start(tag("Preset", &[])),
        XmlEvent::Start(tag("Slot", &[("id", "0"), ("name", "Strings")])),
        XmlEvent::Empty(tag("Main", &[("id", "3"), ("value", "0")])),
        XmlEvent::Empty(tag("Main", &[("id", "40"), ("value", "1")])),
        XmlEvent::End("Slot".to_string()),
        XmlEvent::Start(tag("slot", &[("name", "Brass")])),
        XmlEvent::End("slot".to_string()),
        XmlEvent::Start(tag("Slot", &[("id", "2")])),
        XmlEvent::End("Slot".to_string()),
        XmlEvent::Other,
    ];
    let slots = ariax_slots_from_events(&events);
    assert_eq!(slots, vec![("Strings".to_string(), 31), ("Brass".to_string(), 0)]);
}

#[test]
fn ariax_xml_is_read_with_quick_xml() {
    let xml = r#"<?xml version="1.0"?>
<AriaPreset>
  <Slot name="Woodwinds/Flute">
    <Main id="2" value="1"/>
  </Slot>
  <Slot name="Piano"></Slot>
</AriaPreset>"#;
    let slots = ariax_slot_entries(xml).unwrap();
    assert_eq!(
        slots,
        vec![("Woodwinds/Flute".to_string(), 2), ("Piano".to_string(), 0)]
    );
    let err = ariax_slot_entries("<a></b>").unwrap_err();
    assert!(err.starts_with("parse .ariax: "));
}

#[test]
fn ariax_first_main_selects_the_bus() {
    let xml = "<Preset><Slot name='a'><Main id='2' value='1'/><Main id='5' value='1'/></Slot></Preset>";
    assert_eq!(ariax_slot_entries(xml).unwrap(), vec![("a".to_string(), 2)]);
    assert_eq!(ariax_slot_entries("").unwrap(), Vec::<(String, u8)>::new());
}

fn dsp_zone(name: &str, root: u8, keys: (u8, u8), vels: (u8, u8), files: Vec<String>) -> Zone {
    Zone {
        name: name.to_string(),
        files,
        key_low: keys.0,
        key_high: keys.1,
        vel_low: vels.0,
        vel_high: vels.1,
        root_key: root,
        key_fade_in: None,
        key_fade_out: Some((40, 42)),
        vel_fade_in: None,
        vel_fade_out: None,
        key_fade_low: 0,
        key_fade_high: 2,
        vel_fade_low: 0,
        vel_fade_high: 0,
        velocity_curve: CurveType::SCurve,
        channel_low: 2,
        channel_high: 16,
        pitch_bend_low: -8192,
        pitch_bend_high: 100,
        cc_conditions: vec![CcCondition { cc: 7, low: 20, high: 90 }],
        playback: ZonePlayback::new(),
        extra_sfz_opcodes: vec![("xfin_locc1".to_string(), "0".to_string())],
    }
}

#[test]
fn build_zones_from_patch_maps_dsp_zones_to_sample_zones() {
    let hard = dsp_zone("Kick Hard", 36, (36, 42), (100, 127), vec!["kick_hard.wav".to_string()]);
    let soft = dsp_zone("Kick Soft", 36, (36, 42), (0, 99), Vec::new());
    let mut part = Part::default();
    part.groups = vec![Group {
        name: String::from("Kick"),
        zones: vec![hard, soft],
        ..Default::default()
    }];
    let patch = Patch { parts: vec![part] };

    let zones = build_zones_from_patch(&patch);
    assert_eq!(zones.len(), 2);
    assert_eq!(zones[0].name, "Kick Hard");
    assert_eq!(zones[0].start_note, 36);
    assert_eq!(zones[0].end_note, 42);
    assert_eq!(zones[0].vel_low, 100);
    assert_eq!(zones[0].vel_high, 127);
    assert_eq!(zones[0].group, "Kick");
    assert_eq!(zones[0].files, vec!["kick_hard.wav".to_string()]);
    assert_eq!(zones[0].key_fade_out, Some((40, 42)));
    assert_eq!(zones[0].key_fade_high, 2);
    assert_eq!(zones[0].velocity_curve, CurveType::SCurve);
    assert_eq!((zones[0].channel_low, zones[0].pitch_bend_high), (2, 100));
    assert_eq!(zones[0].cc_conditions, vec![CcCondition { cc: 7, low: 20, high: 90 }]);
    assert_eq!(
        zones[0].extra_sfz_opcodes,
        vec![("xfin_locc1".to_string(), "0".to_string())]
    );
    assert!(zones[1].files.is_empty());
    assert_eq!(zones[1].name, "Kick Soft");
    assert_eq!(zones[1].vel_low, 0);
    assert_eq!(zones[1].vel_high, 99);
}

#[test]
fn patch_from_zones_groups_them_and_reads_back() {
    let mut drums = SampleGroup::new("Drums".to_string());
    drums.poly_limit = 4;
    let groups = vec![drums, SampleGroup::new("Drums".to_string()), SampleGroup::new("Empty".to_string())];
    let mut snare = basic_zone("snare", 38, 38, "Drums");
    snare.root_key = 38;
    snare.extra_sfz_opcodes = vec![("amp_random".to_string(), "2".to_string())];
    let zones = vec![
        basic_zone("kick", 36, 36, "Drums"),
        basic_zone("pad", 48, 72, "Pads"),
        snare,
        basic_zone("lead", 60, 84, "Leads"),
        basic_zone("pad2", 48, 72, "Pads"),
    ];
    let patch = maolan_sampler::editor_sync::build_patch_from_zones(&groups, &zones);
    assert_eq!(patch.parts.len(), 1);
    let names: Vec<&str> = patch.parts[0].groups.iter().map(|g| g.name.as_str()).collect();
    assert_eq!(names, vec!["Drums", "Drums", "Empty", "Pads", "Leads"]);
    let zone_names = |i: usize| -> Vec<String> {
        patch.parts[0].groups[i].zones.iter().map(|z| z.name.clone()).collect()
    };
    assert_eq!(zone_names(0), vec!["kick".to_string(), "snare".to_string()]);
    assert!(zone_names(1).is_empty());
    assert!(zone_names(2).is_empty());
    assert_eq!(zone_names(3), vec!["pad".to_string(), "pad2".to_string()]);
    assert_eq!(patch.parts[0].groups[0].poly_limit, 4);
    assert_eq!(
        patch.parts[0].groups[0].zones[1].extra_sfz_opcodes,
        vec![("amp_random".to_string(), "2".to_string())]
    );
    let back = build_zones_from_patch(&patch);
    assert_eq!(back.len(), zones.len());
    for z in &zones {
        assert!(back.iter().any(|b| b.name == z.name
            && b.group == z.group
            && b.start_note == z.start_note
            && b.end_note == z.end_note
            && b.root_key == z.root_key));
    }
}

fn entry(name: &str, is_dir: bool, is_audio: bool, is_instrument: bool) -> DirEntryInfo {
    DirEntryInfo { name: name.to_string(), is_dir, is_audio, is_instrument }
}

#[test]
fn browser_lists_directories_then_files_by_name() {
    let entries = vec![
        entry("zeta.wav", false, true, false),
        entry("Bass", true, false, false),
        entry("notes.txt", false, false, false),
        entry("alpha.sfz", false, false, true),
        entry("drums", true, false, false),
        entry("Alpha.sfz", false, false, true),
        entry("beta.WAV", false, true, false),
    ];
    let order = arrange_browser_entries(&entries);
    let names: Vec<(&str, BrowserEntryKind)> = order.iter().map(|(i, k)| (entries[*i].name.as_str(), *k)).collect();
    assert_eq!(
        names,
        vec![
            ("Bass", BrowserEntryKind::Directory),
            ("drums", BrowserEntryKind::Directory),
            ("alpha.sfz", BrowserEntryKind::Instrument),
            ("Alpha.sfz", BrowserEntryKind::Instrument),
            ("beta.WAV", BrowserEntryKind::Audio),
            ("zeta.wav", BrowserEntryKind::Audio),
        ]
    );
}

#[test]
fn hidden_file_and_trailing_separator_extensions() {
    assert_eq!(detect_format("/tmp/.sfz"), None);
    assert_eq!(detect_format(".sf2"), None);
    assert_eq!(detect_format("/tmp/kit.sfz/"), Some(InstrumentFormat::Sfz));
    assert!(has_audio_extension("drums/kick.WAV/"));
    assert!(!has_audio_extension("drums/.wav"));
}

#[test]
fn path_display_shows_the_file_name() {
    assert_eq!(path_display(None), "Instrument");
    assert_eq!(path_display(Some("")), "Instrument");
    assert_eq!(path_display(Some("/tmp/kits/piano.sfz")), "piano.sfz");
    assert_eq!(path_display(Some("drums/kit/")), "kit");
    assert_eq!(path_display(Some("/")), "Instrument");
    assert_eq!(path_display(Some("kit/..")), "Instrument");
}
