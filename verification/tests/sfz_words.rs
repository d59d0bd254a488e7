use maolan_sampler::editor_options::{filter_type_options, ZoneListSelection};
use maolan_sampler::editor_sync::{group_for_new_zone, set_patch_output_bus};
use maolan_sampler::group::{Group, Part, Patch};
use maolan_sampler::mod_matrix::ModSource;
use maolan_sampler::sfz_directives::unquote_include_spec;
use maolan_sampler::sfz_names::{
    export_decay_release_shape, export_filter_type, export_lfo_sync, export_lfo_trigger,
    export_lfo_wave, parse_filter_type, parse_lfo_sync, parse_lfo_trigger, parse_lfo_wave,
    DecayReleaseShape, LfoShape, LfoSyncMode, LfoTriggerMode,
};
use maolan_sampler::editor_options::FilterType;
use maolan_sampler::zones::{SampleGroup, SampleZone};
use maolan_sampler::zone_conditions::{cc_conditions, u7_pair, CcCondition};

#[test]
fn filter_words_read_back() {
    for t in filter_type_options() {
        assert_eq!(parse_filter_type(export_filter_type(t)), t);
    }
    assert_eq!(parse_filter_type("LPF_4P"), FilterType::Lowpass);
    assert_eq!(parse_filter_type("hsh"), FilterType::HighShelf);
    assert_eq!(parse_filter_type("brf"), FilterType::Notch);
    assert_eq!(parse_filter_type("weird"), FilterType::Lowpass);
}

#[test]
fn lfo_words_read_back() {
    for shape in [
        LfoShape::Sine,
        LfoShape::Triangle,
        LfoShape::Saw,
        LfoShape::Ramp,
        LfoShape::Square,
        LfoShape::SampleHold,
        LfoShape::Noise,
        LfoShape::Envelope,
    ] {
        assert_eq!(parse_lfo_wave(export_lfo_wave(shape)), shape);
    }
    assert_eq!(parse_lfo_wave("Sawtooth"), LfoShape::Saw);
    assert_eq!(parse_lfo_wave("random"), LfoShape::SampleHold);
    for mode in [LfoTriggerMode::FreeRun, LfoTriggerMode::KeyTrigger, LfoTriggerMode::Random] {
        assert_eq!(parse_lfo_trigger(export_lfo_trigger(mode)), mode);
    }
    assert_eq!(parse_lfo_trigger("anything"), LfoTriggerMode::KeyTrigger);
    for mode in [LfoSyncMode::Free, LfoSyncMode::Tempo] {
        assert_eq!(parse_lfo_sync(export_lfo_sync(mode)), mode);
    }
    assert_eq!(parse_lfo_sync("HOST"), LfoSyncMode::Tempo);
    assert_eq!(export_decay_release_shape(DecayReleaseShape::Cubic), 2);
}

#[test]
fn mod_source_labels() {
    assert_eq!(ModSource::NoSource.label(), "None");
    assert_eq!(ModSource::SampleAndHold.label(), "S&H");
    assert_eq!(ModSource::Lfo3.label(), "LFO 3");
    assert_eq!(ModSource::Cc10Pan.label(), "Pan CC10");
}

#[test]
fn include_specs_are_unquoted() {
    assert_eq!(unquote_include_spec("  \"nested/region.sfz\" "), "nested/region.sfz");
    assert_eq!(unquote_include_spec("<a b.sfz>"), "a b.sfz");
    assert_eq!(unquote_include_spec("\""), "\"");
    assert_eq!(unquote_include_spec("plain.sfz"), "plain.sfz");
    assert_eq!(unquote_include_spec("\"mixed>"), "\"mixed>");
}

fn zone(group: &str) -> SampleZone {
    SampleZone::new_basic("z".to_string(), Vec::new(), 0, 0, 0, 0, group.to_string())
}

#[test]
fn new_zones_go_to_the_selected_group() {
    let groups = vec![SampleGroup::new("Kick".to_string()), SampleGroup::new("Snare".to_string())];
    let zones = vec![zone("Kick"), zone("")];
    let pick = |sel: Option<ZoneListSelection>, g: &[SampleGroup], z: &[SampleZone]| group_for_new_zone(&sel, g, z);
    assert_eq!(pick(Some(ZoneListSelection::Group("Hats".to_string())), &groups, &zones), "Hats");
    assert_eq!(pick(Some(ZoneListSelection::Zone(0)), &groups, &zones), "Kick");
    assert_eq!(pick(Some(ZoneListSelection::Zone(1)), &groups, &zones), "New Group");
    assert_eq!(pick(Some(ZoneListSelection::Zone(9)), &groups, &zones), "New Group");
    assert_eq!(pick(None, &groups, &zones), "Snare");
    assert_eq!(pick(None, &[], &zones), "New Group");
    assert_eq!(pick(None, &[], &[zone("Pads")]), "Pads");
    assert_eq!(pick(None, &[], &[]), "New Group");
}

#[test]
fn output_bus_applies_to_every_group() {
    let mut part = Part::default();
    part.groups = vec![Group::default(), Group { output: 4, name: "b".to_string(), ..Default::default() }];
    let mut patch = Patch { parts: vec![part, Part::default()] };
    set_patch_output_bus(&mut patch, 7);
    assert_eq!(patch.parts.len(), 2);
    assert!(patch.parts[0].groups.iter().all(|g| g.output == 7));
    assert_eq!(patch.parts[0].groups[1].name, "b");
    assert!(patch.parts[1].groups.is_empty());
}

#[test]
fn u7_pairs_and_cc_conditions() {
    assert_eq!(u7_pair(false, Some(5), None, 0, 127), None);
    assert_eq!(u7_pair(true, Some(90), Some(10), 0, 127), Some((10, 90)));
    assert_eq!(u7_pair(true, Some(-4), None, 0, 127), Some((0, 127)));
    assert_eq!(u7_pair(true, None, Some(300), 20, 127), Some((20, 127)));
    let mut lows = vec![None; 128];
    let mut highs = vec![None; 128];
    lows[7] = Some(20);
    highs[7] = Some(90);
    highs[1] = Some(127);
    lows[64] = Some(-3);
    highs[100] = Some(500);
    highs[3] = Some(64);
    let conds = cc_conditions(&lows, &highs);
    assert_eq!(
        conds,
        vec![
            CcCondition { cc: 3, low: 0, high: 64 },
            CcCondition { cc: 7, low: 20, high: 90 },
        ]
    );
}
