use maolan_sampler::editor_options::{
    filter_subtype_options, filter_type_options, mod_target_for_param, CcCurveOption,
    CcModTargetOption, EgSelectorOption, FilterSubtype, FilterType, ZoneCreateKind,
    ZoneCurveOption, ZoneLoopModeOption, ZoneOffModeOption, ZonePlayModeOption,
};
use maolan_sampler::mod_matrix::ModTarget;
use maolan_sampler::params::ParamId;
use maolan_sampler::zone_modes::{CurveType, LoopMode, OffMode, SamplePlayMode};
use maolan_sampler::zones::{
    default_new_zone, fade_pair_value, find_vertical_slot, note_option_text, set_pair_high,
    set_pair_low, unique_group_name, unique_zone_name, zone_audition_note, SampleGroup,
    SampleZone,
};

fn zone(name: &str, start: usize, end: usize, vel_low: u8, vel_high: u8, group: &str) -> SampleZone {
    SampleZone::new_basic(
        name.to_string(),
        Vec::new(),
        start,
        end,
        vel_low,
        vel_high,
        group.to_string(),
    )
}

#[test]
fn cc_target_options_round_trip() {
    for option in CcModTargetOption::all() {
        assert_eq!(CcModTargetOption::from_target(option.target()), Some(option));
    }
    assert_eq!(CcModTargetOption::Volume.target(), ModTarget::Amplitude);
    assert_eq!(CcModTargetOption::Offset.target(), ModTarget::SampleOffset);
    assert_eq!(CcModTargetOption::from_target(ModTarget::Delay), None);
    assert_eq!(CcModTargetOption::from_target(ModTarget::SampleStart), None);
    assert_eq!(CcModTargetOption::from_target(ModTarget::NoTarget), None);
    assert_eq!(CcModTargetOption::Tune.label(), "Tune");
}

#[test]
fn cc_curve_options_in_order() {
    let all = CcCurveOption::all();
    assert_eq!(all.len(), 5);
    assert_eq!(all[0], CcCurveOption::Linear);
    assert_eq!(all[4], CcCurveOption::Custom);
    assert_eq!(CcCurveOption::Exponential.label(), "Exp");
    assert_eq!(CcCurveOption::SCurve.label(), "S");
}

#[test]
fn play_mode_options_round_trip() {
    for option in ZonePlayModeOption::all() {
        assert_eq!(ZonePlayModeOption::from_mode(option.mode()), option);
    }
    assert_eq!(ZonePlayModeOption::Attack.mode(), SamplePlayMode::Normal);
    assert_eq!(ZonePlayModeOption::from_mode(SamplePlayMode::OnRelease), ZonePlayModeOption::Release);
    assert_eq!(ZonePlayModeOption::OneShot.label(), "One Shot");
}

#[test]
fn loop_mode_options_round_trip() {
    for option in ZoneLoopModeOption::all() {
        assert_eq!(ZoneLoopModeOption::from_mode(option.mode()), option);
    }
    assert_eq!(ZoneLoopModeOption::from_mode(LoopMode::Count), ZoneLoopModeOption::Continuous);
    assert_eq!(ZoneLoopModeOption::Continuous.mode(), LoopMode::DuringVoice);
    assert_eq!(ZoneLoopModeOption::Sustain.mode(), LoopMode::WhileGated);
}

#[test]
fn curve_and_off_mode_options_round_trip() {
    for option in ZoneCurveOption::all() {
        assert_eq!(ZoneCurveOption::from_curve(option.curve()), option);
    }
    assert_eq!(ZoneCurveOption::from_curve(CurveType::SCurve).label(), "S-Curve");
    for option in ZoneOffModeOption::all() {
        assert_eq!(ZoneOffModeOption::from_mode(option.mode()), option);
    }
    assert_eq!(ZoneOffModeOption::Fast.mode(), OffMode::Fast);
}

#[test]
fn eg_selector_indices() {
    for (i, option) in EgSelectorOption::all().iter().enumerate() {
        assert_eq!(option.index(), i);
        assert_eq!(EgSelectorOption::from_index(i), Some(*option));
    }
    assert_eq!(EgSelectorOption::from_index(6), None);
    assert_eq!(EgSelectorOption::Eg2.label(), "EG 2");
    assert_eq!(ZoneCreateKind::Group.label(), "Group");
}

#[test]
fn param_mod_targets() {
    assert_eq!(mod_target_for_param(ParamId::MasterGain), Some(ModTarget::Amplitude));
    assert_eq!(mod_target_for_param(ParamId::MasterPan), Some(ModTarget::Pan));
    assert_eq!(mod_target_for_param(ParamId::Filter2Cutoff), Some(ModTarget::FilterCutoff));
    assert_eq!(mod_target_for_param(ParamId::FilterResonance), Some(ModTarget::FilterResonance));
    assert_eq!(mod_target_for_param(ParamId::AmpAttack), None);
}

#[test]
fn filter_option_lists() {
    let types = filter_type_options();
    assert_eq!(types[0], FilterType::Lowpass);
    assert_eq!(types[8], FilterType::Bell);
    let subtypes = filter_subtype_options();
    assert_eq!(subtypes[0], FilterSubtype::Clean);
    assert_eq!(subtypes[6], FilterSubtype::Ojd);
}

#[test]
fn audition_note_holds_root_inside_range() {
    let mut z = zone("a", 40, 50, 20, 100, "");
    z.root_key = 60;
    assert_eq!(zone_audition_note(&z), (50, 60));
    z.root_key = 30;
    assert_eq!(zone_audition_note(&z), (40, 60));
    z.root_key = 45;
    assert_eq!(zone_audition_note(&z), (45, 60));
    let low = zone("b", 0, 200, 0, 0, "");
    assert_eq!(zone_audition_note(&low), (60, 1));
    let mut high = zone("c", 130, 200, 0, 255, "");
    high.root_key = 0;
    assert_eq!(zone_audition_note(&high), (127, 127));
}

#[test]
fn note_option_texts() {
    assert_eq!(note_option_text(Some(0)), "0");
    assert_eq!(note_option_text(Some(60)), "60");
    assert_eq!(note_option_text(Some(127)), "127");
    assert_eq!(note_option_text(None), "off");
}

#[test]
fn pair_setters_keep_ends_in_order() {
    let mut pair = None;
    set_pair_low(&mut pair, 90, (0, 127));
    assert_eq!(pair, Some((90, 127)));
    set_pair_high(&mut pair, 10, (0, 127));
    assert_eq!(pair, Some((10, 90)));
    set_pair_low(&mut pair, 100, (0, 127));
    assert_eq!(pair, Some((90, 100)));
    assert_eq!(fade_pair_value(None, (1, 2)), (1, 2));
    assert_eq!(fade_pair_value(Some((3, 4)), (1, 2)), (3, 4));
}

#[test]
fn unique_group_names_count_up() {
    let groups = vec![SampleGroup::new("Drums".to_string())];
    let zones = vec![zone("z", 0, 0, 0, 0, "Drums 2")];
    assert_eq!(unique_group_name(&groups, &zones, "Keys"), "Keys");
    assert_eq!(unique_group_name(&groups, &zones, "Drums"), "Drums 3");
    assert_eq!(unique_group_name(&[], &[], "Drums"), "Drums");
}

#[test]
fn unique_zone_names_bump_trailing_number() {
    let zones = vec![
        zone("New Zone", 0, 0, 0, 0, ""),
        zone("New Zone 2", 0, 0, 0, 0, ""),
        zone("Kick 7", 0, 0, 0, 0, ""),
        zone("Snare x", 0, 0, 0, 0, ""),
    ];
    assert_eq!(unique_zone_name(&zones, "Hat"), "Hat");
    assert_eq!(unique_zone_name(&zones, "New Zone"), "New Zone 3");
    assert_eq!(unique_zone_name(&zones, "Kick 7"), "Kick 8");
    assert_eq!(unique_zone_name(&zones, "Snare x"), "Snare x 2");
    let z = default_new_zone(&zones, "Drums".to_string());
    assert_eq!(z.name, "New Zone 3");
    assert_eq!((z.start_note, z.end_note, z.vel_low, z.vel_high), (60, 60, 0, 127));
    assert_eq!(z.group, "Drums");
    assert!(z.files.is_empty());
}

#[test]
fn vertical_slot_finds_free_velocity_ranges() {
    assert_eq!(find_vertical_slot(&[], 60, 60, 64), (0, 127));
    let zones = vec![zone("a", 60, 62, 0, 63, ""), zone("other keys", 10, 20, 64, 127, "")];
    assert_eq!(find_vertical_slot(&zones, 61, 61, 100), (64, 127));
    assert_eq!(find_vertical_slot(&zones, 61, 61, 10), (64, 127));
    let split = vec![zone("hi", 60, 60, 100, 127, ""), zone("lo", 60, 60, 0, 40, "")];
    assert_eq!(find_vertical_slot(&split, 60, 60, 70), (41, 99));
    let full = vec![zone("all", 50, 70, 0, 127, "")];
    assert_eq!(find_vertical_slot(&full, 60, 60, 33), (33, 33));
    let gaps = vec![zone("m", 60, 60, 40, 80, "")];
    assert_eq!(find_vertical_slot(&gaps, 60, 60, 90), (81, 127));
    assert_eq!(find_vertical_slot(&gaps, 60, 60, 20), (0, 39));
    assert_eq!(find_vertical_slot(&gaps, 60, 60, 60), (0, 39));
}
