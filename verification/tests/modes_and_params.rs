use maolan_sampler::mod_matrix::{ModSource, ModTarget};
use maolan_sampler::params::ParamId;
use maolan_sampler::zone_modes::{
    export_curve_type, parse_curve_type, parse_loop_direction, parse_loop_mode,
    parse_trigger_mode, CurveType, LoopDirection, LoopMode, SamplePlayMode,
};

#[test]
fn curve_types_parse_without_regard_to_case() {
    assert_eq!(parse_curve_type("Exponential"), CurveType::Exponential);
    assert_eq!(parse_curve_type("LOG"), CurveType::Logarithmic);
    assert_eq!(parse_curve_type("s-curve"), CurveType::SCurve);
    assert_eq!(parse_curve_type("SCurve"), CurveType::SCurve);
    assert_eq!(parse_curve_type("wobbly"), CurveType::Linear);
    for curve in [CurveType::Linear, CurveType::Exponential, CurveType::Logarithmic, CurveType::SCurve] {
        assert_eq!(parse_curve_type(export_curve_type(curve)), curve);
    }
}

#[test]
fn trigger_loop_and_direction_modes() {
    assert_eq!(parse_trigger_mode("Release"), SamplePlayMode::OnRelease);
    assert_eq!(parse_trigger_mode("release_key"), SamplePlayMode::OnRelease);
    assert_eq!(parse_trigger_mode("first"), SamplePlayMode::First);
    assert_eq!(parse_trigger_mode("LEGATO"), SamplePlayMode::Legato);
    assert_eq!(parse_trigger_mode("attack"), SamplePlayMode::Normal);
    assert_eq!(parse_loop_mode("loop_continuous"), LoopMode::DuringVoice);
    assert_eq!(parse_loop_mode("Loop"), LoopMode::DuringVoice);
    assert_eq!(parse_loop_mode("loop_sustain"), LoopMode::WhileGated);
    assert_eq!(parse_loop_mode("one_shot"), LoopMode::Off);
    assert_eq!(parse_loop_mode("no_loop"), LoopMode::Off);
    assert_eq!(parse_loop_direction("Alternate"), LoopDirection::Alternate);
    assert_eq!(parse_loop_direction("forward"), LoopDirection::Forward);
}

#[test]
fn mod_source_codes_round_trip() {
    for code in 0u8..=40 {
        let source = ModSource::from_u8(code);
        if code <= 31 {
            assert_eq!(source.to_u8(), code);
        } else {
            assert_eq!(source, ModSource::NoSource);
        }
    }
    let routable = ModSource::all_routable();
    assert_eq!(routable.len(), 18);
    assert_eq!(routable[0], ModSource::Velocity);
    assert_eq!(routable[17], ModSource::MidiCc);
    assert!(!routable.contains(&ModSource::NoSource));
}

#[test]
fn mod_target_codes_round_trip() {
    for code in 0u8..=12 {
        let target = ModTarget::from_u8(code);
        if code <= 8 {
            assert_eq!(target.to_u8(), code);
        } else {
            assert_eq!(target, ModTarget::NoTarget);
        }
    }
    assert_eq!(ModTarget::from_u8(7), ModTarget::SampleOffset);
}

#[test]
fn param_ids_are_indexed_in_order() {
    let all = ParamId::all();
    assert_eq!(all.len(), ParamId::COUNT);
    for (i, id) in all.iter().enumerate() {
        assert_eq!(id.as_index(), i);
        assert_eq!(ParamId::from_raw(i as u32), Some(*id));
    }
    assert_eq!(ParamId::from_raw(ParamId::COUNT as u32), None);
    assert_eq!(ParamId::MasterGain.as_index(), 0);
}
