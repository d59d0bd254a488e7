use maolan_sampler::group::Zone;
use maolan_sampler::sfz_opcode_map::OpcodeMap;
use maolan_sampler::sfz_region::{
    apply_region_mapping, build_group_settings, set_region_sample, FadeOpcodes, GroupOpcodes,
    PlaybackOpcodes, RegionMapping,
};
use maolan_sampler::zone_conditions::CcCondition;
use maolan_sampler::zone_modes::{
    CurveType, LoopDirection, LoopMode, OffMode, SamplePlayMode, ZonePlayback,
};

fn base_zone() -> Zone {
    Zone {
        name: String::new(),
        files: Vec::new(),
        key_low: 0,
        key_high: 127,
        vel_low: 0,
        vel_high: 127,
        root_key: 60,
        key_fade_in: None,
        key_fade_out: None,
        vel_fade_in: None,
        vel_fade_out: None,
        key_fade_low: 0,
        key_fade_high: 0,
        vel_fade_low: 0,
        vel_fade_high: 0,
        velocity_curve: CurveType::Linear,
        channel_low: 1,
        channel_high: 16,
        pitch_bend_low: -8192,
        pitch_bend_high: 8192,
        cc_conditions: Vec::new(),
        playback: ZonePlayback::new(),
        extra_sfz_opcodes: Vec::new(),
    }
}

fn no_fade() -> FadeOpcodes {
    FadeOpcodes { given: false, low: None, high: None }
}

fn no_playback() -> PlaybackOpcodes {
    PlaybackOpcodes {
        output: None,
        offset: None,
        offset_random: None,
        end: None,
        count: None,
        direction: None,
        trigger: None,
        loop_mode_flag: None,
        loop_mode: None,
        loop_start: None,
        loop_end: None,
        loop_crossfade: None,
        loop_count: None,
        loop_direction: None,
        seq_length: None,
        seq_position: None,
        off_by: None,
        off_mode: None,
    }
}

fn mapping() -> RegionMapping {
    RegionMapping {
        key: None,
        lokey: None,
        hikey: None,
        pitch_keycenter: None,
        lovel: None,
        hivel: None,
        velcurve: None,
        lochan: None,
        hichan: None,
        lobend: None,
        hibend: None,
        cc_conditions: Vec::new(),
        xfin_key: no_fade(),
        xfout_key: no_fade(),
        xfin_vel: no_fade(),
        xfout_vel: no_fade(),
        playback: no_playback(),
    }
}

#[test]
fn key_sets_range_and_root_then_lokey_overrides() {
    let mut z = base_zone();
    let mut m = mapping();
    m.key = Some(40);
    m.lokey = Some(38);
    apply_region_mapping(&mut z, &m);
    assert_eq!((z.key_low, z.key_high, z.root_key), (38, 40, 40));
    let mut m = mapping();
    m.hikey = Some(72);
    m.pitch_keycenter = Some(66);
    apply_region_mapping(&mut z, &m);
    assert_eq!((z.key_low, z.key_high, z.root_key), (38, 72, 66));
}

#[test]
fn velocities_are_held_to_midi_range_and_curve_is_read() {
    let mut z = base_zone();
    let mut m = mapping();
    m.lovel = Some(-5);
    m.hivel = Some(300);
    m.velcurve = Some("S-Curve".to_string());
    apply_region_mapping(&mut z, &m);
    assert_eq!((z.vel_low, z.vel_high), (0, 127));
    assert_eq!(z.velocity_curve, CurveType::SCurve);
    m.lovel = Some(20);
    m.hivel = Some(90);
    m.velcurve = Some("unknown".to_string());
    apply_region_mapping(&mut z, &m);
    assert_eq!((z.vel_low, z.vel_high), (20, 90));
    assert_eq!(z.velocity_curve, CurveType::Linear);
}

#[test]
fn crossfades_default_to_the_mapped_edges() {
    let mut z = base_zone();
    let mut m = mapping();
    m.lokey = Some(36);
    m.hikey = Some(48);
    m.lovel = Some(10);
    m.xfin_key = FadeOpcodes { given: true, low: None, high: Some(40) };
    m.xfout_key = FadeOpcodes { given: true, low: Some(50), high: None };
    m.xfin_vel = FadeOpcodes { given: true, low: Some(200), high: None };
    apply_region_mapping(&mut z, &m);
    assert_eq!(z.key_fade_in, Some((36, 40)));
    assert_eq!(z.key_fade_low, 4);
    assert_eq!(z.key_fade_out, Some((48, 50)));
    assert_eq!(z.key_fade_high, 2);
    assert_eq!(z.vel_fade_in, Some((10, 127)));
    assert_eq!(z.vel_fade_low, 117);
    assert_eq!(z.vel_fade_out, None);
    assert_eq!(z.vel_fade_high, 0);
}

#[test]
fn region_sample_names_the_zone() {
    let mut z = base_zone();
    assert!(!set_region_sample(&mut z, "", "x".to_string()));
    assert!(!set_region_sample(&mut z, "*", "x".to_string()));
    assert_eq!(z.name, "");
    assert!(set_region_sample(&mut z, "*SILENCE", "ignored".to_string()));
    assert_eq!(z.name, "*silence");
    assert!(z.files.is_empty());
    assert!(set_region_sample(&mut z, "kick.wav", "/inst/samples/kick.wav".to_string()));
    assert_eq!(z.name, "kick.wav");
    assert_eq!(z.files, vec!["/inst/samples/kick.wav".to_string()]);
}

#[test]
fn region_core_mapping_opcodes() {
    let mut z = base_zone();
    let mut m = mapping();
    m.key = Some(60);
    m.lokey = Some(48);
    m.hikey = Some(72);
    m.pitch_keycenter = Some(67);
    m.lovel = Some(10);
    m.hivel = Some(110);
    m.velcurve = Some("exponential".to_string());
    m.xfin_key = FadeOpcodes { given: true, low: Some(50), high: Some(54) };
    m.xfout_key = FadeOpcodes { given: true, low: Some(68), high: Some(72) };
    m.xfin_vel = FadeOpcodes { given: true, low: Some(10), high: Some(30) };
    m.xfout_vel = FadeOpcodes { given: true, low: Some(90), high: Some(110) };
    assert!(set_region_sample(&mut z, "missing.wav", "/tmp/missing.wav".to_string()));
    apply_region_mapping(&mut z, &m);
    assert_eq!(z.name, "missing.wav");
    assert_eq!((z.key_low, z.key_high, z.root_key), (48, 72, 67));
    assert_eq!((z.vel_low, z.vel_high), (10, 110));
    assert_eq!(z.velocity_curve, CurveType::Exponential);
    assert_eq!(z.key_fade_in, Some((50, 54)));
    assert_eq!(z.key_fade_out, Some((68, 72)));
    assert_eq!(z.vel_fade_in, Some((10, 30)));
    assert_eq!(z.vel_fade_out, Some((90, 110)));
    assert_eq!((z.key_fade_low, z.key_fade_high, z.vel_fade_low, z.vel_fade_high), (4, 4, 20, 20));
}

#[test]
fn channel_bend_and_conditions_are_read() {
    let mut z = base_zone();
    z.cc_conditions = vec![CcCondition { cc: 1, low: 0, high: 10 }];
    let mut m = mapping();
    m.lochan = Some(0);
    m.hichan = Some(20);
    m.lobend = Some(-9000);
    m.hibend = Some(200);
    m.cc_conditions = vec![CcCondition { cc: 7, low: 20, high: 90 }];
    apply_region_mapping(&mut z, &m);
    assert_eq!((z.channel_low, z.channel_high), (1, 16));
    assert_eq!((z.pitch_bend_low, z.pitch_bend_high), (-8192, 200));
    assert_eq!(z.cc_conditions, vec![CcCondition { cc: 7, low: 20, high: 90 }]);
}

#[test]
fn group_settings_from_opcodes() {
    let mut opcodes = OpcodeMap::new();
    opcodes.insert_str("polyphony", "-3");
    opcodes.insert_str("group", "300");
    opcodes.insert_str("output", "20");
    opcodes.insert_str("sw_last", "c4");
    opcodes.insert_str("off_by", "7");
    opcodes.insert_str("script", "ignored.as");
    opcodes.insert_str("amp_random", "2");
    let m = GroupOpcodes {
        sw_last: Some(60),
        sw_down: None,
        sw_up: None,
        sw_previous: None,
        sw_lolast: None,
        sw_hilast: None,
        sw_default: Some(48),
        sw_label: Some("Kit A".to_string()),
        polyphony: Some(-3),
        group: Some(300),
        output: Some(20),
    };
    let g = build_group_settings(&m, &opcodes);
    assert_eq!(g.poly_limit, 0);
    assert_eq!(g.exclusive_group, 255);
    assert_eq!(g.output, 15);
    assert_eq!(g.sw_last, Some(60));
    assert_eq!(g.sw_default, Some(48));
    assert_eq!(g.sw_label, Some("Kit A".to_string()));
    assert!(g.zones.is_empty());
    assert_eq!(
        g.extra_sfz_opcodes,
        vec![
            ("amp_random".to_string(), "2".to_string()),
            ("off_by".to_string(), "7".to_string())
        ]
    );
    let mut m2 = m.clone();
    m2.polyphony = Some(8);
    m2.group = None;
    m2.output = None;
    let g2 = build_group_settings(&m2, &OpcodeMap::new());
    assert_eq!((g2.poly_limit, g2.exclusive_group, g2.output), (8, 0, 0));
    assert!(g2.extra_sfz_opcodes.is_empty());
}

#[test]
fn playback_opcodes_are_read() {
    let mut z = base_zone();
    let mut m = mapping();
    m.playback.output = Some(20);
    m.playback.offset = Some(128);
    m.playback.offset_random = Some(-5);
    m.playback.end = Some(1024);
    m.playback.count = Some(2);
    m.playback.direction = Some("Reverse".to_string());
    m.playback.trigger = Some("release".to_string());
    m.playback.loop_mode = Some("loop_sustain".to_string());
    m.playback.loop_start = Some(64);
    m.playback.loop_end = Some(512);
    m.playback.loop_crossfade = Some(8);
    m.playback.loop_count = Some(3);
    m.playback.loop_direction = Some("alternate".to_string());
    m.playback.seq_length = Some(4);
    m.playback.seq_position = Some(2);
    m.playback.off_by = Some(300);
    m.playback.off_mode = Some("NORMAL".to_string());
    apply_region_mapping(&mut z, &m);
    let p = z.playback;
    assert_eq!(p.output, 15);
    assert_eq!((p.start_offset, p.offset_random, p.end_offset, p.count), (128, 0, 1024, 2));
    assert!(p.reverse);
    assert_eq!(p.play_mode, SamplePlayMode::OnRelease);
    assert_eq!(p.loop_mode, LoopMode::WhileGated);
    assert_eq!((p.loop_start, p.loop_end, p.loop_crossfade, p.loop_count), (64, 512, 8, 3));
    assert_eq!(p.loop_direction, LoopDirection::Alternate);
    assert_eq!((p.seq_length, p.seq_position, p.off_by), (4, 2, 255));
    assert_eq!(p.off_mode, OffMode::Normal);

    let mut m2 = mapping();
    m2.playback.loop_mode = Some("One_Shot".to_string());
    m2.playback.trigger = Some("first".to_string());
    let mut z2 = base_zone();
    apply_region_mapping(&mut z2, &m2);
    assert_eq!(z2.playback.play_mode, SamplePlayMode::OneShot);
    let mut m3 = mapping();
    m3.playback.loop_mode_flag = Some(true);
    m3.playback.off_mode = Some("fast".to_string());
    let mut z3 = base_zone();
    apply_region_mapping(&mut z3, &m3);
    assert_eq!(z3.playback.play_mode, SamplePlayMode::OneShot);
    assert_eq!(z3.playback.off_mode, OffMode::Fast);
}
