use maolan_sampler::group::{Group, Zone};
use maolan_sampler::sfz_export::{
    export_key_mapping, push_export_group_header, push_export_key_mapping, push_extra_sfz_opcodes,
};
use maolan_sampler::zone_conditions::CcCondition;
use maolan_sampler::zone_modes::{
    CurveType, LoopDirection, LoopMode, OffMode, SamplePlayMode, ZonePlayback,
};

fn zone(keys: (u8, u8), root: u8, vels: (u8, u8)) -> Zone {
    Zone {
        name: "z".to_string(),
        files: Vec::new(),
        key_low: keys.0,
        key_high: keys.1,
        vel_low: vels.0,
        vel_high: vels.1,
        root_key: root,
        key_fade_in: None,
        key_fade_out: None,
        vel_fade_in: None,
        vel_fade_out: None,
        key_fade_low: 0,
        key_fade_high: 0,
        vel_fade_low: 0,
        vel_fade_high: 0,
        velocity_curve: CurveType::Linear,
        channel_low: 1,
        channel_high: 16,
        pitch_bend_low: -8192,
        pitch_bend_high: 8192,
        cc_conditions: Vec::new(),
        playback: ZonePlayback::new(),
        extra_sfz_opcodes: Vec::new(),
    }
}

#[test]
fn single_key_zone_writes_key() {
    assert_eq!(export_key_mapping(&zone((36, 36), 36, (0, 127))), " key=36");
}

#[test]
fn key_range_writes_low_high_and_root() {
    assert_eq!(export_key_mapping(&zone((36, 42), 60, (0, 127))), " lokey=36 hikey=42");
    assert_eq!(
        export_key_mapping(&zone((36, 42), 38, (0, 127))),
        " lokey=36 hikey=42 pitch_keycenter=38"
    );
    assert_eq!(
        export_key_mapping(&zone((36, 36), 60, (0, 127))),
        " lokey=36 hikey=36"
    );
}

#[test]
fn velocity_range_and_curve() {
    let mut z = zone((36, 36), 36, (100, 127));
    assert_eq!(export_key_mapping(&z), " key=36 lovel=100");
    z.vel_high = 110;
    z.velocity_curve = CurveType::SCurve;
    assert_eq!(export_key_mapping(&z), " key=36 lovel=100 hivel=110 velcurve=s-curve");
}

#[test]
fn crossfades_from_ranges_and_widths() {
    let mut z = zone((125, 127), 60, (0, 5));
    z.key_fade_out = Some((40, 42));
    z.key_fade_low = 5;
    z.vel_fade_high = 10;
    assert_eq!(
        export_key_mapping(&z),
        " lokey=125 hikey=127 hivel=5 xfin_lokey=125 xfin_hikey=127 xfout_lokey=40 xfout_hikey=42 xfout_lovel=0 xfout_hivel=5"
    );
    z.vel_fade_in = Some((1, 3));
    z.vel_fade_low = 9;
    let mut out: Vec<char> = "<region>".chars().collect();
    push_export_key_mapping(&mut out, &z);
    let text: String = out.into_iter().collect();
    assert!(text.starts_with("<region> lokey=125"));
    assert!(text.contains(" xfin_lovel=1 xfin_hivel=3 xfout_lovel=0"));
}

fn text(v: Vec<char>) -> String {
    v.into_iter().collect()
}

#[test]
fn extra_opcodes_skip_vendor_keys() {
    let ops = vec![
        ("amp_random".to_string(), "2".to_string()),
        ("label_cc7".to_string(), "Vol".to_string()),
        ("pitch_random".to_string(), "5".to_string()),
    ];
    let mut out = Vec::new();
    push_extra_sfz_opcodes(&mut out, &ops);
    assert_eq!(text(out), " amp_random=2 pitch_random=5");
}

#[test]
fn default_group_header_is_bare() {
    let mut out = Vec::new();
    push_export_group_header(&mut out, &Group::default());
    assert_eq!(text(out), "<group>");
}

#[test]
fn group_header_lists_limits_keyswitches_and_extras() {
    let mut g = Group::default();
    g.poly_limit = 8;
    g.exclusive_group = 3;
    g.output = 2;
    g.sw_last = Some(24);
    g.sw_default = Some(24);
    g.sw_label = Some("Legato".to_string());
    g.extra_sfz_opcodes = vec![("amp_random".to_string(), "1".to_string())];
    let mut out = Vec::new();
    push_export_group_header(&mut out, &g);
    assert_eq!(
        text(out),
        "<group> polyphony=8 group=3 output=2 sw_last=24 sw_default=24 sw_label=Legato amp_random=1"
    );
}

#[test]
fn group_header_output_and_keyswitches() {
    let mut g = Group::default();
    g.name = "Drums".to_string();
    g.output = 3;
    g.sw_last = Some(60);
    g.sw_default = Some(48);
    g.sw_label = Some("Kit A".to_string());
    g.extra_sfz_opcodes = vec![
        ("off_by".to_string(), "7".to_string()),
        ("script".to_string(), "ignored.as".to_string()),
    ];
    let mut out = Vec::new();
    push_export_group_header(&mut out, &g);
    let t = text(out);
    assert!(t.contains(" output=3"));
    assert!(t.contains(" sw_last=60"));
    assert!(t.contains(" sw_default=48"));
    assert!(t.contains(" sw_label=Kit A"));
    assert!(t.contains(" off_by=7"));
    assert!(!t.contains("script"));
}

#[test]
fn channel_bend_and_controller_gates() {
    let mut z = zone((38, 38), 38, (0, 127));
    z.channel_low = 2;
    z.channel_high = 3;
    z.pitch_bend_low = -100;
    z.pitch_bend_high = 200;
    z.cc_conditions = vec![
        CcCondition { cc: 7, low: 20, high: 90 },
        CcCondition { cc: 1, low: 0, high: 127 },
        CcCondition { cc: 64, low: 0, high: 63 },
    ];
    assert_eq!(
        export_key_mapping(&z),
        " key=38 lochan=2 hichan=3 lobend=-100 hibend=200 locc7=20 hicc7=90 hicc64=63"
    );
    z.pitch_bend_low = -8192;
    z.pitch_bend_high = 0;
    z.cc_conditions.clear();
    z.channel_low = 1;
    assert_eq!(export_key_mapping(&z), " key=38 hichan=3 hibend=0");
}

#[test]
fn playback_opcodes_are_written() {
    let mut z = zone((36, 36), 36, (0, 127));
    z.playback.start_offset = 128;
    z.playback.end_offset = 1024;
    z.playback.reverse = true;
    z.playback.play_mode = SamplePlayMode::OnRelease;
    z.playback.loop_mode = LoopMode::WhileGated;
    z.playback.loop_start = 64;
    z.playback.loop_end = 512;
    z.playback.loop_crossfade = 8;
    z.playback.loop_direction = LoopDirection::Alternate;
    z.playback.seq_length = 4;
    z.playback.seq_position = 2;
    z.playback.off_by = 9;
    z.playback.output = 2;
    z.playback.off_mode = OffMode::Normal;
    z.playback.count = 3;
    assert_eq!(
        export_key_mapping(&z),
        " key=36 offset=128 end=1024 direction=reverse trigger=release loop_mode=loop_sustain loop_start=64 loop_end=512 loop_crossfade=8 loop_direction=alternate seq_length=4 seq_position=2 off_by=9 output=2 off_mode=normal count=3"
    );
    let mut one_shot = zone((36, 36), 36, (0, 127));
    one_shot.playback.play_mode = SamplePlayMode::OneShot;
    one_shot.playback.loop_mode = LoopMode::DuringVoice;
    assert_eq!(export_key_mapping(&one_shot), " key=36 loop_mode=one_shot");
}
