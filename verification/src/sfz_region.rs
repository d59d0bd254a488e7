//! Building a zone from a `<region>` (its sample, and its key, velocity, channel and
//! crossfade mapping) and a group from a `<group>` (its limits, output, keyswitches and
//! extra opcodes), once the opcode values have been read as numbers.

use vstd::prelude::*;
use crate::group::{Group, TriggerConjunction, TriggerCondition, TriggerType, Zone};
use crate::sfz_handled::{group_extra_opcodes, group_handled};
use crate::sfz_opcode_map::{is_extra, pairs_view, seq_lt, OpcodeMap};
use crate::text::{chars_eq_str, chars_of, chars_to_ascii_lower, lower_ascii_seq, str_eq, text_lower};
use crate::zone_conditions::{clamp_u7, u7_pair, u7_pair_spec, CcCondition};
use crate::zone_modes::{
    curve_type_of, loop_direction_of, loop_mode_of, parse_curve_type, parse_loop_direction, parse_loop_mode,
    parse_trigger_mode, play_mode_of, LoopDirection, LoopMode, OffMode, SamplePlayMode, ZonePlayback,
};

verus! {

/// A low/high crossfade opcode pair as read: whether either opcode is present, and
/// the integer value of each.
#[derive(Debug, Clone, Copy)]
pub struct FadeOpcodes {
    pub given: bool,
    pub low: Option<i32>,
    pub high: Option<i32>,
}

/// The key and velocity opcodes of a region as read: `key`, `lokey`, `hikey` and
/// `pitch_keycenter` as notes, `lovel`, `hivel`, `lochan`, `hichan`, `lobend` and
/// `hibend` as integers, the `velcurve` text, the four crossfade pairs, and the
/// controller conditions its `loccN`/`hiccN` opcodes give. `None` where an opcode is
/// missing or its value is not of that kind.
#[derive(Debug, Clone)]
pub struct RegionMapping {
    pub key: Option<u8>,
    pub lokey: Option<u8>,
    pub hikey: Option<u8>,
    pub pitch_keycenter: Option<u8>,
    pub lovel: Option<i32>,
    pub hivel: Option<i32>,
    pub velcurve: Option<String>,
    pub lochan: Option<i32>,
    pub hichan: Option<i32>,
    pub lobend: Option<i32>,
    pub hibend: Option<i32>,
    pub cc_conditions: Vec<CcCondition>,
    pub xfin_key: FadeOpcodes,
    pub xfout_key: FadeOpcodes,
    pub xfin_vel: FadeOpcodes,
    pub xfout_vel: FadeOpcodes,
    pub playback: PlaybackOpcodes,
}

/// The playback opcodes of a region as read: `output`, `offset`, `offset_random`,
/// `end`, `count`, the loop points, `loop_count`, `seq_length`, `seq_position` and
/// `off_by` as integers; `loop_mode` also as a boolean where it reads as one; and the
/// text of `direction`, `trigger`, `loop_mode`, `loop_direction` and `off_mode`.
/// `None` where an opcode is missing or its value is not of that kind.
#[derive(Debug, Clone)]
pub struct PlaybackOpcodes {
    pub output: Option<i32>,
    pub offset: Option<i32>,
    pub offset_random: Option<i32>,
    pub end: Option<i32>,
    pub count: Option<i32>,
    pub direction: Option<String>,
    pub trigger: Option<String>,
    pub loop_mode_flag: Option<bool>,
    pub loop_mode: Option<String>,
    pub loop_start: Option<i32>,
    pub loop_end: Option<i32>,
    pub loop_crossfade: Option<i32>,
    pub loop_count: Option<i32>,
    pub loop_direction: Option<String>,
    pub seq_length: Option<i32>,
    pub seq_position: Option<i32>,
    pub off_by: Option<i32>,
    pub off_mode: Option<String>,
}

/// The range a crossfade pair gives, its ends defaulting to `edge`.
pub open spec fn fade_range(f: FadeOpcodes, edge: u8) -> Option<(u8, u8)> {
    u7_pair_spec(f.given, f.low, f.high, edge, edge)
}

/// The width of a range: its high end less its low end.
pub open spec fn range_width(p: (u8, u8)) -> u8 {
    (if p.1 >= p.0 { p.1 - p.0 } else { 0 }) as u8
}

/// A zone's key range and root key after the region's key opcodes: `key` sets all
/// three, then `lokey`, `hikey` and `pitch_keycenter` each set theirs.
pub open spec fn keys_mapped(z: Zone, m: RegionMapping) -> Zone {
    let z1 = match m.key {
        Some(k) => Zone { key_low: k, key_high: k, root_key: k, ..z },
        None => z,
    };
    let z2 = match m.lokey {
        Some(k) => Zone { key_low: k, ..z1 },
        None => z1,
    };
    let z3 = match m.hikey {
        Some(k) => Zone { key_high: k, ..z2 },
        None => z2,
    };
    match m.pitch_keycenter {
        Some(k) => Zone { root_key: k, ..z3 },
        None => z3,
    }
}

/// A zone's velocity range and curve after the region's velocity opcodes: each end
/// held to 0..=127, and the curve read from its text.
pub open spec fn velocities_mapped(z: Zone, m: RegionMapping) -> Zone {
    let z1 = match m.lovel {
        Some(v) => Zone { vel_low: clamp_u7(v), ..z },
        None => z,
    };
    let z2 = match m.hivel {
        Some(v) => Zone { vel_high: clamp_u7(v), ..z1 },
        None => z1,
    };
    match m.velcurve {
        Some(t) => Zone { velocity_curve: curve_type_of(text_lower(t@)), ..z2 },
        None => z2,
    }
}

/// An integer held to `lo..=hi`.
pub open spec fn clamp_i32(v: i32, lo: int, hi: int) -> int {
    if v < lo { lo } else if v > hi { hi } else { v as int }
}

/// A zone's channel range (each end held to 1..=16) and pitch-bend range (each end held
/// to -8192..=8192) after the region's opcodes.
pub open spec fn gates_mapped(z: Zone, m: RegionMapping) -> Zone {
    let z1 = match m.lochan {
        Some(v) => Zone { channel_low: clamp_i32(v, 1, 16) as u8, ..z },
        None => z,
    };
    let z2 = match m.hichan {
        Some(v) => Zone { channel_high: clamp_i32(v, 1, 16) as u8, ..z1 },
        None => z1,
    };
    let z3 = match m.lobend {
        Some(v) => Zone { pitch_bend_low: clamp_i32(v, -8192, 8192) as i16, ..z2 },
        None => z2,
    };
    match m.hibend {
        Some(v) => Zone { pitch_bend_high: clamp_i32(v, -8192, 8192) as i16, ..z3 },
        None => z3,
    }
}

/// A zone's crossfades after the region's crossfade opcodes: each pair that is given
/// sets its range (defaulting to the zone edge it fades, after the key and velocity
/// mapping) and its width.
pub open spec fn fades_mapped(z: Zone, m: RegionMapping) -> Zone {
    let z1 = match fade_range(m.xfin_key, z.key_low) {
        Some(p) => Zone { key_fade_in: Some(p), key_fade_low: range_width(p), ..z },
        None => z,
    };
    let z2 = match fade_range(m.xfout_key, z1.key_high) {
        Some(p) => Zone { key_fade_out: Some(p), key_fade_high: range_width(p), ..z1 },
        None => z1,
    };
    let z3 = match fade_range(m.xfin_vel, z2.vel_low) {
        Some(p) => Zone { vel_fade_in: Some(p), vel_fade_low: range_width(p), ..z2 },
        None => z2,
    };
    match fade_range(m.xfout_vel, z3.vel_high) {
        Some(p) => Zone { vel_fade_out: Some(p), vel_fade_high: range_width(p), ..z3 },
        None => z3,
    }
}

/// An integer from 0 up: `v`, or 0 where it is negative.
pub open spec fn from_zero(v: i32) -> int {
    if v < 0 { 0 } else { v as int }
}

/// A count or position set from an opcode where it is given (from 0 up), else `old`.
pub open spec fn set_from(old: int, v: Option<i32>) -> int {
    match v {
        Some(x) => from_zero(x),
        None => old,
    }
}

/// Whether an opcode's text equals `word` (lower-case ASCII) ignoring ASCII case.
pub open spec fn is_word(t: Option<String>, word: Seq<char>) -> bool {
    t matches Some(x) && lower_ascii_seq(x@) == word
}

/// The trigger mode after the region's `trigger` and `loop_mode` opcodes: `trigger`
/// sets it; a `loop_mode` that reads as true, or (where it does not read as a boolean)
/// is `one_shot` in any ASCII case, makes it one-shot.
pub open spec fn play_mode_mapped(old: SamplePlayMode, m: PlaybackOpcodes) -> SamplePlayMode {
    let pm = match m.trigger {
        Some(t) => play_mode_of(text_lower(t@)),
        None => old,
    };
    let flag = match m.loop_mode_flag {
        Some(b) => Some(b),
        None => match m.loop_mode {
            Some(t) => Some(lower_ascii_seq(t@) == "one_shot"@),
            None => None,
        },
    };
    if flag == Some(true) || is_word(m.loop_mode, "one_shot"@) { SamplePlayMode::OneShot } else { pm }
}

/// A zone's playback after the region's playback opcodes: the output held to 0..=15,
/// offsets, counts, loop points and positions from 0 up, `off_by` held to 0..=255,
/// `direction=reverse` (any ASCII case) plays backwards, the modes read from their
/// words, and `off_mode=normal` (any ASCII case) stops normally, any other `off_mode`
/// fast.
pub open spec fn playback_mapped(p: ZonePlayback, m: PlaybackOpcodes) -> ZonePlayback {
    ZonePlayback {
        output: (match m.output { Some(v) => clamp_i32(v, 0, 15), None => p.output as int }) as u8,
        start_offset: set_from(p.start_offset as int, m.offset) as usize,
        offset_random: set_from(p.offset_random as int, m.offset_random) as usize,
        end_offset: set_from(p.end_offset as int, m.end) as usize,
        count: set_from(p.count as int, m.count) as u32,
        reverse: if is_word(m.direction, "reverse"@) { true } else { p.reverse },
        play_mode: play_mode_mapped(p.play_mode, m),
        loop_mode: match m.loop_mode {
            Some(t) => loop_mode_of(text_lower(t@)),
            None => p.loop_mode,
        },
        loop_start: set_from(p.loop_start as int, m.loop_start) as usize,
        loop_end: set_from(p.loop_end as int, m.loop_end) as usize,
        loop_crossfade: set_from(p.loop_crossfade as int, m.loop_crossfade) as usize,
        loop_count: set_from(p.loop_count as int, m.loop_count) as u32,
        loop_direction: match m.loop_direction {
            Some(t) => loop_direction_of(text_lower(t@)),
            None => p.loop_direction,
        },
        seq_length: set_from(p.seq_length as int, m.seq_length) as u32,
        seq_position: set_from(p.seq_position as int, m.seq_position) as u32,
        off_by: (match m.off_by { Some(v) => clamp_i32(v, 0, 255), None => p.off_by as int }) as u8,
        off_mode: match m.off_mode {
            Some(t) => if lower_ascii_seq(t@) == "normal"@ { OffMode::Normal } else { OffMode::Fast },
            None => p.off_mode,
        },
    }
}

/// A zone after a region's key, velocity, channel, pitch-bend, crossfade and playback
/// opcodes, in that order.
pub open spec fn region_mapped(z: Zone, m: RegionMapping) -> Zone {
    let z1 = fades_mapped(gates_mapped(velocities_mapped(keys_mapped(z, m), m), m), m);
    Zone { playback: playback_mapped(z1.playback, m.playback), ..z1 }
}

fn clamp_to_u7(v: i32) -> (r: u8)
    ensures
        r == clamp_u7(v),
{
    if v < 0 {
        0
    } else if v > 127 {
        127
    } else {
        v as u8
    }
}

fn fade_of(f: FadeOpcodes, edge: u8) -> (r: Option<(u8, u8)>)
    ensures
        r == fade_range(f, edge),
{
    u7_pair(f.given, f.low, f.high, edge, edge)
}

fn clamp_to(v: i32, lo: i32, hi: i32) -> (r: i32)
    requires
        lo <= hi,
    ensures
        r == clamp_i32(v, lo as int, hi as int),
{
    if v < lo {
        lo
    } else if v > hi {
        hi
    } else {
        v
    }
}

fn apply_keys(zone: &mut Zone, m: &RegionMapping)
    ensures
        *final(zone) == keys_mapped(*old(zone), *m),
{
    if let Some(k) = m.key {
        zone.key_low = k;
        zone.key_high = k;
        zone.root_key = k;
    }
    if let Some(k) = m.lokey {
        zone.key_low = k;
    }
    if let Some(k) = m.hikey {
        zone.key_high = k;
    }
    if let Some(k) = m.pitch_keycenter {
        zone.root_key = k;
    }
}

fn apply_velocities(zone: &mut Zone, m: &RegionMapping)
    ensures
        *final(zone) == velocities_mapped(*old(zone), *m),
{
    if let Some(v) = m.lovel {
        zone.vel_low = clamp_to_u7(v);
    }
    if let Some(v) = m.hivel {
        zone.vel_high = clamp_to_u7(v);
    }
    if let Some(t) = &m.velcurve {
        zone.velocity_curve = parse_curve_type(t.as_str());
    }
}

fn apply_gates(zone: &mut Zone, m: &RegionMapping)
    ensures
        *final(zone) == gates_mapped(*old(zone), *m),
{
    if let Some(v) = m.lochan {
        zone.channel_low = clamp_to(v, 1, 16) as u8;
    }
    if let Some(v) = m.hichan {
        zone.channel_high = clamp_to(v, 1, 16) as u8;
    }
    if let Some(v) = m.lobend {
        zone.pitch_bend_low = clamp_to(v, -8192, 8192) as i16;
    }
    if let Some(v) = m.hibend {
        zone.pitch_bend_high = clamp_to(v, -8192, 8192) as i16;
    }
}

fn apply_fades(zone: &mut Zone, m: &RegionMapping)
    ensures
        *final(zone) == fades_mapped(*old(zone), *m),
{
    if let Some((low, high)) = fade_of(m.xfin_key, zone.key_low) {
        zone.key_fade_in = Some((low, high));
        zone.key_fade_low = high.saturating_sub(low);
    }
    if let Some((low, high)) = fade_of(m.xfout_key, zone.key_high) {
        zone.key_fade_out = Some((low, high));
        zone.key_fade_high = high.saturating_sub(low);
    }
    if let Some((low, high)) = fade_of(m.xfin_vel, zone.vel_low) {
        zone.vel_fade_in = Some((low, high));
        zone.vel_fade_low = high.saturating_sub(low);
    }
    if let Some((low, high)) = fade_of(m.xfout_vel, zone.vel_high) {
        zone.vel_fade_out = Some((low, high));
        zone.vel_fade_high = high.saturating_sub(low);
    }
}

fn word_is(t: &Option<String>, word: &str) -> (r: bool)
    ensures
        r == (t matches Some(x) && lower_ascii_seq(x@) == word@),
{
    match t {
        Some(x) => {
            let l = chars_to_ascii_lower(chars_of(x.as_str()).as_slice());
            chars_eq_str(l.as_slice(), word)
        },
        None => false,
    }
}

fn from_zero_usize(v: Option<i32>, old: usize) -> (r: usize)
    ensures
        r == set_from(old as int, v),
{
    match v {
        Some(x) => if x < 0 { 0 } else { x as usize },
        None => old,
    }
}

fn from_zero_u32(v: Option<i32>, old: u32) -> (r: u32)
    ensures
        r == set_from(old as int, v),
{
    match v {
        Some(x) => if x < 0 { 0 } else { x as u32 },
        None => old,
    }
}

fn playback_of(p: ZonePlayback, m: &PlaybackOpcodes) -> (r: ZonePlayback)
    ensures
        r == playback_mapped(p, *m),
{
    let mut play_mode = match &m.trigger {
        Some(t) => parse_trigger_mode(t.as_str()),
        None => p.play_mode,
    };
    let flag = match m.loop_mode_flag {
        Some(b) => Some(b),
        None => match &m.loop_mode {
            Some(_) => Some(word_is(&m.loop_mode, "one_shot")),
            None => None,
        },
    };
    if flag == Some(true) || word_is(&m.loop_mode, "one_shot") {
        play_mode = SamplePlayMode::OneShot;
    }
    let loop_mode = match &m.loop_mode {
        Some(t) => parse_loop_mode(t.as_str()),
        None => p.loop_mode,
    };
    let loop_direction = match &m.loop_direction {
        Some(t) => parse_loop_direction(t.as_str()),
        None => p.loop_direction,
    };
    let off_mode = match &m.off_mode {
        Some(_) => if word_is(&m.off_mode, "normal") { OffMode::Normal } else { OffMode::Fast },
        None => p.off_mode,
    };
    let r = ZonePlayback {
        output: match m.output { Some(v) => clamp_to(v, 0, 15) as u8, None => p.output },
        start_offset: from_zero_usize(m.offset, p.start_offset),
        offset_random: from_zero_usize(m.offset_random, p.offset_random),
        end_offset: from_zero_usize(m.end, p.end_offset),
        count: from_zero_u32(m.count, p.count),
        reverse: if word_is(&m.direction, "reverse") { true } else { p.reverse },
        play_mode,
        loop_mode,
        loop_start: from_zero_usize(m.loop_start, p.loop_start),
        loop_end: from_zero_usize(m.loop_end, p.loop_end),
        loop_crossfade: from_zero_usize(m.loop_crossfade, p.loop_crossfade),
        loop_count: from_zero_u32(m.loop_count, p.loop_count),
        loop_direction,
        seq_length: from_zero_u32(m.seq_length, p.seq_length),
        seq_position: from_zero_u32(m.seq_position, p.seq_position),
        off_by: match m.off_by { Some(v) => clamp_to(v, 0, 255) as u8, None => p.off_by },
        off_mode,
    };
    proof {
        reveal_strlit("one_shot");
        reveal_strlit("reverse");
        reveal_strlit("normal");
    }
    r
}

/// Applies a region's key, velocity, channel, pitch-bend and crossfade opcodes to
/// `zone`, as `region_mapped` states, and gives it the region's controller conditions
/// in place of its own.
pub fn apply_region_mapping(zone: &mut Zone, m: &RegionMapping)
    ensures
        (Zone { cc_conditions: old(zone).cc_conditions, ..*final(zone) }) == region_mapped(*old(zone), *m),
        final(zone).cc_conditions@ == m.cc_conditions@,
{
    apply_keys(zone, m);
    apply_velocities(zone, m);
    apply_gates(zone, m);
    apply_fades(zone, m);
    zone.playback = playback_of(zone.playback, &m.playback);
    zone.cc_conditions = crate::editor_sync::copy_conditions(&m.cc_conditions);
}

/// Whether a `sample` opcode names no sample: empty, or `*`.
pub open spec fn no_sample(sample: Seq<char>) -> bool {
    sample.len() == 0 || sample == "*"@
}

/// Whether a `sample` opcode names the silent region `*silence`, in any ASCII case.
pub open spec fn is_silence(sample: Seq<char>) -> bool {
    lower_ascii_seq(sample) == "*silence"@
}

/// Sets the sample of a region's zone from its `sample` opcode: where it names no
/// sample the region makes no zone (`false`, and the zone is left as it was); the
/// silent region `*silence` (in any ASCII case) gets that name and no file; any other
/// sample is named by the opcode's text and plays the file `full_path` (the sample
/// path taken from the instrument's folder and `default_path`).
pub fn set_region_sample(zone: &mut Zone, sample: &str, full_path: String) -> (made: bool)
    ensures
        made == !no_sample(sample@),
        !made ==> *final(zone) == *old(zone),
        made ==> {
            &&& *final(zone) == Zone { name: final(zone).name, files: final(zone).files, ..*old(zone) }
            &&& if is_silence(sample@) {
                final(zone).name@ == "*silence"@ && final(zone).files@.len() == 0
            } else {
                final(zone).name@ == sample@ && final(zone).files@ == seq![full_path]
            }
        },
{
    if chars_of(sample).len() == 0 || str_eq(sample, "*") {
        return false;
    }
    let lower = chars_to_ascii_lower(chars_of(sample).as_slice());
    if chars_eq_str(lower.as_slice(), "*silence") {
        zone.name = "*silence".to_owned();
        zone.files = Vec::new();
    } else {
        zone.name = sample.to_owned();
        let mut files: Vec<String> = Vec::new();
        files.push(full_path);
        zone.files = files;
    }
    true
}

/// The opcodes of a `<group>` as read: the seven keyswitches as notes, the keyswitch
/// label, and `polyphony`, `group` and `output` as integers; `None` where an opcode is
/// missing or its value is not of that kind.
#[derive(Debug, Clone)]
pub struct GroupOpcodes {
    pub sw_last: Option<u8>,
    pub sw_down: Option<u8>,
    pub sw_up: Option<u8>,
    pub sw_previous: Option<u8>,
    pub sw_lolast: Option<u8>,
    pub sw_hilast: Option<u8>,
    pub sw_default: Option<u8>,
    pub sw_label: Option<String>,
    pub polyphony: Option<i32>,
    pub group: Option<i32>,
    pub output: Option<i32>,
}

/// The settings of a group built from a `<group>`'s opcodes: no name, no trigger conditions;
/// its keyswitches and label as given; its voice limit from 0 up (0 where not given),
/// its exclusive group held to 0..=255 and its output held to 0..=15 (each 0 where not
/// given); and the opcodes that no group setting reads and that are not
/// player-specific, in increasing order of name.
pub open spec fn is_group_built(g: Group, m: GroupOpcodes, opcodes: Map<Seq<char>, Seq<char>>) -> bool {
    &&& g.name@.len() == 0
    &&& g.trigger_type == TriggerType::NoTrigger
    &&& forall|i: int| 0 <= i < 4 ==> #[trigger] g.trigger_conditions@[i] == (TriggerCondition { note: 0, cc: 0, cc_value: 0 })
    &&& forall|i: int| 0 <= i < 3 ==> #[trigger] g.trigger_conjunctions@[i] == TriggerConjunction::And
    &&& g.sw_last == m.sw_last && g.sw_down == m.sw_down && g.sw_up == m.sw_up
    &&& g.sw_previous == m.sw_previous && g.sw_lolast == m.sw_lolast && g.sw_hilast == m.sw_hilast
    &&& g.sw_default == m.sw_default
    &&& g.sw_label == m.sw_label
    &&& g.poly_limit == (match m.polyphony { Some(p) => if p < 0 { 0 } else { p as int }, None => 0 })
    &&& g.exclusive_group == (match m.group { Some(v) => clamp_i32(v, 0, 255), None => 0 })
    &&& g.output == (match m.output { Some(v) => clamp_i32(v, 0, 15), None => 0 })
    &&& forall|i: int, j: int| 0 <= i < j < g.extra_sfz_opcodes@.len() ==> seq_lt(g.extra_sfz_opcodes@[i].0@, g.extra_sfz_opcodes@[j].0@)
    &&& forall|k: Seq<char>, v: Seq<char>| #[trigger] pairs_view(g.extra_sfz_opcodes@).contains((k, v)) <==> (opcodes.dom().contains(k)
        && opcodes[k] == v && is_extra(k, group_handled()))
}

/// The group a `<group>` header makes from its opcodes `opcodes` and their values read
/// as `m`, as `is_group_built` states, with no zones yet.
pub fn build_group_settings(m: &GroupOpcodes, opcodes: &OpcodeMap) -> (g: Group)
    ensures
        is_group_built(g, *m, opcodes@),
        g.zones@.len() == 0,
{
    let mut g = Group::default();
    g.sw_last = m.sw_last;
    g.sw_down = m.sw_down;
    g.sw_up = m.sw_up;
    g.sw_previous = m.sw_previous;
    g.sw_lolast = m.sw_lolast;
    g.sw_hilast = m.sw_hilast;
    g.sw_default = m.sw_default;
    g.sw_label = m.sw_label.clone();
    if let Some(p) = m.polyphony {
        g.poly_limit = if p < 0 { 0 } else { p as usize };
    }
    if let Some(v) = m.group {
        g.exclusive_group = clamp_to(v, 0, 255) as u8;
    }
    if let Some(v) = m.output {
        g.output = clamp_to(v, 0, 15) as u8;
    }
    g.extra_sfz_opcodes = group_extra_opcodes(opcodes);
    g
}

} // verus!
