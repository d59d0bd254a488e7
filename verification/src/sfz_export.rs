//! Writing a patch as SFZ text: a group's `<group>` opcodes, a zone's key and velocity
//! mapping, and the extra opcodes both carry.

use vstd::prelude::*;
use crate::group::{Group, Zone};
use crate::sfz_opcode_map::pairs_view;
use crate::sfz_opcodes::{is_non_vendor_sfz_opcode, is_vendor_opcode};
use crate::zone_conditions::CcCondition;
use crate::sfz_numbers::{decimal_text, push_decimal};
use crate::text::{chars_of, push_all, string_of};
use crate::zone_modes::{curve_type_text, export_curve_type, CurveType, LoopDirection, LoopMode, OffMode, SamplePlayMode, ZonePlayback};

verus! {

/// A byte written in decimal.
pub open spec fn dec(n: u8) -> Seq<char> {
    decimal_text(n as nat)
}

/// ` key=N` for a zone of one key that is its own root; else ` lokey=.. hikey=..` and,
/// where the root key is not middle C, ` pitch_keycenter=..`.
pub open spec fn key_range_text(z: Zone) -> Seq<char> {
    if z.key_low == z.key_high && z.root_key == z.key_low {
        " key="@ + dec(z.key_low)
    } else {
        " lokey="@ + dec(z.key_low) + " hikey="@ + dec(z.key_high) + if z.root_key != 60 {
            " pitch_keycenter="@ + dec(z.root_key)
        } else {
            Seq::empty()
        }
    }
}

/// ` lovel=..` where the low velocity is not 0, ` hivel=..` where the high one is not
/// 127, and ` velcurve=..` where the curve is not linear.
pub open spec fn velocity_text(z: Zone) -> Seq<char> {
    (if z.vel_low != 0 { " lovel="@ + dec(z.vel_low) } else { Seq::empty() })
        + (if z.vel_high != 127 { " hivel="@ + dec(z.vel_high) } else { Seq::empty() })
        + (if z.velocity_curve != CurveType::Linear { " velcurve="@ + curve_type_text(z.velocity_curve) } else { Seq::empty() })
}

/// A crossfade written with its two opcodes: the range where it is set, else the range
/// its width gives, else nothing.
pub open spec fn fade_text(lo: Seq<char>, hi: Seq<char>, pair: Option<(u8, u8)>, from_width: Option<(u8, u8)>) -> Seq<char> {
    match pair {
        Some(p) => lo + dec(p.0) + hi + dec(p.1),
        None => match from_width {
            Some(p) => lo + dec(p.0) + hi + dec(p.1),
            None => Seq::empty(),
        },
    }
}

/// The range a fade-in of width `w` from `edge` covers: up from the edge, held to 127.
pub open spec fn fade_in_from(edge: u8, w: u8) -> Option<(u8, u8)> {
    if w != 0 {
        Some((edge, (if edge + w > 127 { 127 } else { edge + w }) as u8))
    } else {
        None
    }
}

/// The range a fade-out of width `w` to `edge` covers: down to the edge, from 0 at
/// least.
pub open spec fn fade_out_to(edge: u8, w: u8) -> Option<(u8, u8)> {
    if w != 0 {
        Some(((if edge >= w { edge - w } else { 0 }) as u8, edge))
    } else {
        None
    }
}

/// An integer written in decimal, with a leading `-` where it is negative.
pub open spec fn signed_text(n: int) -> Seq<char> {
    if n < 0 { "-"@ + decimal_text((-n) as nat) } else { decimal_text(n as nat) }
}

/// A zone's crossfades: the key fade-in and fade-out, then the velocity fade-in and
/// fade-out.
pub open spec fn fades_text(z: Zone) -> Seq<char> {
    fade_text(" xfin_lokey="@, " xfin_hikey="@, z.key_fade_in, fade_in_from(z.key_low, z.key_fade_low))
        + fade_text(" xfout_lokey="@, " xfout_hikey="@, z.key_fade_out, fade_out_to(z.key_high, z.key_fade_high))
        + fade_text(" xfin_lovel="@, " xfin_hivel="@, z.vel_fade_in, fade_in_from(z.vel_low, z.vel_fade_low))
        + fade_text(" xfout_lovel="@, " xfout_hivel="@, z.vel_fade_out, fade_out_to(z.vel_high, z.vel_fade_high))
}

/// The controller conditions: ` loccN=..` where the low end is not 0 and ` hiccN=..`
/// where the high end is not 127, condition by condition.
pub open spec fn conditions_text(cs: Seq<CcCondition>) -> Seq<char>
    decreases cs.len(),
{
    if cs.len() == 0 {
        Seq::empty()
    } else {
        let c = cs.last();
        conditions_text(cs.drop_last())
            + (if c.low != 0 { " locc"@ + dec(c.cc) + "="@ + dec(c.low) } else { Seq::empty() })
            + (if c.high != 127 { " hicc"@ + dec(c.cc) + "="@ + dec(c.high) } else { Seq::empty() })
    }
}

/// A zone's channel range where not 1..=16.
pub open spec fn channel_text(z: Zone) -> Seq<char> {
    (if z.channel_low != 1 { " lochan="@ + dec(z.channel_low) } else { Seq::empty() })
        + (if z.channel_high != 16 { " hichan="@ + dec(z.channel_high) } else { Seq::empty() })
}

/// A zone's pitch-bend range where not -8192..=8192.
pub open spec fn bend_text(z: Zone) -> Seq<char> {
    (if z.pitch_bend_low != -8192 { " lobend="@ + signed_text(z.pitch_bend_low as int) } else { Seq::empty() })
        + (if z.pitch_bend_high != 8192 { " hibend="@ + signed_text(z.pitch_bend_high as int) } else { Seq::empty() })
}

/// A zone's channel range, pitch-bend range and controller conditions.
pub open spec fn gates_text(z: Zone) -> Seq<char> {
    channel_text(z) + bend_text(z) + conditions_text(z.cc_conditions@)
}

/// ` label=N` where `n` is not 0.
pub open spec fn nonzero_text(label: Seq<char>, n: nat) -> Seq<char> {
    if n != 0 { label + decimal_text(n) } else { Seq::empty() }
}

/// A zone's sample offsets: ` offset=`, ` offset_random=` and ` end=`, each where not
/// 0, then ` direction=reverse` where it plays backwards.
pub open spec fn offsets_text(p: ZonePlayback) -> Seq<char> {
    nonzero_text(" offset="@, p.start_offset as nat) + nonzero_text(" offset_random="@, p.offset_random as nat)
        + nonzero_text(" end="@, p.end_offset as nat)
        + (if p.reverse { " direction=reverse"@ } else { Seq::empty() })
}

/// A zone's trigger mode: nothing for a normal one, else ` loop_mode=one_shot`,
/// ` trigger=release`, ` trigger=first` or ` trigger=legato`.
pub open spec fn play_mode_text(m: SamplePlayMode) -> Seq<char> {
    match m {
        SamplePlayMode::Normal => Seq::empty(),
        SamplePlayMode::OneShot => " loop_mode=one_shot"@,
        SamplePlayMode::OnRelease => " trigger=release"@,
        SamplePlayMode::First => " trigger=first"@,
        SamplePlayMode::Legato => " trigger=legato"@,
    }
}

/// A zone's loop, where it loops and is not one-shot: its mode, its start and end,
/// its crossfade and count where not 0, and ` loop_direction=alternate` where so.
pub open spec fn loop_text(p: ZonePlayback) -> Seq<char> {
    if p.loop_mode != LoopMode::Off && p.play_mode != SamplePlayMode::OneShot {
        (if p.loop_mode == LoopMode::WhileGated { " loop_mode=loop_sustain"@ } else { " loop_mode=loop_continuous"@ })
            + " loop_start="@ + decimal_text(p.loop_start as nat) + " loop_end="@ + decimal_text(p.loop_end as nat)
            + nonzero_text(" loop_crossfade="@, p.loop_crossfade as nat)
            + nonzero_text(" loop_count="@, p.loop_count as nat)
            + (if p.loop_direction == LoopDirection::Alternate { " loop_direction=alternate"@ } else { Seq::empty() })
    } else {
        Seq::empty()
    }
}

/// A zone's round robin, cut-off group, output and stop mode, then its play count:
/// each where not neutral (` off_mode=normal` where it stops normally).
pub open spec fn sequence_text(p: ZonePlayback) -> Seq<char> {
    nonzero_text(" seq_length="@, p.seq_length as nat) + nonzero_text(" seq_position="@, p.seq_position as nat)
        + nonzero_text(" off_by="@, p.off_by as nat) + nonzero_text(" output="@, p.output as nat)
        + (if p.off_mode == OffMode::Normal { " off_mode=normal"@ } else { Seq::empty() })
        + nonzero_text(" count="@, p.count as nat)
}

/// A zone's playback opcodes, in the order they are written.
pub open spec fn playback_text(p: ZonePlayback) -> Seq<char> {
    offsets_text(p) + play_mode_text(p.play_mode) + loop_text(p) + sequence_text(p)
}

/// The SFZ opcodes of a zone's mapping and playback, each led by a space: the key
/// range, the velocity range and curve, the crossfades, the channel and pitch-bend
/// ranges and the controller conditions, then the playback opcodes.
pub open spec fn key_mapping_text(z: Zone) -> Seq<char> {
    key_range_text(z) + velocity_text(z) + fades_text(z) + gates_text(z) + playback_text(z.playback)
}

fn push_str(out: &mut Vec<char>, s: &str)
    ensures
        final(out)@ == old(out)@ + s@,
{
    let c = chars_of(s);
    push_all(out, c.as_slice());
}

fn push_opcode(out: &mut Vec<char>, label: &str, n: u8)
    ensures
        final(out)@ == old(out)@ + label@ + dec(n),
{
    push_str(out, label);
    push_decimal(out, n as u64);
}

fn push_fade(out: &mut Vec<char>, lo: &str, hi: &str, pair: Option<(u8, u8)>, from_width: Option<(u8, u8)>)
    ensures
        final(out)@ == old(out)@ + fade_text(lo@, hi@, pair, from_width),
{
    let range = match pair {
        Some(p) => Some(p),
        None => from_width,
    };
    if let Some((low, high)) = range {
        push_opcode(out, lo, low);
        push_opcode(out, hi, high);
    }
    assert(out@ =~= old(out)@ + fade_text(lo@, hi@, pair, from_width));
}

fn fade_in_range(edge: u8, w: u8) -> (r: Option<(u8, u8)>)
    ensures
        r == fade_in_from(edge, w),
{
    if w != 0 {
        let top = edge.saturating_add(w);
        Some((edge, if top > 127 { 127 } else { top }))
    } else {
        None
    }
}

fn fade_out_range(edge: u8, w: u8) -> (r: Option<(u8, u8)>)
    ensures
        r == fade_out_to(edge, w),
{
    if w != 0 {
        Some((edge.saturating_sub(w), edge))
    } else {
        None
    }
}

fn push_key_range(output: &mut Vec<char>, zone: &Zone)
    ensures
        final(output)@ == old(output)@ + key_range_text(*zone),
{
    if zone.key_low == zone.key_high && zone.root_key == zone.key_low {
        push_opcode(output, " key=", zone.key_low);
    } else {
        push_opcode(output, " lokey=", zone.key_low);
        push_opcode(output, " hikey=", zone.key_high);
        if zone.root_key != 60 {
            push_opcode(output, " pitch_keycenter=", zone.root_key);
        }
    }
    assert(output@ =~= old(output)@ + key_range_text(*zone));
}

fn push_velocity(output: &mut Vec<char>, zone: &Zone)
    ensures
        final(output)@ == old(output)@ + velocity_text(*zone),
{
    if zone.vel_low != 0 {
        push_opcode(output, " lovel=", zone.vel_low);
    }
    if zone.vel_high != 127 {
        push_opcode(output, " hivel=", zone.vel_high);
    }
    if zone.velocity_curve != CurveType::Linear {
        push_str(output, " velcurve=");
        push_str(output, export_curve_type(zone.velocity_curve));
    }
    assert(output@ =~= old(output)@ + velocity_text(*zone));
}

fn push_signed(out: &mut Vec<char>, label: &str, n: i16)
    ensures
        final(out)@ == old(out)@ + label@ + signed_text(n as int),
{
    push_str(out, label);
    if n < 0 {
        push_str(out, "-");
        let m: i32 = -(n as i32);
        push_decimal(out, m as u64);
    } else {
        push_decimal(out, n as u64);
    }
    assert(out@ =~= old(out)@ + label@ + signed_text(n as int));
}

fn push_fades(output: &mut Vec<char>, zone: &Zone)
    ensures
        final(output)@ == old(output)@ + fades_text(*zone),
{
    let ghost start = output@;
    push_fade(output, " xfin_lokey=", " xfin_hikey=", zone.key_fade_in, fade_in_range(zone.key_low, zone.key_fade_low));
    push_fade(output, " xfout_lokey=", " xfout_hikey=", zone.key_fade_out, fade_out_range(zone.key_high, zone.key_fade_high));
    push_fade(output, " xfin_lovel=", " xfin_hivel=", zone.vel_fade_in, fade_in_range(zone.vel_low, zone.vel_fade_low));
    push_fade(output, " xfout_lovel=", " xfout_hivel=", zone.vel_fade_out, fade_out_range(zone.vel_high, zone.vel_fade_high));
    assert(output@ =~= start + fades_text(*zone));
}

fn push_conditions(output: &mut Vec<char>, conditions: &Vec<CcCondition>)
    ensures
        final(output)@ == old(output)@ + conditions_text(conditions@),
{
    let mut i: usize = 0;
    while i < conditions.len()
        invariant
            i <= conditions@.len(),
            output@ == old(output)@ + conditions_text(conditions@.subrange(0, i as int)),
        decreases conditions@.len() - i,
    {
        let ghost before = output@;
        let c = conditions[i];
        assert(conditions@.subrange(0, i + 1).drop_last() =~= conditions@.subrange(0, i as int));
        if c.low != 0 {
            push_str(output, " locc");
            push_decimal(output, c.cc as u64);
            push_opcode(output, "=", c.low);
        }
        if c.high != 127 {
            push_str(output, " hicc");
            push_decimal(output, c.cc as u64);
            push_opcode(output, "=", c.high);
        }
        assert(output@ =~= before
            + (if c.low != 0 { " locc"@ + dec(c.cc) + "="@ + dec(c.low) } else { Seq::empty() })
            + (if c.high != 127 { " hicc"@ + dec(c.cc) + "="@ + dec(c.high) } else { Seq::empty() }));
        i = i + 1;
    }
    assert(conditions@.subrange(0, i as int) =~= conditions@);
}

fn push_channels(output: &mut Vec<char>, zone: &Zone)
    ensures
        final(output)@ == old(output)@ + channel_text(*zone),
{
    if zone.channel_low != 1 {
        push_opcode(output, " lochan=", zone.channel_low);
    }
    if zone.channel_high != 16 {
        push_opcode(output, " hichan=", zone.channel_high);
    }
    assert(output@ =~= old(output)@ + channel_text(*zone));
}

fn push_bends(output: &mut Vec<char>, zone: &Zone)
    ensures
        final(output)@ == old(output)@ + bend_text(*zone),
{
    if zone.pitch_bend_low != -8192 {
        push_signed(output, " lobend=", zone.pitch_bend_low);
    }
    if zone.pitch_bend_high != 8192 {
        push_signed(output, " hibend=", zone.pitch_bend_high);
    }
    assert(output@ =~= old(output)@ + bend_text(*zone));
}

fn push_gates(output: &mut Vec<char>, zone: &Zone)
    ensures
        final(output)@ == old(output)@ + gates_text(*zone),
{
    let ghost start = output@;
    push_channels(output, zone);
    push_bends(output, zone);
    push_conditions(output, &zone.cc_conditions);
    assert(output@ =~= start + gates_text(*zone));
}

fn push_nonzero(out: &mut Vec<char>, label: &str, n: u64)
    ensures
        final(out)@ == old(out)@ + nonzero_text(label@, n as nat),
{
    if n != 0 {
        push_str(out, label);
        push_decimal(out, n);
    }
    assert(out@ =~= old(out)@ + nonzero_text(label@, n as nat));
}

fn push_offsets(out: &mut Vec<char>, p: ZonePlayback)
    ensures
        final(out)@ == old(out)@ + offsets_text(p),
{
    let ghost start = out@;
    push_nonzero(out, " offset=", p.start_offset as u64);
    push_nonzero(out, " offset_random=", p.offset_random as u64);
    push_nonzero(out, " end=", p.end_offset as u64);
    if p.reverse {
        push_str(out, " direction=reverse");
    }
    assert(out@ =~= start + offsets_text(p));
}

fn push_loop(out: &mut Vec<char>, p: ZonePlayback)
    ensures
        final(out)@ == old(out)@ + loop_text(p),
{
    let ghost start = out@;
    if p.loop_mode != LoopMode::Off && p.play_mode != SamplePlayMode::OneShot {
        if p.loop_mode == LoopMode::WhileGated {
            push_str(out, " loop_mode=loop_sustain");
        } else {
            push_str(out, " loop_mode=loop_continuous");
        }
        push_str(out, " loop_start=");
        push_decimal(out, p.loop_start as u64);
        push_str(out, " loop_end=");
        push_decimal(out, p.loop_end as u64);
        push_nonzero(out, " loop_crossfade=", p.loop_crossfade as u64);
        push_nonzero(out, " loop_count=", p.loop_count as u64);
        if p.loop_direction == LoopDirection::Alternate {
            push_str(out, " loop_direction=alternate");
        }
    }
    assert(out@ =~= start + loop_text(p));
}

fn push_sequence(out: &mut Vec<char>, p: ZonePlayback)
    ensures
        final(out)@ == old(out)@ + sequence_text(p),
{
    let ghost start = out@;
    push_nonzero(out, " seq_length=", p.seq_length as u64);
    push_nonzero(out, " seq_position=", p.seq_position as u64);
    push_nonzero(out, " off_by=", p.off_by as u64);
    push_nonzero(out, " output=", p.output as u64);
    if p.off_mode == OffMode::Normal {
        push_str(out, " off_mode=normal");
    }
    push_nonzero(out, " count=", p.count as u64);
    assert(out@ =~= start + sequence_text(p));
}

fn push_play_mode(out: &mut Vec<char>, m: SamplePlayMode)
    ensures
        final(out)@ == old(out)@ + play_mode_text(m),
{
    match m {
        SamplePlayMode::Normal => {},
        SamplePlayMode::OneShot => push_str(out, " loop_mode=one_shot"),
        SamplePlayMode::OnRelease => push_str(out, " trigger=release"),
        SamplePlayMode::First => push_str(out, " trigger=first"),
        SamplePlayMode::Legato => push_str(out, " trigger=legato"),
    }
    assert(out@ =~= old(out)@ + play_mode_text(m));
}

fn push_playback(out: &mut Vec<char>, p: ZonePlayback)
    ensures
        final(out)@ == old(out)@ + playback_text(p),
{
    let ghost s0 = out@;
    push_offsets(out, p);
    let ghost s1 = out@;
    push_play_mode(out, p.play_mode);
    let ghost s2 = out@;
    push_loop(out, p);
    let ghost s3 = out@;
    push_sequence(out, p);
    proof {
        let a = offsets_text(p);
        let b = play_mode_text(p.play_mode);
        let c = loop_text(p);
        let d = sequence_text(p);
        assert(out@ == s0 + a + b + c + d);
        assert(s0 + a + b + c + d =~= s0 + (a + b + c + d));
    }
}

/// Appends the SFZ opcodes of the mapping and playback of `zone` to `output`, as
/// `key_mapping_text` states.
pub fn push_export_key_mapping(output: &mut Vec<char>, zone: &Zone)
    ensures
        final(output)@ == old(output)@ + key_mapping_text(*zone),
{
    let ghost start = output@;
    push_key_range(output, zone);
    push_velocity(output, zone);
    push_fades(output, zone);
    push_gates(output, zone);
    push_playback(output, zone.playback);
    assert(output@ =~= start + key_mapping_text(*zone));
}

/// The extra opcodes written after a header: ` key=value` for each opcode whose key
/// is not a vendor opcode, in order.
pub open spec fn extra_opcodes_text(ops: Seq<(Seq<char>, Seq<char>)>) -> Seq<char>
    decreases ops.len(),
{
    if ops.len() == 0 {
        Seq::empty()
    } else {
        let prev = extra_opcodes_text(ops.drop_last());
        let (k, v) = ops.last();
        if is_vendor_opcode(k) {
            prev
        } else {
            prev + " "@ + k + "="@ + v
        }
    }
}

/// Appends the extra opcodes `opcodes` to `output`, as `extra_opcodes_text` states.
pub fn push_extra_sfz_opcodes(output: &mut Vec<char>, opcodes: &[(String, String)])
    ensures
        final(output)@ == old(output)@ + extra_opcodes_text(pairs_view(opcodes@)),
{
    let mut i: usize = 0;
    while i < opcodes.len()
        invariant
            i <= opcodes@.len(),
            output@ == old(output)@ + extra_opcodes_text(pairs_view(opcodes@.subrange(0, i as int))),
        decreases opcodes@.len() - i,
    {
        let ghost before = output@;
        assert(pairs_view(opcodes@.subrange(0, i + 1)).drop_last() =~= pairs_view(opcodes@.subrange(0, i as int)));
        let (key, value) = &opcodes[i];
        if is_non_vendor_sfz_opcode(key.as_str()) {
            push_str(output, " ");
            push_str(output, key.as_str());
            push_str(output, "=");
            push_str(output, value.as_str());
            assert(output@ =~= before + " "@ + key@ + "="@ + value@);
        }
        i = i + 1;
    }
    assert(opcodes@.subrange(0, i as int) =~= opcodes@);
}

/// A keyswitch opcode ` label=N`, where the group has that keyswitch.
pub open spec fn sw_text(label: Seq<char>, note: Option<u8>) -> Seq<char> {
    match note {
        Some(n) => label + dec(n),
        None => Seq::empty(),
    }
}

/// A group's voice limit, exclusive group and output, each where not 0.
pub open spec fn group_limits_text(g: Group) -> Seq<char> {
    (if g.poly_limit != 0 { " polyphony="@ + decimal_text(g.poly_limit as nat) } else { Seq::empty() })
        + (if g.exclusive_group != 0 { " group="@ + dec(g.exclusive_group) } else { Seq::empty() })
        + (if g.output != 0 { " output="@ + dec(g.output) } else { Seq::empty() })
}

/// A group's keyswitches, each it has, then its keyswitch label.
pub open spec fn keyswitch_text(g: Group) -> Seq<char> {
    sw_text(" sw_last="@, g.sw_last)
        + sw_text(" sw_down="@, g.sw_down)
        + sw_text(" sw_up="@, g.sw_up)
        + sw_text(" sw_previous="@, g.sw_previous)
        + sw_text(" sw_lolast="@, g.sw_lolast)
        + sw_text(" sw_hilast="@, g.sw_hilast)
        + sw_text(" sw_default="@, g.sw_default)
        + (match g.sw_label {
            Some(l) => " sw_label="@ + l@,
            None => Seq::empty(),
        })
}

/// The `<group>` header of a group with the opcodes the group model holds: its voice
/// limit, exclusive group and output where not 0, each keyswitch it has, its keyswitch
/// label, then its extra opcodes.
pub open spec fn group_header_text(g: Group) -> Seq<char> {
    "<group>"@ + group_limits_text(g) + keyswitch_text(g) + extra_opcodes_text(pairs_view(g.extra_sfz_opcodes@))
}

fn push_sw(output: &mut Vec<char>, label: &str, note: Option<u8>)
    ensures
        final(output)@ == old(output)@ + sw_text(label@, note),
{
    if let Some(n) = note {
        push_opcode(output, label, n);
    }
    assert(output@ =~= old(output)@ + sw_text(label@, note));
}

fn push_group_limits(output: &mut Vec<char>, group: &Group)
    ensures
        final(output)@ == old(output)@ + group_limits_text(*group),
{
    let ghost start = output@;
    if group.poly_limit != 0 {
        push_str(output, " polyphony=");
        push_decimal(output, group.poly_limit as u64);
    }
    if group.exclusive_group != 0 {
        push_opcode(output, " group=", group.exclusive_group);
    }
    if group.output != 0 {
        push_opcode(output, " output=", group.output);
    }
    assert(output@ =~= start + group_limits_text(*group));
}

fn push_keyswitches(output: &mut Vec<char>, group: &Group)
    ensures
        final(output)@ == old(output)@ + keyswitch_text(*group),
{
    let ghost start = output@;
    push_sw(output, " sw_last=", group.sw_last);
    push_sw(output, " sw_down=", group.sw_down);
    push_sw(output, " sw_up=", group.sw_up);
    push_sw(output, " sw_previous=", group.sw_previous);
    push_sw(output, " sw_lolast=", group.sw_lolast);
    push_sw(output, " sw_hilast=", group.sw_hilast);
    push_sw(output, " sw_default=", group.sw_default);
    if let Some(label) = &group.sw_label {
        push_str(output, " sw_label=");
        push_str(output, label.as_str());
    }
    assert(output@ =~= start + keyswitch_text(*group));
}

/// Appends the `<group>` header of `group` to `output`, as `group_header_text` states.
pub fn push_export_group_header(output: &mut Vec<char>, group: &Group)
    ensures
        final(output)@ == old(output)@ + group_header_text(*group),
{
    let ghost start = output@;
    push_str(output, "<group>");
    push_group_limits(output, group);
    push_keyswitches(output, group);
    push_extra_sfz_opcodes(output, group.extra_sfz_opcodes.as_slice());
    assert(output@ =~= start + group_header_text(*group));
}

/// The SFZ opcodes of the key and velocity mapping of `zone`, as `key_mapping_text`
/// states.
pub fn export_key_mapping(zone: &Zone) -> (s: String)
    ensures
        s@ == key_mapping_text(*zone),
{
    let mut out: Vec<char> = Vec::new();
    push_export_key_mapping(&mut out, zone);
    assert(out@ =~= key_mapping_text(*zone));
    string_of(out.as_slice())
}

} // verus!
