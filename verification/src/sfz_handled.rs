//! The opcodes the group and region builders read themselves; every other
//! non-vendor opcode of a group or region is kept as an extra opcode.

use vstd::prelude::*;
use crate::sfz_opcode_map::{is_extra, pairs_view, seq_lt, OpcodeMap};

verus! {

/// The opcodes the group builder reads.
pub open spec fn group_handled() -> Seq<Seq<char>> {
    seq![
        "default_path"@,
        "output"@,
        "sw_last"@,
        "sw_down"@,
        "sw_up"@,
        "sw_previous"@,
        "sw_lolast"@,
        "sw_hilast"@,
        "sw_default"@,
        "sw_label"@,
        "polyphony"@,
        "group"@,
        "group_volume"@,
        "group_pan"@,
        "ampeg_attack"@,
        "ampeg_decay"@,
        "ampeg_sustain"@,
        "ampeg_release"@,
        "ampeg_delay"@,
        "ampeg_hold"@,
        "ampeg_start"@,
        "ampeg_end"@,
        "ampeg_vel2attack"@,
        "ampeg_vel2decay"@,
        "ampeg_vel2sustain"@,
        "ampeg_vel2release"@,
        "ampeg_vel2delay"@,
        "ampeg_vel2hold"@,
        "ampeg_vel2start"@,
        "ampeg_vel2end"@,
        "ampeg_key2attack"@,
        "ampeg_key2decay"@,
        "ampeg_key2sustain"@,
        "ampeg_key2release"@,
        "ampeg_key2delay"@,
        "ampeg_key2hold"@,
        "ampeg_key2start"@,
        "ampeg_key2end"@,
        "ampeg_attack_shape"@,
        "ampeg_decay_shape"@,
        "ampeg_release_shape"@,
        "fileg_attack"@,
        "fileg_decay"@,
        "fileg_sustain"@,
        "fileg_release"@,
        "fileg_delay"@,
        "fileg_hold"@,
        "fileg_start"@,
        "fileg_end"@,
        "fileg_vel2attack"@,
        "fileg_vel2decay"@,
        "fileg_vel2sustain"@,
        "fileg_vel2release"@,
        "fileg_vel2delay"@,
        "fileg_vel2hold"@,
        "fileg_vel2start"@,
        "fileg_vel2end"@,
        "fileg_key2attack"@,
        "fileg_key2decay"@,
        "fileg_key2sustain"@,
        "fileg_key2release"@,
        "fileg_key2delay"@,
        "fileg_key2hold"@,
        "fileg_key2start"@,
        "fileg_key2end"@,
        "fileg_attack_shape"@,
        "fileg_decay_shape"@,
        "fileg_release_shape"@,
        "amplfo_freq"@,
        "amplfo_depth"@,
        "amplfo_delay"@,
        "amplfo_fade"@,
        "amplfo_wave"@,
        "amplfo_phase"@,
        "amplfo_trigger"@,
        "amplfo_sync"@,
        "fillfo_freq"@,
        "fillfo_depth"@,
        "fillfo_delay"@,
        "fillfo_fade"@,
        "fillfo_wave"@,
        "fillfo_phase"@,
        "fillfo_trigger"@,
        "fillfo_sync"@,
        "pitchlfo_freq"@,
        "pitchlfo_depth"@,
        "pitchlfo_delay"@,
        "pitchlfo_fade"@,
        "pitchlfo_wave"@,
        "pitchlfo_phase"@,
        "pitchlfo_trigger"@,
        "pitchlfo_sync"@,
        "lfo01_freq"@,
        "lfo01_depth"@,
        "lfo01_delay"@,
        "lfo01_fade"@,
        "lfo01_wave"@,
        "lfo01_phase"@,
        "lfo01_trigger"@,
        "lfo01_sync"@,
        "cutoff"@,
        "resonance"@,
        "fil_type"@,
        "fil_keytrack"@,
        "fil_veltrack"@,
        "fil_subtype"@,
    ]
}

/// The opcodes the region builder reads, its own followed by the group builder's.
pub open spec fn zone_handled() -> Seq<Seq<char>> {
    seq![
        "default_path"@,
        "output"@,
        "sample"@,
        "key"@,
        "lokey"@,
        "hikey"@,
        "pitch_keycenter"@,
        "keylabel"@,
        "lovel"@,
        "hivel"@,
        "lochan"@,
        "hichan"@,
        "lobend"@,
        "hibend"@,
        "velcurve"@,
        "xfin_lokey"@,
        "xfin_hikey"@,
        "xfout_lokey"@,
        "xfout_hikey"@,
        "xfin_lovel"@,
        "xfin_hivel"@,
        "xfout_lovel"@,
        "xfout_hivel"@,
        "tune"@,
        "transpose"@,
        "keytracking"@,
        "bend_up"@,
        "bend_down"@,
        "volume"@,
        "pan"@,
        "width"@,
        "position"@,
        "amp_keytrack"@,
        "amp_veltrack"@,
        "offset"@,
        "offset_random"@,
        "end"@,
        "delay"@,
        "delay_random"@,
        "count"@,
        "direction"@,
        "trigger"@,
        "loop_mode"@,
        "loop_start"@,
        "loop_end"@,
        "loop_crossfade"@,
        "loop_count"@,
        "loop_direction"@,
        "seq_length"@,
        "seq_position"@,
        "lorand"@,
        "hirand"@,
        "off_by"@,
        "off_mode"@,
    ] + group_handled()
}

fn group_handled_array() -> (r: [&'static str; 106])
    ensures
        Seq::new(r@.len(), |i: int| r@[i]@) == group_handled(),
{
    let r = [
        "default_path",
        "output",
        "sw_last",
        "sw_down",
        "sw_up",
        "sw_previous",
        "sw_lolast",
        "sw_hilast",
        "sw_default",
        "sw_label",
        "polyphony",
        "group",
        "group_volume",
        "group_pan",
        "ampeg_attack",
        "ampeg_decay",
        "ampeg_sustain",
        "ampeg_release",
        "ampeg_delay",
        "ampeg_hold",
        "ampeg_start",
        "ampeg_end",
        "ampeg_vel2attack",
        "ampeg_vel2decay",
        "ampeg_vel2sustain",
        "ampeg_vel2release",
        "ampeg_vel2delay",
        "ampeg_vel2hold",
        "ampeg_vel2start",
        "ampeg_vel2end",
        "ampeg_key2attack",
        "ampeg_key2decay",
        "ampeg_key2sustain",
        "ampeg_key2release",
        "ampeg_key2delay",
        "ampeg_key2hold",
        "ampeg_key2start",
        "ampeg_key2end",
        "ampeg_attack_shape",
        "ampeg_decay_shape",
        "ampeg_release_shape",
        "fileg_attack",
        "fileg_decay",
        "fileg_sustain",
        "fileg_release",
        "fileg_delay",
        "fileg_hold",
        "fileg_start",
        "fileg_end",
        "fileg_vel2attack",
        "fileg_vel2decay",
        "fileg_vel2sustain",
        "fileg_vel2release",
        "fileg_vel2delay",
        "fileg_vel2hold",
        "fileg_vel2start",
        "fileg_vel2end",
        "fileg_key2attack",
        "fileg_key2decay",
        "fileg_key2sustain",
        "fileg_key2release",
        "fileg_key2delay",
        "fileg_key2hold",
        "fileg_key2start",
        "fileg_key2end",
        "fileg_attack_shape",
        "fileg_decay_shape",
        "fileg_release_shape",
        "amplfo_freq",
        "amplfo_depth",
        "amplfo_delay",
        "amplfo_fade",
        "amplfo_wave",
        "amplfo_phase",
        "amplfo_trigger",
        "amplfo_sync",
        "fillfo_freq",
        "fillfo_depth",
        "fillfo_delay",
        "fillfo_fade",
        "fillfo_wave",
        "fillfo_phase",
        "fillfo_trigger",
        "fillfo_sync",
        "pitchlfo_freq",
        "pitchlfo_depth",
        "pitchlfo_delay",
        "pitchlfo_fade",
        "pitchlfo_wave",
        "pitchlfo_phase",
        "pitchlfo_trigger",
        "pitchlfo_sync",
        "lfo01_freq",
        "lfo01_depth",
        "lfo01_delay",
        "lfo01_fade",
        "lfo01_wave",
        "lfo01_phase",
        "lfo01_trigger",
        "lfo01_sync",
        "cutoff",
        "resonance",
        "fil_type",
        "fil_keytrack",
        "fil_veltrack",
        "fil_subtype",
    ];
    assert(Seq::new(r@.len(), |i: int| r@[i]@) =~= group_handled());
    r
}

/// The opcodes a group keeps beyond those its builder reads: the non-vendor ones, in
/// increasing order of name.
pub fn group_extra_opcodes(opcodes: &OpcodeMap) -> (r: Vec<(String, String)>)
    ensures
        forall|i: int, j: int| 0 <= i < j < r@.len() ==> seq_lt(r@[i].0@, r@[j].0@),
        forall|k: Seq<char>, v: Seq<char>| #[trigger] pairs_view(r@).contains((k, v)) <==> (opcodes@.dom().contains(k)
            && opcodes@[k] == v && is_extra(k, group_handled())),
{
    let handled = group_handled_array();
    opcodes.extra_opcodes(&handled)
}

/// The opcodes a region keeps beyond those its builder reads: the non-vendor ones,
/// in increasing order of name.
pub fn zone_extra_opcodes(opcodes: &OpcodeMap) -> (r: Vec<(String, String)>)
    ensures
        forall|i: int, j: int| 0 <= i < j < r@.len() ==> seq_lt(r@[i].0@, r@[j].0@),
        forall|k: Seq<char>, v: Seq<char>| #[trigger] pairs_view(r@).contains((k, v)) <==> (opcodes@.dom().contains(k)
            && opcodes@[k] == v && is_extra(k, zone_handled())),
{
    let r = [
        "default_path",
        "output",
        "sample",
        "key",
        "lokey",
        "hikey",
        "pitch_keycenter",
        "keylabel",
        "lovel",
        "hivel",
        "lochan",
        "hichan",
        "lobend",
        "hibend",
        "velcurve",
        "xfin_lokey",
        "xfin_hikey",
        "xfout_lokey",
        "xfout_hikey",
        "xfin_lovel",
        "xfin_hivel",
        "xfout_lovel",
        "xfout_hivel",
        "tune",
        "transpose",
        "keytracking",
        "bend_up",
        "bend_down",
        "volume",
        "pan",
        "width",
        "position",
        "amp_keytrack",
        "amp_veltrack",
        "offset",
        "offset_random",
        "end",
        "delay",
        "delay_random",
        "count",
        "direction",
        "trigger",
        "loop_mode",
        "loop_start",
        "loop_end",
        "loop_crossfade",
        "loop_count",
        "loop_direction",
        "seq_length",
        "seq_position",
        "lorand",
        "hirand",
        "off_by",
        "off_mode",
        "default_path",
        "output",
        "sw_last",
        "sw_down",
        "sw_up",
        "sw_previous",
        "sw_lolast",
        "sw_hilast",
        "sw_default",
        "sw_label",
        "polyphony",
        "group",
        "group_volume",
        "group_pan",
        "ampeg_attack",
        "ampeg_decay",
        "ampeg_sustain",
        "ampeg_release",
        "ampeg_delay",
        "ampeg_hold",
        "ampeg_start",
        "ampeg_end",
        "ampeg_vel2attack",
        "ampeg_vel2decay",
        "ampeg_vel2sustain",
        "ampeg_vel2release",
        "ampeg_vel2delay",
        "ampeg_vel2hold",
        "ampeg_vel2start",
        "ampeg_vel2end",
        "ampeg_key2attack",
        "ampeg_key2decay",
        "ampeg_key2sustain",
        "ampeg_key2release",
        "ampeg_key2delay",
        "ampeg_key2hold",
        "ampeg_key2start",
        "ampeg_key2end",
        "ampeg_attack_shape",
        "ampeg_decay_shape",
        "ampeg_release_shape",
        "fileg_attack",
        "fileg_decay",
        "fileg_sustain",
        "fileg_release",
        "fileg_delay",
        "fileg_hold",
        "fileg_start",
        "fileg_end",
        "fileg_vel2attack",
        "fileg_vel2decay",
        "fileg_vel2sustain",
        "fileg_vel2release",
        "fileg_vel2delay",
        "fileg_vel2hold",
        "fileg_vel2start",
        "fileg_vel2end",
        "fileg_key2attack",
        "fileg_key2decay",
        "fileg_key2sustain",
        "fileg_key2release",
        "fileg_key2delay",
        "fileg_key2hold",
        "fileg_key2start",
        "fileg_key2end",
        "fileg_attack_shape",
        "fileg_decay_shape",
        "fileg_release_shape",
        "amplfo_freq",
        "amplfo_depth",
        "amplfo_delay",
        "amplfo_fade",
        "amplfo_wave",
        "amplfo_phase",
        "amplfo_trigger",
        "amplfo_sync",
        "fillfo_freq",
        "fillfo_depth",
        "fillfo_delay",
        "fillfo_fade",
        "fillfo_wave",
        "fillfo_phase",
        "fillfo_trigger",
        "fillfo_sync",
        "pitchlfo_freq",
        "pitchlfo_depth",
        "pitchlfo_delay",
        "pitchlfo_fade",
        "pitchlfo_wave",
        "pitchlfo_phase",
        "pitchlfo_trigger",
        "pitchlfo_sync",
        "lfo01_freq",
        "lfo01_depth",
        "lfo01_delay",
        "lfo01_fade",
        "lfo01_wave",
        "lfo01_phase",
        "lfo01_trigger",
        "lfo01_sync",
        "cutoff",
        "resonance",
        "fil_type",
        "fil_keytrack",
        "fil_veltrack",
        "fil_subtype",
    ];
    assert(Seq::new(r@.len(), |i: int| r@[i]@) =~= zone_handled());
    opcodes.extra_opcodes(&r)
}

} // verus!
