//! Classification of SFZ opcode names.

use vstd::prelude::*;
use crate::sfz_numbers::{parse_digits_bounded, unsigned_text_value};
use crate::text::{chars_of, chars_eq_str, chars_to_ascii_lower, lower_ascii_seq};

verus! {

/// `p` is a prefix of `s`.
pub open spec fn is_prefix(p: Seq<char>, s: Seq<char>) -> bool {
    p.len() <= s.len() && s.subrange(0, p.len() as int) == p
}

/// Whether the characters `p` begin the characters `s`.
pub fn starts_with_str(s: &[char], p: &str) -> (r: bool)
    ensures
        r == is_prefix(p@, s@),
{
    let pv = chars_of(p);
    if pv.len() > s.len() {
        return false;
    }
    let mut i: usize = 0;
    while i < pv.len()
        invariant
            pv@ == p@,
            pv@.len() <= s@.len(),
            i <= pv@.len(),
            forall|k: int| 0 <= k < i ==> s@[k] == pv@[k],
        decreases pv@.len() - i,
    {
        if s[i] != pv[i] {
            assert(s@.subrange(0, pv@.len() as int)[i as int] != pv@[i as int]);
            return false;
        }
        i = i + 1;
    }
    assert(s@.subrange(0, pv@.len() as int) =~= pv@);
    true
}

/// Opcode names (lower-cased) that belong to particular players and are not kept
/// when a patch is written back as SFZ.
pub open spec fn is_vendor_exact(l: Seq<char>) -> bool {
    l == "script"@
        || l == "include"@
        || l == "hint"@
        || l == "global_label"@
        || l == "master_label"@
        || l == "group_label"@
        || l == "region_label"@
        || l == "polyphony_group"@
        || l == "polyphony_stealing"@
        || l == "off_curve"@
        || l == "off_shape"@
        || l == "off_time"@
        || l == "sostenuto_cc"@
        || l == "sostenuto_lo"@
        || l == "sustain_cc"@
        || l == "sustain_lo"@
        || l == "sw_label"@
        || l == "sw_note_offset"@
        || l == "sw_octave_offset"@
        || l == "loop_end_offset"@
        || l == "loopcount"@
        || l == "loopend"@
        || l == "loopstart"@
        || l == "looptune"@
        || l == "looptype"@
        || l == "offby"@
        || l == "offset_mode"@
}

/// Prefixes of opcode names (lower-cased) that belong to particular players.
pub open spec fn has_vendor_prefix(l: Seq<char>) -> bool {
    is_prefix("hint_"@, l)
        || is_prefix("label_cc"@, l)
        || is_prefix("label_key"@, l)
        || is_prefix("label_output"@, l)
        || is_prefix("set_hdcc"@, l)
        || is_prefix("set_realcc"@, l)
        || is_prefix("sample_dyn_param"@, l)
        || is_prefix("lohdcc"@, l)
        || is_prefix("hihdcc"@, l)
        || is_prefix("delay_curvecc"@, l)
        || is_prefix("delay_beats_curvecc"@, l)
        || is_prefix("delay_beats_random"@, l)
        || is_prefix("delay_beats_oncc"@, l)
}

/// A player-specific opcode: its ASCII-lower-cased name is one of the known names or
/// starts with one of the known prefixes.
pub open spec fn is_vendor_opcode(key: Seq<char>) -> bool {
    is_vendor_exact(lower_ascii_seq(key)) || has_vendor_prefix(lower_ascii_seq(key))
}

fn vendor_exact(l: &[char]) -> (r: bool)
    ensures
        r == is_vendor_exact(l@),
{
    chars_eq_str(l, "script")
        || chars_eq_str(l, "include")
        || chars_eq_str(l, "hint")
        || chars_eq_str(l, "global_label")
        || chars_eq_str(l, "master_label")
        || chars_eq_str(l, "group_label")
        || chars_eq_str(l, "region_label")
        || chars_eq_str(l, "polyphony_group")
        || chars_eq_str(l, "polyphony_stealing")
        || chars_eq_str(l, "off_curve")
        || chars_eq_str(l, "off_shape")
        || chars_eq_str(l, "off_time")
        || chars_eq_str(l, "sostenuto_cc")
        || chars_eq_str(l, "sostenuto_lo")
        || chars_eq_str(l, "sustain_cc")
        || chars_eq_str(l, "sustain_lo")
        || chars_eq_str(l, "sw_label")
        || chars_eq_str(l, "sw_note_offset")
        || chars_eq_str(l, "sw_octave_offset")
        || chars_eq_str(l, "loop_end_offset")
        || chars_eq_str(l, "loopcount")
        || chars_eq_str(l, "loopend")
        || chars_eq_str(l, "loopstart")
        || chars_eq_str(l, "looptune")
        || chars_eq_str(l, "looptype")
        || chars_eq_str(l, "offby")
        || chars_eq_str(l, "offset_mode")
}

fn vendor_prefix(l: &[char]) -> (r: bool)
    ensures
        r == has_vendor_prefix(l@),
{
    starts_with_str(l, "hint_")
        || starts_with_str(l, "label_cc")
        || starts_with_str(l, "label_key")
        || starts_with_str(l, "label_output")
        || starts_with_str(l, "set_hdcc")
        || starts_with_str(l, "set_realcc")
        || starts_with_str(l, "sample_dyn_param")
        || starts_with_str(l, "lohdcc")
        || starts_with_str(l, "hihdcc")
        || starts_with_str(l, "delay_curvecc")
        || starts_with_str(l, "delay_beats_curvecc")
        || starts_with_str(l, "delay_beats_random")
        || starts_with_str(l, "delay_beats_oncc")
}

/// Whether `key` names an opcode of a particular player.
pub fn is_vendor_sfz_opcode(key: &str) -> (r: bool)
    ensures
        r == is_vendor_opcode(key@),
{
    let k = chars_of(key);
    is_vendor_key(k.as_slice())
}

/// Whether the characters `key` name an opcode of a particular player.
pub fn is_vendor_key(key: &[char]) -> (r: bool)
    ensures
        r == is_vendor_opcode(key@),
{
    let l = chars_to_ascii_lower(key);
    vendor_exact(l.as_slice()) || vendor_prefix(l.as_slice())
}

/// Whether `key` names a standard SFZ opcode, one that is kept when a patch is
/// written back as SFZ.
pub fn is_non_vendor_sfz_opcode(key: &str) -> (r: bool)
    ensures
        r == !is_vendor_opcode(key@),
{
    !is_vendor_sfz_opcode(key)
}

/// The controller number of a per-controller opcode: `key` is `prefix` followed by
/// unsigned number text whose value is below 128.
pub open spec fn cc_number_spec(key: Seq<char>, prefix: Seq<char>) -> Option<u8> {
    if is_prefix(prefix, key) {
        match unsigned_text_value(key.subrange(prefix.len() as int, key.len() as int)) {
            Some(v) => if v < 128 {
                Some(v as u8)
            } else {
                None
            },
            None => None,
        }
    } else {
        None
    }
}

/// The controller number of opcode `key` with the per-controller `prefix`
/// (such as `locc` in `locc74`), if `key` is one.
pub fn cc_opcode_number(key: &[char], prefix: &str) -> (r: Option<u8>)
    ensures
        r == cc_number_spec(key@, prefix@),
{
    if !starts_with_str(key, prefix) {
        return None;
    }
    let plen = chars_of(prefix).len();
    let mut from = plen;
    if from < key.len() && key[from] == '+' {
        from = from + 1;
    }
    let ghost rest = key@.subrange(plen as int, key@.len() as int);
    proof {
        if plen < key@.len() && key@[plen as int] == '+' {
            assert(rest.subrange(1, rest.len() as int) =~= key@.subrange(plen + 1, key@.len() as int));
        } else {
            assert(rest =~= key@.subrange(from as int, key@.len() as int));
        }
    }
    match parse_digits_bounded(key, from, 255) {
        Some(v) => {
            if v < 128 {
                Some(v as u8)
            } else {
                None
            }
        },
        None => None,
    }
}

/// An opcode that a builder reads itself: one of `handled`, or a per-controller
/// opcode (`loccN`, `hiccN`, `volume_onccN`, `pan_onccN`, `tune_onccN`,
/// `cutoff_onccN`, `resonance_onccN`, `offset_onccN`, `delay_onccN`, `curveccN`).
pub open spec fn is_handled_opcode(key: Seq<char>, handled: Seq<Seq<char>>) -> bool {
    handled.contains(key)
        || cc_number_spec(key, "locc"@) is Some
        || cc_number_spec(key, "hicc"@) is Some
        || cc_number_spec(key, "volume_oncc"@) is Some
        || cc_number_spec(key, "pan_oncc"@) is Some
        || cc_number_spec(key, "tune_oncc"@) is Some
        || cc_number_spec(key, "cutoff_oncc"@) is Some
        || cc_number_spec(key, "resonance_oncc"@) is Some
        || cc_number_spec(key, "offset_oncc"@) is Some
        || cc_number_spec(key, "delay_oncc"@) is Some
        || cc_number_spec(key, "curvecc"@) is Some
}

/// Whether opcode `key` is one of `handled` or a per-controller opcode.
pub fn is_handled_sfz_opcode(key: &[char], handled: &[&str]) -> (r: bool)
    ensures
        r == is_handled_opcode(key@, Seq::new(handled@.len(), |i: int| handled@[i]@)),
{
    let ghost hv = Seq::new(handled@.len(), |i: int| handled@[i]@);
    let mut i: usize = 0;
    while i < handled.len()
        invariant
            i <= handled@.len(),
            hv == Seq::new(handled@.len(), |i: int| handled@[i]@),
            forall|k: int| 0 <= k < i ==> hv[k] != key@,
        decreases handled@.len() - i,
    {
        if chars_eq_str(key, handled[i]) {
            assert(hv[i as int] == key@);
            return true;
        }
        i = i + 1;
    }
    assert(!hv.contains(key@));
    cc_opcode_number(key, "locc").is_some()
        || cc_opcode_number(key, "hicc").is_some()
        || cc_opcode_number(key, "volume_oncc").is_some()
        || cc_opcode_number(key, "pan_oncc").is_some()
        || cc_opcode_number(key, "tune_oncc").is_some()
        || cc_opcode_number(key, "cutoff_oncc").is_some()
        || cc_opcode_number(key, "resonance_oncc").is_some()
        || cc_opcode_number(key, "offset_oncc").is_some()
        || cc_opcode_number(key, "delay_oncc").is_some()
        || cc_opcode_number(key, "curvecc").is_some()
}

} // verus!