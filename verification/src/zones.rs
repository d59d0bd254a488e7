//! The zones and groups the instrument editor works on, and the editor's rules for
//! naming, placing and auditioning them.

use vstd::prelude::*;
use vstd::set_lib::{lemma_int_range, lemma_len_subset, lemma_map_size, set_int_range};
use crate::sfz_numbers::{
    all_digits, decimal_text, format_decimal, lemma_decimal_text, lemma_decimal_text_injective,
    parse_digits_bounded, push_decimal, unsigned_text_value,
};
use crate::zone_conditions::CcCondition;
use crate::zone_modes::{CurveType, ZonePlayback};
use crate::text::{chars_eq_str, chars_of, push_all, string_of};

verus! {

/// A zone as the editor lists it: its name, sample files, key and velocity range,
/// root key, group and crossfade ranges.
#[derive(Debug, Clone)]
pub struct SampleZone {
    pub name: String,
    pub files: Vec<String>,
    pub start_note: usize,
    pub end_note: usize,
    pub vel_low: u8,
    pub vel_high: u8,
    pub root_key: u8,
    pub group: String,
    pub key_fade_in: Option<(u8, u8)>,
    pub key_fade_out: Option<(u8, u8)>,
    pub vel_fade_in: Option<(u8, u8)>,
    pub vel_fade_out: Option<(u8, u8)>,
    pub key_fade_low: u8,
    pub key_fade_high: u8,
    pub vel_fade_low: u8,
    pub vel_fade_high: u8,
    pub velocity_curve: CurveType,
    pub channel_low: u8,
    pub channel_high: u8,
    pub pitch_bend_low: i16,
    pub pitch_bend_high: i16,
    pub cc_conditions: Vec<CcCondition>,
    pub playback: ZonePlayback,
    pub extra_sfz_opcodes: Vec<(String, String)>,
}

/// A group as the editor lists it: its name, voice limit, exclusive group and the
/// SFZ opcodes it carries unchanged.
#[derive(Debug, Clone)]
pub struct SampleGroup {
    pub name: String,
    pub poly_limit: usize,
    pub exclusive_group: u8,
    pub output: u8,
    pub sw_last: Option<u8>,
    pub sw_down: Option<u8>,
    pub sw_up: Option<u8>,
    pub sw_previous: Option<u8>,
    pub sw_lolast: Option<u8>,
    pub sw_hilast: Option<u8>,
    pub sw_default: Option<u8>,
    pub sw_label: Option<String>,
    pub extra_sfz_opcodes: Vec<(String, String)>,
}

impl SampleZone {
    /// A zone with the given name, files, key and velocity range and group; its root
    /// key is middle C and it has no crossfades.
    pub fn new_basic(
        name: String,
        files: Vec<String>,
        start_note: usize,
        end_note: usize,
        vel_low: u8,
        vel_high: u8,
        group: String,
    ) -> (z: Self)
        ensures
            z.name == name,
            z.files == files,
            z.start_note == start_note,
            z.end_note == end_note,
            z.vel_low == vel_low,
            z.vel_high == vel_high,
            z.root_key == 60,
            z.group == group,
            z.key_fade_in is None,
            z.key_fade_out is None,
            z.vel_fade_in is None,
            z.vel_fade_out is None,
            z.key_fade_low == 0,
            z.key_fade_high == 0,
            z.vel_fade_low == 0,
            z.vel_fade_high == 0,
            z.velocity_curve == CurveType::Linear,
            z.channel_low == 1,
            z.channel_high == 16,
            z.pitch_bend_low == -8192,
            z.pitch_bend_high == 8192,
            z.cc_conditions@.len() == 0,
            z.playback == crate::zone_modes::neutral_playback(),
            z.extra_sfz_opcodes@.len() == 0,
    {
        SampleZone {
            name,
            files,
            start_note,
            end_note,
            vel_low,
            vel_high,
            root_key: 60,
            group,
            key_fade_in: None,
            key_fade_out: None,
            vel_fade_in: None,
            vel_fade_out: None,
            key_fade_low: 0,
            key_fade_high: 0,
            vel_fade_low: 0,
            vel_fade_high: 0,
            velocity_curve: CurveType::Linear,
            channel_low: 1,
            channel_high: 16,
            pitch_bend_low: -8192,
            pitch_bend_high: 8192,
            cc_conditions: Vec::new(),
            playback: ZonePlayback::new(),
            extra_sfz_opcodes: Vec::new(),
        }
    }
}

impl SampleGroup {
    /// A group with the given name, no voice limit, no exclusive group and no extra
    /// opcodes.
    pub fn new(name: String) -> (g: Self)
        ensures
            g.name == name,
            g.poly_limit == 0,
            g.exclusive_group == 0,
            g.output == 0,
            g.sw_last is None,
            g.sw_down is None,
            g.sw_up is None,
            g.sw_previous is None,
            g.sw_lolast is None,
            g.sw_hilast is None,
            g.sw_default is None,
            g.sw_label is None,
            g.extra_sfz_opcodes@.len() == 0,
    {
        SampleGroup {
            name,
            poly_limit: 0,
            exclusive_group: 0,
            output: 0,
            sw_last: None,
            sw_down: None,
            sw_up: None,
            sw_previous: None,
            sw_lolast: None,
            sw_hilast: None,
            sw_default: None,
            sw_label: None,
            extra_sfz_opcodes: Vec::new(),
        }
    }
}

/// The note and velocity the editor plays when a zone is auditioned: the root key
/// held inside the zone's key range (and at most 127), and the middle of its velocity
/// range, at least 1.
pub open spec fn audition_note_spec(start: int, end: int, root: int, vel_low: int, vel_high: int) -> (int, int) {
    let held = if root < start { start } else if root > end { end } else { root };
    let note = if held > 127 { 127 } else { held };
    let mid = vel_low + (vel_high - vel_low) / 2;
    let v = if mid > 255 { 255 } else { mid };
    (note, if v < 1 { 1 } else { v })
}

/// The note and velocity the editor plays to audition a zone, as
/// `audition_note_spec` states. The key range must not be reversed and the velocity
/// range must not be reversed.
pub fn zone_audition_note(zone: &SampleZone) -> (r: (u8, u8))
    requires
        zone.start_note <= zone.end_note,
        zone.vel_low <= zone.vel_high,
    ensures
        r.0 as int == audition_note_spec(zone.start_note as int, zone.end_note as int, zone.root_key as int, zone.vel_low as int, zone.vel_high as int).0,
        r.1 as int == audition_note_spec(zone.start_note as int, zone.end_note as int, zone.root_key as int, zone.vel_low as int, zone.vel_high as int).1,
{
    let root = zone.root_key as usize;
    let held = if root < zone.start_note {
        zone.start_note
    } else if root > zone.end_note {
        zone.end_note
    } else {
        root
    };
    let note: u8 = if held > 127 { 127 } else { held as u8 };
    let velocity = zone.vel_low.saturating_add((zone.vel_high - zone.vel_low) / 2);
    (note, if velocity < 1 { 1 } else { velocity })
}

/// The text shown for an optional note: its number, or `off`.
pub fn note_option_text(note: Option<u8>) -> (s: String)
    ensures
        s@ == (match note {
            Some(n) => decimal_text(n as nat),
            None => "off"@,
        }),
{
    match note {
        Some(n) => {
            let d = format_decimal(n as u64);
            string_of(d.as_slice())
        },
        None => "off".to_owned(),
    }
}

/// A range with both ends in order: the smaller first.
pub open spec fn ordered_pair(a: u8, b: u8) -> (u8, u8) {
    (if a <= b { a } else { b }, if a <= b { b } else { a })
}

/// Sets the low end of an optional range (starting from `default` when there is
/// none), keeping the ends in order.
pub fn set_pair_low(pair: &mut Option<(u8, u8)>, low: u8, default: (u8, u8))
    ensures
        *final(pair) == Some(ordered_pair(low, (match *old(pair) { Some(p) => p, None => default }).1)),
{
    let (_, high) = match *pair {
        Some(p) => p,
        None => default,
    };
    *pair = Some((if low <= high { low } else { high }, if low <= high { high } else { low }));
}

/// Sets the high end of an optional range (starting from `default` when there is
/// none), keeping the ends in order.
pub fn set_pair_high(pair: &mut Option<(u8, u8)>, high: u8, default: (u8, u8))
    ensures
        *final(pair) == Some(ordered_pair((match *old(pair) { Some(p) => p, None => default }).0, high)),
{
    let (low, _) = match *pair {
        Some(p) => p,
        None => default,
    };
    *pair = Some((if low <= high { low } else { high }, if low <= high { high } else { low }));
}

/// An optional range, or `fallback` when there is none.
pub fn fade_pair_value(pair: Option<(u8, u8)>, fallback: (u8, u8)) -> (r: (u8, u8))
    ensures
        r == (match pair {
            Some(p) => p,
            None => fallback,
        }),
{
    match pair {
        Some(p) => p,
        None => fallback,
    }
}

/// After setting either end of a range, its low end is at most its high end, and the
/// end that was set is one of the two.
pub proof fn lemma_set_pair_ordered(a: u8, b: u8)
    ensures
        ordered_pair(a, b).0 <= ordered_pair(a, b).1,
        ordered_pair(a, b).0 == a || ordered_pair(a, b).1 == a,
        ordered_pair(a, b).0 == b || ordered_pair(a, b).1 == b,
{
}

/// The names a group name must not repeat: those of the groups and the groups the
/// zones name.
pub open spec fn used_group_names(groups: Seq<SampleGroup>, zones: Seq<SampleZone>) -> Seq<Seq<char>> {
    Seq::new(groups.len(), |i: int| groups[i].name@) + Seq::new(zones.len(), |i: int| zones[i].group@)
}

/// The name tried for a group with base name `base` at step `k`: the base, a space
/// and the number.
pub open spec fn numbered_name(base: Seq<char>, k: nat) -> Seq<char> {
    base + " "@ + decimal_text(k)
}

proof fn lemma_numbered_name_injective(base: Seq<char>, a: nat, b: nat)
    requires
        numbered_name(base, a) == numbered_name(base, b),
    ensures
        a == b,
{
    reveal_strlit(" ");
    let na = numbered_name(base, a);
    let nb = numbered_name(base, b);
    let off = base.len() + 1;
    assert(na.subrange(off as int, na.len() as int) =~= decimal_text(a));
    assert(nb.subrange(off as int, nb.len() as int) =~= decimal_text(b));
    lemma_decimal_text_injective(a, b);
}

/// Among `names.len() + 1` numbered names, one is not in `names`: the numbering
/// gives distinct names, and `names` holds fewer distinct ones.
proof fn lemma_fresh_numbered_name(names: Seq<Seq<char>>, base: Seq<char>, lo: nat)
    ensures
        exists|k: nat| lo <= k < lo + names.len() + 1 && !names.contains(#[trigger] numbered_name(base, k)),
{
    let n = names.len();
    if forall|k: nat| lo <= k < lo + n + 1 ==> names.contains(#[trigger] numbered_name(base, k)) {
        let f = |k: int| numbered_name(base, k as nat);
        let range = set_int_range(lo as int, (lo + n + 1) as int);
        lemma_int_range(lo as int, (lo + n + 1) as int);
        let img = range.map(f);
        assert forall|x: int, y: int| range.contains(x) && range.contains(y) && #[trigger] f(x) == #[trigger] f(y) implies x == y by {
            lemma_numbered_name_injective(base, x as nat, y as nat);
        }
        lemma_map_size(range, img, f);
        let t = names.to_set();
        names.lemma_cardinality_of_set();
        assert forall|c: Seq<char>| img.contains(c) implies t.contains(c) by {
            let k = choose|k: int| range.contains(k) && f(k) == c;
            assert(names.contains(numbered_name(base, k as nat)));
        }
        lemma_len_subset(img, t);
        assert(false);
    }
}

fn group_name_taken(groups: &[SampleGroup], zones: &[SampleZone], name: &[char]) -> (r: bool)
    ensures
        r == used_group_names(groups@, zones@).contains(name@),
{
    let ghost used = used_group_names(groups@, zones@);
    let mut i: usize = 0;
    while i < groups.len()
        invariant
            i <= groups@.len(),
            used == used_group_names(groups@, zones@),
            forall|k: int| 0 <= k < i ==> groups@[k].name@ != name@,
        decreases groups@.len() - i,
    {
        if chars_eq_str(name, groups[i].name.as_str()) {
            assert(used[i as int] == name@);
            return true;
        }
        i = i + 1;
    }
    let mut j: usize = 0;
    while j < zones.len()
        invariant
            j <= zones@.len(),
            used == used_group_names(groups@, zones@),
            forall|k: int| 0 <= k < groups@.len() ==> groups@[k].name@ != name@,
            forall|k: int| 0 <= k < j ==> zones@[k].group@ != name@,
        decreases zones@.len() - j,
    {
        if chars_eq_str(name, zones[j].group.as_str()) {
            assert(used[groups@.len() + j] == name@);
            return true;
        }
        j = j + 1;
    }
    assert forall|k: int| 0 <= k < used.len() implies used[k] != name@ by {
        if k < groups@.len() {
            assert(used[k] == groups@[k].name@);
        } else {
            assert(used[k] == zones@[k - groups@.len()].group@);
        }
    }
    false
}

/// A group name no group or zone uses yet: `base` itself when it is free, else
/// `base` followed by a space and the smallest number from 2 on that gives a free
/// name.
pub fn unique_group_name(groups: &[SampleGroup], zones: &[SampleZone], base: &str) -> (r: String)
    requires
        groups@.len() + zones@.len() < 0x7fff_0000,
    ensures
        !used_group_names(groups@, zones@).contains(r@),
        !used_group_names(groups@, zones@).contains(base@) ==> r@ == base@,
        used_group_names(groups@, zones@).contains(base@) ==> exists|k: nat| {
            &&& k >= 2
            &&& r@ == numbered_name(base@, k)
            &&& forall|j: nat| 2 <= j < k ==> used_group_names(groups@, zones@).contains(#[trigger] numbered_name(base@, j))
        },
{
    let ghost used = used_group_names(groups@, zones@);
    let base_chars = chars_of(base);
    if !group_name_taken(groups, zones, base_chars.as_slice()) {
        return base.to_owned();
    }
    let n = groups.len() + zones.len();
    let mut index: usize = 2;
    loop
        invariant
            used == used_group_names(groups@, zones@),
            used.len() == n,
            n < 0x7fff_0000,
            base_chars@ == base@,
            used.contains(base@),
            2 <= index <= n + 2,
            forall|j: nat| 2 <= j < index ==> used.contains(#[trigger] numbered_name(base@, j)),
        decreases n + 2 - index,
    {
        let mut candidate: Vec<char> = Vec::new();
        push_all(&mut candidate, base_chars.as_slice());
        candidate.push(' ');
        push_decimal(&mut candidate, index as u64);
        proof {
            reveal_strlit(" ");
            assert(candidate@ =~= numbered_name(base@, index as nat));
        }
        if !group_name_taken(groups, zones, candidate.as_slice()) {
            return string_of(candidate.as_slice());
        }
        if index == n + 2 {
            proof {
                lemma_fresh_numbered_name(used, base@, 2);
                let k = choose|k: nat| 2 <= k < 2 + used.len() + 1 && !used.contains(#[trigger] numbered_name(base@, k));
                assert(used.contains(numbered_name(base@, k)));
                assert(false);
            }
        }
        index = index + 1;
    }
}

/// The names of the zones.
pub open spec fn zone_names(zones: Seq<SampleZone>) -> Seq<Seq<char>> {
    Seq::new(zones.len(), |i: int| zones[i].name@)
}

/// The position of the last space in `c`, or -1 when there is none.
pub open spec fn last_space(c: Seq<char>) -> int
    decreases c.len(),
{
    if c.len() == 0 {
        -1
    } else if c.last() == ' ' {
        c.len() - 1
    } else {
        last_space(c.drop_last())
    }
}

/// The number after the last space of a name, as std's `u32` parsing reads it; `None`
/// when there is no space or the rest is no `u32`.
pub open spec fn trailing_number(c: Seq<char>) -> Option<nat> {
    let p = last_space(c);
    if p < 0 {
        None
    } else {
        match unsigned_text_value(c.subrange(p + 1, c.len() as int)) {
            Some(v) => if v <= u32::MAX { Some(v) } else { None },
            None => None,
        }
    }
}

/// The next name tried after `c`: its trailing number plus one, or `c` with ` 2`
/// appended when it has none.
pub open spec fn next_zone_name(c: Seq<char>) -> Seq<char> {
    match trailing_number(c) {
        Some(v) => numbered_name(c.subrange(0, last_space(c)), v + 1),
        None => numbered_name(c, 2),
    }
}

/// The name tried at step `k` from `base`.
pub open spec fn zone_name_chain(base: Seq<char>, k: nat) -> Seq<char>
    decreases k,
{
    if k == 0 {
        base
    } else {
        next_zone_name(zone_name_chain(base, (k - 1) as nat))
    }
}

/// The text before the number of the names tried from `base`, and the first number.
pub open spec fn chain_prefix(base: Seq<char>) -> Seq<char> {
    match trailing_number(base) {
        Some(v) => base.subrange(0, last_space(base)),
        None => base,
    }
}

pub open spec fn chain_start(base: Seq<char>) -> nat {
    match trailing_number(base) {
        Some(v) => v + 1,
        None => 2,
    }
}

proof fn lemma_last_space_range(c: Seq<char>)
    ensures
        -1 <= last_space(c) < c.len(),
        last_space(c) >= 0 ==> c[last_space(c)] == ' ',
        forall|i: int| last_space(c) < i < c.len() ==> c[i] != ' ',
    decreases c.len(),
{
    if c.len() > 0 && c.last() != ' ' {
        lemma_last_space_range(c.drop_last());
        assert forall|i: int| last_space(c) < i < c.len() implies c[i] != ' ' by {
            if i < c.len() - 1 {
                assert(c[i] == c.drop_last()[i]);
            }
        }
    }
}

proof fn lemma_last_space_of_numbered(p: Seq<char>, m: nat)
    ensures
        last_space(numbered_name(p, m)) == p.len(),
        trailing_number(numbered_name(p, m)) == (if m <= u32::MAX { Some(m) } else { None::<nat> }),
        numbered_name(p, m).subrange(0, p.len() as int) == p,
{
    reveal_strlit(" ");
    let c = numbered_name(p, m);
    let d = decimal_text(m);
    lemma_decimal_text(m);
    lemma_last_space_suffix(c, p.len() as int);
    assert(c.subrange(p.len() + 1int, c.len() as int) =~= d);
    assert(c.subrange(0, p.len() as int) =~= p);
    assert(d[0] != '+') by {
        assert(crate::text::is_digit(d[0]));
    }
    assert(unsigned_text_value(d) == Some(m));
}

/// If `c[k]` is a space followed only by digits, it is the last space of `c`.
proof fn lemma_last_space_suffix(c: Seq<char>, k: int)
    requires
        0 <= k < c.len(),
        c[k] == ' ',
        all_digits(c.subrange(k + 1, c.len() as int)),
    ensures
        last_space(c) == k,
    decreases c.len(),
{
    if c.len() - 1 > k {
        let t = c.subrange(k + 1, c.len() as int);
        assert(crate::text::is_digit(t[t.len() - 1]));
        assert(c.last() != ' ');
        assert(c.drop_last().subrange(k + 1, c.len() - 1) =~= t.drop_last());
        lemma_last_space_suffix(c.drop_last(), k);
    }
}

/// From step 1 on, the names tried from `base` are its prefix with consecutive
/// numbers, as long as no number passed `u32::MAX`.
proof fn lemma_zone_name_chain_form(base: Seq<char>, k: nat)
    requires
        k >= 1,
        chain_start(base) + k - 1 <= u32::MAX + 1,
    ensures
        zone_name_chain(base, k) == numbered_name(chain_prefix(base), (chain_start(base) + k - 1) as nat),
    decreases k,
{
    if k == 1 {
        assert(zone_name_chain(base, 0) == base);
    } else {
        lemma_zone_name_chain_form(base, (k - 1) as nat);
        let m = (chain_start(base) + k - 2) as nat;
        lemma_last_space_of_numbered(chain_prefix(base), m);
        let prev = numbered_name(chain_prefix(base), m);
        assert(zone_name_chain(base, (k - 1) as nat) == prev);
        assert(trailing_number(prev) == Some(m));
        assert(next_zone_name(prev) == numbered_name(chain_prefix(base), m + 1));
    }
}

fn zone_name_taken(zones: &[SampleZone], name: &[char]) -> (r: bool)
    ensures
        r == zone_names(zones@).contains(name@),
{
    let ghost names = zone_names(zones@);
    let mut i: usize = 0;
    while i < zones.len()
        invariant
            i <= zones@.len(),
            names == zone_names(zones@),
            forall|k: int| 0 <= k < i ==> zones@[k].name@ != name@,
        decreases zones@.len() - i,
    {
        if chars_eq_str(name, zones[i].name.as_str()) {
            assert(names[i as int] == name@);
            return true;
        }
        i = i + 1;
    }
    assert forall|k: int| 0 <= k < names.len() implies names[k] != name@ by {
        assert(names[k] == zones@[k].name@);
    }
    false
}

fn find_last_space(c: &[char]) -> (r: Option<usize>)
    ensures
        match r {
            Some(p) => p as int == last_space(c@),
            None => last_space(c@) < 0,
        },
{
    let mut i = c.len();
    assert(c@.subrange(0, i as int) =~= c@);
    while i > 0
        invariant
            i <= c@.len(),
            last_space(c@) == last_space(c@.subrange(0, i as int)),
        decreases i,
    {
        let ghost s = c@.subrange(0, i as int);
        if c[i - 1] == ' ' {
            return Some(i - 1);
        }
        assert(s.drop_last() =~= c@.subrange(0, i - 1));
        i = i - 1;
    }
    None
}

fn next_zone_name_exec(c: &[char]) -> (r: Vec<char>)
    ensures
        r@ == next_zone_name(c@),
{
    proof {
        reveal_strlit(" ");
        lemma_last_space_range(c@);
    }
    let mut out: Vec<char> = Vec::new();
    match find_last_space(c) {
        Some(p) => {
            assert(p < c@.len());
            assert(c@.len() == c.len());
            let from = p + 1;
            let ghost d = c@.subrange(from as int, c@.len() as int);
            let parsed = if from < c.len() && c[from] == '+' {
                let ghost d1 = c@.subrange(from + 1, c@.len() as int);
                assert(d.subrange(1, d.len() as int) =~= d1);
                parse_digits_bounded(c, from + 1, 0xffff_ffff)
            } else {
                parse_digits_bounded(c, from, 0xffff_ffff)
            };
            match parsed {
                Some(v) => {
                    let mut i: usize = 0;
                    while i < p
                        invariant
                            i <= p < c@.len(),
                            out@ == c@.subrange(0, i as int),
                        decreases p - i,
                    {
                        out.push(c[i]);
                        i = i + 1;
                        assert(out@ =~= c@.subrange(0, i as int));
                    }
                    out.push(' ');
                    push_decimal(&mut out, v + 1);
                    assert(out@ =~= next_zone_name(c@));
                    return out;
                },
                None => {},
            }
        },
        None => {},
    }
    push_all(&mut out, c);
    out.push(' ');
    push_decimal(&mut out, 2);
    assert(out@ =~= next_zone_name(c@));
    out
}

/// A zone name no zone uses yet: `base` itself when it is free; else the first free
/// name of the steps from `base`, each adding one to the number after the last space
/// of the one before (or appending ` 2` where there is none).
///
/// The steps must not pass a number `u32::MAX` while every name so far is taken.
#[verifier::spinoff_prover]
pub fn unique_zone_name(zones: &[SampleZone], base: &str) -> (r: String)
    requires
        forall|k: nat|
            (forall|j: nat| j <= k ==> zone_names(zones@).contains(#[trigger] zone_name_chain(base@, j)))
                ==> trailing_number(#[trigger] zone_name_chain(base@, k)) != Some(u32::MAX as nat),
    ensures
        !zone_names(zones@).contains(r@),
        !zone_names(zones@).contains(base@) ==> r@ == base@,
        zone_names(zones@).contains(base@) ==> exists|k: nat| {
            &&& k >= 1
            &&& r@ == zone_name_chain(base@, k)
            &&& forall|j: nat| j < k ==> zone_names(zones@).contains(#[trigger] zone_name_chain(base@, j))
        },
{
    let ghost names = zone_names(zones@);
    let base_chars = chars_of(base);
    if !zone_name_taken(zones, base_chars.as_slice()) {
        return base.to_owned();
    }
    let n = zones.len();
    let mut candidate = base_chars;
    let mut steps: usize = 0;
    loop
        invariant
            names == zone_names(zones@),
            names.len() == n,
            steps <= n,
            candidate@ == zone_name_chain(base@, steps as nat),
            names.contains(base@),
            forall|j: nat| j <= steps ==> names.contains(#[trigger] zone_name_chain(base@, j)),
            forall|k: nat|
                (forall|j: nat| j <= k ==> names.contains(#[trigger] zone_name_chain(base@, j)))
                    ==> trailing_number(#[trigger] zone_name_chain(base@, k)) != Some(u32::MAX as nat),
            chain_start(base@) + steps <= u32::MAX + 1,
        decreases n - steps,
    {
        let next = next_zone_name_exec(candidate.as_slice());
        assert(next@ == zone_name_chain(base@, (steps + 1) as nat));
        if !zone_name_taken(zones, next.as_slice()) {
            return string_of(next.as_slice());
        }
        proof {
            let k = steps as nat;
            assert(trailing_number(zone_name_chain(base@, k)) != Some(u32::MAX as nat));
            if k >= 1 {
                lemma_zone_name_chain_form(base@, k);
                lemma_last_space_of_numbered(chain_prefix(base@), (chain_start(base@) + k - 1) as nat);
            } else {
                assert(chain_start(base@) <= u32::MAX + 1);
            }
            assert(chain_start(base@) + steps + 1 <= u32::MAX + 1);
            assert forall|j: nat| j <= steps + 1 implies names.contains(#[trigger] zone_name_chain(base@, j)) by {
                if j <= steps {
                    assert(names.contains(zone_name_chain(base@, j)));
                }
            }
            if steps == n {
                let p = chain_prefix(base@);
                let m1 = chain_start(base@);
                assert forall|m: nat| m1 <= m < m1 + names.len() + 1 implies names.contains(#[trigger] numbered_name(p, m)) by {
                    let j = (m - m1 + 1) as nat;
                    lemma_zone_name_chain_form(base@, j);
                    assert(names.contains(zone_name_chain(base@, j)));
                }
                lemma_fresh_numbered_name(names, p, m1);
                let m = choose|m: nat| m1 <= m < m1 + names.len() + 1 && !names.contains(#[trigger] numbered_name(p, m));
                assert(false);
            }
        }
        candidate = next;
        steps = steps + 1;
    }
}

/// While fewer names are taken than numbers remain below `u32::MAX` after the first
/// one tried, the steps from `base` reach a free name before any number reaches
/// `u32::MAX`: `unique_zone_name` may be called.
pub proof fn lemma_zone_name_steps_bounded(zones: Seq<SampleZone>, base: Seq<char>)
    requires
        chain_start(base) + zones.len() < u32::MAX,
    ensures
        forall|k: nat|
            (forall|j: nat| j <= k ==> zone_names(zones).contains(#[trigger] zone_name_chain(base, j)))
                ==> trailing_number(#[trigger] zone_name_chain(base, k)) != Some(u32::MAX as nat),
{
    let names = zone_names(zones);
    let p = chain_prefix(base);
    let m1 = chain_start(base);
    assert forall|k: nat|
        (forall|j: nat| j <= k ==> names.contains(#[trigger] zone_name_chain(base, j)))
            implies trailing_number(#[trigger] zone_name_chain(base, k)) != Some(u32::MAX as nat) by {
        if k == 0 {
            assert(zone_name_chain(base, 0) == base);
        } else if k <= names.len() {
            lemma_zone_name_chain_form(base, k);
            lemma_last_space_of_numbered(p, (m1 + k - 1) as nat);
        } else {
            assert forall|m: nat| m1 <= m < m1 + names.len() + 1 implies names.contains(#[trigger] numbered_name(p, m)) by {
                let j = (m - m1 + 1) as nat;
                lemma_zone_name_chain_form(base, j);
                assert(names.contains(zone_name_chain(base, j)));
            }
            lemma_fresh_numbered_name(names, p, m1);
        }
    }
}

/// The name given to a new zone: `New Zone`, made unique among the zones.
pub open spec fn new_zone_base() -> Seq<char> {
    "New Zone"@
}

/// The name a new zone gets: `New Zone` while no zone has it, else the first name of
/// the chain from it that no zone has.
pub open spec fn is_new_zone_name(zones: Seq<SampleZone>, name: Seq<char>) -> bool {
    &&& !zone_names(zones).contains(name)
    &&& !zone_names(zones).contains(new_zone_base()) ==> name == new_zone_base()
    &&& zone_names(zones).contains(new_zone_base()) ==> exists|k: nat| {
        &&& k >= 1
        &&& name == zone_name_chain(new_zone_base(), k)
        &&& forall|j: nat| j < k ==> zone_names(zones).contains(#[trigger] zone_name_chain(new_zone_base(), j))
    }
}

/// The name for a new zone among `zones`, as `is_new_zone_name` states.
pub fn new_zone_name(zones: &[SampleZone]) -> (r: String)
    requires
        zones@.len() + 2 < u32::MAX,
    ensures
        is_new_zone_name(zones@, r@),
{
    proof {
        reveal_strlit("New Zone");
        let b = new_zone_base();
        lemma_last_space_range(b);
        assert(b[3] == ' ');
        assert(b.subrange(0, 4).drop_last() =~= b.subrange(0, 3));
        assert(last_space(b) == 3) by {
            assert(b.drop_last().drop_last().drop_last().drop_last() =~= b.subrange(0, 4));
        }
        assert(unsigned_text_value(b.subrange(4, 8)) is None) by {
            assert(b.subrange(4, 8)[0] == 'Z');
            assert(!crate::text::is_digit(b.subrange(4, 8)[0]));
        }
        lemma_zone_name_steps_bounded(zones@, b);
    }
    unique_zone_name(zones, "New Zone")
}

/// A new zone for `group`: a unique name from `New Zone`, no files, the key range of
/// middle C alone and the full velocity range.
pub fn default_new_zone(zones: &[SampleZone], group: String) -> (z: SampleZone)
    requires
        zones@.len() + 2 < u32::MAX,
    ensures
        is_new_zone_name(zones@, z.name@),
        z.files@.len() == 0,
        z.start_note == 60,
        z.end_note == 60,
        z.vel_low == 0,
        z.vel_high == 127,
        z.root_key == 60,
        z.group == group,
        z.key_fade_in is None,
        z.key_fade_out is None,
        z.vel_fade_in is None,
        z.vel_fade_out is None,
{
    let name = new_zone_name(zones);
    SampleZone::new_basic(name, Vec::new(), 60, 60, 0, 127, group)
}

/// The velocity ranges of the zones whose key range meets `start..=end`, in zone
/// order.
pub open spec fn overlapping_ranges(zones: Seq<SampleZone>, start: int, end: int) -> Seq<(u8, u8)>
    decreases zones.len(),
{
    if zones.len() == 0 {
        Seq::empty()
    } else {
        let z = zones.last();
        let rest = overlapping_ranges(zones.drop_last(), start, end);
        if z.start_note <= end && z.end_note >= start {
            rest.push((z.vel_low, z.vel_high))
        } else {
            rest
        }
    }
}

/// `x` put into `s` after every range whose low end is at most `x`'s, counted from
/// the back.
pub open spec fn insert_by_low(s: Seq<(u8, u8)>, x: (u8, u8)) -> Seq<(u8, u8)>
    decreases s.len(),
{
    if s.len() == 0 {
        seq![x]
    } else if s.last().0 <= x.0 {
        s.push(x)
    } else {
        insert_by_low(s.drop_last(), x).push(s.last())
    }
}

/// The ranges stably sorted by their low end.
pub open spec fn sort_by_low(s: Seq<(u8, u8)>) -> Seq<(u8, u8)>
    decreases s.len(),
{
    if s.len() == 0 {
        Seq::empty()
    } else {
        insert_by_low(sort_by_low(s.drop_last()), s.last())
    }
}

/// Walking ranges sorted by low end: the free ranges found below each one, and the
/// first velocity above the last one walked (at most 255).
pub open spec fn gap_walk(s: Seq<(u8, u8)>) -> (Seq<(u8, u8)>, u8)
    decreases s.len(),
{
    if s.len() == 0 {
        (Seq::empty(), 0)
    } else {
        let (g, low) = gap_walk(s.drop_last());
        let z = s.last();
        let g2 = if z.0 > low { g.push((low, (z.0 - 1) as u8)) } else { g };
        (g2, if z.1 == 255 { 255u8 } else { (z.1 + 1) as u8 })
    }
}

/// The free velocity ranges around sorted ranges: those found on the walk, and the one
/// above the last range when it ends below 127.
pub open spec fn velocity_gaps(s: Seq<(u8, u8)>) -> Seq<(u8, u8)> {
    let (g, low) = gap_walk(s);
    if low <= 127 { g.push((low, 127)) } else { g }
}

pub open spec fn gap_holds(g: (u8, u8), v: u8) -> bool {
    g.0 <= v && v <= g.1
}

/// How far `v` is from a range that does not hold it.
pub open spec fn gap_distance(g: (u8, u8), v: u8) -> int {
    if v < g.0 { g.0 - v } else { v - g.1 }
}

/// `g[i]` is the range picked for velocity `v`: the first one that holds `v`, or when
/// none does, the first one nearest to it.
pub open spec fn is_picked_gap(g: Seq<(u8, u8)>, v: u8, i: int) -> bool {
    &&& 0 <= i < g.len()
    &&& if exists|j: int| 0 <= j < g.len() && gap_holds(#[trigger] g[j], v) {
        gap_holds(g[i], v) && forall|j: int| 0 <= j < i ==> !gap_holds(#[trigger] g[j], v)
    } else {
        &&& forall|j: int| 0 <= j < g.len() ==> gap_distance(g[i], v) <= gap_distance(#[trigger] g[j], v)
        &&& forall|j: int| 0 <= j < i ==> gap_distance(g[i], v) < gap_distance(#[trigger] g[j], v)
    }
}

/// The velocity range a new zone over keys `start..=end` takes: the full range where no
/// zone meets those keys; else the free gap that holds `velocity` (the first such),
/// or the free gap nearest to it (the first of the nearest); `velocity` alone where
/// no gap is free.
pub open spec fn is_vertical_slot(zones: Seq<SampleZone>, start: int, end: int, velocity: u8, r: (u8, u8)) -> bool {
    let ov = overlapping_ranges(zones, start, end);
    let g = velocity_gaps(sort_by_low(ov));
    if ov.len() == 0 {
        r == (0u8, 127u8)
    } else if g.len() == 0 {
        r == (velocity, velocity)
    } else {
        exists|i: int| is_picked_gap(g, velocity, i) && r == g[i]
    }
}

proof fn lemma_insert_by_low_at(s: Seq<(u8, u8)>, x: (u8, u8), p: int)
    requires
        0 <= p <= s.len(),
        forall|i: int| p <= i < s.len() ==> (#[trigger] s[i]).0 > x.0,
        p == 0 || s[p - 1].0 <= x.0,
    ensures
        insert_by_low(s, x) == s.subrange(0, p) + seq![x] + s.subrange(p, s.len() as int),
    decreases s.len(),
{
    if s.len() == 0 {
        assert(s.subrange(0, p) + seq![x] + s.subrange(p, s.len() as int) =~= seq![x]);
    } else if s.last().0 <= x.0 {
        assert(p == s.len());
        assert(s.subrange(0, p) + seq![x] + s.subrange(p, s.len() as int) =~= s.push(x));
    } else {
        assert(p < s.len());
        lemma_insert_by_low_at(s.drop_last(), x, p);
        let d = s.drop_last();
        assert(d.subrange(0, p) + seq![x] + d.subrange(p, d.len() as int) + seq![s.last()]
            =~= s.subrange(0, p) + seq![x] + s.subrange(p, s.len() as int));
    }
}

proof fn lemma_insert_by_low_elements(s: Seq<(u8, u8)>, x: (u8, u8))
    ensures
        forall|i: int| 0 <= i < insert_by_low(s, x).len() ==> (#[trigger] insert_by_low(s, x)[i] == x || s.contains(insert_by_low(s, x)[i])),
    decreases s.len(),
{
    if s.len() > 0 && s.last().0 > x.0 {
        lemma_insert_by_low_elements(s.drop_last(), x);
        let r = insert_by_low(s, x);
        assert forall|i: int| 0 <= i < r.len() implies (#[trigger] r[i] == x || s.contains(r[i])) by {
            if i < r.len() - 1 {
                let d = insert_by_low(s.drop_last(), x);
                assert(r[i] == d[i]);
                if d[i] != x {
                    let k = choose|k: int| 0 <= k < s.drop_last().len() && s.drop_last()[k] == d[i];
                    assert(s[k] == d[i]);
                }
            } else {
                assert(s[s.len() - 1] == r[i]);
            }
        }
    } else if s.len() > 0 {
        let r = insert_by_low(s, x);
        assert forall|i: int| 0 <= i < r.len() implies (#[trigger] r[i] == x || s.contains(r[i])) by {
            if i < s.len() {
                assert(s[i] == r[i]);
            }
        }
    }
}

/// Every range of the sorted list is one of the ranges sorted.
proof fn lemma_sort_by_low_elements(s: Seq<(u8, u8)>)
    ensures
        forall|i: int| 0 <= i < sort_by_low(s).len() ==> s.contains(#[trigger] sort_by_low(s)[i]),
    decreases s.len(),
{
    if s.len() > 0 {
        lemma_sort_by_low_elements(s.drop_last());
        let t = sort_by_low(s.drop_last());
        lemma_insert_by_low_elements(t, s.last());
        assert forall|i: int| 0 <= i < sort_by_low(s).len() implies s.contains(#[trigger] sort_by_low(s)[i]) by {
            let e = sort_by_low(s)[i];
            if e == s.last() {
                assert(s[s.len() - 1] == e);
            } else {
                let k = choose|k: int| 0 <= k < t.len() && t[k] == e;
                let q = choose|q: int| 0 <= q < s.drop_last().len() && s.drop_last()[q] == t[k];
                assert(s[q] == e);
            }
        }
    }
}

/// When every range starts at most at 127, each free range found is ordered and ends
/// at most at 127.
proof fn lemma_velocity_gaps_valid(s: Seq<(u8, u8)>)
    requires
        forall|i: int| 0 <= i < s.len() ==> (#[trigger] s[i]).0 <= 127,
    ensures
        forall|i: int| 0 <= i < velocity_gaps(s).len() ==> (#[trigger] velocity_gaps(s)[i]).0 <= velocity_gaps(s)[i].1 <= 127,
{
    lemma_gap_walk_valid(s);
}

proof fn lemma_gap_walk_valid(s: Seq<(u8, u8)>)
    requires
        forall|i: int| 0 <= i < s.len() ==> (#[trigger] s[i]).0 <= 127,
    ensures
        forall|i: int| 0 <= i < gap_walk(s).0.len() ==> (#[trigger] gap_walk(s).0[i]).0 <= gap_walk(s).0[i].1 <= 127,
    decreases s.len(),
{
    if s.len() > 0 {
        let d = s.drop_last();
        assert forall|i: int| 0 <= i < d.len() implies (#[trigger] d[i]).0 <= 127 by {
            assert(d[i] == s[i]);
        }
        lemma_gap_walk_valid(d);
        assert(s[s.len() - 1].0 <= 127);
        let g = gap_walk(d).0;
        let g2 = gap_walk(s).0;
        assert forall|i: int| 0 <= i < g2.len() implies (#[trigger] g2[i]).0 <= g2[i].1 <= 127 by {
            if i < g.len() {
                assert(g2[i] == g[i]);
            }
        }
    }
}

fn insert_sorted_by_low(sorted: &mut Vec<(u8, u8)>, x: (u8, u8))
    ensures
        final(sorted)@ == insert_by_low(old(sorted)@, x),
{
    let mut p = sorted.len();
    while p > 0 && sorted[p - 1].0 > x.0
        invariant
            p <= sorted@.len(),
            sorted@ == old(sorted)@,
            forall|i: int| p <= i < sorted@.len() ==> (#[trigger] sorted@[i]).0 > x.0,
        decreases p,
    {
        p = p - 1;
    }
    proof {
        lemma_insert_by_low_at(sorted@, x, p as int);
    }
    sorted.insert(p, x);
    assert(sorted@ =~= old(sorted)@.subrange(0, p as int) + seq![x] + old(sorted)@.subrange(p as int, old(sorted)@.len() as int));
}

proof fn lemma_overlapping_low(zones: Seq<SampleZone>, start: int, end: int)
    requires
        forall|i: int| 0 <= i < zones.len() ==> (#[trigger] zones[i]).vel_low <= 127,
    ensures
        forall|i: int| 0 <= i < overlapping_ranges(zones, start, end).len() ==> (#[trigger] overlapping_ranges(zones, start, end)[i]).0 <= 127,
    decreases zones.len(),
{
    if zones.len() > 0 {
        let d = zones.drop_last();
        assert forall|i: int| 0 <= i < d.len() implies (#[trigger] d[i]).vel_low <= 127 by {
            assert(d[i] == zones[i]);
        }
        lemma_overlapping_low(d, start, end);
        assert(zones[zones.len() - 1].vel_low <= 127);
        let o = overlapping_ranges(d, start, end);
        let o2 = overlapping_ranges(zones, start, end);
        assert forall|i: int| 0 <= i < o2.len() implies (#[trigger] o2[i]).0 <= 127 by {
            if i < o.len() {
                assert(o2[i] == o[i]);
            }
        }
    }
}

/// The velocity range a new zone over keys `start_note..=end_note` gets when dropped
/// at `velocity`: the full range when no zone meets those keys; else, among the free
/// velocity ranges left around the zones that do (taken in order of their low
/// velocity), the first that holds `velocity`, or the nearest one; and
/// `velocity..=velocity` when there is no free range.
pub fn find_vertical_slot(zones: &[SampleZone], start_note: usize, end_note: usize, velocity: u8) -> (r: (u8, u8))
    ensures
        is_vertical_slot(zones@, start_note as int, end_note as int, velocity, r),
        (forall|i: int| 0 <= i < zones@.len() ==> (#[trigger] zones@[i]).vel_low <= 127) && velocity <= 127
            ==> r.0 <= r.1 <= 127,
{
    let ghost ov_all = overlapping_ranges(zones@, start_note as int, end_note as int);
    let mut ov: Vec<(u8, u8)> = Vec::new();
    let mut i: usize = 0;
    while i < zones.len()
        invariant
            i <= zones@.len(),
            ov@ == overlapping_ranges(zones@.subrange(0, i as int), start_note as int, end_note as int),
        decreases zones@.len() - i,
    {
        let ghost pre = zones@.subrange(0, i as int);
        assert(zones@.subrange(0, i + 1).drop_last() =~= pre);
        let z = &zones[i];
        if z.start_note <= end_note && z.end_note >= start_note {
            ov.push((z.vel_low, z.vel_high));
        }
        i = i + 1;
    }
    assert(zones@.subrange(0, i as int) =~= zones@);
    if ov.len() == 0 {
        return (0, 127);
    }
    let mut sorted: Vec<(u8, u8)> = Vec::new();
    let mut k: usize = 0;
    while k < ov.len()
        invariant
            k <= ov@.len(),
            sorted@ == sort_by_low(ov@.subrange(0, k as int)),
        decreases ov@.len() - k,
    {
        assert(ov@.subrange(0, k + 1).drop_last() =~= ov@.subrange(0, k as int));
        insert_sorted_by_low(&mut sorted, ov[k]);
        k = k + 1;
    }
    assert(ov@.subrange(0, k as int) =~= ov@);
    let mut gaps: Vec<(u8, u8)> = Vec::new();
    let mut low: u8 = 0;
    let mut j: usize = 0;
    while j < sorted.len()
        invariant
            j <= sorted@.len(),
            (gaps@, low) == gap_walk(sorted@.subrange(0, j as int)),
        decreases sorted@.len() - j,
    {
        assert(sorted@.subrange(0, j + 1).drop_last() =~= sorted@.subrange(0, j as int));
        let z = sorted[j];
        if z.0 > low {
            gaps.push((low, z.0 - 1));
        }
        low = if z.1 == 255 { 255 } else { z.1 + 1 };
        j = j + 1;
    }
    assert(sorted@.subrange(0, j as int) =~= sorted@);
    if low <= 127 {
        gaps.push((low, 127));
    }
    if gaps.len() == 0 {
        return (velocity, velocity);
    }
    let ghost g = gaps@;
    assert(g == velocity_gaps(sort_by_low(ov_all)));
    proof {
        if forall|i: int| 0 <= i < zones@.len() ==> (#[trigger] zones@[i]).vel_low <= 127 {
            lemma_overlapping_low(zones@, start_note as int, end_note as int);
            lemma_sort_by_low_elements(ov_all);
            let st = sort_by_low(ov_all);
            assert forall|i: int| 0 <= i < st.len() implies (#[trigger] st[i]).0 <= 127 by {
                let k = choose|k: int| 0 <= k < ov_all.len() && ov_all[k] == st[i];
            }
            lemma_velocity_gaps_valid(st);
        }
    }
    let mut best = gaps[0];
    let mut best_i: usize = 0;
    let mut best_dist: u16 = 0xffff;
    let mut m: usize = 0;
    while m < gaps.len()
        invariant
            g == gaps@,
            g == velocity_gaps(sort_by_low(ov_all)),
            ov_all == overlapping_ranges(zones@, start_note as int, end_note as int),
            ov_all.len() > 0,
            g.len() > 0,
            (forall|i: int| 0 <= i < zones@.len() ==> (#[trigger] zones@[i]).vel_low <= 127)
                ==> forall|q: int| 0 <= q < g.len() ==> (#[trigger] g[q]).0 <= g[q].1 <= 127,
            m <= g.len(),
            forall|q: int| 0 <= q < m ==> !gap_holds(#[trigger] g[q], velocity),
            best_i < g.len(),
            m == 0 ==> best_i == 0 && best_dist == 0xffff,
            m > 0 ==> best_i < m && best_dist == gap_distance(g[best_i as int], velocity),
            best == g[best_i as int],
            forall|q: int| 0 <= q < m ==> gap_distance(g[best_i as int], velocity) <= gap_distance(#[trigger] g[q], velocity),
            forall|q: int| 0 <= q < best_i ==> gap_distance(g[best_i as int], velocity) < gap_distance(#[trigger] g[q], velocity),
            forall|q: int| 0 <= q < m ==> gap_distance(#[trigger] g[q], velocity) < 256,
        decreases g.len() - m,
    {
        let (gap_low, gap_high) = gaps[m];
        if velocity >= gap_low && velocity <= gap_high {
            assert(is_picked_gap(g, velocity, m as int));
            assert((gap_low, gap_high) == g[m as int]);
            return (gap_low, gap_high);
        }
        let dist: u16 = if velocity < gap_low {
            (gap_low - velocity) as u16
        } else {
            (velocity - gap_high) as u16
        };
        if dist < best_dist {
            best_dist = dist;
            best = (gap_low, gap_high);
            best_i = m;
        }
        m = m + 1;
    }
    assert(is_picked_gap(g, velocity, best_i as int));
    best
}

} // verus!
