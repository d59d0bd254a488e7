//! Editing zones on the key/velocity map: dragging an edge or the whole rectangle,
//! setting a range field or a controller condition, and dropping a sample file on the
//! map.

use vstd::prelude::*;
use crate::editor_options::{ZoneEdge, ZoneEditField, ZoneListSelection};
use crate::editor_sync::{group_for_new_zone, new_zone_group, no_switches, sample_group_entry};
use crate::zone_conditions::CcCondition;
use crate::zones::{
    find_vertical_slot, is_new_zone_name, is_vertical_slot, new_zone_name, ordered_pair,
    set_pair_high, set_pair_low, SampleGroup, SampleZone,
};

verus! {

/// The smaller of two integers.
pub open spec fn min_int(a: int, b: int) -> int {
    if a <= b { a } else { b }
}

/// The larger of two integers.
pub open spec fn max_int(a: int, b: int) -> int {
    if a <= b { b } else { a }
}

/// `a - b`, or 0 where `b` is larger.
pub open spec fn sat_sub(a: int, b: int) -> int {
    if a >= b { a - b } else { 0 }
}

/// A zone with the key and velocity ranges given, and the rest of `z`.
pub open spec fn with_ranges(z: SampleZone, start: int, end: int, vel_low: int, vel_high: int) -> SampleZone {
    SampleZone {
        start_note: start as usize,
        end_note: end as usize,
        vel_low: vel_low as u8,
        vel_high: vel_high as u8,
        ..z
    }
}

/// A zone whose ranges are in order and on the map.
pub open spec fn zone_on_map(z: SampleZone) -> bool {
    &&& z.start_note <= z.end_note <= 127
    &&& z.vel_low <= z.vel_high <= 127
}

/// A zone after one of its edges is dragged to `note` (a side edge) or `velocity` (the
/// top or bottom edge): the edge follows the pointer but does not pass the opposite
/// edge.
pub open spec fn edge_dragged(z: SampleZone, edge: ZoneEdge, note: usize, velocity: u8) -> SampleZone {
    match edge {
        ZoneEdge::Start => with_ranges(z, min_int(note as int, z.end_note as int), z.end_note as int, z.vel_low as int, z.vel_high as int),
        ZoneEdge::End => with_ranges(z, z.start_note as int, max_int(note as int, z.start_note as int), z.vel_low as int, z.vel_high as int),
        ZoneEdge::Top => with_ranges(z, z.start_note as int, z.end_note as int, z.vel_low as int, max_int(velocity as int, z.vel_low as int)),
        ZoneEdge::Bottom => with_ranges(z, z.start_note as int, z.end_note as int, min_int(velocity as int, z.vel_high as int), z.vel_high as int),
    }
}

/// Moves one edge of `zone` as `edge_dragged` states.
pub fn drag_zone_edge(zone: &mut SampleZone, edge: ZoneEdge, note: usize, velocity: u8)
    ensures
        *final(zone) == edge_dragged(*old(zone), edge, note, velocity),
{
    match edge {
        ZoneEdge::Start => {
            zone.start_note = if note <= zone.end_note { note } else { zone.end_note };
        },
        ZoneEdge::End => {
            zone.end_note = if note >= zone.start_note { note } else { zone.start_note };
        },
        ZoneEdge::Top => {
            zone.vel_high = if velocity >= zone.vel_low { velocity } else { zone.vel_low };
        },
        ZoneEdge::Bottom => {
            zone.vel_low = if velocity <= zone.vel_high { velocity } else { zone.vel_high };
        },
    }
}

/// Dragging an edge keeps a zone's ranges in order, and on the map where the pointer
/// is on it.
pub proof fn lemma_edge_drag_keeps_order(z: SampleZone, edge: ZoneEdge, note: usize, velocity: u8)
    requires
        z.start_note <= z.end_note,
        z.vel_low <= z.vel_high,
    ensures
        edge_dragged(z, edge, note, velocity).start_note <= edge_dragged(z, edge, note, velocity).end_note,
        edge_dragged(z, edge, note, velocity).vel_low <= edge_dragged(z, edge, note, velocity).vel_high,
        zone_on_map(z) && note <= 127 && velocity <= 127 ==> zone_on_map(edge_dragged(z, edge, note, velocity)),
{
}

/// A zone moved so that its ranges start at `new_start` and `new_vel_low`, keeping its
/// width and height; where it would pass the top note (127) or top velocity (127) it
/// is pushed back to end there.
pub open spec fn body_moved(z: SampleZone, new_start: int, new_vel_low: int) -> SampleZone {
    let width = z.end_note - z.start_note;
    let height = z.vel_high - z.vel_low;
    let keys = if new_start + width > 127 { (sat_sub(127, width), 127int) } else { (new_start, new_start + width) };
    let top = min_int(new_vel_low + height, 255);
    let vels = if top > 127 { (sat_sub(127, height), 127int) } else { (new_vel_low, top) };
    with_ranges(z, keys.0, keys.1, vels.0, vels.1)
}

/// Moves the whole rectangle of `zone` as `body_moved` states.
pub fn move_zone_body(zone: &mut SampleZone, new_start: usize, new_vel_low: u8)
    requires
        old(zone).start_note <= old(zone).end_note,
        old(zone).vel_low <= old(zone).vel_high,
        new_start + (old(zone).end_note - old(zone).start_note) <= usize::MAX,
    ensures
        *final(zone) == body_moved(*old(zone), new_start as int, new_vel_low as int),
{
    let width = zone.end_note - zone.start_note;
    let height = zone.vel_high - zone.vel_low;
    let mut start = new_start;
    let mut end = new_start + width;
    if end > 127 {
        end = 127;
        start = if end >= width { end - width } else { 0 };
    }
    let mut vel_low = new_vel_low;
    let mut vel_high = new_vel_low.saturating_add(height);
    if vel_high > 127 {
        vel_high = 127;
        vel_low = vel_high.saturating_sub(height);
    }
    zone.start_note = start;
    zone.end_note = end;
    zone.vel_low = vel_low;
    zone.vel_high = vel_high;
}

/// Moving a zone that fits on the map keeps its width and height and leaves it on
/// the map.
pub proof fn lemma_body_move_keeps_shape(z: SampleZone, new_start: usize, new_vel_low: u8)
    requires
        zone_on_map(z),
        new_vel_low <= 127,
    ensures
        zone_on_map(body_moved(z, new_start as int, new_vel_low as int)),
        body_moved(z, new_start as int, new_vel_low as int).end_note - body_moved(z, new_start as int, new_vel_low as int).start_note
            == z.end_note - z.start_note,
        body_moved(z, new_start as int, new_vel_low as int).vel_high - body_moved(z, new_start as int, new_vel_low as int).vel_low
            == z.vel_high - z.vel_low,
{
}

/// The key range of a zone created by dropping a file at `note`: `width_notes` held to
/// 1..=128 keys, about centred on the note and pushed back below the top note.
pub open spec fn drop_key_span(note: int, width_notes: int) -> (int, int) {
    let w = if width_notes < 1 { 1 } else if width_notes > 128 { 128 } else { width_notes };
    let start = sat_sub(note, w / 2);
    let end = min_int(start + w - 1, 127);
    (sat_sub(end, w - 1), end)
}

/// The key range `drop_key_span` states.
pub fn new_zone_key_span(note: usize, width_notes: usize) -> (r: (usize, usize))
    requires
        note + 128 <= usize::MAX,
    ensures
        r.0 == drop_key_span(note as int, width_notes as int).0,
        r.1 == drop_key_span(note as int, width_notes as int).1,
{
    let w: usize = if width_notes < 1 { 1 } else if width_notes > 128 { 128 } else { width_notes };
    let half = w / 2;
    let start = note.saturating_sub(half);
    let end = if start + w - 1 <= 127 { start + w - 1 } else { 127 };
    (end.saturating_sub(w - 1), end)
}

/// The key range of a dropped zone has exactly the width asked for (held to
/// 1..=128), ends on the map, and holds the note it was dropped on.
pub proof fn lemma_drop_key_span(note: int, width_notes: int)
    requires
        0 <= note <= 127,
    ensures
        ({
            let w = if width_notes < 1 { 1 } else if width_notes > 128 { 128 } else { width_notes };
            let r = drop_key_span(note, width_notes);
            &&& 0 <= r.0 <= note <= r.1 <= 127
            &&& r.1 - r.0 + 1 == w
        }),
{
}

/// A slider value as a byte: `v` held to 255.
pub open spec fn byte_of(v: int) -> int {
    min_int(v, 255)
}

/// A slider value as a MIDI value: `v` held to 127.
pub open spec fn u7_of(v: int) -> int {
    min_int(v, 127)
}

/// An optional range after one end is set to `x`, starting from `(d, d)` where there is
/// none, with the ends kept in order.
pub open spec fn pair_end_set(pair: Option<(u8, u8)>, x: int, d: int, high_end: bool) -> Option<(u8, u8)> {
    let p = match pair {
        Some(p) => p,
        None => (d as u8, d as u8),
    };
    if high_end {
        Some(ordered_pair(p.0, x as u8))
    } else {
        Some(ordered_pair(x as u8, p.1))
    }
}

/// The width of a crossfade range: its high end less its low end.
pub open spec fn pair_width(p: Option<(u8, u8)>) -> u8 {
    match p {
        Some(q) => sat_sub(q.1 as int, q.0 as int) as u8,
        None => 0,
    }
}

/// A zone after the editor's range field `field` is set from the slider value `v`
/// (rounded, and 0 where negative): the key and velocity ends stay in order and on the
/// map, the root key is held to 127, and a crossfade range that was not set starts from
/// the zone edge it fades, its width following the range. `None` for a field that is
/// not one of these.
pub open spec fn range_field_set(z: SampleZone, field: ZoneEditField, v: int) -> Option<SampleZone> {
    let key_in = min_int(z.start_note as int, 127);
    let key_out = min_int(z.end_note as int, 127);
    match field {
        ZoneEditField::StartNote => Some(SampleZone { start_note: min_int(v, z.end_note as int) as usize, ..z }),
        ZoneEditField::EndNote => Some(SampleZone {
            end_note: (if v < z.start_note { z.start_note as int } else { min_int(v, 127) }) as usize,
            ..z
        }),
        ZoneEditField::VelLow => Some(SampleZone { vel_low: min_int(byte_of(v), z.vel_high as int) as u8, ..z }),
        ZoneEditField::VelHigh => Some(SampleZone { vel_high: min_int(max_int(byte_of(v), z.vel_low as int), 127) as u8, ..z }),
        ZoneEditField::RootKey => Some(SampleZone { root_key: u7_of(byte_of(v)) as u8, ..z }),
        ZoneEditField::KeyFadeInLow | ZoneEditField::KeyFadeInHigh => {
            let p = pair_end_set(z.key_fade_in, u7_of(v), key_in, field == ZoneEditField::KeyFadeInHigh);
            Some(SampleZone { key_fade_in: p, key_fade_low: pair_width(p), ..z })
        },
        ZoneEditField::KeyFadeOutLow | ZoneEditField::KeyFadeOutHigh => {
            let p = pair_end_set(z.key_fade_out, u7_of(v), key_out, field == ZoneEditField::KeyFadeOutHigh);
            Some(SampleZone { key_fade_out: p, key_fade_high: pair_width(p), ..z })
        },
        ZoneEditField::VelFadeInLow | ZoneEditField::VelFadeInHigh => {
            let p = pair_end_set(z.vel_fade_in, u7_of(v), z.vel_low as int, field == ZoneEditField::VelFadeInHigh);
            Some(SampleZone { vel_fade_in: p, vel_fade_low: pair_width(p), ..z })
        },
        ZoneEditField::VelFadeOutLow | ZoneEditField::VelFadeOutHigh => {
            let p = pair_end_set(z.vel_fade_out, u7_of(v), z.vel_high as int, field == ZoneEditField::VelFadeOutHigh);
            Some(SampleZone { vel_fade_out: p, vel_fade_high: pair_width(p), ..z })
        },
        _ => None,
    }
}

fn width_of(p: Option<(u8, u8)>, old: u8) -> (r: u8)
    ensures
        r == (if p is Some { pair_width(p) } else { old }),
{
    match p {
        Some((low, high)) => high.saturating_sub(low),
        None => old,
    }
}

fn small(v: usize, cap: u8) -> (r: u8)
    ensures
        r == min_int(v as int, cap as int),
{
    if v < cap as usize { v as u8 } else { cap }
}

/// Sets the range field `field` of `zone` from the slider value `value` as
/// `range_field_set` states, and says whether `field` is such a field (the zone is
/// left as it was where it is not).
pub fn set_zone_range_value(zone: &mut SampleZone, field: ZoneEditField, value: usize) -> (handled: bool)
    requires
        field == ZoneEditField::EndNote ==> old(zone).start_note <= 127,
    ensures
        match range_field_set(*old(zone), field, value as int) {
            Some(z) => handled && *final(zone) == z,
            None => !handled && *final(zone) == *old(zone),
        },
{
    let key_in = if zone.start_note < 127 { zone.start_note as u8 } else { 127u8 };
    let key_out = if zone.end_note < 127 { zone.end_note as u8 } else { 127u8 };
    let u7 = small(value, 127);
    match field {
        ZoneEditField::StartNote => {
            zone.start_note = if value <= zone.end_note { value } else { zone.end_note };
        },
        ZoneEditField::EndNote => {
            zone.end_note = if value < zone.start_note { zone.start_note } else if value > 127 { 127 } else { value };
        },
        ZoneEditField::VelLow => {
            let b = small(value, 255);
            zone.vel_low = if b <= zone.vel_high { b } else { zone.vel_high };
        },
        ZoneEditField::VelHigh => {
            let b = small(value, 255);
            let h = if b >= zone.vel_low { b } else { zone.vel_low };
            zone.vel_high = if h <= 127 { h } else { 127 };
        },
        ZoneEditField::RootKey => {
            zone.root_key = u7;
        },
        ZoneEditField::KeyFadeInLow => {
            set_pair_low(&mut zone.key_fade_in, u7, (key_in, key_in));
            zone.key_fade_low = width_of(zone.key_fade_in, zone.key_fade_low);
        },
        ZoneEditField::KeyFadeInHigh => {
            set_pair_high(&mut zone.key_fade_in, u7, (key_in, key_in));
            zone.key_fade_low = width_of(zone.key_fade_in, zone.key_fade_low);
        },
        ZoneEditField::KeyFadeOutLow => {
            set_pair_low(&mut zone.key_fade_out, u7, (key_out, key_out));
            zone.key_fade_high = width_of(zone.key_fade_out, zone.key_fade_high);
        },
        ZoneEditField::KeyFadeOutHigh => {
            set_pair_high(&mut zone.key_fade_out, u7, (key_out, key_out));
            zone.key_fade_high = width_of(zone.key_fade_out, zone.key_fade_high);
        },
        ZoneEditField::VelFadeInLow => {
            let d = zone.vel_low;
            set_pair_low(&mut zone.vel_fade_in, u7, (d, d));
            zone.vel_fade_low = width_of(zone.vel_fade_in, zone.vel_fade_low);
        },
        ZoneEditField::VelFadeInHigh => {
            let d = zone.vel_low;
            set_pair_high(&mut zone.vel_fade_in, u7, (d, d));
            zone.vel_fade_low = width_of(zone.vel_fade_in, zone.vel_fade_low);
        },
        ZoneEditField::VelFadeOutLow => {
            let d = zone.vel_high;
            set_pair_low(&mut zone.vel_fade_out, u7, (d, d));
            zone.vel_fade_high = width_of(zone.vel_fade_out, zone.vel_fade_high);
        },
        ZoneEditField::VelFadeOutHigh => {
            let d = zone.vel_high;
            set_pair_high(&mut zone.vel_fade_out, u7, (d, d));
            zone.vel_fade_high = width_of(zone.vel_fade_out, zone.vel_fade_high);
        },
        _ => {
            return false;
        },
    }
    true
}

/// An optional range whose ends are in order, where it is set.
pub open spec fn pair_ordered(p: Option<(u8, u8)>) -> bool {
    p matches Some(q) ==> q.0 <= q.1
}

/// A zone whose crossfade ranges are in order.
pub open spec fn fades_ordered(z: SampleZone) -> bool {
    &&& pair_ordered(z.key_fade_in)
    &&& pair_ordered(z.key_fade_out)
    &&& pair_ordered(z.vel_fade_in)
    &&& pair_ordered(z.vel_fade_out)
}

/// Setting a range field keeps a zone on the map, its root key on the map and its
/// crossfade ranges in order, where they were so before.
pub proof fn lemma_range_field_keeps_zone_on_map(z: SampleZone, field: ZoneEditField, v: int)
    requires
        zone_on_map(z),
        0 <= v,
    ensures
        range_field_set(z, field, v) matches Some(z2) ==> {
            &&& zone_on_map(z2)
            &&& z.root_key <= 127 ==> z2.root_key <= 127
            &&& fades_ordered(z) ==> fades_ordered(z2)
        },
{
}

/// Whether some condition reads controller `c`.
pub open spec fn cc_used(cs: Seq<CcCondition>, c: int) -> bool {
    exists|i: int| 0 <= i < cs.len() && (#[trigger] cs[i]).cc == c
}

/// The first controller from `c` up to 127 that no condition reads, or 0 where there
/// is none.
pub open spec fn first_free_cc_from(cs: Seq<CcCondition>, c: int) -> u8
    decreases 128 - c,
{
    if c < 0 || c > 127 {
        0
    } else if !cc_used(cs, c) {
        c as u8
    } else {
        first_free_cc_from(cs, c + 1)
    }
}

/// The controller a new condition reads: the first one no condition reads, or 0 where
/// every controller is read.
pub open spec fn first_free_cc(cs: Seq<CcCondition>) -> u8 {
    first_free_cc_from(cs, 0)
}

fn cc_in_use(cs: &Vec<CcCondition>, c: u8) -> (r: bool)
    ensures
        r == cc_used(cs@, c as int),
{
    let mut i: usize = 0;
    while i < cs.len()
        invariant
            i <= cs@.len(),
            forall|j: int| 0 <= j < i ==> (#[trigger] cs@[j]).cc != c,
        decreases cs@.len() - i,
    {
        if cs[i].cc == c {
            return true;
        }
        i = i + 1;
    }
    false
}

fn free_cc(cs: &Vec<CcCondition>) -> (r: u8)
    ensures
        r == first_free_cc(cs@),
{
    let mut c: u8 = 0;
    loop
        invariant
            c <= 127,
            first_free_cc(cs@) == first_free_cc_from(cs@, c as int),
        decreases 127 - c,
    {
        if !cc_in_use(cs, c) {
            return c;
        }
        if c == 127 {
            assert(first_free_cc_from(cs@, 128) == 0);
            return 0;
        }
        c = c + 1;
    }
}

/// The controller picked for a new condition is read by no other condition, where one
/// is free.
pub proof fn lemma_first_free_cc(cs: Seq<CcCondition>)
    ensures
        (exists|c: int| 0 <= c <= 127 && !cc_used(cs, c)) ==> !cc_used(cs, first_free_cc(cs) as int),
{
    if exists|c: int| 0 <= c <= 127 && !cc_used(cs, c) {
        let c = choose|c: int| 0 <= c <= 127 && !cc_used(cs, c);
        lemma_first_free_from(cs, 0, c);
    }
}

proof fn lemma_first_free_from(cs: Seq<CcCondition>, from: int, c: int)
    requires
        0 <= from <= c <= 127,
        !cc_used(cs, c),
    ensures
        !cc_used(cs, first_free_cc_from(cs, from) as int),
    decreases c - from,
{
    if cc_used(cs, from) {
        lemma_first_free_from(cs, from + 1, c);
    }
}

/// A zone that differs at most in its controller conditions.
pub open spec fn same_but_conditions(a: SampleZone, b: SampleZone) -> bool {
    a == SampleZone { cc_conditions: a.cc_conditions, ..b }
}

/// Adds a condition to `zone` on the first free controller, for values 1..=127.
pub fn add_cc_condition(zone: &mut SampleZone)
    ensures
        same_but_conditions(*final(zone), *old(zone)),
        final(zone).cc_conditions@ == old(zone).cc_conditions@.push(CcCondition { cc: first_free_cc(old(zone).cc_conditions@), low: 1, high: 127 }),
{
    let cc = free_cc(&zone.cc_conditions);
    zone.cc_conditions.push(CcCondition { cc, low: 1, high: 127 });
}

/// Removes the condition at `index` from `zone`, where there is one; says whether there
/// was.
pub fn remove_cc_condition(zone: &mut SampleZone, index: usize) -> (removed: bool)
    ensures
        removed == (index < old(zone).cc_conditions@.len()),
        same_but_conditions(*final(zone), *old(zone)),
        final(zone).cc_conditions@ == (if removed { old(zone).cc_conditions@.remove(index as int) } else { old(zone).cc_conditions@ }),
{
    if index < zone.cc_conditions.len() {
        zone.cc_conditions.remove(index);
        true
    } else {
        false
    }
}

/// A condition after a slider value `v` sets its controller (`part` 0), its low end
/// (1) or its high end (2): held to 127, and each end kept on its side of the other.
pub open spec fn condition_set(c: CcCondition, part: int, v: int) -> CcCondition {
    if part == 0 {
        CcCondition { cc: u7_of(v) as u8, ..c }
    } else if part == 1 {
        CcCondition { low: min_int(u7_of(v), c.high as int) as u8, ..c }
    } else {
        CcCondition { high: max_int(u7_of(v), c.low as int) as u8, ..c }
    }
}

fn set_condition_part(zone: &mut SampleZone, index: usize, part: u8, value: usize) -> (set: bool)
    requires
        part <= 2,
    ensures
        set == (index < old(zone).cc_conditions@.len()),
        same_but_conditions(*final(zone), *old(zone)),
        final(zone).cc_conditions@ == (if set {
            old(zone).cc_conditions@.update(index as int, condition_set(old(zone).cc_conditions@[index as int], part as int, value as int))
        } else {
            old(zone).cc_conditions@
        }),
{
    if index < zone.cc_conditions.len() {
        let c = zone.cc_conditions[index];
        let v = small(value, 127);
        let n = if part == 0 {
            CcCondition { cc: v, ..c }
        } else if part == 1 {
            CcCondition { low: if v <= c.high { v } else { c.high }, ..c }
        } else {
            CcCondition { high: if v >= c.low { v } else { c.low }, ..c }
        };
        zone.cc_conditions.set(index, n);
        true
    } else {
        false
    }
}

/// Sets the controller of the condition at `index` from the slider value `value`
/// (rounded, 0 where negative), held to 127; says whether there is such a condition.
pub fn set_cc_condition_cc(zone: &mut SampleZone, index: usize, value: usize) -> (set: bool)
    ensures
        set == (index < old(zone).cc_conditions@.len()),
        same_but_conditions(*final(zone), *old(zone)),
        final(zone).cc_conditions@ == (if set {
            old(zone).cc_conditions@.update(index as int, condition_set(old(zone).cc_conditions@[index as int], 0, value as int))
        } else {
            old(zone).cc_conditions@
        }),
{
    set_condition_part(zone, index, 0, value)
}

/// Sets the low end of the condition at `index` from the slider value `value`, held to
/// 127 and to the high end; says whether there is such a condition.
pub fn set_cc_condition_low(zone: &mut SampleZone, index: usize, value: usize) -> (set: bool)
    ensures
        set == (index < old(zone).cc_conditions@.len()),
        same_but_conditions(*final(zone), *old(zone)),
        final(zone).cc_conditions@ == (if set {
            old(zone).cc_conditions@.update(index as int, condition_set(old(zone).cc_conditions@[index as int], 1, value as int))
        } else {
            old(zone).cc_conditions@
        }),
{
    set_condition_part(zone, index, 1, value)
}

/// Sets the high end of the condition at `index` from the slider value `value`, held to
/// 127 and from the low end up; says whether there is such a condition.
pub fn set_cc_condition_high(zone: &mut SampleZone, index: usize, value: usize) -> (set: bool)
    ensures
        set == (index < old(zone).cc_conditions@.len()),
        same_but_conditions(*final(zone), *old(zone)),
        final(zone).cc_conditions@ == (if set {
            old(zone).cc_conditions@.update(index as int, condition_set(old(zone).cc_conditions@[index as int], 2, value as int))
        } else {
            old(zone).cc_conditions@
        }),
{
    set_condition_part(zone, index, 2, value)
}

/// Setting a condition's controller or either end keeps its ends in order and within
/// 0..=127 where they were so before.
pub proof fn lemma_condition_set_keeps_order(c: CcCondition, part: int, v: int)
    requires
        c.low <= c.high <= 127,
        c.cc <= 127,
        0 <= v,
    ensures
        condition_set(c, part, v).low <= condition_set(c, part, v).high <= 127,
        condition_set(c, part, v).cc <= 127,
{
}

/// Whether a zone's key and velocity ranges hold `note` and `velocity`.
pub open spec fn zone_covers(z: SampleZone, note: int, velocity: int) -> bool {
    z.start_note <= note <= z.end_note && z.vel_low <= velocity <= z.vel_high
}

/// The index of the first zone from `i` on whose ranges hold `note` and `velocity`.
pub open spec fn first_covering_from(zones: Seq<SampleZone>, note: int, velocity: int, i: int) -> Option<int>
    decreases zones.len() - i,
{
    if i < 0 || i >= zones.len() {
        None
    } else if zone_covers(zones[i], note, velocity) {
        Some(i)
    } else {
        first_covering_from(zones, note, velocity, i + 1)
    }
}

/// The index of the first zone whose ranges hold `note` and `velocity`.
pub open spec fn first_covering(zones: Seq<SampleZone>, note: int, velocity: int) -> Option<int> {
    first_covering_from(zones, note, velocity, 0)
}

/// The index of the first zone whose ranges hold `note` and `velocity`, if any.
pub fn zone_at(zones: &[SampleZone], note: usize, velocity: u8) -> (r: Option<usize>)
    ensures
        r matches Some(i) ==> first_covering(zones@, note as int, velocity as int) == Some(i as int),
        r is None ==> first_covering(zones@, note as int, velocity as int) is None,
{
    let mut i: usize = 0;
    while i < zones.len()
        invariant
            i <= zones@.len(),
            first_covering(zones@, note as int, velocity as int) == first_covering_from(zones@, note as int, velocity as int, i as int),
        decreases zones@.len() - i,
    {
        let z = &zones[i];
        if z.start_note <= note && note <= z.end_note && z.vel_low <= velocity && velocity <= z.vel_high {
            return Some(i);
        }
        i = i + 1;
    }
    None
}

/// Where a zone holds a point, the first such zone holds it and none before it does.
pub proof fn lemma_first_covering(zones: Seq<SampleZone>, note: int, velocity: int)
    ensures
        first_covering(zones, note, velocity) matches Some(i) ==> {
            &&& 0 <= i < zones.len()
            &&& zone_covers(zones[i], note, velocity)
            &&& forall|j: int| 0 <= j < i ==> !zone_covers(#[trigger] zones[j], note, velocity)
        },
        first_covering(zones, note, velocity) is None ==> forall|j: int| 0 <= j < zones.len() ==> !zone_covers(#[trigger] zones[j], note, velocity),
{
    lemma_first_covering_from(zones, note, velocity, 0);
}

proof fn lemma_first_covering_from(zones: Seq<SampleZone>, note: int, velocity: int, i: int)
    requires
        0 <= i,
    ensures
        first_covering_from(zones, note, velocity, i) matches Some(k) ==> {
            &&& i <= k < zones.len()
            &&& zone_covers(zones[k], note, velocity)
            &&& forall|j: int| i <= j < k ==> !zone_covers(#[trigger] zones[j], note, velocity)
        },
        first_covering_from(zones, note, velocity, i) is None ==> forall|j: int| i <= j < zones.len() ==> !zone_covers(#[trigger] zones[j], note, velocity),
    decreases zones.len() - i,
{
    if i < zones.len() && !zone_covers(zones[i], note, velocity) {
        lemma_first_covering_from(zones, note, velocity, i + 1);
    }
}

/// Two zones that differ at most in their files.
pub open spec fn same_but_files(a: SampleZone, b: SampleZone) -> bool {
    a == SampleZone { files: a.files, ..b }
}

/// Whether a group of that name is listed.
pub open spec fn has_group_named(groups: Seq<SampleGroup>, name: Seq<char>) -> bool {
    exists|i: int| 0 <= i < groups.len() && (#[trigger] groups[i]).name@ == name
}

fn group_listed(groups: &Vec<SampleGroup>, name: &String) -> (r: bool)
    ensures
        r == has_group_named(groups@, name@),
{
    let mut i: usize = 0;
    while i < groups.len()
        invariant
            i <= groups@.len(),
            forall|j: int| 0 <= j < i ==> (#[trigger] groups@[j]).name@ != name@,
        decreases groups@.len() - i,
    {
        if crate::text::str_eq(groups[i].name.as_str(), name.as_str()) {
            return true;
        }
        i = i + 1;
    }
    false
}

/// The groups after a group named `name` is listed where none was: unchanged where one
/// is, else with a new group of that name and default settings at the end.
pub open spec fn with_group_listed(groups: Seq<SampleGroup>, name: Seq<char>, r: Seq<SampleGroup>) -> bool {
    if has_group_named(groups, name) {
        r == groups
    } else {
        &&& r.len() == groups.len() + 1
        &&& r.drop_last() == groups
        &&& sample_group_entry(r.last()) == (name, 0usize, 0u8, Seq::<(Seq<char>, Seq<char>)>::empty(), no_switches())
    }
}

/// Lists a group named `name` where none is, as `with_group_listed` states.
pub fn list_group(groups: &mut Vec<SampleGroup>, name: &String)
    ensures
        with_group_listed(old(groups)@, name@, final(groups)@),
{
    if !group_listed(groups, name) {
        groups.push(SampleGroup::new(name.clone()));
        proof {
            assert(groups@.drop_last() =~= old(groups)@);
            assert(crate::sfz_opcode_map::pairs_view(groups@.last().extra_sfz_opcodes@) =~= Seq::empty());
        }
    }
}

fn push_file(zone: &mut SampleZone, file: String)
    ensures
        same_but_files(*final(zone), *old(zone)),
        final(zone).files@ == old(zone).files@.push(file),
{
    zone.files.push(file);
}

/// Drops the sample `file` on the map at `note` and `velocity`. Where a zone holds that
/// point, the first such zone gets the file. Otherwise a new zone is added at the end:
/// a new zone name, the file alone, the key range `drop_key_span` gives for
/// `width_notes`, the velocity range `find_vertical_slot` picks there, and the group
/// `group_for_new_zone` picks, which is listed (with default settings) where it was
/// not. Returns whether a zone was added.
pub fn drop_sample_file(
    zones: &mut Vec<SampleZone>,
    groups: &mut Vec<SampleGroup>,
    selected: &Option<ZoneListSelection>,
    note: usize,
    velocity: u8,
    width_notes: usize,
    file: String,
) -> (added: bool)
    requires
        old(zones)@.len() + 2 < u32::MAX,
        note + 128 <= usize::MAX,
    ensures
        added == (first_covering(old(zones)@, note as int, velocity as int) is None),
        match first_covering(old(zones)@, note as int, velocity as int) {
            Some(i) => {
                &&& final(zones)@.len() == old(zones)@.len()
                &&& forall|j: int| 0 <= j < old(zones)@.len() && j != i ==> final(zones)@[j] == old(zones)@[j]
                &&& same_but_files(final(zones)@[i], old(zones)@[i])
                &&& final(zones)@[i].files@ == old(zones)@[i].files@.push(file)
                &&& final(groups)@ == old(groups)@
            },
            None => {
                let group = new_zone_group(*selected, old(groups)@, old(zones)@);
                let span = drop_key_span(note as int, width_notes as int);
                let z = final(zones)@.last();
                &&& final(zones)@.len() == old(zones)@.len() + 1
                &&& final(zones)@.drop_last() == old(zones)@
                &&& is_new_zone_name(old(zones)@, z.name@)
                &&& z.files@ == seq![file]
                &&& z.start_note == span.0
                &&& z.end_note == span.1
                &&& is_vertical_slot(old(zones)@, span.0, span.1, velocity, (z.vel_low, z.vel_high))
                &&& z.root_key == 60
                &&& z.group@ == group
                &&& z.key_fade_in is None && z.key_fade_out is None
                &&& z.vel_fade_in is None && z.vel_fade_out is None
                &&& with_group_listed(old(groups)@, group, final(groups)@)
            },
        },
{
    let hit = zone_at(zones.as_slice(), note, velocity);
    proof {
        lemma_first_covering(zones@, note as int, velocity as int);
    }
    match hit {
        Some(i) => {
            let mut z = zones.remove(i);
            push_file(&mut z, file);
            zones.insert(i, z);
            false
        },
        None => {
            let name = new_zone_name(zones.as_slice());
            let (start, end) = new_zone_key_span(note, width_notes);
            let (vel_low, vel_high) = find_vertical_slot(zones.as_slice(), start, end, velocity);
            let group = group_for_new_zone(selected, groups.as_slice(), zones.as_slice());
            list_group(groups, &group);
            let mut files: Vec<String> = Vec::new();
            files.push(file);
            let z = SampleZone::new_basic(name, files, start, end, vel_low, vel_high, group);
            zones.push(z);
            proof {
                assert(zones@.drop_last() =~= old(zones)@);
            }
            true
        },
    }
}

} // verus!
