//! Which zone a note plays: the first zone of a group whose ranges and controller
//! conditions take the note, and the first active group of a part that has one.

use vstd::prelude::*;
use crate::group::{group_active, group_is_active, is_neutral_zone, keyswitch_lookups_in_range, Group, Part, Zone};
use crate::zone_conditions::CcCondition;

verus! {

/// Whether the controller values `cc` meet a condition: the controller is one of the
/// 128 and its value lies in the condition's range.
pub open spec fn cc_met(c: CcCondition, cc: Seq<u8>) -> bool {
    c.cc < 128 && c.low <= cc[c.cc as int] <= c.high
}

/// Whether a zone plays a note: the note in its key range, the velocity in its
/// velocity range, the MIDI channel (counted from 0) in its channel range (counted
/// from 1), the pitch bend in its range, and each of its controller conditions met.
pub open spec fn zone_plays(z: Zone, note: u8, velocity: u8, channel: u8, cc: Seq<u8>, bend: i16) -> bool {
    &&& z.key_low <= note <= z.key_high
    &&& z.vel_low <= velocity <= z.vel_high
    &&& z.channel_low <= channel + 1 <= z.channel_high
    &&& z.pitch_bend_low <= bend <= z.pitch_bend_high
    &&& forall|i: int| 0 <= i < z.cc_conditions@.len() ==> cc_met(#[trigger] z.cc_conditions@[i], cc)
}

/// Whether zone `k` is the first of `zs` that plays the note.
pub open spec fn first_playing(zs: Seq<Zone>, k: int, note: u8, velocity: u8, channel: u8, cc: Seq<u8>, bend: i16) -> bool {
    &&& 0 <= k < zs.len()
    &&& zone_plays(zs[k], note, velocity, channel, cc, bend)
    &&& forall|j: int| 0 <= j < k ==> !zone_plays(#[trigger] zs[j], note, velocity, channel, cc, bend)
}

/// Whether some zone of `zs` plays the note.
pub open spec fn some_zone_plays(zs: Seq<Zone>, note: u8, velocity: u8, channel: u8, cc: Seq<u8>, bend: i16) -> bool {
    exists|k: int| 0 <= k < zs.len() && zone_plays(#[trigger] zs[k], note, velocity, channel, cc, bend)
}

/// Whether a group of `part` takes the note: it is active, and a zone of it plays it.
pub open spec fn group_takes(
    g: Group,
    part: Part,
    note: u8,
    velocity: u8,
    channel: u8,
    cc: Seq<u8>,
    bend: i16,
    held: Seq<bool>,
) -> bool {
    group_active(g, part, cc, held) && some_zone_plays(g.zones@, note, velocity, channel, cc, bend)
}

/// A zone that no opcode has touched plays every note, at every velocity, on every
/// MIDI channel and at every pitch bend.
pub proof fn lemma_neutral_zone_plays_all(z: Zone, note: u8, velocity: u8, channel: u8, cc: Seq<u8>, bend: i16)
    requires
        is_neutral_zone(z),
        note <= 127,
        velocity <= 127,
        channel < 16,
        -8192 <= bend <= 8192,
    ensures
        zone_plays(z, note, velocity, channel, cc, bend),
{
}

/// A zone whose key, velocity, channel and pitch-bend ranges take a note plays it
/// exactly when, for each of its controller conditions, the controller is one of the
/// 128 and its value `v` lies in the condition's range with both ends included
/// (`low <= v <= high`): a value equal to the high end, such as 127 for a range ending
/// at 127, meets the condition.
pub proof fn lemma_controller_range_inclusive(z: Zone, note: u8, velocity: u8, channel: u8, cc: Seq<u8>, bend: i16)
    requires
        z.key_low <= note <= z.key_high,
        z.vel_low <= velocity <= z.vel_high,
        z.channel_low <= channel + 1 <= z.channel_high,
        z.pitch_bend_low <= bend <= z.pitch_bend_high,
    ensures
        zone_plays(z, note, velocity, channel, cc, bend) <==> forall|i: int|
            0 <= i < z.cc_conditions@.len() ==> {
                let c = #[trigger] z.cc_conditions@[i];
                c.cc < 128 && c.low <= cc[c.cc as int] && cc[c.cc as int] <= c.high
            },
{
}

fn cc_condition_met(c: &CcCondition, cc_values: &[u8; 128]) -> (r: bool)
    ensures
        r == cc_met(*c, cc_values@),
{
    if c.cc < 128 {
        let v = cc_values[c.cc as usize];
        c.low <= v && v <= c.high
    } else {
        false
    }
}

impl Zone {
    /// Whether the zone plays a note, as `zone_plays` states.
    pub fn contains_with_context(
        &self,
        note: u8,
        velocity: u8,
        channel: u8,
        cc_values: &[u8; 128],
        pitch_bend_raw: i16,
    ) -> (r: bool)
        ensures
            r == zone_plays(*self, note, velocity, channel, cc_values@, pitch_bend_raw),
    {
        let channel_number: u16 = channel as u16 + 1;
        if !(self.key_low <= note && note <= self.key_high && self.vel_low <= velocity && velocity <= self.vel_high
            && self.channel_low as u16 <= channel_number && channel_number <= self.channel_high as u16
            && self.pitch_bend_low <= pitch_bend_raw && pitch_bend_raw <= self.pitch_bend_high) {
            return false;
        }
        let mut i: usize = 0;
        while i < self.cc_conditions.len()
            invariant
                i <= self.cc_conditions@.len(),
                forall|j: int| 0 <= j < i ==> cc_met(#[trigger] self.cc_conditions@[j], cc_values@),
            decreases self.cc_conditions@.len() - i,
        {
            if !cc_condition_met(&self.cc_conditions[i], cc_values) {
                return false;
            }
            i = i + 1;
        }
        true
    }
}

impl Group {
    /// The first zone of the group that plays the note, if any.
    pub fn find_zone(
        &self,
        note: u8,
        velocity: u8,
        channel: u8,
        cc_values: &[u8; 128],
        pitch_bend_raw: i16,
    ) -> (r: Option<&Zone>)
        ensures
            r is None <==> !some_zone_plays(self.zones@, note, velocity, channel, cc_values@, pitch_bend_raw),
            r matches Some(z) ==> exists|k: int|
                first_playing(self.zones@, k, note, velocity, channel, cc_values@, pitch_bend_raw) && *z == #[trigger] self.zones@[k],
    {
        let mut i: usize = 0;
        while i < self.zones.len()
            invariant
                i <= self.zones@.len(),
                forall|j: int| 0 <= j < i ==> !zone_plays(#[trigger] self.zones@[j], note, velocity, channel, cc_values@, pitch_bend_raw),
            decreases self.zones@.len() - i,
        {
            if self.zones[i].contains_with_context(note, velocity, channel, cc_values, pitch_bend_raw) {
                assert(first_playing(self.zones@, i as int, note, velocity, channel, cc_values@, pitch_bend_raw));
                return Some(&self.zones[i]);
            }
            i = i + 1;
        }
        None
    }
}

impl Part {
    /// The first active group of the part with a zone that plays the note, its index,
    /// and that group's first such zone.
    pub fn find_zone(
        &self,
        note: u8,
        velocity: u8,
        channel: u8,
        cc_values: &[u8; 128],
        pitch_bend_raw: i16,
        held_notes: &[bool; 128],
    ) -> (r: Option<(usize, &Group, &Zone)>)
        requires
            forall|i: int| 0 <= i < self.groups@.len() ==> keyswitch_lookups_in_range(#[trigger] self.groups@[i], held_notes@),
        ensures
            r is None <==> forall|i: int|
                0 <= i < self.groups@.len() ==> !group_takes(
                    #[trigger] self.groups@[i],
                    *self,
                    note,
                    velocity,
                    channel,
                    cc_values@,
                    pitch_bend_raw,
                    held_notes@,
                ),
            r matches Some((gi, g, z)) ==> {
                &&& gi < self.groups@.len()
                &&& *g == self.groups@[gi as int]
                &&& group_takes(*g, *self, note, velocity, channel, cc_values@, pitch_bend_raw, held_notes@)
                &&& forall|i: int|
                    0 <= i < gi ==> !group_takes(
                        #[trigger] self.groups@[i],
                        *self,
                        note,
                        velocity,
                        channel,
                        cc_values@,
                        pitch_bend_raw,
                        held_notes@,
                    )
                &&& exists|k: int| first_playing(g.zones@, k, note, velocity, channel, cc_values@, pitch_bend_raw) && *z == #[trigger] g.zones@[k]
            },
    {
        let mut gi: usize = 0;
        while gi < self.groups.len()
            invariant
                gi <= self.groups@.len(),
                forall|i: int| 0 <= i < self.groups@.len() ==> keyswitch_lookups_in_range(#[trigger] self.groups@[i], held_notes@),
                forall|i: int|
                    0 <= i < gi ==> !group_takes(
                        #[trigger] self.groups@[i],
                        *self,
                        note,
                        velocity,
                        channel,
                        cc_values@,
                        pitch_bend_raw,
                        held_notes@,
                    ),
            decreases self.groups@.len() - gi,
        {
            let group = &self.groups[gi];
            if group_is_active(group, self, cc_values, held_notes) {
                match group.find_zone(note, velocity, channel, cc_values, pitch_bend_raw) {
                    Some(zone) => {
                        return Some((gi, group, zone));
                    },
                    None => {},
                }
            }
            gi = gi + 1;
        }
        None
    }
}

} // verus!
