use vstd::prelude::*;
use crate::zone_conditions::CcCondition;
use crate::zone_modes::{CurveType, ZonePlayback};

verus! {

/// What, besides keyswitches, gates a group.
#[derive(Debug, Clone, Copy, PartialEq, Eq, Structural)]
pub enum TriggerType {
    /// Nothing beyond keyswitches gates the group.
    NoTrigger,
    /// The group's CC conditions gate it.
    MidiCc,
}

impl Default for TriggerType {
    fn default() -> (t: Self)
        ensures
            t == TriggerType::NoTrigger,
    {
        TriggerType::NoTrigger
    }
}

/// How the result of one trigger condition is combined with the results before it.
#[derive(Debug, Clone, Copy, PartialEq, Eq, Structural)]
pub enum TriggerConjunction {
    And,
    Or,
    AndNot,
    OrNot,
}

impl Default for TriggerConjunction {
    fn default() -> (c: Self)
        ensures
            c == TriggerConjunction::And,
    {
        TriggerConjunction::And
    }
}

/// One trigger condition: controller `cc` must be at least `cc_value`.
#[derive(Debug, Clone, Copy, PartialEq, Eq, Structural)]
pub struct TriggerCondition {
    pub note: u8,
    pub cc: u8,
    pub cc_value: u8,
}

impl Default for TriggerCondition {
    fn default() -> (c: Self)
        ensures
            c.note == 0 && c.cc == 0 && c.cc_value == 0,
    {
        TriggerCondition { note: 0, cc: 0, cc_value: 0 }
    }
}

/// A zone of a group, as far as the editor mirrors it: its name, sample files, key
/// and velocity range, root key and crossfade ranges.
#[derive(Debug, Clone)]
pub struct Zone {
    pub name: String,
    pub files: Vec<String>,
    pub key_low: u8,
    pub key_high: u8,
    pub vel_low: u8,
    pub vel_high: u8,
    pub root_key: u8,
    pub key_fade_in: Option<(u8, u8)>,
    pub key_fade_out: Option<(u8, u8)>,
    pub vel_fade_in: Option<(u8, u8)>,
    pub vel_fade_out: Option<(u8, u8)>,
    pub key_fade_low: u8,
    pub key_fade_high: u8,
    pub vel_fade_low: u8,
    pub vel_fade_high: u8,
    pub velocity_curve: CurveType,
    pub channel_low: u8,
    pub channel_high: u8,
    pub pitch_bend_low: i16,
    pub pitch_bend_high: i16,
    pub cc_conditions: Vec<CcCondition>,
    pub playback: ZonePlayback,
    pub extra_sfz_opcodes: Vec<(String, String)>,
}

/// `z` with every setting that a region's opcodes read put back to where no opcode
/// has set it: keys 0..=127 rooted at 60, velocities 0..=127 on a linear curve, no
/// crossfades, channels 1..=16, pitch bend -8192..=8192, and the neutral playback.
/// Its name, files, controller conditions and extra opcodes stay.
pub open spec fn neutral_core(z: Zone) -> Zone {
    Zone {
        key_low: 0,
        key_high: 127,
        vel_low: 0,
        vel_high: 127,
        root_key: 60,
        key_fade_in: None,
        key_fade_out: None,
        vel_fade_in: None,
        vel_fade_out: None,
        key_fade_low: 0,
        key_fade_high: 0,
        vel_fade_low: 0,
        vel_fade_high: 0,
        velocity_curve: CurveType::Linear,
        channel_low: 1,
        channel_high: 16,
        pitch_bend_low: -8192i16,
        pitch_bend_high: 8192i16,
        playback: crate::zone_modes::neutral_playback(),
        ..z
    }
}

/// A zone that no opcode has touched: neutral settings, and no name, file,
/// controller condition or extra opcode.
pub open spec fn is_neutral_zone(z: Zone) -> bool {
    &&& z == neutral_core(z)
    &&& z.name@.len() == 0
    &&& z.files@.len() == 0
    &&& z.cc_conditions@.len() == 0
    &&& z.extra_sfz_opcodes@.len() == 0
}

impl Default for Zone {
    fn default() -> (z: Self)
        ensures
            is_neutral_zone(z),
    {
        Zone {
            name: String::new(),
            files: Vec::new(),
            key_low: 0,
            key_high: 127,
            vel_low: 0,
            vel_high: 127,
            root_key: 60,
            key_fade_in: None,
            key_fade_out: None,
            vel_fade_in: None,
            vel_fade_out: None,
            key_fade_low: 0,
            key_fade_high: 0,
            vel_fade_low: 0,
            vel_fade_high: 0,
            velocity_curve: CurveType::Linear,
            channel_low: 1,
            channel_high: 16,
            pitch_bend_low: -8192,
            pitch_bend_high: 8192,
            cc_conditions: Vec::new(),
            playback: ZonePlayback::new(),
            extra_sfz_opcodes: Vec::new(),
        }
    }
}

/// The part of a sampler group that decides when the group plays: its name, zones,
/// limits, output, raw SFZ opcodes, keyswitches and trigger conditions.
#[derive(Debug, Clone)]
pub struct Group {
    pub name: String,
    pub zones: Vec<Zone>,
    pub poly_limit: usize,
    pub exclusive_group: u8,
    pub output: u8,
    pub extra_sfz_opcodes: Vec<(String, String)>,
    pub trigger_type: TriggerType,
    pub trigger_conditions: [TriggerCondition; 4],
    pub trigger_conjunctions: [TriggerConjunction; 3],
    pub sw_last: Option<u8>,
    pub sw_down: Option<u8>,
    pub sw_up: Option<u8>,
    pub sw_previous: Option<u8>,
    pub sw_lolast: Option<u8>,
    pub sw_hilast: Option<u8>,
    pub sw_default: Option<u8>,
    pub sw_label: Option<String>,
}

impl Default for Group {
    fn default() -> (g: Self)
        ensures
            g.name@.len() == 0,
            g.zones@.len() == 0,
            g.poly_limit == 0,
            g.exclusive_group == 0,
            g.output == 0,
            g.extra_sfz_opcodes@.len() == 0,
            g.trigger_type == TriggerType::NoTrigger,
            forall|i: int| 0 <= i < 4 ==> #[trigger] g.trigger_conditions@[i] == (TriggerCondition { note: 0, cc: 0, cc_value: 0 }),
            forall|i: int| 0 <= i < 3 ==> #[trigger] g.trigger_conjunctions@[i] == TriggerConjunction::And,
            g.sw_last is None,
            g.sw_down is None,
            g.sw_up is None,
            g.sw_previous is None,
            g.sw_lolast is None,
            g.sw_hilast is None,
            g.sw_default is None,
            g.sw_label is None,
    {
        let c = TriggerCondition { note: 0, cc: 0, cc_value: 0 };
        Group {
            name: String::new(),
            zones: Vec::new(),
            poly_limit: 0,
            exclusive_group: 0,
            output: 0,
            extra_sfz_opcodes: Vec::new(),
            trigger_type: TriggerType::NoTrigger,
            trigger_conditions: [c, c, c, c],
            trigger_conjunctions: [TriggerConjunction::And, TriggerConjunction::And, TriggerConjunction::And],
            sw_last: None,
            sw_down: None,
            sw_up: None,
            sw_previous: None,
            sw_lolast: None,
            sw_hilast: None,
            sw_default: None,
            sw_label: None,
        }
    }
}

/// The part of a sampler part that group activation reads and keeps: its groups,
/// channel, transpose, polyphony, and the keyswitch history.
#[derive(Debug, Clone)]
pub struct Part {
    pub name: String,
    pub groups: Vec<Group>,
    pub midi_channel: u8,
    pub transpose: i8,
    pub poly_limit: usize,
    pub mpe_enabled: bool,
    pub last_keyswitch_note: Option<u8>,
    pub previous_note: Option<u8>,
}

impl Default for Part {
    fn default() -> (p: Self)
        ensures
            p.name@.len() == 0,
            p.groups@.len() == 0,
            p.midi_channel == 255,
            p.transpose == 0,
            p.poly_limit == 0,
            !p.mpe_enabled,
            p.last_keyswitch_note is None,
            p.previous_note is None,
    {
        Part {
            name: String::new(),
            groups: Vec::new(),
            midi_channel: 255,
            transpose: 0,
            poly_limit: 0,
            mpe_enabled: false,
            last_keyswitch_note: None,
            previous_note: None,
        }
    }
}

/// The group has at least one keyswitch that gates it (`sw_default` gates nothing).
pub open spec fn has_keyswitch(g: Group) -> bool {
    g.sw_last is Some || g.sw_down is Some || g.sw_up is Some || g.sw_previous is Some
        || g.sw_lolast is Some || g.sw_hilast is Some
}

/// The keyswitches of the group let it play: a `sw_down` note is held, a `sw_up` note
/// is not held, the last keyswitch is `sw_last`, the last keyswitch lies within
/// `sw_lolast..=sw_hilast` (open ends default to 0 and 127), and the previous note is
/// `sw_previous`.
pub open spec fn keyswitches_allow(g: Group, part: Part, held: Seq<bool>) -> bool {
    &&& (g.sw_down matches Some(n) ==> held[n as int])
    &&& (g.sw_up matches Some(n) ==> !held[n as int])
    &&& (g.sw_last matches Some(n) ==> part.last_keyswitch_note == Some(n))
    &&& ((g.sw_lolast is Some || g.sw_hilast is Some) ==> (part.last_keyswitch_note matches Some(
        last) && (match g.sw_lolast {
        Some(lo) => lo,
        None => 0u8,
    }) <= last && last <= (match g.sw_hilast {
        Some(hi) => hi,
        None => 127u8,
    })))
    &&& (g.sw_previous matches Some(n) ==> part.previous_note == Some(n))
}

/// Condition `i` of the group holds for the controller values `cc`.
pub open spec fn condition_holds(g: Group, cc: Seq<u8>, i: int) -> bool {
    g.trigger_type == TriggerType::MidiCc && cc[(g.trigger_conditions@[i].cc % 128) as int]
        >= g.trigger_conditions@[i].cc_value
}

/// Combines the result so far with the next condition's result.
pub open spec fn combine(acc: bool, conj: TriggerConjunction, next: bool) -> bool {
    match conj {
        TriggerConjunction::And => acc && next,
        TriggerConjunction::Or => acc || next,
        TriggerConjunction::AndNot => acc && !next,
        TriggerConjunction::OrNot => acc || !next,
    }
}

/// The four conditions combined left to right by the three conjunctions.
pub open spec fn conditions_allow(g: Group, cc: Seq<u8>) -> bool {
    combine(
        combine(
            combine(condition_holds(g, cc, 0), g.trigger_conjunctions@[0], condition_holds(g, cc, 1)),
            g.trigger_conjunctions@[1],
            condition_holds(g, cc, 2),
        ),
        g.trigger_conjunctions@[2],
        condition_holds(g, cc, 3),
    )
}

/// The keyswitch notes that get looked up among the held notes are MIDI notes:
/// `sw_down` always, `sw_up` when the `sw_down` check has passed. Other notes would
/// index past the 128 held-note flags.
pub open spec fn keyswitch_lookups_in_range(g: Group, held: Seq<bool>) -> bool {
    &&& (g.sw_down matches Some(n) ==> n < 128)
    &&& (g.sw_up matches Some(m) ==> ((g.sw_down matches Some(n) ==> held[n as int]) ==> m < 128))
}

/// A group plays when its keyswitches (if any) allow it and, for CC-triggered groups,
/// its conditions allow it.
pub open spec fn group_active(g: Group, part: Part, cc: Seq<u8>, held: Seq<bool>) -> bool {
    &&& (has_keyswitch(g) ==> keyswitches_allow(g, part, held))
    &&& (g.trigger_type == TriggerType::MidiCc ==> conditions_allow(g, cc))
}

/// Decides whether `group` may play given the part's keyswitch history, the current
/// controller values and the held notes.
pub fn group_is_active(
    group: &Group,
    part: &Part,
    cc_values: &[u8; 128],
    held_notes: &[bool; 128],
) -> (active: bool)
    requires
        keyswitch_lookups_in_range(*group, held_notes@),
    ensures
        active == group_active(*group, *part, cc_values@, held_notes@),
{
    let mut active = true;
    if group.sw_last.is_some() || group.sw_down.is_some() || group.sw_up.is_some()
        || group.sw_previous.is_some() || group.sw_lolast.is_some() || group.sw_hilast.is_some() {
        active = keyswitch_active(group, part, held_notes);
    }
    if !active {
        return false;
    }
    match group.trigger_type {
        TriggerType::NoTrigger => active,
        TriggerType::MidiCc => evaluate_conditions(group, part, cc_values),
    }
}

fn keyswitch_active(group: &Group, part: &Part, held_notes: &[bool; 128]) -> (ok: bool)
    requires
        keyswitch_lookups_in_range(*group, held_notes@),
    ensures
        ok == keyswitches_allow(*group, *part, held_notes@),
{
    if let Some(note) = group.sw_down {
        if !held_notes[note as usize] {
            return false;
        }
    }
    if let Some(note) = group.sw_up {
        if held_notes[note as usize] {
            return false;
        }
    }
    if let Some(note) = group.sw_last {
        if part.last_keyswitch_note != Some(note) {
            return false;
        }
    }
    if group.sw_lolast.is_some() || group.sw_hilast.is_some() {
        let lo = match group.sw_lolast {
            Some(v) => v,
            None => 0u8,
        };
        let hi = match group.sw_hilast {
            Some(v) => v,
            None => 127u8,
        };
        match part.last_keyswitch_note {
            Some(last) => {
                if last < lo || last > hi {
                    return false;
                }
            },
            None => {
                return false;
            },
        }
    }
    if let Some(note) = group.sw_previous {
        if part.previous_note != Some(note) {
            return false;
        }
    }
    true
}

fn evaluate_conditions(group: &Group, _part: &Part, cc_values: &[u8; 128]) -> (ok: bool)
    requires
        group.trigger_type == TriggerType::MidiCc,
    ensures
        ok == conditions_allow(*group, cc_values@),
{
    let mut results = [false, false, false, false];
    let mut i: usize = 0;
    while i < 4
        invariant
            i <= 4,
            group.trigger_type == TriggerType::MidiCc,
            forall|k: int| 0 <= k < i ==> results@[k] == condition_holds(*group, cc_values@, k),
        decreases 4 - i,
    {
        let cond = group.trigger_conditions[i];
        let cc_val = cc_values[(cond.cc % 128) as usize];
        results.set(i, cc_val >= cond.cc_value);
        i = i + 1;
    }
    let mut active = results[0];
    let mut j: usize = 0;
    while j < 3
        invariant
            j <= 3,
            forall|k: int| 0 <= k < 4 ==> results@[k] == condition_holds(*group, cc_values@, k),
            j == 0 ==> active == condition_holds(*group, cc_values@, 0),
            j == 1 ==> active == combine(condition_holds(*group, cc_values@, 0), group.trigger_conjunctions@[0], condition_holds(*group, cc_values@, 1)),
            j == 2 ==> active == combine(
                combine(condition_holds(*group, cc_values@, 0), group.trigger_conjunctions@[0], condition_holds(*group, cc_values@, 1)),
                group.trigger_conjunctions@[1],
                condition_holds(*group, cc_values@, 2),
            ),
            j == 3 ==> active == conditions_allow(*group, cc_values@),
        decreases 3 - j,
    {
        let next = results[j + 1];
        active = match group.trigger_conjunctions[j] {
            TriggerConjunction::And => active && next,
            TriggerConjunction::Or => active || next,
            TriggerConjunction::AndNot => active && !next,
            TriggerConjunction::OrNot => active || !next,
        };
        j = j + 1;
    }
    active
}

/// An instrument: its parts, each with its groups.
#[derive(Debug, Clone)]
pub struct Patch {
    pub parts: Vec<Part>,
}

/// A group with no keyswitch and no trigger condition plays whatever the part's
/// history, the controllers and the held notes.
pub proof fn lemma_ungated_group_active(g: Group, part: Part, cc: Seq<u8>, held: Seq<bool>)
    requires
        !has_keyswitch(g),
        g.trigger_type == TriggerType::NoTrigger,
    ensures
        group_active(g, part, cc, held),
{
}

/// A group keyed by `sw_down` plays only while its note is held, and one keyed by
/// `sw_up` only while it is not: for one note, the two never play together.
pub proof fn lemma_down_up_exclusive(down: Group, up: Group, part: Part, cc: Seq<u8>, held: Seq<bool>, n: u8)
    requires
        down.sw_down == Some(n),
        up.sw_up == Some(n),
    ensures
        group_active(down, part, cc, held) ==> held[n as int],
        group_active(up, part, cc, held) ==> !held[n as int],
        !(group_active(down, part, cc, held) && group_active(up, part, cc, held)),
{
}

/// A CC-triggered group whose conjunctions are all `And` plays exactly when it has no
/// keyswitch blocking it and all four conditions hold.
pub proof fn lemma_all_and_conditions(g: Group, part: Part, cc: Seq<u8>, held: Seq<bool>)
    requires
        g.trigger_type == TriggerType::MidiCc,
        forall|i: int| 0 <= i < 3 ==> g.trigger_conjunctions@[i] == TriggerConjunction::And,
    ensures
        group_active(g, part, cc, held) == ((has_keyswitch(g) ==> keyswitches_allow(g, part, held))
            && forall|i: int| 0 <= i < 4 ==> #[trigger] condition_holds(g, cc, i)),
{
    assert(g.trigger_conjunctions@[0] == TriggerConjunction::And);
    assert(g.trigger_conjunctions@[1] == TriggerConjunction::And);
    assert(g.trigger_conjunctions@[2] == TriggerConjunction::And);
    if forall|i: int| 0 <= i < 4 ==> #[trigger] condition_holds(g, cc, i) {
        assert(condition_holds(g, cc, 0));
        assert(condition_holds(g, cc, 1));
        assert(condition_holds(g, cc, 2));
        assert(condition_holds(g, cc, 3));
    }
    if conditions_allow(g, cc) {
        assert forall|i: int| 0 <= i < 4 implies #[trigger] condition_holds(g, cc, i) by {
            if i == 0 {} else if i == 1 {} else if i == 2 {} else {}
        }
    }
}

/// Conditions are joined left to right, and `OrNot` joins the result so far `x` with
/// the next condition `y` as `x || !y`: for a CC-triggered group without keyswitches
/// whose first conjunction is `OrNot` and whose others are `Or`, the group plays
/// whenever condition 0 holds or condition 1 fails; and where conditions 2 and 3 both
/// fail, it plays exactly then. (Condition `i` holds when controller `cc % 128` is at
/// least its value.)
pub proof fn lemma_or_not_conjunction(g: Group, part: Part, cc: Seq<u8>, held: Seq<bool>)
    requires
        !has_keyswitch(g),
        g.trigger_type == TriggerType::MidiCc,
        g.trigger_conjunctions@[0] == TriggerConjunction::OrNot,
        g.trigger_conjunctions@[1] == TriggerConjunction::Or,
        g.trigger_conjunctions@[2] == TriggerConjunction::Or,
    ensures
        ({
            let c = g.trigger_conditions@;
            let met0 = cc[(c[0].cc % 128) as int] >= c[0].cc_value;
            let met1 = cc[(c[1].cc % 128) as int] >= c[1].cc_value;
            let met2 = cc[(c[2].cc % 128) as int] >= c[2].cc_value;
            let met3 = cc[(c[3].cc % 128) as int] >= c[3].cc_value;
            &&& (met0 || !met1) ==> group_active(g, part, cc, held)
            &&& (!met2 && !met3) ==> (group_active(g, part, cc, held) <==> (met0 || !met1))
        }),
{
}

/// The first conjunction joins conditions 0 and 1 as its name says (`And`: both,
/// `Or`: either, `AndNot`: the first and not the second, `OrNot`: the first or not the
/// second): for a CC-triggered group without keyswitches whose other two conjunctions
/// are `Or` and whose conditions 2 and 3 fail, the group plays exactly when that
/// combination holds.
pub proof fn lemma_first_conjunction(g: Group, part: Part, cc: Seq<u8>, held: Seq<bool>)
    requires
        !has_keyswitch(g),
        g.trigger_type == TriggerType::MidiCc,
        g.trigger_conjunctions@[1] == TriggerConjunction::Or,
        g.trigger_conjunctions@[2] == TriggerConjunction::Or,
        cc[(g.trigger_conditions@[2].cc % 128) as int] < g.trigger_conditions@[2].cc_value,
        cc[(g.trigger_conditions@[3].cc % 128) as int] < g.trigger_conditions@[3].cc_value,
    ensures
        ({
            let c = g.trigger_conditions@;
            let met0 = cc[(c[0].cc % 128) as int] >= c[0].cc_value;
            let met1 = cc[(c[1].cc % 128) as int] >= c[1].cc_value;
            group_active(g, part, cc, held) <==> match g.trigger_conjunctions@[0] {
                TriggerConjunction::And => met0 && met1,
                TriggerConjunction::Or => met0 || met1,
                TriggerConjunction::AndNot => met0 && !met1,
                TriggerConjunction::OrNot => met0 || !met1,
            }
        }),
{
}

} // verus!
