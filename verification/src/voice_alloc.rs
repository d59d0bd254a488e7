//! The engine's voice allocation decisions when a zone is triggered: which playing
//! voices an exclusive group or an `off_by` group cuts, and which voice plays the new
//! note under the group, part and global polyphony limits.

use vstd::prelude::*;

verus! {

/// What the allocator knows of one voice: whether it is playing, its exclusive group,
/// and the group and part that started it.
#[derive(Debug, Clone, Copy, PartialEq, Eq, Structural)]
pub struct VoiceSlot {
    pub active: bool,
    pub exclusive_group: u8,
    pub group: usize,
    pub part: usize,
}

/// What happens to a voice when a new note is triggered.
#[derive(Debug, Clone, Copy, PartialEq, Eq, Structural)]
pub enum VoiceAction {
    /// It plays on.
    Keep,
    /// It goes to its release stage (same exclusive group as the new note).
    Release,
    /// It stops at once (its exclusive group is the new zone's `off_by`).
    Stop,
}

/// The action for one voice: a playing voice of the `off_by` group (when not 0) stops;
/// else a playing voice of the new note's exclusive group (when not 0) is released;
/// any other voice plays on. A voice that both rules name stops.
pub open spec fn choke_action(v: VoiceSlot, exclusive_group: u8, off_by: u8) -> VoiceAction {
    if off_by != 0 && v.active && v.exclusive_group == off_by {
        VoiceAction::Stop
    } else if exclusive_group != 0 && v.active && v.exclusive_group == exclusive_group {
        VoiceAction::Release
    } else {
        VoiceAction::Keep
    }
}

/// The action for each voice, in voice order, as `choke_action` states.
pub fn choke_actions(voices: &[VoiceSlot], exclusive_group: u8, off_by: u8) -> (r: Vec<VoiceAction>)
    ensures
        r@.len() == voices@.len(),
        forall|i: int| 0 <= i < voices@.len() ==> r@[i] == choke_action(voices@[i], exclusive_group, off_by),
{
    let mut r: Vec<VoiceAction> = Vec::new();
    let mut i: usize = 0;
    while i < voices.len()
        invariant
            i <= voices@.len(),
            r@.len() == i,
            forall|j: int| 0 <= j < i ==> r@[j] == choke_action(voices@[j], exclusive_group, off_by),
        decreases voices@.len() - i,
    {
        let v = voices[i];
        let a = if off_by != 0 && v.active && v.exclusive_group == off_by {
            VoiceAction::Stop
        } else if exclusive_group != 0 && v.active && v.exclusive_group == exclusive_group {
            VoiceAction::Release
        } else {
            VoiceAction::Keep
        };
        r.push(a);
        i = i + 1;
    }
    r
}

/// Which voices a rule looks at: `0` the playing voices of the part's group, `1` the
/// playing voices of the part, `2` the playing voices, `3` the free voices.
pub open spec fn slot_matches(v: VoiceSlot, kind: int, part: usize, group: usize) -> bool {
    if kind == 0 {
        v.active && v.group == group && v.part == part
    } else if kind == 1 {
        v.active && v.part == part
    } else if kind == 2 {
        v.active
    } else {
        !v.active
    }
}

/// How many voices a rule looks at.
pub open spec fn count_matching(vs: Seq<VoiceSlot>, kind: int, part: usize, group: usize) -> nat
    decreases vs.len(),
{
    if vs.len() == 0 {
        0
    } else {
        count_matching(vs.drop_last(), kind, part, group) + (if slot_matches(vs.last(), kind, part, group) { 1nat } else { 0nat })
    }
}

/// The first voice from `i` on that a rule looks at.
pub open spec fn first_matching(vs: Seq<VoiceSlot>, kind: int, part: usize, group: usize, i: int) -> Option<int>
    decreases vs.len() - i,
{
    if i < 0 || i >= vs.len() {
        None
    } else if slot_matches(vs[i], kind, part, group) {
        Some(i)
    } else {
        first_matching(vs, kind, part, group, i + 1)
    }
}

/// The voice a limit takes back: where the limit is set (not 0) and as many voices as
/// it allows play already, the first (oldest) of them.
pub open spec fn over_limit(vs: Seq<VoiceSlot>, kind: int, part: usize, group: usize, limit: usize) -> Option<int> {
    if limit > 0 && count_matching(vs, kind, part, group) >= limit {
        first_matching(vs, kind, part, group, 0)
    } else {
        None
    }
}

/// The voice that plays a new note of group `group` of part `part`: the first voice
/// of that group where the group's limit is reached; else the first of the part where
/// the part's limit is reached; else the first playing voice where the global limit is
/// reached; else the first free voice; else the first playing voice (the oldest is
/// stolen). `None` only where there is no voice at all.
pub open spec fn voice_choice(
    vs: Seq<VoiceSlot>,
    part: usize,
    group: usize,
    group_poly: usize,
    part_poly: usize,
    global_poly: usize,
) -> Option<int> {
    match over_limit(vs, 0, part, group, group_poly) {
        Some(i) => Some(i),
        None => match over_limit(vs, 1, part, group, part_poly) {
            Some(i) => Some(i),
            None => match over_limit(vs, 2, part, group, global_poly) {
                Some(i) => Some(i),
                None => match first_matching(vs, 3, part, group, 0) {
                    Some(i) => Some(i),
                    None => first_matching(vs, 2, part, group, 0),
                },
            },
        },
    }
}

fn matches_kind(v: VoiceSlot, kind: u8, part: usize, group: usize) -> (r: bool)
    requires
        kind <= 3,
    ensures
        r == slot_matches(v, kind as int, part, group),
{
    if kind == 0 {
        v.active && v.group == group && v.part == part
    } else if kind == 1 {
        v.active && v.part == part
    } else if kind == 2 {
        v.active
    } else {
        !v.active
    }
}

fn count_of(voices: &[VoiceSlot], kind: u8, part: usize, group: usize) -> (n: usize)
    requires
        kind <= 3,
    ensures
        n == count_matching(voices@, kind as int, part, group),
{
    let mut n: usize = 0;
    let mut i: usize = 0;
    while i < voices.len()
        invariant
            kind <= 3,
            i <= voices@.len(),
            n == count_matching(voices@.subrange(0, i as int), kind as int, part, group),
            n <= i,
        decreases voices@.len() - i,
    {
        assert(voices@.subrange(0, i + 1).drop_last() =~= voices@.subrange(0, i as int));
        if matches_kind(voices[i], kind, part, group) {
            n = n + 1;
        }
        i = i + 1;
    }
    assert(voices@.subrange(0, i as int) =~= voices@);
    n
}

fn first_of(voices: &[VoiceSlot], kind: u8, part: usize, group: usize) -> (r: Option<usize>)
    requires
        kind <= 3,
    ensures
        match r {
            Some(i) => first_matching(voices@, kind as int, part, group, 0) == Some(i as int),
            None => first_matching(voices@, kind as int, part, group, 0) is None,
        },
{
    let mut i: usize = 0;
    while i < voices.len()
        invariant
            kind <= 3,
            i <= voices@.len(),
            first_matching(voices@, kind as int, part, group, 0) == first_matching(voices@, kind as int, part, group, i as int),
        decreases voices@.len() - i,
    {
        if matches_kind(voices[i], kind, part, group) {
            return Some(i);
        }
        i = i + 1;
    }
    None
}

fn limit_voice(voices: &[VoiceSlot], kind: u8, part: usize, group: usize, limit: usize) -> (r: Option<usize>)
    requires
        kind <= 3,
    ensures
        match r {
            Some(i) => over_limit(voices@, kind as int, part, group, limit) == Some(i as int),
            None => over_limit(voices@, kind as int, part, group, limit) is None,
        },
{
    if limit > 0 && count_of(voices, kind, part, group) >= limit {
        first_of(voices, kind, part, group)
    } else {
        None
    }
}

/// The voice that plays a new note, as `voice_choice` states.
pub fn choose_voice(
    voices: &[VoiceSlot],
    part: usize,
    group: usize,
    group_poly: usize,
    part_poly: usize,
    global_poly: usize,
) -> (r: Option<usize>)
    ensures
        match r {
            Some(i) => voice_choice(voices@, part, group, group_poly, part_poly, global_poly) == Some(i as int),
            None => voice_choice(voices@, part, group, group_poly, part_poly, global_poly) is None,
        },
{
    if let Some(i) = limit_voice(voices, 0, part, group, group_poly) {
        return Some(i);
    }
    if let Some(i) = limit_voice(voices, 1, part, group, part_poly) {
        return Some(i);
    }
    if let Some(i) = limit_voice(voices, 2, part, group, global_poly) {
        return Some(i);
    }
    if let Some(i) = first_of(voices, 3, part, group) {
        return Some(i);
    }
    first_of(voices, 2, part, group)
}

proof fn lemma_first_matching(vs: Seq<VoiceSlot>, kind: int, part: usize, group: usize, i: int)
    requires
        0 <= i,
    ensures
        first_matching(vs, kind, part, group, i) matches Some(k) ==> i <= k < vs.len() && slot_matches(vs[k], kind, part, group),
        first_matching(vs, kind, part, group, i) is None ==> forall|j: int| i <= j < vs.len() ==> !slot_matches(#[trigger] vs[j], kind, part, group),
    decreases vs.len() - i,
{
    if i < vs.len() && !slot_matches(vs[i], kind, part, group) {
        lemma_first_matching(vs, kind, part, group, i + 1);
    }
}

proof fn lemma_count_positive(vs: Seq<VoiceSlot>, kind: int, part: usize, group: usize)
    requires
        count_matching(vs, kind, part, group) > 0,
    ensures
        exists|j: int| 0 <= j < vs.len() && slot_matches(#[trigger] vs[j], kind, part, group),
    decreases vs.len(),
{
    if !slot_matches(vs.last(), kind, part, group) {
        lemma_count_positive(vs.drop_last(), kind, part, group);
        let j = choose|j: int| 0 <= j < vs.drop_last().len() && slot_matches(#[trigger] vs.drop_last()[j], kind, part, group);
        assert(vs[j] == vs.drop_last()[j]);
    }
}

/// A voice is always found where there is one, and it is one of the voices; where a
/// limit is reached, the voice taken back is one its rule looks at: a playing voice of
/// the same group (group limit), of the same part (part limit), or any playing voice
/// (global limit).
pub proof fn lemma_voice_choice(
    vs: Seq<VoiceSlot>,
    part: usize,
    group: usize,
    group_poly: usize,
    part_poly: usize,
    global_poly: usize,
)
    ensures
        vs.len() > 0 <==> voice_choice(vs, part, group, group_poly, part_poly, global_poly) is Some,
        voice_choice(vs, part, group, group_poly, part_poly, global_poly) matches Some(i) ==> 0 <= i < vs.len(),
        over_limit(vs, 0, part, group, group_poly) matches Some(i) ==> {
            &&& voice_choice(vs, part, group, group_poly, part_poly, global_poly) == Some(i)
            &&& vs[i].active && vs[i].group == group && vs[i].part == part
        },
{
    lemma_first_matching(vs, 0, part, group, 0);
    lemma_first_matching(vs, 1, part, group, 0);
    lemma_first_matching(vs, 2, part, group, 0);
    lemma_first_matching(vs, 3, part, group, 0);
    if group_poly > 0 && count_matching(vs, 0, part, group) >= group_poly {
        lemma_count_positive(vs, 0, part, group);
    }
    if part_poly > 0 && count_matching(vs, 1, part, group) >= part_poly {
        lemma_count_positive(vs, 1, part, group);
    }
    if global_poly > 0 && count_matching(vs, 2, part, group) >= global_poly {
        lemma_count_positive(vs, 2, part, group);
    }
    if vs.len() > 0 {
        if first_matching(vs, 3, part, group, 0) is None {
            assert(!slot_matches(vs[0], 3, part, group));
        }
    }
}

proof fn lemma_count_update(vs: Seq<VoiceSlot>, kind: int, part: usize, group: usize, i: int, w: VoiceSlot)
    requires
        0 <= i < vs.len(),
    ensures
        count_matching(vs.update(i, w), kind, part, group) + (if slot_matches(vs[i], kind, part, group) { 1int } else { 0int })
            == count_matching(vs, kind, part, group) + (if slot_matches(w, kind, part, group) { 1int } else { 0int }),
    decreases vs.len(),
{
    let u = vs.update(i, w);
    if i == vs.len() - 1 {
        assert(u.drop_last() =~= vs.drop_last());
    } else {
        assert(u.drop_last() =~= vs.drop_last().update(i, w));
        lemma_count_update(vs.drop_last(), kind, part, group, i, w);
    }
}

/// With a global polyphony limit `global_poly` set (not 0) and no more voices playing
/// than it allows, the voice that starts the new note leaves no more than that many
/// playing: a free voice is taken only while fewer play, and otherwise a playing voice
/// is taken over.
pub proof fn lemma_global_limit_kept(
    vs: Seq<VoiceSlot>,
    part: usize,
    group: usize,
    group_poly: usize,
    part_poly: usize,
    global_poly: usize,
    w: VoiceSlot,
)
    requires
        global_poly > 0,
        count_matching(vs, 2, part, group) <= global_poly,
    ensures
        voice_choice(vs, part, group, group_poly, part_poly, global_poly) matches Some(i) ==> count_matching(
            vs.update(i, w),
            2,
            part,
            group,
        ) <= global_poly,
{
    lemma_voice_choice(vs, part, group, group_poly, part_poly, global_poly);
    lemma_first_matching(vs, 0, part, group, 0);
    lemma_first_matching(vs, 1, part, group, 0);
    lemma_first_matching(vs, 2, part, group, 0);
    lemma_first_matching(vs, 3, part, group, 0);
    match voice_choice(vs, part, group, group_poly, part_poly, global_poly) {
        Some(i) => {
            lemma_count_update(vs, 2, part, group, i, w);
            if over_limit(vs, 0, part, group, group_poly) is None && over_limit(vs, 1, part, group, part_poly) is None
                && over_limit(vs, 2, part, group, global_poly) is None && first_matching(vs, 3, part, group, 0) is Some {
                if count_matching(vs, 2, part, group) >= global_poly {
                    lemma_count_positive(vs, 2, part, group);
                }
                assert(count_matching(vs, 2, part, group) < global_poly);
            } else {
                assert(vs[i].active);
            }
        },
        None => {},
    }
}

} // verus!
