//! The zone list of the instrument editor: creating and deleting zones and groups,
//! moving a zone to another group, renaming it, and undoing an edit of the zones.

use vstd::prelude::*;
use crate::editor_options::{GroupEditField, ZoneCreateKind, ZoneListSelection};
use crate::editor_sync::{
    group_for_new_zone, new_zone_group, no_switches, sample_group_entry, sample_zone_entry, sample_zones_view, ZoneEntry,
};
use crate::opcode_text::{format_sfz_opcode_text, opcode_text, parse_sfz_opcode_text, parsed_opcode_text};
use crate::sfz_opcode_map::pairs_view;
use crate::zone_map::{list_group, with_group_listed};
use crate::zones::{
    default_new_zone, is_new_zone_name, numbered_name, unique_group_name, used_group_names,
    SampleGroup, SampleZone,
};

verus! {

/// The zones as the undo history keeps them: each snapshot by its entries.
pub open spec fn history_view(h: Seq<Vec<SampleZone>>) -> Seq<Seq<ZoneEntry>> {
    Seq::new(h.len(), |i: int| sample_zones_view(h[i]@))
}

/// The history after an edit of `zones`: the zones before it, pushed.
pub open spec fn history_after_edit(h: Seq<Seq<ZoneEntry>>, zones: Seq<ZoneEntry>) -> Seq<Seq<ZoneEntry>> {
    h.push(zones)
}

/// What undo gives from `zones` and the history `h`: the last snapshot and the history
/// before it, or both unchanged where the history is empty.
pub open spec fn undo_outcome(zones: Seq<ZoneEntry>, h: Seq<Seq<ZoneEntry>>) -> (Seq<ZoneEntry>, Seq<Seq<ZoneEntry>>) {
    if h.len() == 0 {
        (zones, h)
    } else {
        (h.last(), h.drop_last())
    }
}

fn copy_zone(z: &SampleZone) -> (c: SampleZone)
    ensures
        sample_zone_entry(c) == sample_zone_entry(*z),
{
    let mut files: Vec<String> = Vec::new();
    let mut i: usize = 0;
    while i < z.files.len()
        invariant
            i <= z.files@.len(),
            files@.len() == i,
            forall|j: int| 0 <= j < i ==> (#[trigger] files@[j])@ == z.files@[j]@,
        decreases z.files@.len() - i,
    {
        files.push(z.files[i].clone());
        i = i + 1;
    }
    let c = SampleZone {
        name: z.name.clone(),
        files,
        start_note: z.start_note,
        end_note: z.end_note,
        vel_low: z.vel_low,
        vel_high: z.vel_high,
        root_key: z.root_key,
        group: z.group.clone(),
        key_fade_in: z.key_fade_in,
        key_fade_out: z.key_fade_out,
        vel_fade_in: z.vel_fade_in,
        vel_fade_out: z.vel_fade_out,
        key_fade_low: z.key_fade_low,
        key_fade_high: z.key_fade_high,
        vel_fade_low: z.vel_fade_low,
        vel_fade_high: z.vel_fade_high,
        velocity_curve: z.velocity_curve,
        channel_low: z.channel_low,
        channel_high: z.channel_high,
        pitch_bend_low: z.pitch_bend_low,
        pitch_bend_high: z.pitch_bend_high,
        cc_conditions: crate::editor_sync::copy_conditions(&z.cc_conditions),
        playback: z.playback,
        extra_sfz_opcodes: crate::editor_sync::copy_pairs(&z.extra_sfz_opcodes),
    };
    proof {
        assert(crate::editor_sync::files_view(c.files@) =~= crate::editor_sync::files_view(z.files@));
    }
    c
}

/// A copy of the zones, entry for entry.
pub fn copy_zones(zones: &[SampleZone]) -> (r: Vec<SampleZone>)
    ensures
        sample_zones_view(r@) == sample_zones_view(zones@),
{
    let mut r: Vec<SampleZone> = Vec::new();
    let mut i: usize = 0;
    while i < zones.len()
        invariant
            i <= zones@.len(),
            r@.len() == i,
            forall|j: int| 0 <= j < i ==> sample_zone_entry(#[trigger] r@[j]) == sample_zone_entry(zones@[j]),
        decreases zones@.len() - i,
    {
        r.push(copy_zone(&zones[i]));
        i = i + 1;
    }
    proof {
        assert(sample_zones_view(r@) =~= sample_zones_view(zones@));
    }
    r
}

fn record_zones(history: &mut Vec<Vec<SampleZone>>, zones: &[SampleZone])
    ensures
        history_view(final(history)@) == history_after_edit(history_view(old(history)@), sample_zones_view(zones@)),
{
    let snapshot = copy_zones(zones);
    history.push(snapshot);
    proof {
        assert(history_view(history@) =~= history_view(old(history)@).push(sample_zones_view(zones@)));
    }
}

/// Restores the zones from the last snapshot of the history, as `undo_outcome` states,
/// and says whether there was one.
pub fn undo_zone_edit(zones: &mut Vec<SampleZone>, history: &mut Vec<Vec<SampleZone>>) -> (undone: bool)
    ensures
        undone == (old(history)@.len() > 0),
        (sample_zones_view(final(zones)@), history_view(final(history)@))
            == undo_outcome(sample_zones_view(old(zones)@), history_view(old(history)@)),
{
    match history.pop() {
        Some(previous) => {
            *zones = previous;
            proof {
                assert(history_view(history@) =~= history_view(old(history)@).drop_last());
            }
            true
        },
        None => false,
    }
}

/// The name a new group gets: `New Group` while no group or zone uses it, else the
/// first `New Group N` (from 2 on) none uses.
pub open spec fn is_new_group_name(groups: Seq<SampleGroup>, zones: Seq<SampleZone>, name: Seq<char>) -> bool {
    let used = used_group_names(groups, zones);
    let base = "New Group"@;
    &&& !used.contains(name)
    &&& !used.contains(base) ==> name == base
    &&& used.contains(base) ==> exists|k: nat| {
        &&& k >= 2
        &&& name == numbered_name(base, k)
        &&& forall|j: nat| 2 <= j < k ==> used.contains(#[trigger] numbered_name(base, j))
    }
}

/// Creates a group or a zone from the zone list, recording the zones first, and gives
/// what is selected afterwards. A group gets a new group name and default settings
/// and is selected. A zone is the default new zone of the group `group_for_new_zone`
/// picks, which is listed where it was not; it is added at the end and selected.
pub fn create_zone_list_item(
    zones: &mut Vec<SampleZone>,
    groups: &mut Vec<SampleGroup>,
    history: &mut Vec<Vec<SampleZone>>,
    selected: &Option<ZoneListSelection>,
    kind: ZoneCreateKind,
) -> (sel: ZoneListSelection)
    requires
        old(groups)@.len() + old(zones)@.len() < 0x7fff_0000,
    ensures
        history_view(final(history)@) == history_after_edit(history_view(old(history)@), sample_zones_view(old(zones)@)),
        match kind {
            ZoneCreateKind::Group => {
                &&& final(zones)@ == old(zones)@
                &&& final(groups)@.len() == old(groups)@.len() + 1
                &&& final(groups)@.drop_last() == old(groups)@
                &&& is_new_group_name(old(groups)@, old(zones)@, final(groups)@.last().name@)
                &&& sample_group_entry(final(groups)@.last())
                    == (final(groups)@.last().name@, 0usize, 0u8, Seq::<(Seq<char>, Seq<char>)>::empty(), no_switches())
                &&& match sel {
                    ZoneListSelection::Group(g) => g@ == final(groups)@.last().name@,
                    ZoneListSelection::Zone(_) => false,
                }
            },
            ZoneCreateKind::Zone => {
                let group = new_zone_group(*selected, old(groups)@, old(zones)@);
                let z = final(zones)@.last();
                &&& final(zones)@.len() == old(zones)@.len() + 1
                &&& final(zones)@.drop_last() == old(zones)@
                &&& is_new_zone_name(old(zones)@, z.name@)
                &&& z.files@.len() == 0
                &&& z.start_note == 60 && z.end_note == 60
                &&& z.vel_low == 0 && z.vel_high == 127
                &&& z.root_key == 60
                &&& z.group@ == group
                &&& z.key_fade_in is None && z.key_fade_out is None
                &&& z.vel_fade_in is None && z.vel_fade_out is None
                &&& with_group_listed(old(groups)@, group, final(groups)@)
                &&& sel == ZoneListSelection::Zone(old(zones)@.len() as usize)
            },
        },
{
    record_zones(history, zones.as_slice());
    match kind {
        ZoneCreateKind::Group => {
            let name = unique_group_name(groups.as_slice(), zones.as_slice(), "New Group");
            groups.push(SampleGroup::new(name.clone()));
            proof {
                assert(groups@.drop_last() =~= old(groups)@);
                assert(pairs_view(groups@.last().extra_sfz_opcodes@) =~= Seq::empty());
            }
            ZoneListSelection::Group(name)
        },
        ZoneCreateKind::Zone => {
            let group = group_for_new_zone(selected, groups.as_slice(), zones.as_slice());
            let z = default_new_zone(zones.as_slice(), group.clone());
            list_group(groups, &group);
            let index = zones.len();
            zones.push(z);
            proof {
                assert(zones@.drop_last() =~= old(zones)@);
            }
            ZoneListSelection::Zone(index)
        },
    }
}

/// The groups not named `name`, in order.
pub open spec fn groups_not_named(gs: Seq<SampleGroup>, name: Seq<char>) -> Seq<SampleGroup>
    decreases gs.len(),
{
    if gs.len() == 0 {
        gs
    } else {
        let rest = groups_not_named(gs.drop_last(), name);
        if gs.last().name@ != name { rest.push(gs.last()) } else { rest }
    }
}

/// The zones not in the group named `name`, in order.
pub open spec fn zones_not_in_group(zs: Seq<SampleZone>, name: Seq<char>) -> Seq<SampleZone>
    decreases zs.len(),
{
    if zs.len() == 0 {
        zs
    } else {
        let rest = zones_not_in_group(zs.drop_last(), name);
        if zs.last().group@ != name { rest.push(zs.last()) } else { rest }
    }
}

fn remove_groups_named(groups: &mut Vec<SampleGroup>, name: &String)
    ensures
        final(groups)@ == groups_not_named(old(groups)@, name@),
{
    let mut rest: Vec<SampleGroup> = Vec::new();
    std::mem::swap(groups, &mut rest);
    let ghost all = rest@;
    let n = rest.len();
    let mut k: usize = 0;
    while k < n
        invariant
            all == old(groups)@,
            n == all.len(),
            k <= n,
            rest@ == all.subrange(k as int, n as int),
            groups@ == groups_not_named(all.subrange(0, k as int), name@),
        decreases n - k,
    {
        let g = rest.remove(0);
        proof {
            assert(all.subrange(0, k as int + 1).drop_last() =~= all.subrange(0, k as int));
            assert(rest@ =~= all.subrange(k as int + 1, n as int));
        }
        if !crate::text::str_eq(g.name.as_str(), name.as_str()) {
            groups.push(g);
        }
        k = k + 1;
    }
    proof {
        assert(all.subrange(0, n as int) =~= all);
    }
}

fn remove_zones_in_group(zones: &mut Vec<SampleZone>, name: &String)
    ensures
        final(zones)@ == zones_not_in_group(old(zones)@, name@),
{
    let mut rest: Vec<SampleZone> = Vec::new();
    std::mem::swap(zones, &mut rest);
    let ghost all = rest@;
    let n = rest.len();
    let mut k: usize = 0;
    while k < n
        invariant
            all == old(zones)@,
            n == all.len(),
            k <= n,
            rest@ == all.subrange(k as int, n as int),
            zones@ == zones_not_in_group(all.subrange(0, k as int), name@),
        decreases n - k,
    {
        let z = rest.remove(0);
        proof {
            assert(all.subrange(0, k as int + 1).drop_last() =~= all.subrange(0, k as int));
            assert(rest@ =~= all.subrange(k as int + 1, n as int));
        }
        if !crate::text::str_eq(z.group.as_str(), name.as_str()) {
            zones.push(z);
        }
        k = k + 1;
    }
    proof {
        assert(all.subrange(0, n as int) =~= all);
    }
}

/// Deletes what `selection` names, recording the zones first: a zone by index (where
/// there is one), or a group together with every zone in it.
pub fn delete_zone_list_selection(
    zones: &mut Vec<SampleZone>,
    groups: &mut Vec<SampleGroup>,
    history: &mut Vec<Vec<SampleZone>>,
    selection: ZoneListSelection,
)
    ensures
        history_view(final(history)@) == history_after_edit(history_view(old(history)@), sample_zones_view(old(zones)@)),
        match selection {
            ZoneListSelection::Zone(i) => {
                &&& final(groups)@ == old(groups)@
                &&& final(zones)@ == (if i < old(zones)@.len() { old(zones)@.remove(i as int) } else { old(zones)@ })
            },
            ZoneListSelection::Group(name) => {
                &&& final(groups)@ == groups_not_named(old(groups)@, name@)
                &&& final(zones)@ == zones_not_in_group(old(zones)@, name@)
            },
        },
{
    record_zones(history, zones.as_slice());
    match selection {
        ZoneListSelection::Zone(index) => {
            if index < zones.len() {
                zones.remove(index);
            }
        },
        ZoneListSelection::Group(name) => {
            remove_groups_named(groups, &name);
            remove_zones_in_group(zones, &name);
        },
    }
}

/// Moves the zone at `index` to the group `group` where there is such a zone and it is
/// in another group, recording the zones first; says whether it moved.
pub fn move_zone_to_group(
    zones: &mut Vec<SampleZone>,
    history: &mut Vec<Vec<SampleZone>>,
    index: usize,
    group: String,
) -> (moved: bool)
    ensures
        moved == (index < old(zones)@.len() && old(zones)@[index as int].group@ != group@),
        moved ==> {
            &&& history_view(final(history)@) == history_after_edit(history_view(old(history)@), sample_zones_view(old(zones)@))
            &&& final(zones)@ == old(zones)@.update(index as int, SampleZone { group, ..old(zones)@[index as int] })
        },
        !moved ==> final(zones)@ == old(zones)@ && final(history)@ == old(history)@,
{
    if index < zones.len() && !crate::text::str_eq(zones[index].group.as_str(), group.as_str()) {
        record_zones(history, zones.as_slice());
        let mut z = zones.remove(index);
        z.group = group;
        zones.insert(index, z);
        proof {
            assert(zones@ =~= old(zones)@.update(index as int, SampleZone { group, ..old(zones)@[index as int] }));
        }
        true
    } else {
        false
    }
}

/// Renames the zone at `index`, where there is one; says whether there was.
pub fn rename_zone(zones: &mut Vec<SampleZone>, index: usize, name: String) -> (renamed: bool)
    ensures
        renamed == (index < old(zones)@.len()),
        renamed ==> final(zones)@ == old(zones)@.update(index as int, SampleZone { name, ..old(zones)@[index as int] }),
        !renamed ==> final(zones)@ == old(zones)@,
{
    if index < zones.len() {
        let mut z = zones.remove(index);
        z.name = name;
        zones.insert(index, z);
        proof {
            assert(zones@ =~= old(zones)@.update(index as int, SampleZone { name, ..old(zones)@[index as int] }));
        }
        true
    } else {
        false
    }
}

/// The index of the first group from `i` on named `name`.
pub open spec fn first_group_named_from(gs: Seq<SampleGroup>, name: Seq<char>, i: int) -> Option<int>
    decreases gs.len() - i,
{
    if i < 0 || i >= gs.len() {
        None
    } else if gs[i].name@ == name {
        Some(i)
    } else {
        first_group_named_from(gs, name, i + 1)
    }
}

/// The index of the first group named `name`.
pub open spec fn first_group_named(gs: Seq<SampleGroup>, name: Seq<char>) -> Option<int> {
    first_group_named_from(gs, name, 0)
}

proof fn lemma_first_group_named_from(gs: Seq<SampleGroup>, name: Seq<char>, i: int)
    requires
        0 <= i,
    ensures
        first_group_named_from(gs, name, i) matches Some(k) ==> i <= k < gs.len() && gs[k].name@ == name,
    decreases gs.len() - i,
{
    if i < gs.len() && gs[i].name@ != name {
        lemma_first_group_named_from(gs, name, i + 1);
    }
}

/// The index of the first group named `name`, if any.
pub fn find_group(groups: &[SampleGroup], name: &str) -> (r: Option<usize>)
    ensures
        r matches Some(i) ==> first_group_named(groups@, name@) == Some(i as int),
        r is None ==> first_group_named(groups@, name@) is None,
{
    let mut i: usize = 0;
    while i < groups.len()
        invariant
            i <= groups@.len(),
            first_group_named(groups@, name@) == first_group_named_from(groups@, name@, i as int),
        decreases groups@.len() - i,
    {
        if crate::text::str_eq(groups[i].name.as_str(), name) {
            return Some(i);
        }
        i = i + 1;
    }
    None
}

/// The opcode text the editor shows for what is selected: the extra SFZ opcodes of
/// the first group of that name, or of the zone at that index, as `opcode_text`
/// writes them; empty where there is no such group or zone.
pub open spec fn selection_opcode_text(groups: Seq<SampleGroup>, zones: Seq<SampleZone>, selection: ZoneListSelection) -> Seq<char> {
    match selection {
        ZoneListSelection::Group(name) => match first_group_named(groups, name@) {
            Some(i) => opcode_text(pairs_view(groups[i].extra_sfz_opcodes@)),
            None => Seq::empty(),
        },
        ZoneListSelection::Zone(i) => if i < zones.len() {
            opcode_text(pairs_view(zones[i as int].extra_sfz_opcodes@))
        } else {
            Seq::empty()
        },
    }
}

/// The opcode text for `selection`, as `selection_opcode_text` states.
pub fn selection_extra_opcode_text(groups: &[SampleGroup], zones: &[SampleZone], selection: &ZoneListSelection) -> (s: String)
    ensures
        s@ == selection_opcode_text(groups@, zones@, *selection),
{
    proof {
        if let ZoneListSelection::Group(name) = selection {
            lemma_first_group_named_from(groups@, name@, 0);
        }
    }
    match selection {
        ZoneListSelection::Group(name) => match find_group(groups, name.as_str()) {
            Some(i) => format_sfz_opcode_text(groups[i].extra_sfz_opcodes.as_slice()),
            None => String::new(),
        },
        ZoneListSelection::Zone(i) => {
            if *i < zones.len() {
                format_sfz_opcode_text(zones[*i].extra_sfz_opcodes.as_slice())
            } else {
                String::new()
            }
        },
    }
}

/// Two groups that differ at most in their extra SFZ opcodes.
pub open spec fn same_but_extras(a: SampleGroup, b: SampleGroup) -> bool {
    a == SampleGroup { extra_sfz_opcodes: a.extra_sfz_opcodes, ..b }
}

/// Two zones that differ at most in their extra SFZ opcodes.
pub open spec fn zone_same_but_extras(a: SampleZone, b: SampleZone) -> bool {
    a == SampleZone { extra_sfz_opcodes: a.extra_sfz_opcodes, ..b }
}

/// Sets the extra SFZ opcodes of the first group named `name` to those read from
/// `text`; says whether there was such a group (the groups are unchanged where not).
pub fn set_group_extra_sfz(groups: &mut Vec<SampleGroup>, name: &str, text: &str) -> (found: bool)
    ensures
        found == (first_group_named(old(groups)@, name@) is Some),
        match first_group_named(old(groups)@, name@) {
            Some(i) => {
                &&& final(groups)@.len() == old(groups)@.len()
                &&& forall|j: int| 0 <= j < old(groups)@.len() && j != i ==> final(groups)@[j] == old(groups)@[j]
                &&& same_but_extras(final(groups)@[i], old(groups)@[i])
                &&& pairs_view(final(groups)@[i].extra_sfz_opcodes@) == parsed_opcode_text(text@)
            },
            None => final(groups)@ == old(groups)@,
        },
{
    proof {
        lemma_first_group_named_from(groups@, name@, 0);
    }
    match find_group(groups.as_slice(), name) {
        Some(i) => {
            let mut g = groups.remove(i);
            g.extra_sfz_opcodes = parse_sfz_opcode_text(text);
            groups.insert(i, g);
            true
        },
        None => false,
    }
}

/// Sets the extra SFZ opcodes of the zone at `index` to those read from `text`; says
/// whether there was such a zone (the zones are unchanged where not).
pub fn set_zone_extra_sfz(zones: &mut Vec<SampleZone>, index: usize, text: &str) -> (found: bool)
    ensures
        found == (index < old(zones)@.len()),
        found ==> {
            &&& final(zones)@.len() == old(zones)@.len()
            &&& forall|j: int| 0 <= j < old(zones)@.len() && j != index ==> final(zones)@[j] == old(zones)@[j]
            &&& zone_same_but_extras(final(zones)@[index as int], old(zones)@[index as int])
            &&& pairs_view(final(zones)@[index as int].extra_sfz_opcodes@) == parsed_opcode_text(text@)
        },
        !found ==> final(zones)@ == old(zones)@,
{
    if index < zones.len() {
        let mut z = zones.remove(index);
        z.extra_sfz_opcodes = parse_sfz_opcode_text(text);
        zones.insert(index, z);
        true
    } else {
        false
    }
}

/// An integer held to `lo..=hi`.
pub open spec fn clamp_int(v: int, lo: int, hi: int) -> int {
    if v < lo { lo } else if v > hi { hi } else { v }
}

/// A keyswitch note from a slider value: the value where it is a MIDI note, else none.
pub open spec fn note_option(v: int) -> Option<u8> {
    if 0 <= v <= 127 { Some(v as u8) } else { None }
}

/// A group after its integer field `field` is set from the slider value `v` (rounded):
/// the voice limit from 0 up, the exclusive group as a byte (held to 0..=255), the
/// output held to 0..=31, and a keyswitch the note `v` names, or none where `v` is not
/// a MIDI note. `None` for the level and pan, which are not integer fields.
pub open spec fn group_value_set(g: SampleGroup, field: GroupEditField, v: int) -> Option<SampleGroup> {
    match field {
        GroupEditField::PolyLimit => Some(SampleGroup { poly_limit: clamp_int(v, 0, usize::MAX as int) as usize, ..g }),
        GroupEditField::ExclusiveGroup => Some(SampleGroup { exclusive_group: clamp_int(v, 0, 255) as u8, ..g }),
        GroupEditField::Output => Some(SampleGroup { output: clamp_int(v, 0, 31) as u8, ..g }),
        GroupEditField::SwLast => Some(SampleGroup { sw_last: note_option(v), ..g }),
        GroupEditField::SwDown => Some(SampleGroup { sw_down: note_option(v), ..g }),
        GroupEditField::SwUp => Some(SampleGroup { sw_up: note_option(v), ..g }),
        GroupEditField::SwPrevious => Some(SampleGroup { sw_previous: note_option(v), ..g }),
        GroupEditField::SwLoLast => Some(SampleGroup { sw_lolast: note_option(v), ..g }),
        GroupEditField::SwHiLast => Some(SampleGroup { sw_hilast: note_option(v), ..g }),
        GroupEditField::SwDefault => Some(SampleGroup { sw_default: note_option(v), ..g }),
        GroupEditField::GainDb | GroupEditField::Pan => None,
    }
}

fn clamped(v: i128, lo: i128, hi: i128) -> (r: i128)
    requires
        lo <= hi,
    ensures
        r == clamp_int(v as int, lo as int, hi as int),
{
    if v < lo { lo } else if v > hi { hi } else { v }
}

fn note_of(v: i128) -> (r: Option<u8>)
    ensures
        r == note_option(v as int),
{
    if 0 <= v && v <= 127 { Some(v as u8) } else { None }
}

fn set_value_of(g: &mut SampleGroup, field: GroupEditField, value: i128) -> (handled: bool)
    ensures
        match group_value_set(*old(g), field, value as int) {
            Some(n) => handled && *final(g) == n,
            None => !handled && *final(g) == *old(g),
        },
{
    match field {
        GroupEditField::PolyLimit => {
            g.poly_limit = clamped(value, 0, usize::MAX as i128) as usize;
        },
        GroupEditField::ExclusiveGroup => {
            g.exclusive_group = clamped(value, 0, 255) as u8;
        },
        GroupEditField::Output => {
            g.output = clamped(value, 0, 31) as u8;
        },
        GroupEditField::SwLast => {
            g.sw_last = note_of(value);
        },
        GroupEditField::SwDown => {
            g.sw_down = note_of(value);
        },
        GroupEditField::SwUp => {
            g.sw_up = note_of(value);
        },
        GroupEditField::SwPrevious => {
            g.sw_previous = note_of(value);
        },
        GroupEditField::SwLoLast => {
            g.sw_lolast = note_of(value);
        },
        GroupEditField::SwHiLast => {
            g.sw_hilast = note_of(value);
        },
        GroupEditField::SwDefault => {
            g.sw_default = note_of(value);
        },
        GroupEditField::GainDb | GroupEditField::Pan => {
            return false;
        },
    }
    true
}

/// Sets the integer field `field` of the first group named `name` from the rounded
/// slider value `value`, as `group_value_set` states; says whether it did (the groups
/// are unchanged where there is no such group or `field` is not an integer field).
pub fn set_group_value(groups: &mut Vec<SampleGroup>, name: &str, field: GroupEditField, value: i128) -> (set: bool)
    ensures
        set == (first_group_named(old(groups)@, name@) is Some && field != GroupEditField::GainDb && field != GroupEditField::Pan),
        match first_group_named(old(groups)@, name@) {
            Some(i) => match group_value_set(old(groups)@[i], field, value as int) {
                Some(n) => final(groups)@ == old(groups)@.update(i, n),
                None => final(groups)@ == old(groups)@,
            },
            None => final(groups)@ == old(groups)@,
        },
{
    proof {
        lemma_first_group_named_from(groups@, name@, 0);
    }
    match find_group(groups.as_slice(), name) {
        Some(i) => {
            let mut g = groups.remove(i);
            let handled = set_value_of(&mut g, field, value);
            groups.insert(i, g);
            proof {
                assert(groups@ =~= old(groups)@.update(i as int, groups@[i as int]));
            }
            handled
        },
        None => false,
    }
}

/// Sets the keyswitch label of the first group named `name`: none for empty text,
/// else the text; says whether there was such a group (the groups are unchanged where
/// not).
pub fn set_group_sw_label(groups: &mut Vec<SampleGroup>, name: &str, text: String) -> (found: bool)
    ensures
        found == (first_group_named(old(groups)@, name@) is Some),
        match first_group_named(old(groups)@, name@) {
            Some(i) => {
                &&& final(groups)@.len() == old(groups)@.len()
                &&& forall|j: int| 0 <= j < old(groups)@.len() && j != i ==> final(groups)@[j] == old(groups)@[j]
                &&& final(groups)@[i] == SampleGroup { sw_label: final(groups)@[i].sw_label, ..old(groups)@[i] }
                &&& if text@.len() == 0 { final(groups)@[i].sw_label is None } else { final(groups)@[i].sw_label == Some(text) }
            },
            None => final(groups)@ == old(groups)@,
        },
{
    proof {
        lemma_first_group_named_from(groups@, name@, 0);
    }
    match find_group(groups.as_slice(), name) {
        Some(i) => {
            let mut g = groups.remove(i);
            g.sw_label = if crate::text::chars_of(text.as_str()).len() == 0 { None } else { Some(text) };
            groups.insert(i, g);
            true
        },
        None => false,
    }
}

/// Undo after an edit of the zones gives back the zones as they were before the edit,
/// and the history as it was before the edit. Deleting a zone or a group, creating an
/// item and moving a zone to a group each leave the history `history_after_edit`
/// states, so undo right after any of them restores the zones they started from.
pub proof fn lemma_undo_restores_zones_before_edit(h: Seq<Seq<ZoneEntry>>, before: Seq<ZoneEntry>, after: Seq<ZoneEntry>)
    ensures
        undo_outcome(after, history_after_edit(h, before)) == (before, h),
{
    assert(history_after_edit(h, before).drop_last() =~= h);
}

/// Deleting the zone at `i` (which records the zones before it, as
/// `delete_zone_list_selection` states) and then undoing gives back every zone as it
/// was, and the history as it was.
pub proof fn lemma_delete_then_undo(h: Seq<Seq<ZoneEntry>>, zones: Seq<SampleZone>, i: int)
    requires
        0 <= i < zones.len(),
    ensures
        undo_outcome(sample_zones_view(zones.remove(i)), history_after_edit(h, sample_zones_view(zones))) == (
            sample_zones_view(zones),
            h,
        ),
{
    lemma_undo_restores_zones_before_edit(h, sample_zones_view(zones), sample_zones_view(zones.remove(i)));
}

/// Undo with an empty history changes nothing.
pub proof fn lemma_undo_without_history(zones: Seq<ZoneEntry>)
    ensures
        undo_outcome(zones, Seq::<Seq<ZoneEntry>>::empty()) == (zones, Seq::<Seq<ZoneEntry>>::empty()),
{
}

proof fn lemma_groups_not_named(gs: Seq<SampleGroup>, name: Seq<char>)
    ensures
        forall|i: int| 0 <= i < groups_not_named(gs, name).len() ==> (#[trigger] groups_not_named(gs, name)[i]).name@ != name,
        forall|i: int| 0 <= i < gs.len() && (#[trigger] gs[i]).name@ != name ==> groups_not_named(gs, name).contains(gs[i]),
    decreases gs.len(),
{
    if gs.len() > 0 {
        let rest = groups_not_named(gs.drop_last(), name);
        lemma_groups_not_named(gs.drop_last(), name);
        assert forall|i: int| 0 <= i < gs.len() && (#[trigger] gs[i]).name@ != name implies groups_not_named(gs, name).contains(gs[i]) by {
            if i < gs.len() - 1 {
                assert(gs.drop_last()[i] == gs[i]);
                assert(rest.contains(gs[i]));
                let j = choose|j: int| 0 <= j < rest.len() && rest[j] == gs[i];
                assert(groups_not_named(gs, name)[j] == gs[i]);
            } else {
                assert(groups_not_named(gs, name)[rest.len() as int] == gs[i]);
            }
        }
    }
}

proof fn lemma_zones_not_in_group(zs: Seq<SampleZone>, name: Seq<char>)
    ensures
        forall|i: int| 0 <= i < zones_not_in_group(zs, name).len() ==> (#[trigger] zones_not_in_group(zs, name)[i]).group@ != name,
        forall|i: int| 0 <= i < zs.len() && (#[trigger] zs[i]).group@ != name ==> zones_not_in_group(zs, name).contains(zs[i]),
    decreases zs.len(),
{
    if zs.len() > 0 {
        let rest = zones_not_in_group(zs.drop_last(), name);
        lemma_zones_not_in_group(zs.drop_last(), name);
        assert forall|i: int| 0 <= i < zs.len() && (#[trigger] zs[i]).group@ != name implies zones_not_in_group(zs, name).contains(zs[i]) by {
            if i < zs.len() - 1 {
                assert(zs.drop_last()[i] == zs[i]);
                assert(rest.contains(zs[i]));
                let j = choose|j: int| 0 <= j < rest.len() && rest[j] == zs[i];
                assert(zones_not_in_group(zs, name)[j] == zs[i]);
            } else {
                assert(zones_not_in_group(zs, name)[rest.len() as int] == zs[i]);
            }
        }
    }
}

/// Deleting a group leaves no group of that name and no zone in it, and keeps every
/// other group and zone.
pub proof fn lemma_group_delete_removes_group(gs: Seq<SampleGroup>, zs: Seq<SampleZone>, name: Seq<char>)
    ensures
        forall|i: int| 0 <= i < groups_not_named(gs, name).len() ==> (#[trigger] groups_not_named(gs, name)[i]).name@ != name,
        forall|i: int| 0 <= i < zones_not_in_group(zs, name).len() ==> (#[trigger] zones_not_in_group(zs, name)[i]).group@ != name,
        forall|i: int| 0 <= i < gs.len() && (#[trigger] gs[i]).name@ != name ==> groups_not_named(gs, name).contains(gs[i]),
        forall|i: int| 0 <= i < zs.len() && (#[trigger] zs[i]).group@ != name ==> zones_not_in_group(zs, name).contains(zs[i]),
{
    lemma_groups_not_named(gs, name);
    lemma_zones_not_in_group(zs, name);
}

} // verus!
