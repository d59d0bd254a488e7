//! Keeping the editor's group list in step with the instrument: the groups it lists
//! for a loaded patch, and the list tidied against the zones.

use vstd::prelude::*;
use crate::group::{Group, Part, Patch, Zone};
use crate::sfz_opcode_map::pairs_view;
use crate::text::{chars_eq_str, chars_of};
use crate::editor_options::ZoneListSelection;
use crate::zones::{SampleGroup, SampleZone};
use crate::zone_conditions::CcCondition;
use crate::zone_modes::{CurveType, ZonePlayback};

verus! {

/// What the editor keeps of a group: name, voice limit, exclusive group, extra
/// opcodes, and its output and keyswitches.
pub type GroupEntry = (Seq<char>, usize, u8, Seq<(Seq<char>, Seq<char>)>, GroupSwitches);

/// A group's output bus, its seven keyswitch notes (last, down, up, previous, low and
/// high of the last range, default) and its keyswitch label.
pub type GroupSwitches = (u8, (Option<u8>, Option<u8>, Option<u8>, Option<u8>, Option<u8>, Option<u8>, Option<u8>), Option<Seq<char>>);

/// The output and keyswitches of a new group: bus 0, none.
pub open spec fn no_switches() -> GroupSwitches {
    (0u8, (None, None, None, None, None, None, None), None)
}

/// The entry the editor lists for a patch group: its name, voice limit, exclusive group
/// and extra opcodes, with the output and keyswitches of a new group.
pub open spec fn patch_group_entry(g: Group) -> GroupEntry {
    (g.name@, g.poly_limit, g.exclusive_group, pairs_view(g.extra_sfz_opcodes@), no_switches())
}

pub open spec fn sample_group_entry(g: SampleGroup) -> GroupEntry {
    (g.name@, g.poly_limit, g.exclusive_group, pairs_view(g.extra_sfz_opcodes@),
        (g.output, (g.sw_last, g.sw_down, g.sw_up, g.sw_previous, g.sw_lolast, g.sw_hilast, g.sw_default),
            match g.sw_label { Some(l) => Some(l@), None => None }))
}

pub open spec fn sample_groups_view(v: Seq<SampleGroup>) -> Seq<GroupEntry> {
    Seq::new(v.len(), |i: int| sample_group_entry(v[i]))
}

/// The groups of the parts, part after part.
pub open spec fn patch_groups(parts: Seq<Part>) -> Seq<GroupEntry>
    decreases parts.len(),
{
    if parts.len() == 0 {
        Seq::empty()
    } else {
        patch_groups(parts.drop_last()) + Seq::new(
            parts.last().groups@.len(),
            |i: int| patch_group_entry(parts.last().groups@[i]),
        )
    }
}

/// Whether an entry of `es` has the name `n`.
pub open spec fn has_entry_named(es: Seq<GroupEntry>, n: Seq<char>) -> bool {
    exists|i: int| 0 <= i < es.len() && (#[trigger] es[i]).0 == n
}

/// The entries in order, each name kept at its first entry only.
pub open spec fn first_of_each_name(es: Seq<GroupEntry>) -> Seq<GroupEntry>
    decreases es.len(),
{
    if es.len() == 0 {
        Seq::empty()
    } else {
        let kept = first_of_each_name(es.drop_last());
        if has_entry_named(kept, es.last().0) {
            kept
        } else {
            kept.push(es.last())
        }
    }
}

/// The entries without those with an empty name, then one new entry for each zone
/// whose group no entry names yet.
pub open spec fn normalized_entries(es: Seq<GroupEntry>, zones: Seq<SampleZone>) -> Seq<GroupEntry> {
    add_zone_groups(named_entries(es), zones)
}

/// The entries with a non-empty name, in order.
pub open spec fn named_entries(es: Seq<GroupEntry>) -> Seq<GroupEntry>
    decreases es.len(),
{
    if es.len() == 0 {
        es
    } else if es.last().0.len() > 0 {
        named_entries(es.drop_last()).push(es.last())
    } else {
        named_entries(es.drop_last())
    }
}

/// The entries with a new, empty entry for each zone group not named yet, in zone
/// order.
pub open spec fn add_zone_groups(es: Seq<GroupEntry>, zones: Seq<SampleZone>) -> Seq<GroupEntry>
    decreases zones.len(),
{
    if zones.len() == 0 {
        es
    } else {
        let before = add_zone_groups(es, zones.drop_last());
        let n = zones.last().group@;
        if has_entry_named(before, n) {
            before
        } else {
            before.push((n, 0usize, 0u8, Seq::empty(), no_switches()))
        }
    }
}

/// A copy of a list of controller conditions.
pub(crate) fn copy_conditions(v: &Vec<CcCondition>) -> (r: Vec<CcCondition>)
    ensures
        r@ == v@,
{
    let mut r: Vec<CcCondition> = Vec::new();
    let mut i: usize = 0;
    while i < v.len()
        invariant
            i <= v@.len(),
            r@ == v@.subrange(0, i as int),
        decreases v@.len() - i,
    {
        r.push(v[i]);
        i = i + 1;
        assert(r@ =~= v@.subrange(0, i as int));
    }
    assert(v@.subrange(0, i as int) =~= v@);
    r
}

pub(crate) fn copy_pairs(v: &Vec<(String, String)>) -> (r: Vec<(String, String)>)
    ensures
        pairs_view(r@) == pairs_view(v@),
{
    let mut r: Vec<(String, String)> = Vec::new();
    let mut i: usize = 0;
    while i < v.len()
        invariant
            i <= v@.len(),
            pairs_view(r@) == pairs_view(v@.subrange(0, i as int)),
        decreases v@.len() - i,
    {
        let k = v[i].0.as_str().to_owned();
        let val = v[i].1.as_str().to_owned();
        let ghost prev = pairs_view(r@);
        r.push((k, val));
        assert(pairs_view(v@.subrange(0, i + 1)) =~= pairs_view(v@.subrange(0, i as int)).push((v@[i as int].0@, v@[i as int].1@)));
        assert(pairs_view(r@) =~= prev.push((v@[i as int].0@, v@[i as int].1@)));
        i = i + 1;
    }
    assert(v@.subrange(0, i as int) =~= v@);
    r
}

fn group_listed(groups: &Vec<SampleGroup>, name: &str) -> (r: bool)
    ensures
        r == has_entry_named(sample_groups_view(groups@), name@),
{
    let ghost es = sample_groups_view(groups@);
    let name_chars = chars_of(name);
    let mut i: usize = 0;
    while i < groups.len()
        invariant
            i <= groups@.len(),
            es == sample_groups_view(groups@),
            name_chars@ == name@,
            forall|k: int| 0 <= k < i ==> (#[trigger] es[k]).0 != name@,
        decreases groups@.len() - i,
    {
        if chars_eq_str(name_chars.as_slice(), groups[i].name.as_str()) {
            assert(es[i as int].0 == name@);
            return true;
        }
        i = i + 1;
    }
    false
}

/// The groups the editor lists for a patch: every group of every part, in order, a
/// name that came before being skipped.
pub fn build_groups_from_patch(patch: &Patch) -> (groups: Vec<SampleGroup>)
    ensures
        sample_groups_view(groups@) == first_of_each_name(patch_groups(patch.parts@)),
{
    let mut groups: Vec<SampleGroup> = Vec::new();
    let mut p: usize = 0;
    assert(sample_groups_view(groups@) =~= first_of_each_name(patch_groups(patch.parts@.subrange(0, 0))));
    while p < patch.parts.len()
        invariant
            p <= patch.parts@.len(),
            sample_groups_view(groups@) == first_of_each_name(patch_groups(patch.parts@.subrange(0, p as int))),
        decreases patch.parts@.len() - p,
    {
        let part = &patch.parts[p];
        let ghost before = patch_groups(patch.parts@.subrange(0, p as int));
        let ghost mine = Seq::new(part.groups@.len(), |i: int| patch_group_entry(part.groups@[i]));
        assert(patch.parts@.subrange(0, p + 1).drop_last() =~= patch.parts@.subrange(0, p as int));
        assert(patch_groups(patch.parts@.subrange(0, p + 1)) == before + mine);
        let mut g: usize = 0;
        while g < part.groups.len()
            invariant
                g <= part.groups@.len(),
                mine == Seq::new(part.groups@.len(), |i: int| patch_group_entry(part.groups@[i])),
                sample_groups_view(groups@) == first_of_each_name(before + mine.subrange(0, g as int)),
            decreases part.groups@.len() - g,
        {
            let group = &part.groups[g];
            let ghost es = before + mine.subrange(0, g as int);
            assert((before + mine.subrange(0, g + 1)).drop_last() =~= es);
            assert((before + mine.subrange(0, g + 1)).last() == patch_group_entry(*group));
            if !group_listed(&groups, group.name.as_str()) {
                let mut sg = SampleGroup::new(group.name.as_str().to_owned());
                sg.poly_limit = group.poly_limit;
                sg.exclusive_group = group.exclusive_group;
                sg.extra_sfz_opcodes = copy_pairs(&group.extra_sfz_opcodes);
                let ghost prev = sample_groups_view(groups@);
                groups.push(sg);
                assert(sample_groups_view(groups@) =~= prev.push(patch_group_entry(*group)));
            }
            g = g + 1;
        }
        assert(mine.subrange(0, g as int) =~= mine);
        p = p + 1;
    }
    assert(patch.parts@.subrange(0, p as int) =~= patch.parts@);
    groups
}

/// The editor's group list tidied against its zones: groups with an empty name
/// dropped, then a new group added for each zone whose group is not listed, in zone
/// order.
pub fn normalize_groups(groups: Vec<SampleGroup>, zones: &[SampleZone]) -> (r: Vec<SampleGroup>)
    ensures
        sample_groups_view(r@) == normalized_entries(sample_groups_view(groups@), zones@),
{
    let ghost all = sample_groups_view(groups@);
    let mut kept: Vec<SampleGroup> = Vec::new();
    let mut rest = groups;
    let ghost orig = rest@;
    let mut i: usize = 0;
    let n = rest.len();
    while i < n
        invariant
            n == orig.len(),
            rest@ == orig.subrange(i as int, n as int),
            i <= n,
            all == sample_groups_view(orig),
            sample_groups_view(kept@) == named_entries(all.subrange(0, i as int)),
        decreases n - i,
    {
        let g = rest.remove(0);
        assert(g == orig[i as int]);
        let ghost e = sample_group_entry(g);
        assert(all.subrange(0, i + 1).drop_last() =~= all.subrange(0, i as int));
        assert(all.subrange(0, i + 1).last() == e);
        let name_chars = chars_of(g.name.as_str());
        if name_chars.len() > 0 {
            let ghost prev = sample_groups_view(kept@);
            kept.push(g);
            assert(sample_groups_view(kept@) =~= prev.push(e));
        }
        assert(rest@ =~= orig.subrange(i + 1, n as int));
        i = i + 1;
    }
    assert(all.subrange(0, n as int) =~= all);
    let ghost filtered = sample_groups_view(kept@);
    let mut z: usize = 0;
    assert(zones@.subrange(0, 0) =~= Seq::<SampleZone>::empty());
    while z < zones.len()
        invariant
            z <= zones@.len(),
            sample_groups_view(kept@) == add_zone_groups(filtered, zones@.subrange(0, z as int)),
        decreases zones@.len() - z,
    {
        assert(zones@.subrange(0, z + 1).drop_last() =~= zones@.subrange(0, z as int));
        let zone = &zones[z];
        if !group_listed(&kept, zone.group.as_str()) {
            let ghost prev = sample_groups_view(kept@);
            let ng = SampleGroup::new(zone.group.as_str().to_owned());
            assert(pairs_view(ng.extra_sfz_opcodes@) =~= Seq::empty());
            assert(sample_group_entry(ng) == (zone.group@, 0usize, 0u8, Seq::<(Seq<char>, Seq<char>)>::empty(), no_switches()));
            kept.push(ng);
            assert(sample_groups_view(kept@) =~= prev.push((zone.group@, 0usize, 0u8, Seq::empty(), no_switches())));
        }
        z = z + 1;
    }
    assert(zones@.subrange(0, z as int) =~= zones@);
    kept
}

proof fn lemma_add_zone_groups_prefix(es: Seq<GroupEntry>, zones: Seq<SampleZone>)
    ensures
        add_zone_groups(es, zones).len() >= es.len(),
        forall|i: int| 0 <= i < es.len() ==> add_zone_groups(es, zones)[i] == es[i],
    decreases zones.len(),
{
    if zones.len() > 0 {
        lemma_add_zone_groups_prefix(es, zones.drop_last());
    }
}

/// After tidying, every zone's group is listed.
pub proof fn lemma_normalized_lists_zone_groups(es: Seq<GroupEntry>, zones: Seq<SampleZone>)
    ensures
        forall|j: int| 0 <= j < zones.len() ==> has_entry_named(normalized_entries(es, zones), #[trigger] zones[j].group@),
{
    lemma_add_zone_groups_cover(named_entries(es), zones);
}

proof fn lemma_add_zone_groups_cover(es: Seq<GroupEntry>, zones: Seq<SampleZone>)
    ensures
        forall|j: int| 0 <= j < zones.len() ==> has_entry_named(add_zone_groups(es, zones), #[trigger] zones[j].group@),
    decreases zones.len(),
{
    if zones.len() > 0 {
        let d = zones.drop_last();
        lemma_add_zone_groups_cover(es, d);
        let before = add_zone_groups(es, d);
        let after = add_zone_groups(es, zones);
        assert forall|j: int| 0 <= j < zones.len() implies has_entry_named(after, #[trigger] zones[j].group@) by {
            if j < d.len() {
                assert(zones[j] == d[j]);
                assert(has_entry_named(before, d[j].group@));
                let k = choose|k: int| 0 <= k < before.len() && (#[trigger] before[k]).0 == d[j].group@;
                assert(after[k] == before[k]);
            } else {
                if !has_entry_named(before, zones.last().group@) {
                    assert(after[before.len() as int].0 == zones.last().group@);
                }
            }
        }
    }
}

/// The groups listed for a patch carry distinct names, and every group name of the
/// patch is among them.
pub proof fn lemma_first_of_each_name(es: Seq<GroupEntry>)
    ensures
        forall|i: int, j: int| 0 <= i < j < first_of_each_name(es).len() ==> (#[trigger] first_of_each_name(es)[i]).0 != (#[trigger] first_of_each_name(es)[j]).0,
        forall|i: int| 0 <= i < es.len() ==> has_entry_named(first_of_each_name(es), (#[trigger] es[i]).0),
    decreases es.len(),
{
    if es.len() > 0 {
        let d = es.drop_last();
        lemma_first_of_each_name(d);
        let kept = first_of_each_name(d);
        let r = first_of_each_name(es);
        assert forall|i: int| 0 <= i < es.len() implies has_entry_named(r, (#[trigger] es[i]).0) by {
            if i < d.len() {
                assert(es[i] == d[i]);
                let k = choose|k: int| 0 <= k < kept.len() && (#[trigger] kept[k]).0 == d[i].0;
                assert(r[k] == kept[k]);
            } else if !has_entry_named(kept, es.last().0) {
                assert(r[kept.len() as int] == es.last());
            }
        }
    }
}

/// The group a new zone goes into: the selected group; the group of the selected
/// zone; or, with nothing selected, the last group (or, with no group, the group of
/// the last zone) -- `New Group` where that is missing or empty.
pub open spec fn new_zone_group(selected: Option<ZoneListSelection>, groups: Seq<SampleGroup>, zones: Seq<SampleZone>) -> Seq<char> {
    let fallback = "New Group"@;
    match selected {
        Some(ZoneListSelection::Group(g)) => g@,
        Some(ZoneListSelection::Zone(i)) => if i < zones.len() && zones[i as int].group@.len() > 0 {
            zones[i as int].group@
        } else {
            fallback
        },
        None => {
            let candidate = if groups.len() > 0 {
                Some(groups.last().name@)
            } else if zones.len() > 0 {
                Some(zones.last().group@)
            } else {
                None
            };
            match candidate {
                Some(c) => if c.len() > 0 { c } else { fallback },
                None => fallback,
            }
        },
    }
}

fn non_empty_or_new_group(name: &String) -> (r: String)
    ensures
        r@ == (if name@.len() > 0 { name@ } else { "New Group"@ }),
{
    let c = chars_of(name.as_str());
    if c.len() > 0 {
        name.as_str().to_owned()
    } else {
        "New Group".to_owned()
    }
}

/// The group a new zone goes into, as `new_zone_group` states.
pub fn group_for_new_zone(selected: &Option<ZoneListSelection>, groups: &[SampleGroup], zones: &[SampleZone]) -> (r: String)
    ensures
        r@ == new_zone_group(*selected, groups@, zones@),
{
    match selected {
        Some(ZoneListSelection::Group(group)) => group.as_str().to_owned(),
        Some(ZoneListSelection::Zone(index)) => {
            if *index < zones.len() {
                non_empty_or_new_group(&zones[*index].group)
            } else {
                "New Group".to_owned()
            }
        },
        None => {
            if groups.len() > 0 {
                non_empty_or_new_group(&groups[groups.len() - 1].name)
            } else if zones.len() > 0 {
                non_empty_or_new_group(&zones[zones.len() - 1].group)
            } else {
                "New Group".to_owned()
            }
        },
    }
}

fn set_part_output_bus(part: &mut Part, output: u8)
    ensures
        final(part).groups@.len() == old(part).groups@.len(),
        forall|j: int| 0 <= j < old(part).groups@.len() ==> #[trigger] final(part).groups@[j] == (Group { output, ..old(part).groups@[j] }),
        final(part).name == old(part).name,
        final(part).midi_channel == old(part).midi_channel,
        final(part).transpose == old(part).transpose,
        final(part).poly_limit == old(part).poly_limit,
        final(part).mpe_enabled == old(part).mpe_enabled,
        final(part).last_keyswitch_note == old(part).last_keyswitch_note,
        final(part).previous_note == old(part).previous_note,
{
    let n = part.groups.len();
    let mut j: usize = 0;
    while j < n
        invariant
            j <= n,
            n == old(part).groups@.len(),
            part.groups@.len() == n,
            forall|k: int| 0 <= k < j ==> #[trigger] part.groups@[k] == (Group { output, ..old(part).groups@[k] }),
            forall|k: int| j <= k < n ==> #[trigger] part.groups@[k] == old(part).groups@[k],
            part.name == old(part).name,
            part.midi_channel == old(part).midi_channel,
            part.transpose == old(part).transpose,
            part.poly_limit == old(part).poly_limit,
            part.mpe_enabled == old(part).mpe_enabled,
            part.last_keyswitch_note == old(part).last_keyswitch_note,
            part.previous_note == old(part).previous_note,
        decreases n - j,
    {
        let mut g = part.groups.remove(j);
        g.output = output;
        part.groups.insert(j, g);
        j = j + 1;
    }
}

/// Sends every group of the patch to output bus `output`, changing nothing else.
pub fn set_patch_output_bus(patch: &mut Patch, output: u8)
    ensures
        final(patch).parts@.len() == old(patch).parts@.len(),
        forall|i: int| 0 <= i < old(patch).parts@.len() ==> {
            let before = old(patch).parts@[i];
            let after = #[trigger] final(patch).parts@[i];
            &&& after.groups@.len() == before.groups@.len()
            &&& forall|j: int| 0 <= j < before.groups@.len() ==> #[trigger] after.groups@[j] == (Group { output, ..before.groups@[j] })
            &&& after.name == before.name
            &&& after.midi_channel == before.midi_channel
            &&& after.transpose == before.transpose
            &&& after.poly_limit == before.poly_limit
            &&& after.mpe_enabled == before.mpe_enabled
            &&& after.last_keyswitch_note == before.last_keyswitch_note
            &&& after.previous_note == before.previous_note
        },
{
    let n = patch.parts.len();
    let mut i: usize = 0;
    while i < n
        invariant
            i <= n,
            n == old(patch).parts@.len(),
            patch.parts@.len() == n,
            forall|k: int| 0 <= k < i ==> {
                let before = old(patch).parts@[k];
                let after = #[trigger] patch.parts@[k];
                &&& after.groups@.len() == before.groups@.len()
                &&& forall|j: int| 0 <= j < before.groups@.len() ==> #[trigger] after.groups@[j] == (Group { output, ..before.groups@[j] })
                &&& after.name == before.name
                &&& after.midi_channel == before.midi_channel
                &&& after.transpose == before.transpose
                &&& after.poly_limit == before.poly_limit
                &&& after.mpe_enabled == before.mpe_enabled
                &&& after.last_keyswitch_note == before.last_keyswitch_note
                &&& after.previous_note == before.previous_note
            },
            forall|k: int| i <= k < n ==> #[trigger] patch.parts@[k] == old(patch).parts@[k],
        decreases n - i,
    {
        let mut p = patch.parts.remove(i);
        set_part_output_bus(&mut p, output);
        patch.parts.insert(i, p);
        i = i + 1;
    }
}

/// What the editor lists of a zone: name, files, key range, velocity range, group,
/// root key and crossfade ranges.
pub type ZoneEntry = (Seq<char>, Seq<Seq<char>>, usize, usize, u8, u8, Seq<char>, u8, ZoneFades, (CurveType, ZonePlayback), ZoneGates, Seq<(Seq<char>, Seq<char>)>);

/// What else a zone needs to play: its MIDI channel range, its pitch-bend range and its
/// controller conditions.
pub type ZoneGates = ((u8, u8), (i16, i16), Seq<CcCondition>);

/// The channel, pitch-bend and controller gates of an engine zone.
pub open spec fn dsp_gates(z: Zone) -> ZoneGates {
    ((z.channel_low, z.channel_high), (z.pitch_bend_low, z.pitch_bend_high), z.cc_conditions@)
}

/// The channel, pitch-bend and controller gates of an editor zone.
pub open spec fn sample_gates(z: SampleZone) -> ZoneGates {
    ((z.channel_low, z.channel_high), (z.pitch_bend_low, z.pitch_bend_high), z.cc_conditions@)
}

/// A zone's crossfades: the four ranges, then the four widths.
pub type ZoneFades = ((Option<(u8, u8)>, Option<(u8, u8)>, Option<(u8, u8)>, Option<(u8, u8)>), (u8, u8, u8, u8));

/// The crossfades of an engine zone.
pub open spec fn dsp_fades(z: Zone) -> ZoneFades {
    ((z.key_fade_in, z.key_fade_out, z.vel_fade_in, z.vel_fade_out), (z.key_fade_low, z.key_fade_high, z.vel_fade_low, z.vel_fade_high))
}

/// The crossfades of an editor zone.
pub open spec fn sample_fades(z: SampleZone) -> ZoneFades {
    ((z.key_fade_in, z.key_fade_out, z.vel_fade_in, z.vel_fade_out), (z.key_fade_low, z.key_fade_high, z.vel_fade_low, z.vel_fade_high))
}

pub open spec fn files_view(v: Seq<String>) -> Seq<Seq<char>> {
    Seq::new(v.len(), |i: int| v[i]@)
}

/// The editor's entry for a zone of the group named `group`.
pub open spec fn zone_entry_of(z: Zone, group: Seq<char>) -> ZoneEntry {
    (z.name@, files_view(z.files@), z.key_low as usize, z.key_high as usize, z.vel_low, z.vel_high, group, z.root_key,
        dsp_fades(z), (z.velocity_curve, z.playback), dsp_gates(z), pairs_view(z.extra_sfz_opcodes@))
}

pub open spec fn sample_zone_entry(z: SampleZone) -> ZoneEntry {
    (z.name@, files_view(z.files@), z.start_note, z.end_note, z.vel_low, z.vel_high, z.group@, z.root_key,
        sample_fades(z), (z.velocity_curve, z.playback), sample_gates(z), pairs_view(z.extra_sfz_opcodes@))
}

pub open spec fn sample_zones_view(v: Seq<SampleZone>) -> Seq<ZoneEntry> {
    Seq::new(v.len(), |i: int| sample_zone_entry(v[i]))
}

/// The entries of the zones of a group, in order.
pub open spec fn group_zone_entries(g: Group) -> Seq<ZoneEntry> {
    Seq::new(g.zones@.len(), |i: int| zone_entry_of(g.zones@[i], g.name@))
}

/// The entries of the zones of the groups, group after group.
pub open spec fn groups_zone_entries(gs: Seq<Group>) -> Seq<ZoneEntry>
    decreases gs.len(),
{
    if gs.len() == 0 {
        Seq::empty()
    } else {
        groups_zone_entries(gs.drop_last()) + group_zone_entries(gs.last())
    }
}

/// The entries of every zone of every group of every part, in order.
pub open spec fn patch_zone_entries(parts: Seq<Part>) -> Seq<ZoneEntry>
    decreases parts.len(),
{
    if parts.len() == 0 {
        Seq::empty()
    } else {
        patch_zone_entries(parts.drop_last()) + groups_zone_entries(parts.last().groups@)
    }
}

fn copy_files(v: &Vec<String>) -> (r: Vec<String>)
    ensures
        files_view(r@) == files_view(v@),
{
    let mut r: Vec<String> = Vec::new();
    let mut i: usize = 0;
    while i < v.len()
        invariant
            i <= v@.len(),
            files_view(r@) == files_view(v@.subrange(0, i as int)),
        decreases v@.len() - i,
    {
        let ghost prev = files_view(r@);
        r.push(v[i].as_str().to_owned());
        assert(files_view(v@.subrange(0, i + 1)) =~= files_view(v@.subrange(0, i as int)).push(v@[i as int]@));
        assert(files_view(r@) =~= prev.push(v@[i as int]@));
        i = i + 1;
    }
    assert(v@.subrange(0, i as int) =~= v@);
    r
}

fn push_group_zones(out: &mut Vec<SampleZone>, group: &Group)
    ensures
        sample_zones_view(final(out)@) == sample_zones_view(old(out)@) + group_zone_entries(*group),
{
    let mut j: usize = 0;
    while j < group.zones.len()
        invariant
            j <= group.zones@.len(),
            sample_zones_view(out@) == sample_zones_view(old(out)@) + group_zone_entries(*group).subrange(0, j as int),
        decreases group.zones@.len() - j,
    {
        let zone = &group.zones[j];
        let mut sz = SampleZone::new_basic(
            zone.name.as_str().to_owned(),
            copy_files(&zone.files),
            zone.key_low as usize,
            zone.key_high as usize,
            zone.vel_low,
            zone.vel_high,
            group.name.as_str().to_owned(),
        );
        sz.root_key = zone.root_key;
        sz.key_fade_in = zone.key_fade_in;
        sz.key_fade_out = zone.key_fade_out;
        sz.vel_fade_in = zone.vel_fade_in;
        sz.vel_fade_out = zone.vel_fade_out;
        sz.key_fade_low = zone.key_fade_low;
        sz.key_fade_high = zone.key_fade_high;
        sz.vel_fade_low = zone.vel_fade_low;
        sz.vel_fade_high = zone.vel_fade_high;
        sz.velocity_curve = zone.velocity_curve;
        sz.channel_low = zone.channel_low;
        sz.channel_high = zone.channel_high;
        sz.pitch_bend_low = zone.pitch_bend_low;
        sz.pitch_bend_high = zone.pitch_bend_high;
        sz.cc_conditions = copy_conditions(&zone.cc_conditions);
        sz.playback = zone.playback;
        sz.extra_sfz_opcodes = copy_pairs(&zone.extra_sfz_opcodes);
        let ghost prev = sample_zones_view(out@);
        assert(sample_zone_entry(sz) == zone_entry_of(*zone, group.name@));
        out.push(sz);
        assert(sample_zones_view(out@) =~= prev.push(zone_entry_of(*zone, group.name@)));
        assert(group_zone_entries(*group).subrange(0, j + 1) =~= group_zone_entries(*group).subrange(0, j as int).push(
            zone_entry_of(*zone, group.name@),
        ));
        j = j + 1;
    }
    assert(group_zone_entries(*group).subrange(0, j as int) =~= group_zone_entries(*group));
}

/// The zones the editor lists for a patch: every zone of every group of every part,
/// in order, each with its group's name, its key range as notes, and its velocity
/// range, root key, files and crossfade ranges.
pub fn build_zones_from_patch(patch: &Patch) -> (zones: Vec<SampleZone>)
    ensures
        sample_zones_view(zones@) == patch_zone_entries(patch.parts@),
{
    let mut zones: Vec<SampleZone> = Vec::new();
    let mut p: usize = 0;
    assert(sample_zones_view(zones@) =~= patch_zone_entries(patch.parts@.subrange(0, 0)));
    while p < patch.parts.len()
        invariant
            p <= patch.parts@.len(),
            sample_zones_view(zones@) == patch_zone_entries(patch.parts@.subrange(0, p as int)),
        decreases patch.parts@.len() - p,
    {
        let part = &patch.parts[p];
        assert(patch.parts@.subrange(0, p + 1).drop_last() =~= patch.parts@.subrange(0, p as int));
        let ghost before = sample_zones_view(zones@);
        let mut g: usize = 0;
        assert(part.groups@.subrange(0, 0) =~= Seq::<Group>::empty());
        while g < part.groups.len()
            invariant
                g <= part.groups@.len(),
                sample_zones_view(zones@) == before + groups_zone_entries(part.groups@.subrange(0, g as int)),
            decreases part.groups@.len() - g,
        {
            assert(part.groups@.subrange(0, g + 1).drop_last() =~= part.groups@.subrange(0, g as int));
            push_group_zones(&mut zones, &part.groups[g]);
            assert(before + groups_zone_entries(part.groups@.subrange(0, g as int)) + group_zone_entries(part.groups@[g as int])
                =~= before + groups_zone_entries(part.groups@.subrange(0, g + 1)));
            g = g + 1;
        }
        assert(part.groups@.subrange(0, g as int) =~= part.groups@);
        p = p + 1;
    }
    assert(patch.parts@.subrange(0, p as int) =~= patch.parts@);
    zones
}

/// The zones whose group is `name`, in order.
pub open spec fn zones_in_group(zones: Seq<SampleZone>, name: Seq<char>) -> Seq<SampleZone>
    decreases zones.len(),
{
    if zones.len() == 0 {
        Seq::empty()
    } else if zones.last().group@ == name {
        zones_in_group(zones.drop_last(), name).push(zones.last())
    } else {
        zones_in_group(zones.drop_last(), name)
    }
}

/// Whether some editor group among the first `n` is named `name`.
pub open spec fn listed_before(groups: Seq<SampleGroup>, n: int, name: Seq<char>) -> bool {
    exists|i: int| 0 <= i < n && #[trigger] groups[i].name@ == name
}

/// The names of the zone groups that no editor group lists, each once, in the order
/// the zones first name them.
pub open spec fn unlisted_group_names(groups: Seq<SampleGroup>, zones: Seq<SampleZone>) -> Seq<Seq<char>>
    decreases zones.len(),
{
    if zones.len() == 0 {
        Seq::empty()
    } else {
        let prev = unlisted_group_names(groups, zones.drop_last());
        let n = zones.last().group@;
        if listed_before(groups, groups.len() as int, n) || prev.contains(n) {
            prev
        } else {
            prev.push(n)
        }
    }
}

/// The engine zone the editor builds for one of its zones: the key range as 8-bit
/// notes (taken modulo 256, as a cast does), the rest as it is.
pub open spec fn dsp_zone_entry(z: SampleZone) -> (Seq<char>, Seq<Seq<char>>, u8, u8, u8, u8, u8, ZoneFades, (CurveType, ZonePlayback), ZoneGates, Seq<(Seq<char>, Seq<char>)>) {
    (z.name@, files_view(z.files@), z.start_note as u8, z.end_note as u8, z.vel_low, z.vel_high, z.root_key,
        sample_fades(z), (z.velocity_curve, z.playback), sample_gates(z), pairs_view(z.extra_sfz_opcodes@))
}

pub open spec fn zone_view(z: Zone) -> (Seq<char>, Seq<Seq<char>>, u8, u8, u8, u8, u8, ZoneFades, (CurveType, ZonePlayback), ZoneGates, Seq<(Seq<char>, Seq<char>)>) {
    (z.name@, files_view(z.files@), z.key_low, z.key_high, z.vel_low, z.vel_high, z.root_key,
        dsp_fades(z), (z.velocity_curve, z.playback), dsp_gates(z), pairs_view(z.extra_sfz_opcodes@))
}

fn dsp_zone(z: &SampleZone) -> (r: Zone)
    ensures
        zone_view(r) == dsp_zone_entry(*z),
{
    Zone {
        name: z.name.as_str().to_owned(),
        files: copy_files(&z.files),
        key_low: z.start_note as u8,
        key_high: z.end_note as u8,
        vel_low: z.vel_low,
        vel_high: z.vel_high,
        root_key: z.root_key,
        key_fade_in: z.key_fade_in,
        key_fade_out: z.key_fade_out,
        vel_fade_in: z.vel_fade_in,
        vel_fade_out: z.vel_fade_out,
        key_fade_low: z.key_fade_low,
        key_fade_high: z.key_fade_high,
        vel_fade_low: z.vel_fade_low,
        vel_fade_high: z.vel_fade_high,
        velocity_curve: z.velocity_curve,
        channel_low: z.channel_low,
        channel_high: z.channel_high,
        pitch_bend_low: z.pitch_bend_low,
        pitch_bend_high: z.pitch_bend_high,
        cc_conditions: copy_conditions(&z.cc_conditions),
        playback: z.playback,
        extra_sfz_opcodes: copy_pairs(&z.extra_sfz_opcodes),
    }
}

/// The engine zones built for the zones of group `name`, in zone order.
fn dsp_zones_of_group(zones: &[SampleZone], name: &str) -> (r: Vec<Zone>)
    ensures
        Seq::new(r@.len(), |i: int| zone_view(r@[i])) == Seq::new(
            zones_in_group(zones@, name@).len(),
            |i: int| dsp_zone_entry(zones_in_group(zones@, name@)[i]),
        ),
{
    let mut r: Vec<Zone> = Vec::new();
    let name_chars = chars_of(name);
    let mut i: usize = 0;
    assert(zones@.subrange(0, 0) =~= Seq::<SampleZone>::empty());
    while i < zones.len()
        invariant
            i <= zones@.len(),
            name_chars@ == name@,
            Seq::new(r@.len(), |k: int| zone_view(r@[k])) == Seq::new(
                zones_in_group(zones@.subrange(0, i as int), name@).len(),
                |k: int| dsp_zone_entry(zones_in_group(zones@.subrange(0, i as int), name@)[k]),
            ),
        decreases zones@.len() - i,
    {
        assert(zones@.subrange(0, i + 1).drop_last() =~= zones@.subrange(0, i as int));
        if chars_eq_str(name_chars.as_slice(), zones[i].group.as_str()) {
            let ghost prev = Seq::new(r@.len(), |k: int| zone_view(r@[k]));
            let z = dsp_zone(&zones[i]);
            r.push(z);
            assert(Seq::new(r@.len(), |k: int| zone_view(r@[k])) =~= prev.push(dsp_zone_entry(zones@[i as int])));
            let ghost zs = zones_in_group(zones@.subrange(0, i + 1), name@);
            assert(Seq::new(zs.len(), |k: int| dsp_zone_entry(zs[k])) =~= Seq::new(
                zones_in_group(zones@.subrange(0, i as int), name@).len(),
                |k: int| dsp_zone_entry(zones_in_group(zones@.subrange(0, i as int), name@)[k]),
            ).push(dsp_zone_entry(zones@[i as int])));
        }
        i = i + 1;
    }
    assert(zones@.subrange(0, i as int) =~= zones@);
    r
}

/// The engine zones of an engine group, as plain values.
pub open spec fn dsp_zone_views(g: Group) -> Seq<(Seq<char>, Seq<Seq<char>>, u8, u8, u8, u8, u8, ZoneFades, (CurveType, ZonePlayback), ZoneGates, Seq<(Seq<char>, Seq<char>)>)> {
    Seq::new(g.zones@.len(), |i: int| zone_view(g.zones@[i]))
}

/// The engine zones the editor builds for the zones of group `name`.
pub open spec fn group_zone_plan(zones: Seq<SampleZone>, name: Seq<char>) -> Seq<(Seq<char>, Seq<Seq<char>>, u8, u8, u8, u8, u8, ZoneFades, (CurveType, ZonePlayback), ZoneGates, Seq<(Seq<char>, Seq<char>)>)> {
    Seq::new(zones_in_group(zones, name).len(), |i: int| dsp_zone_entry(zones_in_group(zones, name)[i]))
}

fn name_listed(groups: &[SampleGroup], n: usize, name: &str) -> (r: bool)
    requires
        n <= groups@.len(),
    ensures
        r == listed_before(groups@, n as int, name@),
{
    let name_chars = chars_of(name);
    let mut i: usize = 0;
    while i < n
        invariant
            i <= n <= groups@.len(),
            name_chars@ == name@,
            forall|k: int| 0 <= k < i ==> groups@[k].name@ != name@,
        decreases n - i,
    {
        if chars_eq_str(name_chars.as_slice(), groups[i].name.as_str()) {
            return true;
        }
        i = i + 1;
    }
    false
}

fn string_listed(names: &Vec<String>, name: &str) -> (r: bool)
    ensures
        r == files_view(names@).contains(name@),
{
    let name_chars = chars_of(name);
    let mut i: usize = 0;
    while i < names.len()
        invariant
            i <= names@.len(),
            name_chars@ == name@,
            forall|k: int| 0 <= k < i ==> names@[k]@ != name@,
        decreases names@.len() - i,
    {
        if chars_eq_str(name_chars.as_slice(), names[i].as_str()) {
            assert(files_view(names@)[i as int] == name@);
            return true;
        }
        i = i + 1;
    }
    false
}

proof fn lemma_groups_zone_entries_contains(gs: Seq<Group>, i: int, k: int)
    requires
        0 <= i < gs.len(),
        0 <= k < gs[i].zones@.len(),
    ensures
        groups_zone_entries(gs).contains(zone_entry_of(gs[i].zones@[k], gs[i].name@)),
    decreases gs.len(),
{
    let e = zone_entry_of(gs[i].zones@[k], gs[i].name@);
    let all = groups_zone_entries(gs);
    let init = groups_zone_entries(gs.drop_last());
    if i == gs.len() - 1 {
        let last = group_zone_entries(gs.last());
        assert(last[k] == e);
        assert(all[init.len() + k] == e);
    } else {
        lemma_groups_zone_entries_contains(gs.drop_last(), i, k);
        assert(gs.drop_last()[i] == gs[i]);
        let q = choose|q: int| 0 <= q < init.len() && init[q] == e;
        assert(all[q] == e);
    }
}

proof fn lemma_zone_in_its_group(zones: Seq<SampleZone>, j: int)
    requires
        0 <= j < zones.len(),
    ensures
        zones_in_group(zones, zones[j].group@).contains(zones[j]),
    decreases zones.len(),
{
    let n = zones[j].group@;
    if j == zones.len() - 1 {
        let r = zones_in_group(zones, n);
        assert(r[r.len() - 1] == zones[j]);
    } else {
        lemma_zone_in_its_group(zones.drop_last(), j);
        assert(zones.drop_last()[j] == zones[j]);
        let prev = zones_in_group(zones.drop_last(), n);
        let q = choose|q: int| 0 <= q < prev.len() && prev[q] == zones[j];
        let r = zones_in_group(zones, n);
        assert(r[q] == zones[j]);
    }
}

proof fn lemma_unlisted_contains(groups: Seq<SampleGroup>, zones: Seq<SampleZone>, j: int)
    requires
        0 <= j < zones.len(),
        !listed_before(groups, groups.len() as int, zones[j].group@),
    ensures
        unlisted_group_names(groups, zones).contains(zones[j].group@),
    decreases zones.len(),
{
    let n = zones[j].group@;
    let prev = unlisted_group_names(groups, zones.drop_last());
    let now = unlisted_group_names(groups, zones);
    if j == zones.len() - 1 {
        if prev.contains(n) {
            assert(now == prev);
        } else {
            assert(now[now.len() - 1] == n);
        }
    } else {
        assert(zones.drop_last()[j] == zones[j]);
        lemma_unlisted_contains(groups, zones.drop_last(), j);
        let q = choose|q: int| 0 <= q < prev.len() && prev[q] == n;
        assert(now[q] == n);
    }
}

proof fn lemma_first_listed(groups: Seq<SampleGroup>, upto: int, n: Seq<char>)
    requires
        0 <= upto <= groups.len(),
        listed_before(groups, upto, n),
    ensures
        exists|i: int| 0 <= i < upto && groups[i].name@ == n && !listed_before(groups, i, n),
    decreases upto,
{
    if listed_before(groups, upto - 1, n) {
        lemma_first_listed(groups, upto - 1, n);
    } else {
        let w = choose|i: int| 0 <= i < upto && #[trigger] groups[i].name@ == n;
        assert(w == upto - 1);
    }
}

/// The engine patch the editor builds from its groups and zones: one part holding,
/// for each editor group in order, an engine group with its settings and the zones
/// of that group (none for a name met before), followed by one group for each zone
/// group no editor group lists, in the order the zones first name them. Loading the
/// zones' sample files is left to the caller.
pub fn build_patch_from_zones(groups: &[SampleGroup], zones: &[SampleZone]) -> (patch: Patch)
    ensures
        patch.parts@.len() == 1,
        patch.parts@[0].groups@.len() == groups@.len() + unlisted_group_names(groups@, zones@).len(),
        forall|i: int| 0 <= i < groups@.len() ==> {
            let g = #[trigger] patch.parts@[0].groups@[i];
            &&& g.name@ == groups@[i].name@
            &&& g.poly_limit == groups@[i].poly_limit
            &&& g.exclusive_group == groups@[i].exclusive_group
            &&& pairs_view(g.extra_sfz_opcodes@) == pairs_view(groups@[i].extra_sfz_opcodes@)
            &&& dsp_zone_views(g) == (if listed_before(groups@, i, groups@[i].name@) {
                Seq::empty()
            } else {
                group_zone_plan(zones@, groups@[i].name@)
            })
        },
        forall|k: int| 0 <= k < unlisted_group_names(groups@, zones@).len() ==> {
            let g = #[trigger] patch.parts@[0].groups@[groups@.len() + k];
            let n = unlisted_group_names(groups@, zones@)[k];
            &&& g.name@ == n
            &&& g.poly_limit == 0
            &&& g.exclusive_group == 0
            &&& g.extra_sfz_opcodes@.len() == 0
            &&& dsp_zone_views(g) == group_zone_plan(zones@, n)
        },
        forall|j: int| 0 <= j < zones@.len() && zones@[j].start_note <= 255 && zones@[j].end_note <= 255
            ==> patch_zone_entries(patch.parts@).contains(sample_zone_entry(#[trigger] zones@[j])),
{
    let mut out: Vec<Group> = Vec::new();
    let mut i: usize = 0;
    while i < groups.len()
        invariant
            i <= groups@.len(),
            out@.len() == i,
            forall|q: int| 0 <= q < i ==> {
                let g = #[trigger] out@[q];
                &&& g.name@ == groups@[q].name@
                &&& g.poly_limit == groups@[q].poly_limit
                &&& g.exclusive_group == groups@[q].exclusive_group
                &&& pairs_view(g.extra_sfz_opcodes@) == pairs_view(groups@[q].extra_sfz_opcodes@)
                &&& dsp_zone_views(g) == (if listed_before(groups@, q, groups@[q].name@) {
                    Seq::empty()
                } else {
                    group_zone_plan(zones@, groups@[q].name@)
                })
            },
        decreases groups@.len() - i,
    {
        let sg = &groups[i];
        let seen = name_listed(groups, i, sg.name.as_str());
        let group_zones = if seen {
            Vec::new()
        } else {
            dsp_zones_of_group(zones, sg.name.as_str())
        };
        let mut g = Group::default();
        g.name = sg.name.as_str().to_owned();
        g.poly_limit = sg.poly_limit;
        g.exclusive_group = sg.exclusive_group;
        g.extra_sfz_opcodes = copy_pairs(&sg.extra_sfz_opcodes);
        g.zones = group_zones;
        proof {
            if seen {
                assert(dsp_zone_views(g) =~= Seq::empty());
            }
        }
        out.push(g);
        i = i + 1;
    }
    let mut unlisted: Vec<String> = Vec::new();
    let mut z: usize = 0;
    assert(zones@.subrange(0, 0) =~= Seq::<SampleZone>::empty());
    while z < zones.len()
        invariant
            z <= zones@.len(),
            files_view(unlisted@) == unlisted_group_names(groups@, zones@.subrange(0, z as int)),
        decreases zones@.len() - z,
    {
        assert(zones@.subrange(0, z + 1).drop_last() =~= zones@.subrange(0, z as int));
        let name = zones[z].group.as_str();
        if !name_listed(groups, groups.len(), name) && !string_listed(&unlisted, name) {
            let ghost prev = files_view(unlisted@);
            unlisted.push(name.to_owned());
            assert(files_view(unlisted@) =~= prev.push(name@));
        }
        z = z + 1;
    }
    assert(zones@.subrange(0, z as int) =~= zones@);
    let ghost names = unlisted_group_names(groups@, zones@);
    let base = out.len();
    let mut k: usize = 0;
    while k < unlisted.len()
        invariant
            k <= unlisted@.len(),
            base == groups@.len(),
            files_view(unlisted@) == names,
            out@.len() == base + k,
            forall|q: int| 0 <= q < base ==> {
                let g = #[trigger] out@[q];
                &&& g.name@ == groups@[q].name@
                &&& g.poly_limit == groups@[q].poly_limit
                &&& g.exclusive_group == groups@[q].exclusive_group
                &&& pairs_view(g.extra_sfz_opcodes@) == pairs_view(groups@[q].extra_sfz_opcodes@)
                &&& dsp_zone_views(g) == (if listed_before(groups@, q, groups@[q].name@) {
                    Seq::empty()
                } else {
                    group_zone_plan(zones@, groups@[q].name@)
                })
            },
            forall|q: int| 0 <= q < k ==> {
                let g = #[trigger] out@[base + q];
                &&& g.name@ == names[q]
                &&& g.poly_limit == 0
                &&& g.exclusive_group == 0
                &&& g.extra_sfz_opcodes@.len() == 0
                &&& dsp_zone_views(g) == group_zone_plan(zones@, names[q])
            },
        decreases unlisted@.len() - k,
    {
        let mut g = Group::default();
        g.name = unlisted[k].as_str().to_owned();
        g.zones = dsp_zones_of_group(zones, unlisted[k].as_str());
        assert(files_view(unlisted@)[k as int] == unlisted@[k as int]@);
        out.push(g);
        k = k + 1;
    }
    let mut part = Part::default();
    part.groups = out;
    let mut parts: Vec<Part> = Vec::new();
    parts.push(part);
    let patch = Patch { parts };
    proof {
        let gs = patch.parts@[0].groups@;
        assert(patch.parts@.drop_last() =~= Seq::<Part>::empty());
        assert(patch_zone_entries(patch.parts@.drop_last()) == Seq::<ZoneEntry>::empty());
        assert(patch.parts@.last() == patch.parts@[0]);
        assert(patch_zone_entries(patch.parts@) =~= groups_zone_entries(gs));
        assert forall|j: int| 0 <= j < zones@.len() && zones@[j].start_note <= 255 && zones@[j].end_note <= 255
            implies patch_zone_entries(patch.parts@).contains(sample_zone_entry(#[trigger] zones@[j])) by {
            let zj = zones@[j];
            let n = zj.group@;
            lemma_zone_in_its_group(zones@, j);
            let members = zones_in_group(zones@, n);
            let q = choose|q: int| 0 <= q < members.len() && members[q] == zj;
            let gi: int = if listed_before(groups@, groups@.len() as int, n) {
                lemma_first_listed(groups@, groups@.len() as int, n);
                choose|i: int| 0 <= i < groups@.len() && groups@[i].name@ == n && !listed_before(groups@, i, n)
            } else {
                lemma_unlisted_contains(groups@, zones@, j);
                let names = unlisted_group_names(groups@, zones@);
                let u = choose|u: int| 0 <= u < names.len() && names[u] == n;
                groups@.len() + u
            };
            let g = gs[gi];
            assert(g.name@ == n);
            assert(dsp_zone_views(g) == group_zone_plan(zones@, n));
            assert(dsp_zone_views(g)[q] == dsp_zone_entry(zj));
            assert(zone_view(g.zones@[q]) == dsp_zone_entry(zj));
            assert((zj.start_note as u8) as usize == zj.start_note);
            assert((zj.end_note as u8) as usize == zj.end_note);
            assert(zone_entry_of(g.zones@[q], g.name@) == sample_zone_entry(zj));
            lemma_groups_zone_entries_contains(gs, gi, q);
        }
    }
    patch
}

} // verus!
