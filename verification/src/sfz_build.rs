//! Building the zones and groups of an instrument from the layout of its SFZ file:
//! each region's sample file found from the instrument's folder and `default_path`,
//! and each group's zones in the order of its regions.

use vstd::prelude::*;
use crate::file_kinds::is_separator;
use crate::group::{neutral_core, Group, TriggerCondition, TriggerConjunction, TriggerType, Zone};
use crate::sfz_handled::{zone_extra_opcodes, zone_handled};
use crate::sfz_layout::{GroupLayout, OpcodeView, RegionLayout, SfzLayout};
use crate::sfz_opcode_map::{is_extra, pairs_view, seq_lt, OpcodeMap};
use crate::sfz_region::{
    apply_region_mapping, fades_mapped, gates_mapped, is_silence, keys_mapped, no_sample, region_mapped, set_region_sample,
    velocities_mapped, RegionMapping, build_group_settings, is_group_built, GroupOpcodes,
};

verus! {

/// Whether a path has no drive or network prefix on any platform: its second
/// character is no `:`, and it does not start with two separators.
pub open spec fn has_no_prefix(p: Seq<char>) -> bool {
    p.len() >= 2 ==> p[1] != ':' && !(is_separator(p[0]) && is_separator(p[1]))
}

/// Whether a path ends in a backslash, which only some platforms take as a separator.
pub open spec fn ends_in_backslash(p: Seq<char>) -> bool {
    p.len() > 0 && p.last() == '\\'
}

/// Whether a path is relative on every platform: empty, or starting with no
/// separator, and with no `:` in it.
pub open spec fn is_plain_relative(p: Seq<char>) -> bool {
    &&& (p.len() == 0 || !is_separator(p[0]))
    &&& !p.contains(':')
}

/// Whether `r` is `base` followed by the relative path `part`: directly where `base`
/// is empty or ends in `/`; where it ends in a backslash, directly or with a `/`
/// between them; else with one separator between them.
pub open spec fn joined_with(r: Seq<char>, base: Seq<char>, part: Seq<char>) -> bool {
    if base.len() == 0 || base.last() == '/' {
        r == base + part
    } else if base.last() == '\\' {
        r == base + part || r == base + seq!['/'] + part
    } else {
        exists|c: char| is_separator(c) && r == base + seq![c] + part
    }
}

/// Whether `r` ends with `part`.
pub open spec fn ends_with(r: Seq<char>, part: Seq<char>) -> bool {
    part.len() <= r.len() && r.subrange(r.len() - part.len(), r.len() as int) == part
}

/// `Path::join` of std, on paths given and returned as text (both are UTF-8, so the
/// text comes back exactly). Claimed, from its documentation: where `base` has no drive
/// or network prefix, the result ends with `part` (an absolute `part` replaces `base`,
/// a relative one is appended), and a relative `part` follows `base`, with the
/// platform's separator between them unless `base` already ends in one. Which separator
/// that is, and so whether a backslash ends `base`, is left open: it differs between
/// platforms, and so does what a prefixed `base` gives.
#[verifier::external_body]
fn join_path(base: &str, part: &str) -> (r: String)
    ensures
        has_no_prefix(base@) ==> ends_with(r@, part@),
        has_no_prefix(base@) && is_plain_relative(part@) ==> joined_with(
            r@,
            base@,
            part@,
        ),
{
    std::path::Path::new(base).join(part).to_string_lossy().into_owned()
}

/// Whether the folder `base` and the relative `default_path` `dp` are such that the
/// sample path taken from them is stated on every platform.
pub open spec fn folder_fits(base: Seq<char>, dp: Seq<char>) -> bool {
    has_no_prefix(base) && !ends_in_backslash(base) && is_plain_relative(dp)
}

/// What is known of the file `f` of the sample `s`, taken from the instrument's folder
/// `base` joined with `default_path` `dp`, then with `s`: where the two fit, it ends
/// with `s`; and where `s` is a relative path too, it is `base`, `dp` and `s` joined
/// in turn.
pub open spec fn sample_file(f: Seq<char>, base: Seq<char>, dp: Seq<char>, s: Seq<char>) -> bool {
    &&& folder_fits(base, dp) ==> ends_with(f, s)
    &&& folder_fits(base, dp) && is_plain_relative(s) ==> exists|mid: Seq<char>|
        joined_with(mid, base, dp) && joined_with(f, mid, s)
}

/// The value of opcode `k`, or the empty text where it is missing.
pub open spec fn opcode_or_empty(ops: OpcodeView, k: Seq<char>) -> Seq<char> {
    if ops.dom().contains(k) {
        ops[k]
    } else {
        Seq::empty()
    }
}

/// Whether a region with opcodes `ops` makes a zone: its `sample` names one.
pub open spec fn makes_zone(ops: OpcodeView) -> bool {
    ops.dom().contains("sample"@) && !no_sample(ops["sample"@])
}

/// Whether `extra` lists, in increasing order of name, the opcodes of `ops` that the
/// region builder does not read and that are not player-specific.
pub open spec fn lists_zone_extras(extra: Seq<(String, String)>, ops: OpcodeView) -> bool {
    &&& forall|i: int, j: int| 0 <= i < j < extra.len() ==> seq_lt(extra[i].0@, extra[j].0@)
    &&& forall|k: Seq<char>, v: Seq<char>| #[trigger] pairs_view(extra).contains((k, v)) <==> (ops.dom().contains(k)
        && ops[k] == v && is_extra(k, zone_handled()))
}

/// Whether `z` is the zone that a region with opcodes `ops`, read as `m`, makes in the
/// instrument folder `base`: its settings mapped from the neutral ones as
/// `region_mapped` states, the region's controller conditions, its sample named as
/// `sample` gives (the silent region `*silence` with no file, any other with the file
/// `sample_file` describes), and its extra opcodes.
#[verifier::opaque]
pub open spec fn is_region_zone(z: Zone, ops: OpcodeView, m: RegionMapping, base: Seq<char>) -> bool {
    let s = ops["sample"@];
    &&& z == region_mapped(neutral_core(z), m)
    &&& z.cc_conditions@ == m.cc_conditions@
    &&& if is_silence(s) {
        z.name@ == "*silence"@ && z.files@.len() == 0
    } else {
        &&& z.name@ == s
        &&& z.files@.len() == 1
        &&& sample_file(z.files@[0]@, base, opcode_or_empty(ops, "default_path"@), s)
    }
    &&& lists_zone_extras(z.extra_sfz_opcodes@, ops)
}

proof fn lemma_join_keeps_no_prefix(mid: Seq<char>, base: Seq<char>, dp: Seq<char>)
    requires
        has_no_prefix(base),
        !ends_in_backslash(base),
        is_plain_relative(dp),
        joined_with(mid, base, dp),
    ensures
        has_no_prefix(mid),
{
    if dp.len() > 0 && dp[0] == ':' {
        assert(dp.contains(':'));
    }
    if dp.len() > 1 && dp[1] == ':' {
        assert(dp.contains(':'));
    }
    if mid.len() >= 2 {
        if base.len() >= 2 {
            assert(mid[0] == base[0] && mid[1] == base[1]);
        } else if base.len() == 0 || base.last() == '/' {
            assert(mid == base + dp);
            if base.len() == 1 {
                assert(mid[1] == dp[0]);
            } else {
                assert(mid[0] == dp[0] && mid[1] == dp[1]);
            }
        } else {
            let c = choose|c: char| is_separator(c) && mid == base + seq![c] + dp;
            assert(mid[0] == base[0] && mid[1] == c);
        }
    }
}

proof fn lemma_sample_file(f: Seq<char>, mid: Seq<char>, base: Seq<char>, dp: Seq<char>, s: Seq<char>)
    requires
        has_no_prefix(base) && is_plain_relative(dp) ==> joined_with(mid, base, dp),
        has_no_prefix(mid) ==> ends_with(f, s),
        has_no_prefix(mid) && is_plain_relative(s) ==> joined_with(f, mid, s),
    ensures
        sample_file(f, base, dp, s),
{
    if folder_fits(base, dp) {
        lemma_join_keeps_no_prefix(mid, base, dp);
    }
}

/// Whether `b` is `a` but for its name, files, controller conditions and extra opcodes.
pub open spec fn same_settings(a: Zone, b: Zone) -> bool {
    b == (Zone { name: b.name, files: b.files, cc_conditions: b.cc_conditions, extra_sfz_opcodes: b.extra_sfz_opcodes, ..a })
}

proof fn lemma_keys_frame(a: Zone, b: Zone, m: RegionMapping)
    requires
        same_settings(a, b),
    ensures
        same_settings(keys_mapped(a, m), keys_mapped(b, m)),
        keys_mapped(b, m).name == b.name && keys_mapped(b, m).files == b.files,
        keys_mapped(b, m).cc_conditions == b.cc_conditions,
        keys_mapped(b, m).extra_sfz_opcodes == b.extra_sfz_opcodes,
{
}

proof fn lemma_velocities_frame(a: Zone, b: Zone, m: RegionMapping)
    requires
        same_settings(a, b),
    ensures
        same_settings(velocities_mapped(a, m), velocities_mapped(b, m)),
        velocities_mapped(b, m).name == b.name && velocities_mapped(b, m).files == b.files,
        velocities_mapped(b, m).cc_conditions == b.cc_conditions,
        velocities_mapped(b, m).extra_sfz_opcodes == b.extra_sfz_opcodes,
{
}

proof fn lemma_gates_frame(a: Zone, b: Zone, m: RegionMapping)
    requires
        same_settings(a, b),
    ensures
        same_settings(gates_mapped(a, m), gates_mapped(b, m)),
        gates_mapped(b, m).name == b.name && gates_mapped(b, m).files == b.files,
        gates_mapped(b, m).cc_conditions == b.cc_conditions,
        gates_mapped(b, m).extra_sfz_opcodes == b.extra_sfz_opcodes,
{
}

proof fn lemma_fades_frame(a: Zone, b: Zone, m: RegionMapping)
    requires
        same_settings(a, b),
    ensures
        same_settings(fades_mapped(a, m), fades_mapped(b, m)),
        fades_mapped(b, m).name == b.name && fades_mapped(b, m).files == b.files,
        fades_mapped(b, m).cc_conditions == b.cc_conditions,
        fades_mapped(b, m).extra_sfz_opcodes == b.extra_sfz_opcodes,
{
}

/// Mapping a region's opcodes leaves a zone's name, files, controller conditions and
/// extra opcodes as they were, and reads nothing of them.
proof fn lemma_region_mapped_frame(a: Zone, b: Zone, m: RegionMapping)
    requires
        same_settings(a, b),
    ensures
        same_settings(region_mapped(a, m), region_mapped(b, m)),
        region_mapped(b, m).name == b.name && region_mapped(b, m).files == b.files,
        region_mapped(b, m).cc_conditions == b.cc_conditions,
        region_mapped(b, m).extra_sfz_opcodes == b.extra_sfz_opcodes,
{
    lemma_keys_frame(a, b, m);
    let (a1, b1) = (keys_mapped(a, m), keys_mapped(b, m));
    lemma_velocities_frame(a1, b1, m);
    let (a2, b2) = (velocities_mapped(a1, m), velocities_mapped(b1, m));
    lemma_gates_frame(a2, b2, m);
    let (a3, b3) = (gates_mapped(a2, m), gates_mapped(b2, m));
    lemma_fades_frame(a3, b3, m);
}

proof fn lemma_region_zone(z0: Zone, z: Zone, ops: OpcodeView, m: RegionMapping, base: Seq<char>, full: Seq<char>)
    requires
        z == region_mapped(neutral_core(z), m),
        z.name == z0.name && z.files == z0.files,
        z.cc_conditions@ == m.cc_conditions@,
        lists_zone_extras(z.extra_sfz_opcodes@, ops),
        ops.dom().contains("sample"@),
        is_silence(ops["sample"@]) ==> z0.name@ == "*silence"@ && z0.files@.len() == 0,
        !is_silence(ops["sample"@]) ==> z0.name@ == ops["sample"@] && z0.files@.len() == 1 && z0.files@[0]@ == full,
        sample_file(full, base, opcode_or_empty(ops, "default_path"@), ops["sample"@]),
    ensures
        is_region_zone(z, ops, m, base),
{
    reveal(is_region_zone);
}

proof fn lemma_mapped_from_neutral(z0: Zone, z1: Zone, z: Zone, m: RegionMapping)
    requires
        z0 == neutral_core(z0),
        (Zone { cc_conditions: z0.cc_conditions, ..z1 }) == region_mapped(z0, m),
        z == (Zone { extra_sfz_opcodes: z.extra_sfz_opcodes, ..z1 }),
    ensures
        z == region_mapped(neutral_core(z), m),
        z.name == z0.name && z.files == z0.files,
        z.cc_conditions == z1.cc_conditions,
{
    let nc = neutral_core(z);
    lemma_region_mapped_frame(z0, z0, m);
    assert(z1.name == z0.name && z1.files == z0.files);
    assert(same_settings(z0, nc));
    lemma_region_mapped_frame(z0, nc, m);
}

/// The zone a region with opcodes `opcodes`, read as `m`, makes in the instrument
/// folder `base_dir`: none where its `sample` names none, else the one
/// `is_region_zone` describes.
pub fn build_region_zone(opcodes: &OpcodeMap, m: &RegionMapping, base_dir: &str) -> (r: Option<Zone>)
    ensures
        r is Some <==> makes_zone(opcodes@),
        r matches Some(z) ==> is_region_zone(z, opcodes@, *m, base_dir@),
{
    let sample = match opcodes.get_str("sample") {
        Some(s) => s,
        None => {
            return None;
        },
    };
    let dp = match opcodes.get_str("default_path") {
        Some(d) => d,
        None => String::new(),
    };
    let mid = join_path(base_dir, dp.as_str());
    let full = join_path(mid.as_str(), sample.as_str());
    let ghost full_v = full@;
    proof {
        lemma_sample_file(full@, mid@, base_dir@, dp@, sample@);
    }
    let mut z = Zone::default();
    if !set_region_sample(&mut z, sample.as_str(), full) {
        return None;
    }
    let ghost z0 = z;
    apply_region_mapping(&mut z, m);
    let ghost z1 = z;
    z.extra_sfz_opcodes = zone_extra_opcodes(opcodes);
    proof {
        lemma_mapped_from_neutral(z0, z1, z, *m);
        lemma_region_zone(z0, z, opcodes@, *m, base_dir@, full_v);
    }
    Some(z)
}

/// The opcodes of each region of a group.
pub open spec fn region_opcodes(rs: Seq<RegionLayout>) -> Seq<OpcodeView> {
    Seq::new(rs.len(), |j: int| rs[j].opcodes@)
}

/// Whether the zones `zs` are those that the first `n` regions `rs`, read as `ms`, make
/// in the folder `base`, in their order: zone `k` comes from region `idx[k]`, and every
/// one of those regions whose sample names one makes a zone.
pub open spec fn zones_upto(
    zs: Seq<Zone>,
    rs: Seq<OpcodeView>,
    ms: Seq<RegionMapping>,
    base: Seq<char>,
    idx: Seq<int>,
    n: int,
) -> bool {
    &&& idx.len() == zs.len()
    &&& forall|k: int, l: int| 0 <= k < l < idx.len() ==> idx[k] < idx[l]
    &&& forall|k: int|
        0 <= k < idx.len() ==> 0 <= #[trigger] idx[k] < n && is_region_zone(zs[k], rs[idx[k]], ms[idx[k]], base)
    &&& forall|j: int| 0 <= j < n && #[trigger] makes_zone(rs[j]) ==> exists|k: int| 0 <= k < idx.len() && #[trigger] idx[k] == j
}

/// Whether the zones `zs` are those that the regions `rs`, read as `ms`, make in the
/// folder `base`, in their order.
pub open spec fn zones_of_regions(zs: Seq<Zone>, rs: Seq<OpcodeView>, ms: Seq<RegionMapping>, base: Seq<char>) -> bool {
    exists|idx: Seq<int>| zones_upto(zs, rs, ms, base, idx, rs.len() as int)
}

/// The zones that the regions `regions`, read as `mappings`, make in the instrument
/// folder `base_dir`, in their order.
pub fn build_group_zones(regions: &[RegionLayout], mappings: &[RegionMapping], base_dir: &str) -> (zs: Vec<Zone>)
    requires
        regions@.len() == mappings@.len(),
    ensures
        zones_of_regions(zs@, region_opcodes(regions@), mappings@, base_dir@),
{
    let ghost rs = region_opcodes(regions@);
    let mut zs: Vec<Zone> = Vec::new();
    let ghost mut idx: Seq<int> = Seq::empty();
    let mut j: usize = 0;
    while j < regions.len()
        invariant
            rs == region_opcodes(regions@),
            regions@.len() == mappings@.len(),
            j <= regions@.len(),
            zones_upto(zs@, rs, mappings@, base_dir@, idx, j as int),
        decreases regions@.len() - j,
    {
        let made = build_region_zone(&regions[j].opcodes, &mappings[j], base_dir);
        let ghost old_idx = idx;
        let ghost old_zs = zs@;
        match made {
            Some(z) => {
                zs.push(z);
                proof {
                    idx = idx.push(j as int);
                    assert forall|jj: int| 0 <= jj < j + 1 && #[trigger] makes_zone(rs[jj]) implies exists|k: int|
                        0 <= k < idx.len() && #[trigger] idx[k] == jj by {
                        if jj < j {
                            let k = choose|k: int| 0 <= k < old_idx.len() && #[trigger] old_idx[k] == jj;
                            assert(idx[k] == jj);
                        } else {
                            assert(idx[old_idx.len() as int] == jj);
                        }
                    }
                    assert forall|k: int| 0 <= k < idx.len() implies 0 <= #[trigger] idx[k] < j + 1
                        && is_region_zone(zs@[k], rs[idx[k]], mappings@[idx[k]], base_dir@) by {
                        if k < old_idx.len() {
                            assert(idx[k] == old_idx[k]);
                            assert(zs@[k] == old_zs[k]);
                        }
                    }
                }
            },
            None => {
                proof {
                    assert forall|jj: int| 0 <= jj < j + 1 && #[trigger] makes_zone(rs[jj]) implies exists|k: int|
                        0 <= k < idx.len() && #[trigger] idx[k] == jj by {
                        if jj < j {
                            let k = choose|k: int| 0 <= k < old_idx.len() && #[trigger] old_idx[k] == jj;
                            assert(idx[k] == jj);
                        }
                    }
                }
            },
        }
        j = j + 1;
    }
    assert(zones_upto(zs@, rs, mappings@, base_dir@, idx, rs.len() as int));
    zs
}

/// Whether `g` has the settings of a group that no `<group>` header opened: those of
/// `Group::default`, whatever its zones.
pub open spec fn has_default_settings(g: Group) -> bool {
    &&& g.name@.len() == 0
    &&& g.poly_limit == 0
    &&& g.exclusive_group == 0
    &&& g.output == 0
    &&& g.extra_sfz_opcodes@.len() == 0
    &&& g.trigger_type == TriggerType::NoTrigger
    &&& forall|i: int| 0 <= i < 4 ==> #[trigger] g.trigger_conditions@[i] == (TriggerCondition { note: 0, cc: 0, cc_value: 0 })
    &&& forall|i: int| 0 <= i < 3 ==> #[trigger] g.trigger_conjunctions@[i] == TriggerConjunction::And
    &&& g.sw_last is None && g.sw_down is None && g.sw_up is None && g.sw_previous is None
    &&& g.sw_lolast is None && g.sw_hilast is None && g.sw_default is None
    &&& g.sw_label is None
}

/// Whether `out` is the group that the layout group `g` makes, with its `<group>`
/// opcodes read as `settings` and its regions' as `ms`, in the folder `base`: the
/// settings `is_group_built` states (the default ones for a group no header opened),
/// and the zones its regions make, in their order.
pub open spec fn is_layout_group(out: Group, g: GroupLayout, settings: GroupOpcodes, ms: Seq<RegionMapping>, base: Seq<char>) -> bool {
    &&& match g.opcodes {
        Some(o) => is_group_built(out, settings, o@),
        None => has_default_settings(out),
    }
    &&& zones_of_regions(out.zones@, region_opcodes(g.regions@), ms, base)
}

/// The group a layout group makes, as `is_layout_group` states.
pub fn build_group(g: &GroupLayout, settings: &GroupOpcodes, mappings: &[RegionMapping], base_dir: &str) -> (out: Group)
    requires
        mappings@.len() == g.regions@.len(),
    ensures
        is_layout_group(out, *g, *settings, mappings@, base_dir@),
{
    let mut out = match &g.opcodes {
        Some(o) => build_group_settings(settings, o),
        None => Group::default(),
    };
    out.zones = build_group_zones(g.regions.as_slice(), mappings, base_dir);
    out
}

/// The groups of an instrument: each group of its layout as `build_group` makes it,
/// with `settings[i]` its `<group>` opcodes read and `mappings[i]` its regions'.
pub fn build_groups(
    layout: &SfzLayout,
    settings: &[GroupOpcodes],
    mappings: &[Vec<RegionMapping>],
    base_dir: &str,
) -> (out: Vec<Group>)
    requires
        settings@.len() == layout.groups@.len(),
        mappings@.len() == layout.groups@.len(),
        forall|i: int| 0 <= i < mappings@.len() ==> #[trigger] mappings@[i]@.len() == layout.groups@[i].regions@.len(),
    ensures
        out@.len() == layout.groups@.len(),
        forall|i: int|
            0 <= i < out@.len() ==> is_layout_group(#[trigger] out@[i], layout.groups@[i], settings@[i], mappings@[i]@, base_dir@),
{
    let mut out: Vec<Group> = Vec::new();
    let mut i: usize = 0;
    while i < layout.groups.len()
        invariant
            settings@.len() == layout.groups@.len(),
            mappings@.len() == layout.groups@.len(),
            forall|i: int| 0 <= i < mappings@.len() ==> #[trigger] mappings@[i]@.len() == layout.groups@[i].regions@.len(),
            i <= layout.groups@.len(),
            out@.len() == i,
            forall|k: int|
                0 <= k < i ==> is_layout_group(#[trigger] out@[k], layout.groups@[k], settings@[k], mappings@[k]@, base_dir@),
        decreases layout.groups@.len() - i,
    {
        let g = build_group(&layout.groups[i], &settings[i], mappings[i].as_slice(), base_dir);
        out.push(g);
        i = i + 1;
    }
    out
}

} // verus!
