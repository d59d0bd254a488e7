//! The whole SFZ document an instrument is exported as: a `<control>` header naming
//! the sample folder, then each group's header and its regions' lines.

use vstd::prelude::*;
use crate::group::{Group, Zone};
use crate::sfz_export::{extra_opcodes_text, group_header_text, key_mapping_text, push_export_group_header, push_export_key_mapping, push_extra_sfz_opcodes};
use crate::sfz_opcode_map::pairs_view;
use crate::text::{chars_of, push_all, string_of};

verus! {

fn push_text(out: &mut Vec<char>, s: &str)
    ensures
        final(out)@ == old(out)@ + s@,
{
    let c = chars_of(s);
    push_all(out, c.as_slice());
}

/// The line of a region: its header with the sample file name `sample`, the zone's
/// key mapping and its extra opcodes.
pub open spec fn region_line(z: Zone, sample: Seq<char>) -> Seq<char> {
    "<region> sample="@ + sample + key_mapping_text(z) + extra_opcodes_text(pairs_view(z.extra_sfz_opcodes@)) + "\n"@
}

/// The lines of the first `n` zones of `zs`, zone `k` playing the sample named `names[k]`.
pub open spec fn regions_text(zs: Seq<Zone>, names: Seq<String>, n: nat) -> Seq<char>
    decreases n,
{
    if n == 0 {
        Seq::empty()
    } else {
        regions_text(zs, names, (n - 1) as nat) + region_line(zs[n - 1], names[n - 1]@)
    }
}

/// The block of a group: nothing for a group without zones; else a `// group:` comment
/// with its name where it has one, its `<group>` header line, its region lines and an
/// empty line.
#[verifier::opaque]
pub open spec fn group_block(g: Group, names: Seq<String>) -> Seq<char> {
    if g.zones@.len() == 0 {
        Seq::empty()
    } else {
        (if g.name@.len() > 0 { "// group: "@ + g.name@ + "\n"@ } else { Seq::empty() }) + group_header_text(g) + "\n"@
            + regions_text(g.zones@, names, g.zones@.len()) + "\n"@
    }
}

/// The blocks of the first `n` groups of `gs`, group `k`'s samples named by `names[k]`.
pub open spec fn groups_text(gs: Seq<Group>, names: Seq<Vec<String>>, n: nat) -> Seq<char>
    decreases n,
{
    if n == 0 {
        Seq::empty()
    } else {
        groups_text(gs, names, (n - 1) as nat) + group_block(gs[n - 1], names[n - 1]@)
    }
}

/// An exported SFZ document: a heading comment, a `<control>` header whose
/// `default_path` is the sample folder `dir`, then the block of each group.
pub open spec fn export_text(gs: Seq<Group>, dir: Seq<char>, names: Seq<Vec<String>>) -> Seq<char> {
    "// Exported by Maolan Sampler\n<control>\ndefault_path="@ + dir + "/\n\n"@ + groups_text(gs, names, gs.len())
}

fn push_region_line(output: &mut Vec<char>, zone: &Zone, sample: &str)
    ensures
        final(output)@ == old(output)@ + region_line(*zone, sample@),
{
    let ghost start = output@;
    push_text(output, "<region> sample=");
    push_text(output, sample);
    push_export_key_mapping(output, zone);
    push_extra_sfz_opcodes(output, zone.extra_sfz_opcodes.as_slice());
    push_text(output, "\n");
    assert(output@ =~= start + region_line(*zone, sample@));
}

fn push_region_lines(output: &mut Vec<char>, zones: &[Zone], names: &[String])
    requires
        names@.len() == zones@.len(),
    ensures
        final(output)@ == old(output)@ + regions_text(zones@, names@, zones@.len()),
{
    let ghost regions_start = output@;
    let mut i: usize = 0;
    while i < zones.len()
        invariant
            names@.len() == zones@.len(),
            i <= zones@.len(),
            output@ == regions_start + regions_text(zones@, names@, i as nat),
        decreases zones@.len() - i,
    {
        push_region_line(output, &zones[i], names[i].as_str());
        assert(output@ =~= regions_start + regions_text(zones@, names@, (i + 1) as nat));
        i = i + 1;
    }
}

fn push_group_block(output: &mut Vec<char>, group: &Group, names: &[String])
    requires
        names@.len() == group.zones@.len(),
    ensures
        final(output)@ == old(output)@ + group_block(*group, names@),
{
    reveal(group_block);
    if group.zones.len() == 0 {
        assert(old(output)@ + group_block(*group, names@) =~= old(output)@);
        return;
    }
    let ghost start = output@;
    if chars_of(group.name.as_str()).len() > 0 {
        push_text(output, "// group: ");
        push_text(output, group.name.as_str());
        push_text(output, "\n");
    }
    let ghost named = output@;
    push_export_group_header(output, group);
    push_text(output, "\n");
    push_region_lines(output, group.zones.as_slice(), names);
    push_text(output, "\n");
    assert(output@ =~= start + group_block(*group, names@));
}

/// The SFZ document of an instrument whose groups (those of all its parts, in order)
/// are `groups`, with its samples in the folder `sample_dir_name` and zone `k` of group
/// `i` playing the file named `sample_names[i][k]`, as `export_text` states. The
/// modulation curves and the opcodes that carry floating-point values are not written.
pub fn export_patch_text(groups: &[Group], sample_dir_name: &str, sample_names: &[Vec<String>]) -> (s: String)
    requires
        sample_names@.len() == groups@.len(),
        forall|i: int| 0 <= i < groups@.len() ==> (#[trigger] sample_names@[i])@.len() == groups@[i].zones@.len(),
    ensures
        s@ == export_text(groups@, sample_dir_name@, sample_names@),
{
    let mut out: Vec<char> = Vec::new();
    push_text(&mut out, "// Exported by Maolan Sampler\n<control>\ndefault_path=");
    push_text(&mut out, sample_dir_name);
    push_text(&mut out, "/\n\n");
    let ghost head = out@;
    let mut i: usize = 0;
    while i < groups.len()
        invariant
            sample_names@.len() == groups@.len(),
            forall|i: int| 0 <= i < groups@.len() ==> (#[trigger] sample_names@[i])@.len() == groups@[i].zones@.len(),
            i <= groups@.len(),
            out@ == head + groups_text(groups@, sample_names@, i as nat),
        decreases groups@.len() - i,
    {
        let ghost before = out@;
        push_group_block(&mut out, &groups[i], sample_names[i].as_slice());
        assert(out@ =~= head + groups_text(groups@, sample_names@, (i + 1) as nat));
        i = i + 1;
    }
    proof {
        reveal_strlit("// Exported by Maolan Sampler\n<control>\ndefault_path=");
        reveal_strlit("/\n\n");
    }
    assert(out@ =~= export_text(groups@, sample_dir_name@, sample_names@));
    string_of(out.as_slice())
}

} // verus!
