//! The note names the plugin publishes to the host: for each MIDI note covered by a
//! zone, the names of the groups (or zones) that play it.

use vstd::prelude::*;
use crate::text::{push_all, string_of, trim_ws, trimmed_bounds};
use crate::zones::SampleZone;

verus! {

/// The first `/` in `s` at or after `i`, or the end.
pub open spec fn slash_pos(s: Seq<char>, i: int) -> int
    decreases s.len() - i,
{
    if i < 0 || i >= s.len() {
        if i < 0 { 0 } else { s.len() as int }
    } else if s[i] == '/' {
        i
    } else {
        slash_pos(s, i + 1)
    }
}

pub proof fn lemma_slash_pos_bounds(s: Seq<char>, i: int)
    requires
        0 <= i <= s.len(),
    ensures
        i <= slash_pos(s, i) <= s.len(),
        slash_pos(s, i) < s.len() ==> s[slash_pos(s, i)] == '/',
        forall|k: int| i <= k < slash_pos(s, i) ==> s[k] != '/',
    decreases s.len() - i,
{
    if i < s.len() && s[i] != '/' {
        lemma_slash_pos_bounds(s, i + 1);
    }
}

/// The pieces of `s[i..]` between `/` characters, as std's `str::split('/')` gives
/// them.
pub open spec fn slash_parts(s: Seq<char>, i: int) -> Seq<Seq<char>>
    decreases s.len() - i,
{
    if i < 0 || i > s.len() {
        Seq::empty()
    } else {
        let p = slash_pos(s, i);
        proof {
            lemma_slash_pos_bounds(s, i);
        }
        if p >= s.len() {
            seq![s.subrange(i, s.len() as int)]
        } else {
            seq![s.subrange(i, p)] + slash_parts(s, p + 1)
        }
    }
}

/// A published label already names `name`: one of its `/`-separated pieces is
/// `name` once trimmed.
pub open spec fn label_names(label: Seq<char>, name: Seq<char>) -> bool {
    exists|k: int| 0 <= k < slash_parts(label, 0).len() && trim_ws(#[trigger] slash_parts(label, 0)[k]) == name
}

/// The name a zone is published under: its group's, or its own when it has no group.
pub open spec fn zone_label(z: SampleZone) -> Seq<char> {
    if z.group@.len() == 0 { z.name@ } else { z.group@ }
}

/// The labels with `name` added for `note`: a new label, or ` / ` and the name
/// appended to the one there unless it names it already.
pub open spec fn add_label(ls: Seq<Option<Seq<char>>>, note: int, name: Seq<char>) -> Seq<Option<Seq<char>>> {
    ls.update(
        note,
        match ls[note] {
            Some(l) => if label_names(l, name) { Some(l) } else { Some(l + " / "@ + name) },
            None => Some(name),
        },
    )
}

/// The labels with `name` added for every note from `lo` to `hi`.
pub open spec fn add_label_range(ls: Seq<Option<Seq<char>>>, lo: int, hi: int, name: Seq<char>) -> Seq<Option<Seq<char>>>
    decreases hi + 1 - lo,
{
    if lo > hi {
        ls
    } else {
        add_label_range(add_label(ls, lo, name), lo + 1, hi, name)
    }
}

/// The lowest and highest note a zone publishes: its key range in order, held to 127.
pub open spec fn zone_note_span(z: SampleZone) -> (int, int) {
    let lo = if z.start_note <= z.end_note { z.start_note } else { z.end_note };
    let hi = if z.start_note <= z.end_note { z.end_note } else { z.start_note };
    (if lo > 127 { 127 } else { lo as int }, if hi > 127 { 127 } else { hi as int })
}

/// The label of each of the 128 notes after the zones, in order, have added theirs.
/// Zones with an empty label add nothing.
pub open spec fn note_labels(zones: Seq<SampleZone>) -> Seq<Option<Seq<char>>>
    decreases zones.len(),
{
    if zones.len() == 0 {
        Seq::new(128, |i: int| None::<Seq<char>>)
    } else {
        let ls = note_labels(zones.drop_last());
        let z = zones.last();
        let name = zone_label(z);
        if name.len() == 0 {
            ls
        } else {
            add_label_range(ls, zone_note_span(z).0, zone_note_span(z).1, name)
        }
    }
}

/// The labelled notes among the first `n`, in note order.
pub open spec fn labelled_notes(ls: Seq<Option<Seq<char>>>, n: int) -> Seq<(u8, Seq<char>)>
    decreases n,
{
    if n <= 0 {
        Seq::empty()
    } else {
        let prev = labelled_notes(ls, n - 1);
        match ls[n - 1] {
            Some(l) => prev.push(((n - 1) as u8, l)),
            None => prev,
        }
    }
}

/// The characters of each published pair.
pub open spec fn names_view(v: Seq<(u8, String)>) -> Seq<(u8, Seq<char>)> {
    Seq::new(v.len(), |i: int| (v[i].0, v[i].1@))
}

/// Whether one of the `/`-separated pieces of `label`, trimmed, is `name`.
fn label_names_exec(label: &[char], name: &[char]) -> (r: bool)
    ensures
        r == label_names(label@, name@),
{
    let ghost parts = slash_parts(label@, 0);
    let n = label.len();
    let mut i: usize = 0;
    let ghost mut seen: int = 0;
    loop
        invariant
            n == label@.len(),
            i <= n,
            parts == slash_parts(label@, 0),
            0 <= seen <= parts.len(),
            slash_parts(label@, i as int) == parts.subrange(seen, parts.len() as int),
            forall|k: int| 0 <= k < seen ==> trim_ws(#[trigger] parts[k]) != name@,
        decreases n - i,
    {
        let mut j = i;
        while j < n && label[j] != '/'
            invariant
                i <= j <= n,
                n == label@.len(),
                slash_pos(label@, j as int) == slash_pos(label@, i as int),
            decreases n - j,
        {
            j = j + 1;
        }
        proof {
            lemma_slash_pos_bounds(label@, i as int);
            assert(slash_pos(label@, j as int) == j);
        }
        let (lo, hi) = trimmed_bounds(label, i, j);
        let mut same = hi - lo == name.len();
        let mut k: usize = 0;
        while same && k < name.len()
            invariant
                lo <= hi <= n,
                n == label@.len(),
                same ==> hi - lo == name@.len(),
                k <= name@.len(),
                same ==> forall|q: int| 0 <= q < k ==> label@[lo + q] == name@[q],
                !same ==> label@.subrange(lo as int, hi as int) != name@,
            decreases name@.len() - k,
        {
            if label[lo + k] != name[k] {
                assert(label@.subrange(lo as int, hi as int)[k as int] != name@[k as int]);
                same = false;
            }
            k = k + 1;
        }
        let ghost part = label@.subrange(i as int, j as int);
        proof {
            let here = slash_parts(label@, i as int);
            if j < n {
                assert(here == seq![part] + slash_parts(label@, j + 1));
            } else {
                assert(here == seq![part]);
            }
            assert(here[0] == part);
            assert(parts.subrange(seen, parts.len() as int)[0] == parts[seen]);
        }
        assert(parts[seen] == part);
        if same {
            assert(label@.subrange(lo as int, hi as int) =~= name@);
            assert(trim_ws(parts[seen]) == name@);
            return true;
        }
        proof {
            seen = seen + 1;
        }
        if j >= n {
            assert(parts.subrange(seen - 1, parts.len() as int).len() == 1);
            assert(seen == parts.len());
            return false;
        }
        proof {
            let here = slash_parts(label@, i as int);
            assert(here == seq![part] + slash_parts(label@, j + 1));
            assert(here.drop_first() =~= slash_parts(label@, j + 1));
            assert(parts.subrange(seen - 1, parts.len() as int).drop_first() =~= parts.subrange(seen, parts.len() as int));
        }
        i = j + 1;
    }
}

/// Adds `name` to the label of `note` as `add_label` states.
fn add_label_exec(labels: &mut Vec<Option<Vec<char>>>, note: usize, name: &[char])
    requires
        note < old(labels)@.len(),
    ensures
        final(labels)@.len() == old(labels)@.len(),
        labels_view(final(labels)@) == add_label(labels_view(old(labels)@), note as int, name@),
{
    let current = labels.remove(note);
    let next = match current {
        Some(mut l) => {
            if label_names_exec(l.as_slice(), name) {
                Some(l)
            } else {
                let ghost l0 = l@;
                l.push(' ');
                l.push('/');
                l.push(' ');
                push_all(&mut l, name);
                proof {
                    reveal_strlit(" / ");
                    assert(l@ =~= l0 + " / "@ + name@);
                }
                Some(l)
            }
        },
        None => {
            let mut l: Vec<char> = Vec::new();
            push_all(&mut l, name);
            Some(l)
        },
    };
    let ghost next_view = labels_view(seq![next])[0];
    labels.insert(note, next);
    proof {
        assert(labels@ =~= old(labels)@.update(note as int, next));
        assert(labels_view(labels@) =~= labels_view(old(labels)@).update(note as int, next_view));
    }
}

/// The characters of each label.
pub open spec fn labels_view(v: Seq<Option<Vec<char>>>) -> Seq<Option<Seq<char>>> {
    Seq::new(
        v.len(),
        |i: int|
            match v[i] {
                Some(l) => Some(l@),
                None => None,
            },
    )
}

/// The MIDI notes covered by the zones, in note order, each with the names of the
/// groups (or of the zones, where a zone has no group) that play it, joined by ` / `
/// in the order the zones come, each name once.
pub fn build_note_names(zones: &[SampleZone]) -> (names: Vec<(u8, String)>)
    ensures
        names_view(names@) == labelled_notes(note_labels(zones@), 128),
{
    let mut labels: Vec<Option<Vec<char>>> = Vec::new();
    let mut n: usize = 0;
    while n < 128
        invariant
            n <= 128,
            labels@.len() == n,
            forall|k: int| 0 <= k < n ==> labels@[k] is None,
        decreases 128 - n,
    {
        labels.push(None);
        n = n + 1;
    }
    assert(labels_view(labels@) =~= note_labels(Seq::<SampleZone>::empty()));
    let mut i: usize = 0;
    while i < zones.len()
        invariant
            i <= zones@.len(),
            labels@.len() == 128,
            labels_view(labels@) == note_labels(zones@.subrange(0, i as int)),
        decreases zones@.len() - i,
    {
        let ghost pre = zones@.subrange(0, i as int);
        assert(zones@.subrange(0, i + 1).drop_last() =~= pre);
        let z = &zones[i];
        let group_chars = crate::text::chars_of(z.group.as_str());
        let name_chars = if group_chars.len() == 0 {
            crate::text::chars_of(z.name.as_str())
        } else {
            group_chars
        };
        if name_chars.len() > 0 {
            let lo0 = if z.start_note <= z.end_note { z.start_note } else { z.end_note };
            let hi0 = if z.start_note <= z.end_note { z.end_note } else { z.start_note };
            let lo = if lo0 > 127 { 127 } else { lo0 };
            let hi = if hi0 > 127 { 127 } else { hi0 };
            let ghost start_labels = labels_view(labels@);
            let mut note = lo;
            while note <= hi
                invariant
                    lo <= note <= hi + 1,
                    hi <= 127,
                    labels@.len() == 128,
                    add_label_range(labels_view(labels@), note as int, hi as int, name_chars@)
                        == add_label_range(start_labels, lo as int, hi as int, name_chars@),
                decreases hi + 1 - note,
            {
                add_label_exec(&mut labels, note, name_chars.as_slice());
                note = note + 1;
            }
        }
        i = i + 1;
    }
    assert(zones@.subrange(0, i as int) =~= zones@);
    let ghost ls = labels_view(labels@);
    let mut out: Vec<(u8, String)> = Vec::new();
    let mut k: usize = 0;
    while k < 128
        invariant
            k <= 128,
            labels@.len() == 128,
            ls == labels_view(labels@),
            names_view(out@) == labelled_notes(ls, k as int),
        decreases 128 - k,
    {
        match &labels[k] {
            Some(l) => {
                let ghost before = names_view(out@);
                out.push((k as u8, string_of(l.as_slice())));
                assert(names_view(out@) =~= before.push((k as u8, l@)));
            },
            None => {},
        }
        k = k + 1;
    }
    out
}

proof fn lemma_add_label_range(ls: Seq<Option<Seq<char>>>, lo: int, hi: int, name: Seq<char>)
    requires
        ls.len() == 128,
        0 <= lo,
        hi <= 127,
    ensures
        add_label_range(ls, lo, hi, name).len() == 128,
        forall|n: int| 0 <= n < 128 ==> ((#[trigger] add_label_range(ls, lo, hi, name)[n] is Some)
            <==> (ls[n] is Some || (lo <= n <= hi))),
    decreases hi + 1 - lo,
{
    if lo <= hi {
        let next = add_label(ls, lo, name);
        lemma_add_label_range(next, lo + 1, hi, name);
    }
}

/// A note is published exactly when a zone with a non-empty name (its group's or its
/// own) covers it.
pub proof fn lemma_note_labels_cover(zones: Seq<SampleZone>)
    ensures
        note_labels(zones).len() == 128,
        forall|n: int| 0 <= n < 128 ==> ((#[trigger] note_labels(zones)[n] is Some) <==> exists|j: int|
            0 <= j < zones.len() && zone_label(#[trigger] zones[j]).len() > 0
                && zone_note_span(zones[j]).0 <= n <= zone_note_span(zones[j]).1),
    decreases zones.len(),
{
    if zones.len() > 0 {
        let d = zones.drop_last();
        lemma_note_labels_cover(d);
        let z = zones.last();
        let ls = note_labels(d);
        if zone_label(z).len() > 0 {
            lemma_add_label_range(ls, zone_note_span(z).0, zone_note_span(z).1, zone_label(z));
        }
        assert forall|n: int| 0 <= n < 128 implies ((#[trigger] note_labels(zones)[n] is Some) <==> exists|j: int|
            0 <= j < zones.len() && zone_label(#[trigger] zones[j]).len() > 0
                && zone_note_span(zones[j]).0 <= n <= zone_note_span(zones[j]).1) by {
            if note_labels(zones)[n] is Some {
                if ls[n] is Some {
                    let j = choose|j: int| 0 <= j < d.len() && zone_label(#[trigger] d[j]).len() > 0
                        && zone_note_span(d[j]).0 <= n <= zone_note_span(d[j]).1;
                    assert(zones[j] == d[j]);
                } else {
                    assert(zones[zones.len() - 1] == z);
                }
            } else {
                assert forall|j: int| 0 <= j < zones.len() && zone_label(#[trigger] zones[j]).len() > 0 implies !(
                zone_note_span(zones[j]).0 <= n <= zone_note_span(zones[j]).1) by {
                    if j < d.len() {
                        assert(zones[j] == d[j]);
                    }
                }
            }
        }
    }
}

} // verus!
