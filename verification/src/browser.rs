//! The file browser of the editor: which directory entries it lists, as what, and in
//! which order.

use vstd::prelude::*;
use crate::sfz_opcode_map::{
    chars_lt, lemma_seq_lt_asymmetric, lemma_seq_lt_total, lemma_seq_lt_transitive, seq_lt,
};
use crate::text::{chars_of, chars_to_ascii_lower, lower_ascii_seq};

verus! {

/// What a browser entry is.
#[derive(Debug, Clone, Copy, PartialEq, Eq, Structural)]
pub enum BrowserEntryKind {
    Directory,
    Audio,
    Instrument,
}

/// A directory entry as the reader found it: its name, and whether it is a
/// directory, an audio file the sampler loads and an instrument file.
#[derive(Debug, Clone)]
pub struct DirEntryInfo {
    pub name: String,
    pub is_dir: bool,
    pub is_audio: bool,
    pub is_instrument: bool,
}

/// How an entry is listed: a directory, else an instrument, else an audio file.
pub open spec fn entry_kind(e: DirEntryInfo) -> BrowserEntryKind {
    if e.is_dir {
        BrowserEntryKind::Directory
    } else if e.is_instrument {
        BrowserEntryKind::Instrument
    } else {
        BrowserEntryKind::Audio
    }
}

/// The key entries are sorted by: the name in ASCII lower case.
pub open spec fn sort_key(es: Seq<DirEntryInfo>, i: int) -> Seq<char> {
    lower_ascii_seq(es[i].name@)
}

/// `x` put into the index list `s` after every index whose key is not greater than
/// its own, counted from the back.
pub open spec fn insert_by_name(es: Seq<DirEntryInfo>, s: Seq<int>, x: int) -> Seq<int>
    decreases s.len(),
{
    if s.len() == 0 {
        seq![x]
    } else if !seq_lt(sort_key(es, x), sort_key(es, s.last())) {
        s.push(x)
    } else {
        insert_by_name(es, s.drop_last(), x).push(s.last())
    }
}

/// The index list stably sorted by key.
pub open spec fn sort_by_name(es: Seq<DirEntryInfo>, s: Seq<int>) -> Seq<int>
    decreases s.len(),
{
    if s.len() == 0 {
        Seq::empty()
    } else {
        insert_by_name(es, sort_by_name(es, s.drop_last()), s.last())
    }
}

/// The indices of the first `n` entries that are directories, in order.
pub open spec fn dir_indices(es: Seq<DirEntryInfo>, n: int) -> Seq<int>
    decreases n,
{
    if n <= 0 {
        Seq::empty()
    } else if es[n - 1].is_dir {
        dir_indices(es, n - 1).push(n - 1)
    } else {
        dir_indices(es, n - 1)
    }
}

/// The indices of the first `n` entries that are audio or instrument files (and not
/// directories), in order.
pub open spec fn file_indices(es: Seq<DirEntryInfo>, n: int) -> Seq<int>
    decreases n,
{
    if n <= 0 {
        Seq::empty()
    } else if !es[n - 1].is_dir && (es[n - 1].is_audio || es[n - 1].is_instrument) {
        file_indices(es, n - 1).push(n - 1)
    } else {
        file_indices(es, n - 1)
    }
}

/// The entries the browser lists after its `..` entry, as indices into `es`: the
/// directories sorted by name, then the audio and instrument files sorted by name;
/// other files are left out. Names compare by ASCII lower case, ties keep their
/// order.
pub open spec fn browser_order(es: Seq<DirEntryInfo>) -> Seq<int> {
    sort_by_name(es, dir_indices(es, es.len() as int)) + sort_by_name(es, file_indices(es, es.len() as int))
}

proof fn lemma_insert_by_name_at(es: Seq<DirEntryInfo>, s: Seq<int>, x: int, p: int)
    requires
        0 <= p <= s.len(),
        forall|i: int| p <= i < s.len() ==> seq_lt(sort_key(es, x), sort_key(es, #[trigger] s[i])),
        p == 0 || !seq_lt(sort_key(es, x), sort_key(es, s[p - 1])),
    ensures
        insert_by_name(es, s, x) == s.subrange(0, p) + seq![x] + s.subrange(p, s.len() as int),
    decreases s.len(),
{
    if s.len() == 0 {
        assert(s.subrange(0, p) + seq![x] + s.subrange(p, s.len() as int) =~= seq![x]);
    } else if !seq_lt(sort_key(es, x), sort_key(es, s.last())) {
        assert(p == s.len());
        assert(s.subrange(0, p) + seq![x] + s.subrange(p, s.len() as int) =~= s.push(x));
    } else {
        assert(p < s.len());
        lemma_insert_by_name_at(es, s.drop_last(), x, p);
        let d = s.drop_last();
        assert(d.subrange(0, p) + seq![x] + d.subrange(p, d.len() as int) + seq![s.last()]
            =~= s.subrange(0, p) + seq![x] + s.subrange(p, s.len() as int));
    }
}

fn keys_of(entries: &[DirEntryInfo]) -> (keys: Vec<Vec<char>>)
    ensures
        keys@.len() == entries@.len(),
        forall|i: int| 0 <= i < entries@.len() ==> #[trigger] keys@[i]@ == sort_key(entries@, i),
{
    let mut keys: Vec<Vec<char>> = Vec::new();
    let mut i: usize = 0;
    while i < entries.len()
        invariant
            i <= entries@.len(),
            keys@.len() == i,
            forall|k: int| 0 <= k < i ==> #[trigger] keys@[k]@ == sort_key(entries@, k),
        decreases entries@.len() - i,
    {
        let c = chars_of(entries[i].name.as_str());
        keys.push(chars_to_ascii_lower(c.as_slice()));
        i = i + 1;
    }
    keys
}

fn insert_index_by_name(entries: &[DirEntryInfo], keys: &Vec<Vec<char>>, sorted: &mut Vec<usize>, x: usize)
    requires
        keys@.len() == entries@.len(),
        forall|i: int| 0 <= i < entries@.len() ==> #[trigger] keys@[i]@ == sort_key(entries@, i),
        x < entries@.len(),
        forall|i: int| 0 <= i < old(sorted)@.len() ==> (#[trigger] old(sorted)@[i]) < entries@.len(),
    ensures
        Seq::new(final(sorted)@.len(), |i: int| final(sorted)@[i] as int) == insert_by_name(
            entries@,
            Seq::new(old(sorted)@.len(), |i: int| old(sorted)@[i] as int),
            x as int,
        ),
        forall|i: int| 0 <= i < final(sorted)@.len() ==> (#[trigger] final(sorted)@[i]) < entries@.len(),
{
    let ghost s = Seq::new(sorted@.len(), |i: int| sorted@[i] as int);
    let mut p = sorted.len();
    while p > 0 && chars_lt(keys[x].as_slice(), keys[sorted[p - 1]].as_slice())
        invariant
            p <= sorted@.len(),
            sorted@ == old(sorted)@,
            s == Seq::new(sorted@.len(), |i: int| sorted@[i] as int),
            keys@.len() == entries@.len(),
            forall|i: int| 0 <= i < entries@.len() ==> #[trigger] keys@[i]@ == sort_key(entries@, i),
            x < entries@.len(),
            forall|i: int| 0 <= i < sorted@.len() ==> (#[trigger] sorted@[i]) < entries@.len(),
            forall|i: int| p <= i < s.len() ==> seq_lt(sort_key(entries@, x as int), sort_key(entries@, #[trigger] s[i])),
        decreases p,
    {
        p = p - 1;
    }
    proof {
        if p > 0 {
            assert(s[p - 1] == sorted@[p - 1] as int);
        }
        lemma_insert_by_name_at(entries@, s, x as int, p as int);
    }
    sorted.insert(p, x);
    assert(Seq::new(sorted@.len(), |i: int| sorted@[i] as int) =~= s.subrange(0, p as int) + seq![x as int] + s.subrange(
        p as int,
        s.len() as int,
    ));
}

fn sorted_by_name(entries: &[DirEntryInfo], keys: &Vec<Vec<char>>, idx: &Vec<usize>) -> (r: Vec<usize>)
    requires
        keys@.len() == entries@.len(),
        forall|i: int| 0 <= i < entries@.len() ==> #[trigger] keys@[i]@ == sort_key(entries@, i),
        forall|i: int| 0 <= i < idx@.len() ==> (#[trigger] idx@[i]) < entries@.len(),
    ensures
        Seq::new(r@.len(), |i: int| r@[i] as int) == sort_by_name(entries@, Seq::new(idx@.len(), |i: int| idx@[i] as int)),
        forall|i: int| 0 <= i < r@.len() ==> (#[trigger] r@[i]) < entries@.len(),
{
    let ghost all = Seq::new(idx@.len(), |i: int| idx@[i] as int);
    let mut sorted: Vec<usize> = Vec::new();
    let mut k: usize = 0;
    assert(Seq::new(sorted@.len(), |i: int| sorted@[i] as int) =~= sort_by_name(entries@, all.subrange(0, 0)));
    while k < idx.len()
        invariant
            k <= idx@.len(),
            all == Seq::new(idx@.len(), |i: int| idx@[i] as int),
            keys@.len() == entries@.len(),
            forall|i: int| 0 <= i < entries@.len() ==> #[trigger] keys@[i]@ == sort_key(entries@, i),
            forall|i: int| 0 <= i < idx@.len() ==> (#[trigger] idx@[i]) < entries@.len(),
            forall|i: int| 0 <= i < sorted@.len() ==> (#[trigger] sorted@[i]) < entries@.len(),
            Seq::new(sorted@.len(), |i: int| sorted@[i] as int) == sort_by_name(entries@, all.subrange(0, k as int)),
        decreases idx@.len() - k,
    {
        assert(all.subrange(0, k + 1).drop_last() =~= all.subrange(0, k as int));
        assert(all.subrange(0, k + 1).last() == idx@[k as int] as int);
        insert_index_by_name(entries, keys, &mut sorted, idx[k]);
        k = k + 1;
    }
    assert(all.subrange(0, k as int) =~= all);
    sorted
}

/// The entries the browser lists after its `..` entry, as `browser_order` states,
/// each with the kind it is listed as.
pub fn arrange_browser_entries(entries: &[DirEntryInfo]) -> (r: Vec<(usize, BrowserEntryKind)>)
    ensures
        r@.len() == browser_order(entries@).len(),
        forall|i: int| 0 <= i < r@.len() ==> (#[trigger] r@[i]).0 as int == browser_order(entries@)[i]
            && r@[i].1 == entry_kind(entries@[r@[i].0 as int]),
{
    let keys = keys_of(entries);
    let mut dirs: Vec<usize> = Vec::new();
    let mut files: Vec<usize> = Vec::new();
    let mut i: usize = 0;
    while i < entries.len()
        invariant
            i <= entries@.len(),
            Seq::new(dirs@.len(), |k: int| dirs@[k] as int) == dir_indices(entries@, i as int),
            Seq::new(files@.len(), |k: int| files@[k] as int) == file_indices(entries@, i as int),
            forall|k: int| 0 <= k < dirs@.len() ==> (#[trigger] dirs@[k]) < i,
            forall|k: int| 0 <= k < files@.len() ==> (#[trigger] files@[k]) < i,
        decreases entries@.len() - i,
    {
        let e = &entries[i];
        if e.is_dir {
            let ghost prev = Seq::new(dirs@.len(), |k: int| dirs@[k] as int);
            dirs.push(i);
            assert(Seq::new(dirs@.len(), |k: int| dirs@[k] as int) =~= prev.push(i as int));
        } else if e.is_audio || e.is_instrument {
            let ghost prev = Seq::new(files@.len(), |k: int| files@[k] as int);
            files.push(i);
            assert(Seq::new(files@.len(), |k: int| files@[k] as int) =~= prev.push(i as int));
        }
        i = i + 1;
    }
    let sd = sorted_by_name(entries, &keys, &dirs);
    let sf = sorted_by_name(entries, &keys, &files);
    let ghost order = browser_order(entries@);
    let mut r: Vec<(usize, BrowserEntryKind)> = Vec::new();
    let mut k: usize = 0;
    while k < sd.len()
        invariant
            k <= sd@.len(),
            order == browser_order(entries@),
            Seq::new(sd@.len(), |q: int| sd@[q] as int) == sort_by_name(entries@, dir_indices(entries@, entries@.len() as int)),
            forall|q: int| 0 <= q < sd@.len() ==> (#[trigger] sd@[q]) < entries@.len(),
            r@.len() == k,
            forall|q: int| 0 <= q < k ==> (#[trigger] r@[q]).0 as int == order[q] && r@[q].1 == entry_kind(entries@[r@[q].0 as int]),
        decreases sd@.len() - k,
    {
        let x = sd[k];
        let e = &entries[x];
        let kind = if e.is_dir {
            BrowserEntryKind::Directory
        } else if e.is_instrument {
            BrowserEntryKind::Instrument
        } else {
            BrowserEntryKind::Audio
        };
        assert(order[k as int] == sd@[k as int] as int);
        r.push((x, kind));
        k = k + 1;
    }
    let base = sd.len();
    let mut m: usize = 0;
    while m < sf.len()
        invariant
            m <= sf@.len(),
            base == sd@.len(),
            order == browser_order(entries@),
            Seq::new(sd@.len(), |q: int| sd@[q] as int) == sort_by_name(entries@, dir_indices(entries@, entries@.len() as int)),
            Seq::new(sf@.len(), |q: int| sf@[q] as int) == sort_by_name(entries@, file_indices(entries@, entries@.len() as int)),
            forall|q: int| 0 <= q < sf@.len() ==> (#[trigger] sf@[q]) < entries@.len(),
            r@.len() == base + m,
            forall|q: int| 0 <= q < base + m ==> (#[trigger] r@[q]).0 as int == order[q] && r@[q].1 == entry_kind(entries@[r@[q].0 as int]),
        decreases sf@.len() - m,
    {
        let x = sf[m];
        let e = &entries[x];
        let kind = if e.is_dir {
            BrowserEntryKind::Directory
        } else if e.is_instrument {
            BrowserEntryKind::Instrument
        } else {
            BrowserEntryKind::Audio
        };
        assert(order[base + m] == sf@[m as int] as int);
        r.push((x, kind));
        m = m + 1;
    }
    r
}

/// The indices come in order of their keys: no key is smaller than one before it.
pub open spec fn ordered_by_name(es: Seq<DirEntryInfo>, s: Seq<int>) -> bool {
    forall|i: int, j: int| 0 <= i < j < s.len() ==> !seq_lt(sort_key(es, #[trigger] s[j]), sort_key(es, #[trigger] s[i]))
}

proof fn lemma_not_lt_transitive(a: Seq<char>, b: Seq<char>, c: Seq<char>)
    requires
        !seq_lt(b, a),
        !seq_lt(c, b),
    ensures
        !seq_lt(c, a),
{
    if seq_lt(c, a) {
        if a == b {
        } else {
            lemma_seq_lt_total(a, b);
            lemma_seq_lt_transitive(c, a, b);
        }
    }
}

proof fn lemma_insert_by_name_members(es: Seq<DirEntryInfo>, s: Seq<int>, x: int)
    ensures
        forall|i: int| 0 <= i < insert_by_name(es, s, x).len() ==> (#[trigger] insert_by_name(es, s, x)[i] == x
            || s.contains(insert_by_name(es, s, x)[i])),
    decreases s.len(),
{
    let r = insert_by_name(es, s, x);
    if s.len() == 0 {
    } else if !seq_lt(sort_key(es, x), sort_key(es, s.last())) {
        assert forall|i: int| 0 <= i < r.len() implies (#[trigger] r[i] == x || s.contains(r[i])) by {
            if i < s.len() {
                assert(s[i] == r[i]);
            }
        }
    } else {
        lemma_insert_by_name_members(es, s.drop_last(), x);
        let d = insert_by_name(es, s.drop_last(), x);
        assert forall|i: int| 0 <= i < r.len() implies (#[trigger] r[i] == x || s.contains(r[i])) by {
            if i < d.len() {
                assert(r[i] == d[i]);
                if d[i] != x {
                    let k = choose|k: int| 0 <= k < s.drop_last().len() && s.drop_last()[k] == d[i];
                    assert(s[k] == d[i]);
                }
            } else {
                assert(s[s.len() - 1] == r[i]);
            }
        }
    }
}

proof fn lemma_insert_by_name_ordered(es: Seq<DirEntryInfo>, s: Seq<int>, x: int)
    requires
        ordered_by_name(es, s),
    ensures
        ordered_by_name(es, insert_by_name(es, s, x)),
    decreases s.len(),
{
    let r = insert_by_name(es, s, x);
    let kx = sort_key(es, x);
    if s.len() == 0 {
    } else if !seq_lt(kx, sort_key(es, s.last())) {
        assert forall|i: int, j: int| 0 <= i < j < r.len() implies !seq_lt(sort_key(es, #[trigger] r[j]), sort_key(es, #[trigger] r[i])) by {
            if j < s.len() {
                assert(r[i] == s[i] && r[j] == s[j]);
            } else {
                assert(r[j] == x);
                assert(r[i] == s[i]);
                if i < s.len() - 1 {
                    assert(!seq_lt(sort_key(es, s[s.len() - 1]), sort_key(es, s[i])));
                    lemma_not_lt_transitive(sort_key(es, s[i]), sort_key(es, s[s.len() - 1]), kx);
                }
            }
        }
    } else {
        let d = s.drop_last();
        assert forall|i: int, j: int| 0 <= i < j < d.len() implies !seq_lt(sort_key(es, #[trigger] d[j]), sort_key(es, #[trigger] d[i])) by {
            assert(d[i] == s[i] && d[j] == s[j]);
        }
        lemma_insert_by_name_ordered(es, d, x);
        lemma_insert_by_name_members(es, d, x);
        let m = insert_by_name(es, d, x);
        let last = s.last();
        lemma_seq_lt_asymmetric(kx, sort_key(es, last));
        assert forall|i: int, j: int| 0 <= i < j < r.len() implies !seq_lt(sort_key(es, #[trigger] r[j]), sort_key(es, #[trigger] r[i])) by {
            if j < m.len() {
                assert(r[i] == m[i] && r[j] == m[j]);
            } else {
                assert(r[j] == last);
                assert(r[i] == m[i]);
                if m[i] != x {
                    let k = choose|k: int| 0 <= k < d.len() && d[k] == m[i];
                    assert(s[k] == m[i]);
                    assert(!seq_lt(sort_key(es, s[s.len() - 1]), sort_key(es, s[k])));
                }
            }
        }
    }
}

/// Sorting by name puts the indices in order of their keys.
pub proof fn lemma_sort_by_name_ordered(es: Seq<DirEntryInfo>, s: Seq<int>)
    ensures
        ordered_by_name(es, sort_by_name(es, s)),
    decreases s.len(),
{
    if s.len() > 0 {
        lemma_sort_by_name_ordered(es, s.drop_last());
        lemma_insert_by_name_ordered(es, sort_by_name(es, s.drop_last()), s.last());
    }
}

/// The browser lists its directories in order of name, and its files in order of
/// name.
pub proof fn lemma_browser_order_sorted(es: Seq<DirEntryInfo>)
    ensures
        ordered_by_name(es, sort_by_name(es, dir_indices(es, es.len() as int))),
        ordered_by_name(es, sort_by_name(es, file_indices(es, es.len() as int))),
{
    lemma_sort_by_name_ordered(es, dir_indices(es, es.len() as int));
    lemma_sort_by_name_ordered(es, file_indices(es, es.len() as int));
}

} // verus!
