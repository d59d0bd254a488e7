//! The opcodes in force at a header: a map from opcode name to value text.

use vstd::prelude::*;
use crate::sfz_opcodes::{is_handled_opcode, is_handled_sfz_opcode, is_vendor_key, is_vendor_opcode};
use crate::text::{chars_of, chars_eq, string_of};

verus! {

/// The characters of the entries.
pub open spec fn entries_view(e: Seq<(Vec<char>, Vec<char>)>) -> Seq<(Seq<char>, Seq<char>)> {
    Seq::new(e.len(), |i: int| (e[i].0@, e[i].1@))
}

/// No name occurs twice.
pub open spec fn keys_unique(e: Seq<(Seq<char>, Seq<char>)>) -> bool {
    forall|i: int, j: int| 0 <= i < j < e.len() ==> e[i].0 != e[j].0
}

/// The map the entries describe.
pub open spec fn to_map(e: Seq<(Seq<char>, Seq<char>)>) -> Map<Seq<char>, Seq<char>>
    decreases e.len(),
{
    if e.len() == 0 {
        Map::empty()
    } else {
        to_map(e.drop_last()).insert(e.last().0, e.last().1)
    }
}

/// With distinct names, the map holds exactly the entries.
pub proof fn lemma_to_map(e: Seq<(Seq<char>, Seq<char>)>)
    requires
        keys_unique(e),
    ensures
        forall|i: int| 0 <= i < e.len() ==> #[trigger] to_map(e).dom().contains(e[i].0) && to_map(e)[e[i].0] == e[i].1,
        forall|k: Seq<char>| #[trigger] to_map(e).dom().contains(k) ==> exists|i: int| 0 <= i < e.len() && e[i].0 == k,
        to_map(e).dom().finite(),
    decreases e.len(),
{
    if e.len() > 0 {
        let p = e.drop_last();
        assert(keys_unique(p));
        lemma_to_map(p);
        assert forall|i: int| 0 <= i < e.len() implies #[trigger] to_map(e).dom().contains(e[i].0) && to_map(e)[e[i].0] == e[i].1 by {
            if i < e.len() - 1 {
                assert(p[i] == e[i]);
                assert(e[i].0 != e[e.len() - 1].0);
            }
        }
        assert forall|k: Seq<char>| #[trigger] to_map(e).dom().contains(k) implies exists|i: int| 0 <= i < e.len() && e[i].0 == k by {
            if k != e.last().0 {
                assert(to_map(p).dom().contains(k));
                let i = choose|i: int| 0 <= i < p.len() && p[i].0 == k;
                assert(e[i].0 == k);
            } else {
                assert(e[e.len() - 1].0 == k);
            }
        }
    }
}

/// The opcodes in force at a header: each name at most once, with its value text.
#[derive(Debug)]
pub struct OpcodeMap {
    entries: Vec<(Vec<char>, Vec<char>)>,
}

impl View for OpcodeMap {
    type V = Map<Seq<char>, Seq<char>>;

    closed spec fn view(&self) -> Map<Seq<char>, Seq<char>> {
        to_map(entries_view(self.entries@))
    }
}

/// The characters of name/value pairs of strings.
pub open spec fn pairs_view(v: Seq<(String, String)>) -> Seq<(Seq<char>, Seq<char>)> {
    Seq::new(v.len(), |i: int| (v[i].0@, v[i].1@))
}

/// `a` comes before `b` in the order of their characters' code points (the order in
/// which std compares strings).
pub open spec fn seq_lt(a: Seq<char>, b: Seq<char>) -> bool
    decreases a.len(),
{
    if a.len() == 0 {
        b.len() > 0
    } else if b.len() == 0 {
        false
    } else if a[0] != b[0] {
        (a[0] as u32) < (b[0] as u32)
    } else {
        seq_lt(a.subrange(1, a.len() as int), b.subrange(1, b.len() as int))
    }
}

pub proof fn lemma_seq_lt_irreflexive(a: Seq<char>)
    ensures
        !seq_lt(a, a),
    decreases a.len(),
{
    if a.len() > 0 {
        lemma_seq_lt_irreflexive(a.subrange(1, a.len() as int));
    }
}

pub proof fn lemma_seq_lt_total(a: Seq<char>, b: Seq<char>)
    requires
        a != b,
    ensures
        seq_lt(a, b) || seq_lt(b, a),
    decreases a.len(),
{
    if a.len() > 0 && b.len() > 0 && a[0] == b[0] {
        let a1 = a.subrange(1, a.len() as int);
        let b1 = b.subrange(1, b.len() as int);
        if a1 == b1 {
            assert(a =~= seq![a[0]] + a1);
            assert(b =~= seq![b[0]] + b1);
        }
        lemma_seq_lt_total(a1, b1);
    } else if a.len() > 0 && b.len() > 0 {
        vstd::utf8::char_u32_cast(a[0], a[0] as u32);
        vstd::utf8::char_u32_cast(b[0], b[0] as u32);
        assert((a[0] as u32) != (b[0] as u32));
    } else if a.len() == 0 && b.len() == 0 {
        assert(a =~= b);
    }
}

pub proof fn lemma_seq_lt_transitive(a: Seq<char>, b: Seq<char>, c: Seq<char>)
    requires
        seq_lt(a, b),
        seq_lt(b, c),
    ensures
        seq_lt(a, c),
    decreases a.len(),
{
    if a.len() > 0 && b.len() > 0 && c.len() > 0 && a[0] == b[0] && b[0] == c[0] {
        lemma_seq_lt_transitive(a.subrange(1, a.len() as int), b.subrange(1, b.len() as int), c.subrange(1, c.len() as int));
    }
}

pub proof fn lemma_seq_lt_asymmetric(a: Seq<char>, b: Seq<char>)
    requires
        seq_lt(a, b),
    ensures
        !seq_lt(b, a),
{
    if seq_lt(b, a) {
        lemma_seq_lt_transitive(a, b, a);
        lemma_seq_lt_irreflexive(a);
    }
}

/// Whether `a` comes before `b`, as `seq_lt` describes.
pub fn chars_lt(a: &[char], b: &[char]) -> (r: bool)
    ensures
        r == seq_lt(a@, b@),
{
    let mut i: usize = 0;
    assert(a@.subrange(0, a@.len() as int) =~= a@);
    assert(b@.subrange(0, b@.len() as int) =~= b@);
    while i < a.len() && i < b.len() && a[i] == b[i]
        invariant
            i <= a@.len(),
            i <= b@.len(),
            seq_lt(a@.subrange(i as int, a@.len() as int), b@.subrange(i as int, b@.len() as int)) == seq_lt(a@, b@),
        decreases a@.len() - i,
    {
        let ghost a1 = a@.subrange(i as int, a@.len() as int);
        let ghost b1 = b@.subrange(i as int, b@.len() as int);
        assert(a1.subrange(1, a1.len() as int) =~= a@.subrange(i + 1, a@.len() as int));
        assert(b1.subrange(1, b1.len() as int) =~= b@.subrange(i + 1, b@.len() as int));
        i = i + 1;
    }
    if i >= a.len() {
        i < b.len()
    } else if i >= b.len() {
        false
    } else {
        (a[i] as u32) < (b[i] as u32)
    }
}

/// The opcodes of `m` that `extra_opcodes` keeps: not read by a builder (see
/// `is_handled_opcode`) and not player-specific.
pub open spec fn is_extra(key: Seq<char>, handled: Seq<Seq<char>>) -> bool {
    !is_handled_opcode(key, handled) && !is_vendor_opcode(key)
}

impl OpcodeMap {
    #[verifier::type_invariant]
    spec fn inv(&self) -> bool {
        keys_unique(entries_view(self.entries@))
    }

    /// An empty map.
    pub fn new() -> (m: Self)
        ensures
            m@ == Map::<Seq<char>, Seq<char>>::empty(),
    {
        let m = OpcodeMap { entries: Vec::new() };
        assert(entries_view(m.entries@) =~= Seq::<(Seq<char>, Seq<char>)>::empty());
        m
    }

    /// The number of opcodes.
    pub fn len(&self) -> (n: usize)
        ensures
            n == self@.dom().len(),
    {
        proof {
            use_type_invariant(self);
            lemma_to_map(entries_view(self.entries@));
            lemma_map_len(entries_view(self.entries@));
        }
        self.entries.len()
    }

    fn find(&self, key: &[char]) -> (r: Option<usize>)
        ensures
            match r {
                Some(i) => i < self.entries@.len() && self.entries@[i as int].0@ == key@,
                None => forall|i: int| 0 <= i < self.entries@.len() ==> #[trigger] self.entries@[i].0@ != key@,
            },
    {
        let mut i: usize = 0;
        while i < self.entries.len()
            invariant
                i <= self.entries@.len(),
                forall|k: int| 0 <= k < i ==> #[trigger] self.entries@[k].0@ != key@,
            decreases self.entries@.len() - i,
        {
            if chars_eq(self.entries[i].0.as_slice(), key) {
                return Some(i);
            }
            i = i + 1;
        }
        None
    }

    /// The value of opcode `key`, if it is present.
    pub fn get(&self, key: &[char]) -> (r: Option<&Vec<char>>)
        ensures
            match r {
                Some(v) => self@.dom().contains(key@) && self@[key@] == v@,
                None => !self@.dom().contains(key@),
            },
    {
        proof {
            use_type_invariant(self);
            lemma_to_map(entries_view(self.entries@));
        }
        match self.find(key) {
            Some(i) => {
                let ghost e = entries_view(self.entries@);
                assert(e[i as int].0 == key@);
                assert(to_map(e).dom().contains(e[i as int].0) && to_map(e)[e[i as int].0] == e[i as int].1);
                Some(&self.entries[i].1)
            },
            None => {
                proof {
                    if self@.dom().contains(key@) {
                        let i = choose|i: int| 0 <= i < entries_view(self.entries@).len() && entries_view(self.entries@)[i].0 == key@;
                        assert(self.entries@[i].0@ == key@);
                    }
                }
                None
            },
        }
    }

    /// The value of opcode `key` as a string, if it is present.
    pub fn get_str(&self, key: &str) -> (r: Option<String>)
        ensures
            match r {
                Some(v) => self@.dom().contains(key@) && self@[key@] == v@,
                None => !self@.dom().contains(key@),
            },
    {
        let k = chars_of(key);
        match self.get(k.as_slice()) {
            Some(v) => Some(string_of(v.as_slice())),
            None => None,
        }
    }

    /// Sets opcode `key` to `value`, replacing an earlier value.
    pub fn insert(&mut self, key: Vec<char>, value: Vec<char>)
        ensures
            final(self)@ == old(self)@.insert(key@, value@),
    {
        proof {
            use_type_invariant(&*self);
        }
        let ghost e0 = entries_view(self.entries@);
        let ghost k = key@;
        let ghost v = value@;
        match self.find(key.as_slice()) {
            Some(i) => {
                let ghost e1 = e0.update(i as int, (k, v));
                proof {
                    assert(e0[i as int].0 == k);
                    assert forall|j: int| 0 <= j < e1.len() implies #[trigger] e1[j].0 == e0[j].0 by {}
                    assert(keys_unique(e1));
                }
                let mut entries: Vec<(Vec<char>, Vec<char>)> = Vec::new();
                std::mem::swap(&mut entries, &mut self.entries);
                entries.set(i, (key, value));
                assert(entries_view(entries@) =~= e1);
                self.entries = entries;
                proof {
                    lemma_to_map(e0);
                    lemma_to_map(e1);
                    assert forall|x: Seq<char>| #[trigger] to_map(e1).dom().contains(x) <==> to_map(e0).insert(k, v).dom().contains(x) by {
                        if to_map(e1).dom().contains(x) {
                            let j = choose|j: int| 0 <= j < e1.len() && e1[j].0 == x;
                            if j != i {
                                assert(e0[j].0 == x);
                            }
                        }
                        if to_map(e0).dom().contains(x) {
                            let j = choose|j: int| 0 <= j < e0.len() && e0[j].0 == x;
                            assert(e1[j].0 == x);
                        }
                        if x == k {
                            assert(e1[i as int].0 == x);
                        }
                    }
                    assert forall|x: Seq<char>| #[trigger] to_map(e1).dom().contains(x) implies to_map(e1)[x] == to_map(e0).insert(k, v)[x] by {
                        let j = choose|j: int| 0 <= j < e1.len() && e1[j].0 == x;
                        if j != i {
                            assert(e0[j] == e1[j]);
                        }
                    }
                    assert(to_map(e1) =~= to_map(e0).insert(k, v));
                }
            },
            None => {
                let ghost e1 = e0.push((k, v));
                proof {
                    assert forall|a: int, b: int| 0 <= a < b < e1.len() implies e1[a].0 != e1[b].0 by {
                        if b == e1.len() - 1 {
                            assert(self.entries@[a].0@ != k);
                        }
                    }
                }
                let mut entries: Vec<(Vec<char>, Vec<char>)> = Vec::new();
                std::mem::swap(&mut entries, &mut self.entries);
                entries.push((key, value));
                assert(entries_view(entries@) =~= e1);
                self.entries = entries;
                proof {
                    assert(e1.drop_last() =~= e0);
                }
            },
        }
    }

    /// Sets opcode `key` to `value`, replacing an earlier value.
    pub fn insert_str(&mut self, key: &str, value: &str)
        ensures
            final(self)@ == old(self)@.insert(key@, value@),
    {
        let k = chars_of(key);
        let v = chars_of(value);
        self.insert(k, v);
    }

    /// A copy of the map.
    pub fn clone_map(&self) -> (r: Self)
        ensures
            r@ == self@,
    {
        proof {
            use_type_invariant(self);
        }
        let mut entries: Vec<(Vec<char>, Vec<char>)> = Vec::new();
        let mut i: usize = 0;
        while i < self.entries.len()
            invariant
                i <= self.entries@.len(),
                keys_unique(entries_view(self.entries@)),
                entries_view(entries@) == entries_view(self.entries@).subrange(0, i as int),
            decreases self.entries@.len() - i,
        {
            let k = copy_chars(self.entries[i].0.as_slice());
            let v = copy_chars(self.entries[i].1.as_slice());
            let ghost before = entries_view(entries@);
            entries.push((k, v));
            assert(entries_view(entries@) =~= before.push((k@, v@)));
            assert(entries_view(self.entries@).subrange(0, i + 1) =~= entries_view(self.entries@).subrange(0, i as int).push((k@, v@)));
            i = i + 1;
        }
        assert(entries_view(self.entries@).subrange(0, i as int) =~= entries_view(self.entries@));
        OpcodeMap { entries }
    }

    /// Adds every opcode of `other`, its values replacing those already present.
    pub fn extend(&mut self, other: &Self)
        ensures
            final(self)@ == old(self)@.union_prefer_right(other@),
    {
        proof {
            use_type_invariant(other);
            lemma_to_map(entries_view(other.entries@));
        }
        let ghost start = self@;
        let mut i: usize = 0;
        while i < other.entries.len()
            invariant
                i <= other.entries@.len(),
                keys_unique(entries_view(other.entries@)),
                self@ == start.union_prefer_right(to_map(entries_view(other.entries@).subrange(0, i as int))),
            decreases other.entries@.len() - i,
        {
            let k = copy_chars(other.entries[i].0.as_slice());
            let v = copy_chars(other.entries[i].1.as_slice());
            let ghost sub = entries_view(other.entries@).subrange(0, i + 1);
            assert(sub.drop_last() =~= entries_view(other.entries@).subrange(0, i as int));
            self.insert(k, v);
            i = i + 1;
            assert(self@ =~= start.union_prefer_right(to_map(entries_view(other.entries@).subrange(0, i as int))));
        }
        assert(entries_view(other.entries@).subrange(0, i as int) =~= entries_view(other.entries@));
    }

    /// Removes opcode `key` if it is present.
    pub fn remove(&mut self, key: &str)
        ensures
            final(self)@ == old(self)@.remove(key@),
    {
        proof {
            use_type_invariant(&*self);
        }
        let kv = chars_of(key);
        let ghost e0 = entries_view(self.entries@);
        proof {
            lemma_to_map(e0);
        }
        match self.find(kv.as_slice()) {
            Some(i) => {
                let ghost e1 = e0.remove(i as int);
                proof {
                    assert forall|a: int, b: int| 0 <= a < b < e1.len() implies e1[a].0 != e1[b].0 by {
                        let a0 = if a < i { a } else { a + 1 };
                        let b0 = if b < i { b } else { b + 1 };
                        assert(e1[a] == e0[a0]);
                        assert(e1[b] == e0[b0]);
                    }
                }
                let mut entries: Vec<(Vec<char>, Vec<char>)> = Vec::new();
                std::mem::swap(&mut entries, &mut self.entries);
                entries.remove(i);
                assert(entries_view(entries@) =~= e1);
                self.entries = entries;
                proof {
                    lemma_to_map(e1);
                    assert forall|x: Seq<char>| #[trigger] to_map(e1).dom().contains(x) <==> to_map(e0).remove(key@).dom().contains(x) by {
                        if to_map(e1).dom().contains(x) {
                            let j = choose|j: int| 0 <= j < e1.len() && e1[j].0 == x;
                            let j0 = if j < i { j } else { j + 1 };
                            assert(e0[j0].0 == x);
                            assert(j0 != i);
                            assert(e0[i as int].0 == key@);
                            if x == key@ {
                                if j0 < i {
                                    assert(e0[j0].0 != e0[i as int].0);
                                } else {
                                    assert(e0[i as int].0 != e0[j0].0);
                                }
                            }
                        }
                        if to_map(e0).dom().contains(x) && x != key@ {
                            let j = choose|j: int| 0 <= j < e0.len() && e0[j].0 == x;
                            assert(j != i);
                            let j1 = if j < i { j } else { j - 1 };
                            assert(e1[j1].0 == x);
                        }
                    }
                    assert forall|x: Seq<char>| #[trigger] to_map(e1).dom().contains(x) implies to_map(e1)[x] == to_map(e0).remove(key@)[x] by {
                        let j = choose|j: int| 0 <= j < e1.len() && e1[j].0 == x;
                        let j0 = if j < i { j } else { j + 1 };
                        assert(e0[j0] == e1[j]);
                    }
                    assert(to_map(e1) =~= to_map(e0).remove(key@));
                }
            },
            None => {
                proof {
                    if to_map(e0).dom().contains(key@) {
                        let j = choose|j: int| 0 <= j < e0.len() && e0[j].0 == key@;
                        assert(self.entries@[j].0@ == key@);
                    }
                    assert(to_map(e0) =~= to_map(e0).remove(key@));
                }
            },
        }
    }
}

impl OpcodeMap {
    /// The opcodes that no builder reads and that are not player-specific (see
    /// `is_extra`), as name/value pairs in increasing order of name.
    pub fn extra_opcodes(&self, handled: &[&str]) -> (r: Vec<(String, String)>)
        ensures
            forall|i: int, j: int| 0 <= i < j < r@.len() ==> seq_lt(r@[i].0@, r@[j].0@),
            forall|k: Seq<char>, v: Seq<char>| #[trigger] pairs_view(r@).contains((k, v)) <==> (self@.dom().contains(k)
                && self@[k] == v && is_extra(k, Seq::new(handled@.len(), |i: int| handled@[i]@))),
    {
        proof {
            use_type_invariant(self);
        }
        let ghost hv = Seq::new(handled@.len(), |i: int| handled@[i]@);
        let ghost e = entries_view(self.entries@);
        proof {
            lemma_to_map(e);
        }
        // the kept entries, in map order
        let ghost pred = |p: (Seq<char>, Seq<char>)| is_extra(p.0, hv);
        let mut rest: Vec<(Vec<char>, Vec<char>)> = Vec::new();
        let mut i: usize = 0;
        proof {
            reveal(Seq::filter);
            assert(e.subrange(0, 0).filter(pred) =~= Seq::<(Seq<char>, Seq<char>)>::empty());
            assert(entries_view(rest@) =~= Seq::<(Seq<char>, Seq<char>)>::empty());
        }
        while i < self.entries.len()
            invariant
                i <= self.entries@.len(),
                e == entries_view(self.entries@),
                keys_unique(e),
                keys_unique(entries_view(rest@)),
                entries_view(rest@) == e.subrange(0, i as int).filter(pred),
                pred == (|p: (Seq<char>, Seq<char>)| is_extra(p.0, hv)),
                hv == Seq::new(handled@.len(), |i: int| handled@[i]@),
            decreases self.entries@.len() - i,
        {
            let key = self.entries[i].0.as_slice();
            let keep = !is_handled_sfz_opcode(key, handled) && !is_vendor_key(key);
            let ghost before = entries_view(rest@);
            let ghost sub = e.subrange(0, i as int);
            let ghost sub1 = e.subrange(0, i + 1);
            proof {
                reveal(Seq::filter);
                assert(sub1.drop_last() =~= sub);
                assert(sub1.last() == e[i as int]);
                assert(hv =~= Seq::new(handled@.len(), |i: int| handled@[i]@));
                assert(e[i as int].0 == key@);
                assert(pred(e[i as int]) == is_extra(e[i as int].0, hv));
                assert(keep == pred(e[i as int]));
            }
            if keep {
                let k = copy_chars(key);
                let v = copy_chars(self.entries[i].1.as_slice());
                rest.push((k, v));
                proof {
                    let now = entries_view(rest@);
                    assert(now =~= before.push((k@, v@)));
                    assert(e[i as int] == (k@, v@));
                    assert forall|a: int, b: int| 0 <= a < b < now.len() implies now[a].0 != now[b].0 by {
                        if b == now.len() - 1 {
                            assert(before.contains(before[a]));
                            sub.lemma_filter_contains_rev(pred, before[a]);
                            let ka = choose|ka: int| 0 <= ka < sub.len() && sub[ka] == before[a];
                            assert(e[ka] == before[a]);
                            assert(e[ka].0 != e[i as int].0);
                        }
                    }
                }
            }
            i = i + 1;
        }
        proof {
            assert(e.subrange(0, i as int) =~= e);
        }
        // selection of the smallest remaining name, one at a time
        let mut out: Vec<(Vec<char>, Vec<char>)> = Vec::new();
        let ghost all = entries_view(rest@);
        while rest.len() > 0
            invariant
                keys_unique(entries_view(rest@)),
                forall|p: (Seq<char>, Seq<char>)| #[trigger] all.contains(p) <==> (entries_view(rest@).contains(p)
                    || entries_view(out@).contains(p)),
                forall|a: int, b: int| 0 <= a < b < out@.len() ==> seq_lt(out@[a].0@, out@[b].0@),
                forall|a: int, b: int| 0 <= a < out@.len() && 0 <= b < rest@.len() ==> seq_lt(out@[a].0@, rest@[b].0@),
            decreases rest@.len(),
        {
            let mut best: usize = 0;
            let mut j: usize = 1;
            while j < rest.len()
                invariant
                    1 <= j <= rest@.len(),
                    best < j,
                    keys_unique(entries_view(rest@)),
                    forall|k: int| 0 <= k < j && k != best ==> seq_lt(rest@[best as int].0@, rest@[k].0@),
                decreases rest@.len() - j,
            {
                if chars_lt(rest[j].0.as_slice(), rest[best].0.as_slice()) {
                    proof {
                        assert forall|k: int| 0 <= k < j + 1 && k != j implies seq_lt(rest@[j as int].0@, rest@[k].0@) by {
                            if k != best {
                                lemma_seq_lt_transitive(rest@[j as int].0@, rest@[best as int].0@, rest@[k].0@);
                            }
                        }
                    }
                    best = j;
                } else {
                    proof {
                        let ev = entries_view(rest@);
                        if best < j {
                            assert(ev[best as int].0 != ev[j as int].0);
                        }
                        lemma_seq_lt_total(rest@[j as int].0@, rest@[best as int].0@);
                    }
                }
                j = j + 1;
            }
            let ghost rv = entries_view(rest@);
            let ghost ov = entries_view(out@);
            let m = rest.remove(best);
            let ghost mv = (m.0@, m.1@);
            proof {
                assert(rv[best as int] == mv);
                assert(entries_view(rest@) =~= rv.remove(best as int));
            }
            out.push(m);
            proof {
                let nr = entries_view(rest@);
                let no = entries_view(out@);
                assert(no =~= ov.push(mv));
                assert forall|a: int, b: int| 0 <= a < b < nr.len() implies nr[a].0 != nr[b].0 by {
                    let a0 = if a < best { a } else { a + 1 };
                    let b0 = if b < best { b } else { b + 1 };
                    assert(nr[a] == rv[a0]);
                    assert(nr[b] == rv[b0]);
                }
                assert forall|p: (Seq<char>, Seq<char>)| #[trigger] all.contains(p) <==> (nr.contains(p) || no.contains(p)) by {
                    if rv.contains(p) {
                        let idx = choose|idx: int| 0 <= idx < rv.len() && rv[idx] == p;
                        if idx == best {
                            assert(no[no.len() - 1] == p);
                        } else {
                            let i1 = if idx < best { idx } else { idx - 1 };
                            assert(nr[i1] == p);
                        }
                    }
                    if ov.contains(p) {
                        let idx = choose|idx: int| 0 <= idx < ov.len() && ov[idx] == p;
                        assert(no[idx] == p);
                    }
                    if nr.contains(p) {
                        let idx = choose|idx: int| 0 <= idx < nr.len() && nr[idx] == p;
                        let i0 = if idx < best { idx } else { idx + 1 };
                        assert(rv[i0] == p);
                    }
                    if no.contains(p) {
                        let idx = choose|idx: int| 0 <= idx < no.len() && no[idx] == p;
                        if idx < ov.len() {
                            assert(ov[idx] == p);
                        } else {
                            assert(rv[best as int] == p);
                        }
                    }
                }
                assert forall|a: int, b: int| 0 <= a < b < out@.len() implies seq_lt(out@[a].0@, out@[b].0@) by {
                    if b == out@.len() - 1 {
                        assert(seq_lt(out@[a].0@, rv[best as int].0));
                    }
                }
                assert forall|a: int, b: int| 0 <= a < out@.len() && 0 <= b < rest@.len() implies seq_lt(out@[a].0@, rest@[b].0@) by {
                    let b0 = if b < best { b } else { b + 1 };
                    assert(rest@[b].0@ == rv[b0].0);
                    if a == out@.len() - 1 {
                        assert(b0 != best);
                    }
                }
            }
        }
        // conversion to strings
        let mut r: Vec<(String, String)> = Vec::new();
        let mut k: usize = 0;
        while k < out.len()
            invariant
                k <= out@.len(),
                pairs_view(r@) == entries_view(out@).subrange(0, k as int),
            decreases out@.len() - k,
        {
            let a = string_of(out[k].0.as_slice());
            let b = string_of(out[k].1.as_slice());
            let ghost before = pairs_view(r@);
            r.push((a, b));
            assert(pairs_view(r@) =~= before.push((a@, b@)));
            k = k + 1;
            assert(entries_view(out@).subrange(0, k as int) =~= entries_view(out@).subrange(0, k - 1).push((a@, b@)));
        }
        proof {
            assert(pairs_view(r@) =~= entries_view(out@));
            assert forall|a: int| 0 <= a < r@.len() implies #[trigger] r@[a].0@ == out@[a].0@ by {
                assert(pairs_view(r@)[a] == entries_view(out@)[a]);
            }
            assert(entries_view(rest@).len() == 0);
            assert forall|kk: Seq<char>, v: Seq<char>| #[trigger] pairs_view(r@).contains((kk, v)) <==> (self@.dom().contains(kk)
                && self@[kk] == v && is_extra(kk, hv)) by {
                if pairs_view(r@).contains((kk, v)) {
                    assert(all.contains((kk, v)));
                    e.lemma_filter_contains_rev(pred, (kk, v));
                    let idx = choose|idx: int| 0 <= idx < all.len() && all[idx] == (kk, v);
                    e.lemma_filter_pred(pred, idx);
                    let q = choose|q: int| 0 <= q < e.len() && e[q] == (kk, v);
                    assert(to_map(e).dom().contains(e[q].0) && to_map(e)[e[q].0] == e[q].1);
                }
                if self@.dom().contains(kk) && self@[kk] == v && is_extra(kk, hv) {
                    let q = choose|q: int| 0 <= q < e.len() && e[q].0 == kk;
                    assert(to_map(e).dom().contains(e[q].0) && to_map(e)[e[q].0] == e[q].1);
                    assert(e[q] == (kk, v));
                    e.lemma_filter_contains(pred, q);
                    assert(all.contains((kk, v)));
                    assert(!entries_view(rest@).contains((kk, v)));
                }
            }
        }
        r
    }
}

proof fn lemma_map_len(e: Seq<(Seq<char>, Seq<char>)>)
    requires
        keys_unique(e),
    ensures
        to_map(e).dom().len() == e.len(),
    decreases e.len(),
{
    if e.len() > 0 {
        let p = e.drop_last();
        assert(keys_unique(p));
        lemma_map_len(p);
        lemma_to_map(p);
        if to_map(p).dom().contains(e.last().0) {
            let i = choose|i: int| 0 <= i < p.len() && p[i].0 == e.last().0;
            assert(e[i].0 == e[e.len() - 1].0);
        }
    }
}

/// A copy of the characters `s`.
pub fn copy_chars(s: &[char]) -> (r: Vec<char>)
    ensures
        r@ == s@,
{
    let mut r: Vec<char> = Vec::new();
    let mut i: usize = 0;
    while i < s.len()
        invariant
            i <= s@.len(),
            r@ == s@.subrange(0, i as int),
        decreases s@.len() - i,
    {
        r.push(s[i]);
        i = i + 1;
        assert(r@ =~= s@.subrange(0, i as int));
    }
    assert(s@.subrange(0, i as int) =~= s@);
    r
}

/// Reading an opcode map gives back what was last written: after `insert(k, v)`, `k`
/// reads as `v` and every other key as before; after `remove(k)`, `k` is absent and
/// every other key reads as before; after `extend(other)`, the keys of `other` read as
/// there and every other key as before.
pub proof fn lemma_opcode_map_read_after_write(
    m: Map<Seq<char>, Seq<char>>,
    other: Map<Seq<char>, Seq<char>>,
    k: Seq<char>,
    v: Seq<char>,
    q: Seq<char>,
)
    ensures
        m.insert(k, v).dom().contains(k) && m.insert(k, v)[k] == v,
        q != k ==> (m.insert(k, v).dom().contains(q) == m.dom().contains(q) && (m.dom().contains(q) ==> m.insert(k, v)[q] == m[q])),
        !m.remove(k).dom().contains(k),
        q != k ==> (m.remove(k).dom().contains(q) == m.dom().contains(q) && (m.dom().contains(q) ==> m.remove(k)[q] == m[q])),
        other.dom().contains(q) ==> m.union_prefer_right(other).dom().contains(q) && m.union_prefer_right(other)[q] == other[q],
        !other.dom().contains(q) ==> (m.union_prefer_right(other).dom().contains(q) == m.dom().contains(q) && (m.dom().contains(q)
            ==> m.union_prefer_right(other)[q] == m[q])),
{
}

} // verus!
