//! The SFZ preprocessor: `#define` substitution, `#if`/`#else`/`#end` sections and
//! the recognition of `#include` lines, one line at a time.

use vstd::prelude::*;
use crate::text::{
    chars_of, chars_eq, chars_eq_str, is_alnum, is_alpha, is_ascii_alnum, is_ascii_alpha,
    is_whitespace, is_ws, push_all, string_of,
};

verus! {

/// A parse or load failure with the line and column it was found at.
#[derive(Debug, Clone, PartialEq, Eq)]
pub struct SfzError {
    pub message: String,
    pub line: usize,
    pub column: usize,
}

/// The definitions of `#define`, in the order they were made; a later definition of a
/// name replaces an earlier one.
#[derive(Debug, Clone)]
pub struct DefineTable {
    defs: Vec<(Vec<char>, Vec<char>)>,
}

/// The value of `name` among `defs`: that of its last definition.
pub open spec fn def_lookup(defs: Seq<(Seq<char>, Seq<char>)>, name: Seq<char>) -> Option<Seq<char>>
    decreases defs.len(),
{
    if defs.len() == 0 {
        None
    } else if defs.last().0 == name {
        Some(defs.last().1)
    } else {
        def_lookup(defs.drop_last(), name)
    }
}

/// The characters of the definitions.
pub open spec fn defs_view(defs: Seq<(Vec<char>, Vec<char>)>) -> Seq<(Seq<char>, Seq<char>)> {
    Seq::new(defs.len(), |i: int| (defs[i].0@, defs[i].1@))
}

impl DefineTable {
    /// The definitions, oldest first.
    pub closed spec fn entries(&self) -> Seq<(Seq<char>, Seq<char>)> {
        defs_view(self.defs@)
    }

    /// The value `name` is defined as, if it is defined.
    pub open spec fn get_spec(&self, name: Seq<char>) -> Option<Seq<char>> {
        def_lookup(self.entries(), name)
    }

    /// A table with no definitions.
    pub fn new() -> (t: Self)
        ensures
            t.entries().len() == 0,
            forall|name: Seq<char>| #[trigger] t.get_spec(name) is None,
    {
        let t = DefineTable { defs: Vec::new() };
        assert(t.entries() =~= Seq::<(Seq<char>, Seq<char>)>::empty());
        t
    }

    /// Defines `name` as `value`, replacing an earlier definition of `name`.
    pub fn define(&mut self, name: String, value: String)
        ensures
            final(self).get_spec(name@) == Some(value@),
            forall|other: Seq<char>| other != name@ ==> #[trigger] final(self).get_spec(other) == old(self).get_spec(other),
            final(self).entries() == old(self).entries().push((name@, value@)),
    {
        let n = chars_of(name.as_str());
        let v = chars_of(value.as_str());
        self.defs.push((n, v));
        assert(self.entries() =~= old(self).entries().push((name@, value@)));
        assert(self.entries().drop_last() =~= old(self).entries());
    }

    /// Whether `name` is defined.
    pub fn is_defined(&self, name: &[char]) -> (r: bool)
        ensures
            r == (self.get_spec(name@) is Some),
    {
        match self.lookup(name) {
            Some(_) => true,
            None => false,
        }
    }

    fn lookup(&self, name: &[char]) -> (r: Option<&Vec<char>>)
        ensures
            match r {
                Some(v) => self.get_spec(name@) == Some(v@),
                None => self.get_spec(name@) is None,
            },
    {
        let mut k = self.defs.len();
        assert(self.defs@.subrange(0, k as int) =~= self.defs@);
        while k > 0
            invariant
                k <= self.defs@.len(),
                def_lookup(defs_view(self.defs@.subrange(0, k as int)), name@) == self.get_spec(name@),
            decreases k,
        {
            let ghost sub = defs_view(self.defs@.subrange(0, k as int));
            assert(sub.drop_last() =~= defs_view(self.defs@.subrange(0, k - 1)));
            if chars_eq(self.defs[k - 1].0.as_slice(), name) {
                return Some(&self.defs[k - 1].1);
            }
            k = k - 1;
        }
        None
    }
}

/// The end of the identifier characters (ASCII letters, digits, `_`) from `j` on.
pub open spec fn ident_end(s: Seq<char>, j: int) -> int
    decreases s.len() - j,
{
    if j < 0 || j >= s.len() {
        if j < 0 { 0 } else { s.len() as int }
    } else if is_alnum(s[j]) || s[j] == '_' {
        ident_end(s, j + 1)
    } else {
        j
    }
}

/// The position of the last `_` before `end` in `ident`, or -1.
pub open spec fn last_underscore(ident: Seq<char>, end: int) -> int
    decreases end,
{
    if end <= 0 {
        -1
    } else if ident[end - 1] == '_' {
        end - 1
    } else {
        last_underscore(ident, end - 1)
    }
}

/// The length of the defined prefix of `$`-variable `ident` cut at an `_` before
/// `end` (the longest such prefix longer than one character), if any.
pub open spec fn dollar_prefix_from(defs: Seq<(Seq<char>, Seq<char>)>, ident: Seq<char>, end: int) -> Option<int>
    decreases end,
{
    let pos = last_underscore(ident, end);
    proof {
        lemma_last_underscore_lt(ident, end);
    }
    if end <= 0 || pos <= 1 {
        None
    } else if def_lookup(defs, ident.subrange(0, pos)) is Some {
        Some(pos)
    } else {
        dollar_prefix_from(defs, ident, pos)
    }
}

/// How much of the `$`-variable `ident` names a definition: all of it if it is
/// defined, else its longest defined prefix cut at an `_`.
pub open spec fn dollar_prefix(defs: Seq<(Seq<char>, Seq<char>)>, ident: Seq<char>) -> Option<int> {
    if def_lookup(defs, ident) is Some {
        Some(ident.len() as int)
    } else {
        dollar_prefix_from(defs, ident, ident.len() as int)
    }
}

/// `line` from position `i` on with the definitions substituted: a `$name` (its
/// longest defined prefix at an `_`) and a defined identifier starting at a letter or
/// `_` are replaced by their values; other characters are kept.
pub open spec fn apply_from(defs: Seq<(Seq<char>, Seq<char>)>, s: Seq<char>, i: int) -> Seq<char>
    decreases s.len() - i,
{
    if i < 0 || i >= s.len() {
        Seq::empty()
    } else if s[i] == '$' {
        let j = ident_end(s, i + 1);
        let ident = s.subrange(i, j);
        match dollar_prefix(defs, ident) {
            Some(p) => if p >= 1 && i + p <= s.len() && def_lookup(defs, ident.subrange(0, p)) is Some {
                def_lookup(defs, ident.subrange(0, p)).unwrap() + apply_from(defs, s, i + p)
            } else {
                seq![s[i]] + apply_from(defs, s, i + 1)
            },
            None => seq![s[i]] + apply_from(defs, s, i + 1),
        }
    } else if is_alpha(s[i]) || s[i] == '_' {
        let j = ident_end(s, i + 1);
        proof {
            lemma_ident_end_bounds(s, i + 1);
        }
        match def_lookup(defs, s.subrange(i, j)) {
            Some(v) => v + apply_from(defs, s, j),
            None => seq![s[i]] + apply_from(defs, s, i + 1),
        }
    } else {
        seq![s[i]] + apply_from(defs, s, i + 1)
    }
}

pub proof fn lemma_ident_end_bounds(s: Seq<char>, j: int)
    requires
        0 <= j <= s.len(),
    ensures
        j <= ident_end(s, j) <= s.len(),
        forall|k: int| j <= k < ident_end(s, j) ==> is_alnum(#[trigger] s[k]) || s[k] == '_',
    decreases s.len() - j,
{
    if j < s.len() && (is_alnum(s[j]) || s[j] == '_') {
        lemma_ident_end_bounds(s, j + 1);
    }
}

pub proof fn lemma_last_underscore_lt(ident: Seq<char>, end: int)
    ensures
        last_underscore(ident, end) < end || end <= 0,
        end <= 0 ==> last_underscore(ident, end) == -1,
        last_underscore(ident, end) >= -1,
    decreases end,
{
    if end > 0 && ident[end - 1] != '_' {
        lemma_last_underscore_lt(ident, end - 1);
    }
}

proof fn lemma_last_underscore(ident: Seq<char>, end: int)
    requires
        end <= ident.len(),
    ensures
        -1 <= last_underscore(ident, end) < end || (end <= 0 && last_underscore(ident, end) == -1),
        last_underscore(ident, end) >= 0 ==> ident[last_underscore(ident, end)] == '_',
    decreases end,
{
    if end > 0 && ident[end - 1] != '_' {
        lemma_last_underscore(ident, end - 1);
    }
}

impl DefineTable {
    fn last_underscore_exec(ident: &[char], end: usize) -> (r: Option<usize>)
        requires
            end <= ident@.len(),
        ensures
            match r {
                Some(p) => p as int == last_underscore(ident@, end as int) && p < end,
                None => last_underscore(ident@, end as int) == -1,
            },
    {
        let mut e = end;
        while e > 0
            invariant
                e <= end,
                end <= ident@.len(),
                last_underscore(ident@, e as int) == last_underscore(ident@, end as int),
            decreases e,
        {
            if ident[e - 1] == '_' {
                return Some(e - 1);
            }
            e = e - 1;
        }
        None
    }

    fn lookup_dollar_var(&self, ident: &[char]) -> (r: Option<usize>)
        ensures
            match r {
                Some(p) => dollar_prefix(self.entries(), ident@) == Some(p as int),
                None => dollar_prefix(self.entries(), ident@) is None,
            },
    {
        if self.is_defined(ident) {
            return Some(ident.len());
        }
        let mut end = ident.len();
        loop
            invariant
                end <= ident@.len(),
                self.get_spec(ident@) is None,
                dollar_prefix(self.entries(), ident@) == dollar_prefix_from(self.entries(), ident@, end as int),
            decreases end,
        {
            proof {
                lemma_last_underscore(ident@, end as int);
            }
            let pos = match Self::last_underscore_exec(ident, end) {
                Some(p) => p,
                None => {
                    return None;
                },
            };
            if pos <= 1 {
                return None;
            }
            let prefix = slice_vec(ident, 0, pos);
            if self.is_defined(prefix.as_slice()) {
                return Some(pos);
            }
            end = pos;
        }
    }

    /// The line with the definitions substituted, as `apply_from` describes.
    pub fn apply(&self, line: &str) -> (out: String)
        ensures
            out@ == apply_from(self.entries(), line@, 0),
    {
        let c = chars_of(line);
        let r = self.apply_chars(c.as_slice());
        string_of(r.as_slice())
    }

    /// Substitutes the definitions in `line` as `apply_from` describes.
    pub fn apply_chars(&self, line: &[char]) -> (out: Vec<char>)
        ensures
            out@ == apply_from(self.entries(), line@, 0),
    {
        let mut out: Vec<char> = Vec::new();
        let mut i: usize = 0;
        let n = line.len();
        while i < n
            invariant
                n == line@.len(),
                i <= n,
                out@ + apply_from(self.entries(), line@, i as int) == apply_from(self.entries(), line@, 0),
            decreases n - i,
        {
            let c = line[i];
            let ghost defs = self.entries();
            if c == '$' {
                let j = scan_ident(line, i + 1);
                let ident = slice_vec(line, i, j);
                match self.lookup_dollar_var(ident.as_slice()) {
                    Some(p) => {
                        proof {
                            lemma_dollar_prefix_bounds(defs, ident@);
                            lemma_ident_end_bounds(line@, i + 1);
                        }
                        let prefix = slice_vec(ident.as_slice(), 0, p);
                        match self.lookup(prefix.as_slice()) {
                            Some(v) => {
                                if p >= 1 {
                                    let ghost before = out@;
                                    push_all(&mut out, v.as_slice());
                                    assert(out@ + apply_from(defs, line@, i + p) =~= before + (v@ + apply_from(defs, line@, i + p)));
                                    i = i + p;
                                    continue;
                                }
                            },
                            None => {},
                        }
                    },
                    None => {},
                }
            } else if is_ascii_alpha(c) || c == '_' {
                let j = scan_ident(line, i + 1);
                let ident = slice_vec(line, i, j);
                match self.lookup(ident.as_slice()) {
                    Some(v) => {
                        let ghost before = out@;
                        push_all(&mut out, v.as_slice());
                        assert(out@ + apply_from(defs, line@, j as int) =~= before + (v@ + apply_from(defs, line@, j as int)));
                        i = j;
                        continue;
                    },
                    None => {},
                }
            }
            assert(out@.push(c) + apply_from(defs, line@, i + 1) =~= out@ + (seq![c] + apply_from(defs, line@, i + 1)));
            out.push(c);
            i = i + 1;
        }
        assert(out@ + Seq::<char>::empty() =~= out@);
        out
    }
}

proof fn lemma_dollar_prefix_from_bounds(defs: Seq<(Seq<char>, Seq<char>)>, ident: Seq<char>, end: int)
    requires
        end <= ident.len(),
    ensures
        dollar_prefix_from(defs, ident, end) matches Some(p) ==> 2 <= p < end,
    decreases end,
{
    lemma_last_underscore(ident, end);
    let pos = last_underscore(ident, end);
    if end > 0 && pos > 1 && !(def_lookup(defs, ident.subrange(0, pos)) is Some) {
        lemma_dollar_prefix_from_bounds(defs, ident, pos);
    }
}

proof fn lemma_dollar_prefix_bounds(defs: Seq<(Seq<char>, Seq<char>)>, ident: Seq<char>)
    ensures
        dollar_prefix(defs, ident) matches Some(p) ==> 0 <= p <= ident.len(),
{
    lemma_dollar_prefix_from_bounds(defs, ident, ident.len() as int);
}

fn scan_ident(s: &[char], j: usize) -> (e: usize)
    requires
        j <= s@.len(),
    ensures
        e as int == ident_end(s@, j as int),
        j <= e <= s@.len(),
{
    let mut e = j;
    while e < s.len() && (is_ascii_alnum(s[e]) || s[e] == '_')
        invariant
            j <= e <= s@.len(),
            ident_end(s@, e as int) == ident_end(s@, j as int),
        decreases s@.len() - e,
    {
        e = e + 1;
    }
    e
}

/// The characters of `s` from `from` up to `to`.
pub fn slice_vec(s: &[char], from: usize, to: usize) -> (r: Vec<char>)
    requires
        from <= to <= s@.len(),
    ensures
        r@ == s@.subrange(from as int, to as int),
{
    let mut v: Vec<char> = Vec::new();
    let mut k = from;
    while k < to
        invariant
            from <= k <= to,
            to <= s@.len(),
            v@ == s@.subrange(from as int, k as int),
        decreases to - k,
    {
        v.push(s[k]);
        k = k + 1;
        assert(v@ =~= s@.subrange(from as int, k as int));
    }
    v
}

} // verus!
