//! The extra-opcode text box of the editor: a group's or zone's unhandled SFZ
//! opcodes shown as `key=value` words, and the words read back.

use vstd::prelude::*;
use crate::sfz_directives::{first_ws, join_spaces, lemma_first_ws_bounds, split_words, words_from, words_view};
use crate::sfz_opcodes::{is_non_vendor_sfz_opcode, is_vendor_opcode};
use crate::sfz_opcode_map::pairs_view;
use crate::text::{chars_of, is_alnum, is_ws, lower_ascii, lower_ascii_seq, push_all, string_of, to_ascii_lower};

verus! {

/// The words shown for the opcodes: `key=value` for each opcode whose key is not a
/// vendor opcode, in order.
pub open spec fn opcode_words(ops: Seq<(Seq<char>, Seq<char>)>) -> Seq<Seq<char>>
    decreases ops.len(),
{
    if ops.len() == 0 {
        Seq::empty()
    } else {
        let prev = opcode_words(ops.drop_last());
        let (k, v) = ops.last();
        if is_vendor_opcode(k) {
            prev
        } else {
            prev.push(k + seq!['='] + v)
        }
    }
}

/// The text shown for the opcodes: their words joined by single spaces.
pub open spec fn opcode_text(ops: Seq<(Seq<char>, Seq<char>)>) -> Seq<char> {
    join_spaces(opcode_words(ops))
}

/// A character kept in an opcode key typed by the user.
pub open spec fn is_key_char(c: char) -> bool {
    is_alnum(c) || c == '_' || c == '-'
}

/// A typed key cleaned up: only its ASCII letters, digits, `_` and `-`, in ASCII
/// lower case.
pub open spec fn sanitized_key(s: Seq<char>) -> Seq<char>
    decreases s.len(),
{
    if s.len() == 0 {
        Seq::empty()
    } else {
        let prev = sanitized_key(s.drop_last());
        if is_key_char(s.last()) {
            prev.push(lower_ascii(s.last()))
        } else {
            prev
        }
    }
}

/// The first `=` in `w`, or -1.
pub open spec fn first_eq(w: Seq<char>, i: int) -> int
    decreases w.len() - i,
{
    if i < 0 || i >= w.len() {
        -1
    } else if w[i] == '=' {
        i
    } else {
        first_eq(w, i + 1)
    }
}

/// The opcode a typed word gives: the text before its first `=` as a cleaned-up key,
/// and the text after it as the value; none when there is no `=`, or the key is empty
/// or a vendor opcode.
pub open spec fn word_opcode(w: Seq<char>) -> Option<(Seq<char>, Seq<char>)> {
    let p = first_eq(w, 0);
    if p < 0 {
        None
    } else {
        let key = sanitized_key(w.subrange(0, p));
        if key.len() == 0 || is_vendor_opcode(key) {
            None
        } else {
            Some((key, w.subrange(p + 1, w.len() as int)))
        }
    }
}

/// The opcodes the words give, in order.
pub open spec fn words_opcodes(ws: Seq<Seq<char>>) -> Seq<(Seq<char>, Seq<char>)>
    decreases ws.len(),
{
    if ws.len() == 0 {
        Seq::empty()
    } else {
        let prev = words_opcodes(ws.drop_last());
        match word_opcode(ws.last()) {
            Some(o) => prev.push(o),
            None => prev,
        }
    }
}

/// The opcodes read from typed text: from each white-space separated word, as
/// `word_opcode` states.
pub open spec fn parsed_opcode_text(text: Seq<char>) -> Seq<(Seq<char>, Seq<char>)> {
    words_opcodes(words_from(text, 0))
}

/// The text shown for a list of opcodes, as `opcode_text` states.
pub fn format_sfz_opcode_text(opcodes: &[(String, String)]) -> (s: String)
    ensures
        s@ == opcode_text(pairs_view(opcodes@)),
{
    let ghost ops = pairs_view(opcodes@);
    let mut out: Vec<char> = Vec::new();
    let mut any = false;
    let mut i: usize = 0;
    while i < opcodes.len()
        invariant
            i <= opcodes@.len(),
            ops == pairs_view(opcodes@),
            out@ == join_spaces(opcode_words(ops.subrange(0, i as int))),
            any == (opcode_words(ops.subrange(0, i as int)).len() > 0),
        decreases opcodes@.len() - i,
    {
        let ghost sub = ops.subrange(0, i + 1);
        assert(sub.drop_last() =~= ops.subrange(0, i as int));
        assert(sub.last() == (opcodes@[i as int].0@, opcodes@[i as int].1@));
        let key = opcodes[i].0.as_str();
        if is_non_vendor_sfz_opcode(key) {
            let ghost prev_words = opcode_words(ops.subrange(0, i as int));
            let ghost word = opcodes@[i as int].0@ + seq!['='] + opcodes@[i as int].1@;
            if any {
                out.push(' ');
            }
            let k = chars_of(key);
            push_all(&mut out, k.as_slice());
            out.push('=');
            let v = chars_of(opcodes[i].1.as_str());
            push_all(&mut out, v.as_slice());
            proof {
                let now = prev_words.push(word);
                assert(now.drop_last() =~= prev_words);
                if any {
                    assert(out@ =~= join_spaces(prev_words) + seq![' '] + word);
                } else {
                    assert(prev_words.len() == 0);
                    assert(out@ =~= word);
                }
            }
            any = true;
        }
        i = i + 1;
    }
    assert(ops.subrange(0, i as int) =~= ops);
    string_of(out.as_slice())
}

fn first_eq_index(w: &[char]) -> (r: Option<usize>)
    ensures
        match r {
            Some(p) => p as int == first_eq(w@, 0) && p < w@.len(),
            None => first_eq(w@, 0) == -1,
        },
{
    let mut i: usize = 0;
    while i < w.len()
        invariant
            i <= w@.len(),
            first_eq(w@, i as int) == first_eq(w@, 0),
        decreases w@.len() - i,
    {
        if w[i] == '=' {
            return Some(i);
        }
        i = i + 1;
    }
    None
}

fn sanitize_chars(s: &[char], to: usize) -> (r: Vec<char>)
    requires
        to <= s@.len(),
    ensures
        r@ == sanitized_key(s@.subrange(0, to as int)),
{
    let mut out: Vec<char> = Vec::new();
    let mut i: usize = 0;
    assert(s@.subrange(0, 0) =~= Seq::<char>::empty());
    while i < to
        invariant
            i <= to <= s@.len(),
            out@ == sanitized_key(s@.subrange(0, i as int)),
        decreases to - i,
    {
        assert(s@.subrange(0, i + 1).drop_last() =~= s@.subrange(0, i as int));
        let c = s[i];
        if crate::text::is_ascii_alnum(c) || c == '_' || c == '-' {
            out.push(to_ascii_lower(c));
        }
        i = i + 1;
    }
    out
}

/// A typed key cleaned up, as `sanitized_key` states.
pub fn sanitize_sfz_opcode_key(text: &str) -> (r: String)
    ensures
        r@ == sanitized_key(text@),
{
    let c = chars_of(text);
    let out = sanitize_chars(c.as_slice(), c.len());
    assert(c@.subrange(0, c@.len() as int) =~= c@);
    string_of(out.as_slice())
}

/// The opcodes read from typed text, as `parsed_opcode_text` states.
pub fn parse_sfz_opcode_text(text: &str) -> (r: Vec<(String, String)>)
    ensures
        pairs_view(r@) == parsed_opcode_text(text@),
{
    let c = chars_of(text);
    let words = split_words(c.as_slice(), 0);
    let ghost ws = words_view(words@);
    let mut out: Vec<(String, String)> = Vec::new();
    let mut i: usize = 0;
    assert(ws.subrange(0, 0) =~= Seq::<Seq<char>>::empty());
    while i < words.len()
        invariant
            i <= words@.len(),
            ws == words_view(words@),
            pairs_view(out@) == words_opcodes(ws.subrange(0, i as int)),
        decreases words@.len() - i,
    {
        assert(ws.subrange(0, i + 1).drop_last() =~= ws.subrange(0, i as int));
        let w = words[i].as_slice();
        assert(ws[i as int] == w@);
        match first_eq_index(w) {
            Some(p) => {
                let key = sanitize_chars(w, p);
                let bad = key.len() == 0 || crate::sfz_opcodes::is_vendor_key(key.as_slice());
                if !bad {
                    let mut value: Vec<char> = Vec::new();
                    assert(p < w@.len());
                    assert(w@.len() == w.len());
                    let mut j = p + 1;
                    while j < w.len()
                        invariant
                            p < j <= w@.len(),
                            value@ == w@.subrange(p + 1, j as int),
                        decreases w@.len() - j,
                    {
                        value.push(w[j]);
                        j = j + 1;
                        assert(value@ =~= w@.subrange(p + 1, j as int));
                    }
                    let ghost prev = pairs_view(out@);
                    let ks = string_of(key.as_slice());
                    let vs = string_of(value.as_slice());
                    out.push((ks, vs));
                    assert(pairs_view(out@) =~= prev.push((key@, value@)));
                }
            },
            None => {},
        }
        i = i + 1;
    }
    assert(ws.subrange(0, i as int) =~= ws);
    out
}

/// The opcodes whose keys are not vendor opcodes, in order.
pub open spec fn non_vendor_opcodes(ops: Seq<(Seq<char>, Seq<char>)>) -> Seq<(Seq<char>, Seq<char>)>
    decreases ops.len(),
{
    if ops.len() == 0 {
        Seq::empty()
    } else if is_vendor_opcode(ops.last().0) {
        non_vendor_opcodes(ops.drop_last())
    } else {
        non_vendor_opcodes(ops.drop_last()).push(ops.last())
    }
}

/// An opcode as the editor writes it: a non-empty key that cleaning up leaves as it
/// is, and a value without white space.
pub open spec fn is_plain_opcode(o: (Seq<char>, Seq<char>)) -> bool {
    &&& o.0.len() > 0
    &&& sanitized_key(o.0) == o.0
    &&& forall|i: int| 0 <= i < o.1.len() ==> !is_ws(#[trigger] o.1[i])
}

proof fn lemma_words_from_shift(p: Seq<char>, x: Seq<char>, j: int)
    requires
        0 <= j <= x.len(),
    ensures
        words_from(p + x, p.len() + j) == words_from(x, j),
        first_ws(p + x, p.len() + j) == p.len() + first_ws(x, j),
    decreases x.len() - j,
{
    let s = p + x;
    lemma_first_ws_shift(p, x, j);
    if j < x.len() {
        assert(s[p.len() + j] == x[j]);
        if is_ws(x[j]) {
            lemma_words_from_shift(p, x, j + 1);
        } else {
            lemma_first_ws_bounds(x, j + 1);
            let fj = first_ws(x, j);
            lemma_words_from_shift(p, x, fj);
            assert(s.subrange(p.len() + j, p.len() + fj) =~= x.subrange(j, fj));
        }
    }
}

proof fn lemma_first_ws_shift(p: Seq<char>, x: Seq<char>, j: int)
    requires
        0 <= j <= x.len(),
    ensures
        first_ws(p + x, p.len() + j) == p.len() + first_ws(x, j),
    decreases x.len() - j,
{
    if j < x.len() {
        assert((p + x)[p.len() + j] == x[j]);
        if !is_ws(x[j]) {
            lemma_first_ws_shift(p, x, j + 1);
        }
    }
}

proof fn lemma_first_ws_prefix(a: Seq<char>, b: Seq<char>, i: int)
    requires
        0 <= i <= a.len(),
        b.len() > 0,
        is_ws(b[0]),
    ensures
        first_ws(a + b, i) == first_ws(a, i),
    decreases a.len() - i,
{
    if i < a.len() {
        assert((a + b)[i] == a[i]);
        if !is_ws(a[i]) {
            lemma_first_ws_prefix(a, b, i + 1);
        }
    } else {
        assert((a + b)[i] == b[0]);
    }
}

/// Splitting at a space: the words of `a`, a space and `b` are those of `a` then
/// those of `b`.
proof fn lemma_words_split_at_space(a: Seq<char>, b: Seq<char>, i: int)
    requires
        0 <= i <= a.len(),
    ensures
        words_from(a + seq![' '] + b, i) == words_from(a, i) + words_from(b, 0),
    decreases a.len() - i,
{
    let s = a + seq![' '] + b;
    assert(s == a + (seq![' '] + b));
    if i == a.len() {
        assert(s[i] == ' ');
        assert(is_ws(' '));
        lemma_words_from_shift(a + seq![' '], b, 0);
        assert((a + seq![' ']) + b == s);
        assert(words_from(a, i) =~= Seq::<Seq<char>>::empty());
        assert(words_from(s, i) == words_from(s, i + 1));
    } else {
        assert(s[i] == a[i]);
        if is_ws(a[i]) {
            lemma_words_split_at_space(a, b, i + 1);
        } else {
            lemma_first_ws_prefix(a, seq![' '] + b, i);
            assert(is_ws((seq![' '] + b)[0]));
            lemma_first_ws_bounds(a, i + 1);
            let j = first_ws(a, i);
            assert(s.subrange(i, j) =~= a.subrange(i, j));
            lemma_words_split_at_space(a, b, j);
            assert(words_from(s, i) == seq![a.subrange(i, j)] + words_from(s, j));
            assert(words_from(a, i) == seq![a.subrange(i, j)] + words_from(a, j));
            assert(seq![a.subrange(i, j)] + (words_from(a, j) + words_from(b, 0)) =~= (seq![a.subrange(i, j)]
                + words_from(a, j)) + words_from(b, 0));
        }
    }
}

proof fn lemma_single_word(w: Seq<char>)
    requires
        w.len() > 0,
        forall|i: int| 0 <= i < w.len() ==> !is_ws(#[trigger] w[i]),
    ensures
        words_from(w, 0) == seq![w],
{
    lemma_first_ws_all(w, 0);
    assert(w.subrange(0, w.len() as int) =~= w);
    assert(words_from(w, w.len() as int) =~= Seq::<Seq<char>>::empty());
    assert(seq![w] + Seq::<Seq<char>>::empty() =~= seq![w]);
}

proof fn lemma_first_ws_all(w: Seq<char>, i: int)
    requires
        0 <= i <= w.len(),
        forall|k: int| 0 <= k < w.len() ==> !is_ws(#[trigger] w[k]),
    ensures
        first_ws(w, i) == w.len(),
    decreases w.len() - i,
{
    if i < w.len() {
        lemma_first_ws_all(w, i + 1);
    }
}

/// Words without white space, joined by spaces, split back into the same words.
proof fn lemma_words_of_joined(ws: Seq<Seq<char>>)
    requires
        forall|k: int| 0 <= k < ws.len() ==> (#[trigger] ws[k]).len() > 0,
        forall|k: int, i: int| 0 <= k < ws.len() && 0 <= i < ws[k].len() ==> !is_ws(#[trigger] ws[k][i]),
    ensures
        words_from(join_spaces(ws), 0) == ws,
    decreases ws.len(),
{
    if ws.len() == 0 {
        assert(words_from(join_spaces(ws), 0) =~= ws);
    } else if ws.len() == 1 {
        assert(ws[0].len() > 0);
        assert forall|i: int| 0 <= i < ws[0].len() implies !is_ws(#[trigger] ws[0][i]) by {}
        lemma_single_word(ws[0]);
        assert(seq![ws[0]] =~= ws);
    } else {
        let init = ws.drop_last();
        assert forall|k: int| 0 <= k < init.len() implies (#[trigger] init[k]).len() > 0 by {
            assert(init[k] == ws[k]);
        }
        assert forall|k: int, i: int| 0 <= k < init.len() && 0 <= i < init[k].len() implies !is_ws(#[trigger] init[k][i]) by {
            assert(init[k] == ws[k]);
        }
        lemma_words_of_joined(init);
        let last = ws.last();
        assert(last == ws[ws.len() - 1]);
        assert forall|i: int| 0 <= i < last.len() implies !is_ws(#[trigger] last[i]) by {
            assert(ws[ws.len() - 1][i] == last[i]);
        }
        lemma_single_word(last);
        lemma_words_split_at_space(join_spaces(init), last, 0);
        assert(init + seq![last] =~= ws);
    }
}

proof fn lemma_sanitized_len(s: Seq<char>)
    ensures
        sanitized_key(s).len() <= s.len(),
        sanitized_key(s).len() == s.len() ==> forall|i: int| 0 <= i < s.len() ==> is_key_char(#[trigger] s[i]),
    decreases s.len(),
{
    if s.len() > 0 {
        lemma_sanitized_len(s.drop_last());
        if sanitized_key(s).len() == s.len() {
            assert forall|i: int| 0 <= i < s.len() implies is_key_char(#[trigger] s[i]) by {
                if i < s.len() - 1 {
                    assert(s[i] == s.drop_last()[i]);
                }
            }
        }
    }
}

proof fn lemma_first_eq_at(k: Seq<char>, v: Seq<char>, i: int)
    requires
        0 <= i <= k.len(),
        forall|q: int| 0 <= q < k.len() ==> (#[trigger] k[q]) != '=',
    ensures
        first_eq(k + seq!['='] + v, i) == k.len(),
    decreases k.len() - i,
{
    let w = k + seq!['='] + v;
    if i < k.len() {
        assert(w[i] == k[i]);
        lemma_first_eq_at(k, v, i + 1);
    } else {
        assert(w[i] == '=');
    }
}

/// The word written for a plain, non-vendor opcode reads back as that opcode.
proof fn lemma_word_opcode_roundtrip(o: (Seq<char>, Seq<char>))
    requires
        is_plain_opcode(o),
        !is_vendor_opcode(o.0),
    ensures
        word_opcode(o.0 + seq!['='] + o.1) == Some(o),
{
    let (k, v) = o;
    let w = k + seq!['='] + v;
    lemma_sanitized_len(k);
    assert forall|q: int| 0 <= q < k.len() implies (#[trigger] k[q]) != '=' by {
        assert(is_key_char(k[q]));
    }
    lemma_first_eq_at(k, v, 0);
    assert(w.subrange(0, k.len() as int) =~= k);
    assert(w.subrange(k.len() + 1int, w.len() as int) =~= v);
}

proof fn lemma_words_opcodes_push(ws: Seq<Seq<char>>, w: Seq<char>)
    ensures
        words_opcodes(ws.push(w)) == match word_opcode(w) {
            Some(o) => words_opcodes(ws).push(o),
            None => words_opcodes(ws),
        },
{
    assert(ws.push(w).drop_last() =~= ws);
}

/// Reading back the words written for plain opcodes gives the non-vendor ones.
proof fn lemma_opcode_words_read_back(ops: Seq<(Seq<char>, Seq<char>)>)
    requires
        forall|i: int| 0 <= i < ops.len() ==> is_plain_opcode(#[trigger] ops[i]),
    ensures
        words_opcodes(opcode_words(ops)) == non_vendor_opcodes(ops),
        forall|k: int| 0 <= k < opcode_words(ops).len() ==> (#[trigger] opcode_words(ops)[k]).len() > 0,
        forall|k: int, i: int| 0 <= k < opcode_words(ops).len() && 0 <= i < opcode_words(ops)[k].len()
            ==> !is_ws(#[trigger] opcode_words(ops)[k][i]),
    decreases ops.len(),
{
    if ops.len() > 0 {
        let init = ops.drop_last();
        assert forall|i: int| 0 <= i < init.len() implies is_plain_opcode(#[trigger] init[i]) by {
            assert(init[i] == ops[i]);
        }
        lemma_opcode_words_read_back(init);
        let o = ops.last();
        assert(is_plain_opcode(ops[ops.len() - 1]));
        let prev = opcode_words(init);
        if !is_vendor_opcode(o.0) {
            let w = o.0 + seq!['='] + o.1;
            lemma_word_opcode_roundtrip(o);
            lemma_words_opcodes_push(prev, w);
            lemma_sanitized_len(o.0);
            let now = opcode_words(ops);
            assert(now == prev.push(w));
            assert forall|k: int, i: int| 0 <= k < now.len() && 0 <= i < now[k].len() implies !is_ws(#[trigger] now[k][i]) by {
                if k < prev.len() {
                    assert(now[k] == prev[k]);
                } else {
                    assert(now[k] == w);
                    if i < o.0.len() {
                        assert(w[i] == o.0[i]);
                        assert(is_key_char(o.0[i]));
                    } else if i == o.0.len() {
                        assert(w[i] == '=');
                    } else {
                        assert(w[i] == o.1[i - o.0.len() - 1]);
                    }
                }
            }
        }
    }
}

/// The editor's opcode text reads back as the opcodes it shows: for opcodes with
/// clean non-empty keys and values without white space, reading the text written
/// for them gives exactly the non-vendor ones, in order.
pub proof fn lemma_opcode_text_roundtrip(ops: Seq<(Seq<char>, Seq<char>)>)
    requires
        forall|i: int| 0 <= i < ops.len() ==> is_plain_opcode(#[trigger] ops[i]),
    ensures
        parsed_opcode_text(opcode_text(ops)) == non_vendor_opcodes(ops),
{
    lemma_opcode_words_read_back(ops);
    lemma_words_of_joined(opcode_words(ops));
}

} // verus!
