//! Removal of `//` and `/* */` comments from SFZ source.

use vstd::prelude::*;
use crate::text::{chars_of, string_of};

verus! {

/// The text that remains of `s` once its comments are removed: a `//` comment runs
/// up to and including the next newline, which is kept; a `/* */` comment, its
/// delimiters included, becomes one space per character, newlines kept as they are, so
/// the text after it keeps its line and column; an unclosed block comment runs to the
/// end of the text.
pub open spec fn strip_spec(s: Seq<char>) -> Seq<char>
    decreases s.len(), 0nat,
{
    if s.len() == 0 {
        Seq::empty()
    } else if s[0] == '/' && s.len() > 1 && s[1] == '/' {
        line_comment_spec(s.subrange(2, s.len() as int))
    } else if s[0] == '/' && s.len() > 1 && s[1] == '*' {
        seq![' ', ' '] + block_comment_spec(s.subrange(2, s.len() as int))
    } else {
        seq![s[0]] + strip_spec(s.subrange(1, s.len() as int))
    }
}

/// The rest of a `//` comment and everything after it.
pub open spec fn line_comment_spec(s: Seq<char>) -> Seq<char>
    decreases s.len(), 1nat,
{
    if s.len() == 0 {
        Seq::empty()
    } else if s[0] == '\n' {
        seq!['\n'] + strip_spec(s.subrange(1, s.len() as int))
    } else {
        line_comment_spec(s.subrange(1, s.len() as int))
    }
}

/// The rest of a `/* */` comment and everything after it.
pub open spec fn block_comment_spec(s: Seq<char>) -> Seq<char>
    decreases s.len(), 1nat,
{
    if s.len() == 0 {
        Seq::empty()
    } else if s[0] == '*' && s.len() > 1 && s[1] == '/' {
        seq![' ', ' '] + strip_spec(s.subrange(2, s.len() as int))
    } else if s[0] == '\n' {
        seq!['\n'] + block_comment_spec(s.subrange(1, s.len() as int))
    } else {
        seq![' '] + block_comment_spec(s.subrange(1, s.len() as int))
    }
}

/// The number of times `c` occurs in `s`.
pub open spec fn count_char(s: Seq<char>, c: char) -> nat
    decreases s.len(),
{
    if s.len() == 0 {
        0
    } else {
        (if s[0] == c {
            1nat
        } else {
            0nat
        }) + count_char(s.subrange(1, s.len() as int), c)
    }
}

/// The characters of `s` with comments removed, as `strip_spec` describes.
pub fn strip_comment_chars(s: &[char]) -> (out: Vec<char>)
    ensures
        out@ == strip_spec(s@),
{
    let mut out: Vec<char> = Vec::new();
    // 0: ordinary text, 1: inside a line comment, 2: inside a block comment
    let mut mode: u8 = 0;
    let mut i: usize = 0;
    let n = s.len();
    assert(s@.subrange(0, n as int) =~= s@);
    while i < n
        invariant
            n == s@.len(),
            i <= n,
            mode <= 2,
            mode == 0 ==> out@ + strip_spec(s@.subrange(i as int, n as int)) == strip_spec(s@),
            mode == 1 ==> out@ + line_comment_spec(s@.subrange(i as int, n as int)) == strip_spec(s@),
            mode == 2 ==> out@ + block_comment_spec(s@.subrange(i as int, n as int)) == strip_spec(s@),
        decreases n - i,
    {
        let ghost rest = s@.subrange(i as int, n as int);
        let c = s[i];
        if mode == 0 {
            if c == '/' && i + 1 < n && s[i + 1] == '/' {
                assert(rest.subrange(2, rest.len() as int) =~= s@.subrange(i + 2, n as int));
                mode = 1;
                i = i + 2;
            } else if c == '/' && i + 1 < n && s[i + 1] == '*' {
                assert(rest.subrange(2, rest.len() as int) =~= s@.subrange(i + 2, n as int));
                assert(out@.push(' ').push(' ') + block_comment_spec(s@.subrange(i + 2, n as int)) =~= out@ + (
                seq![' ', ' '] + block_comment_spec(s@.subrange(i + 2, n as int))));
                out.push(' ');
                out.push(' ');
                mode = 2;
                i = i + 2;
            } else {
                assert(rest.subrange(1, rest.len() as int) =~= s@.subrange(i + 1, n as int));
                assert(out@.push(c) + strip_spec(s@.subrange(i + 1, n as int)) =~= out@ + (seq![c]
                    + strip_spec(s@.subrange(i + 1, n as int))));
                out.push(c);
                i = i + 1;
            }
        } else if mode == 1 {
            assert(rest.subrange(1, rest.len() as int) =~= s@.subrange(i + 1, n as int));
            if c == '\n' {
                assert(out@.push('\n') + strip_spec(s@.subrange(i + 1, n as int)) =~= out@ + (
                seq!['\n'] + strip_spec(s@.subrange(i + 1, n as int))));
                out.push('\n');
                mode = 0;
            }
            i = i + 1;
        } else {
            if c == '*' && i + 1 < n && s[i + 1] == '/' {
                assert(rest.subrange(2, rest.len() as int) =~= s@.subrange(i + 2, n as int));
                assert(out@.push(' ').push(' ') + strip_spec(s@.subrange(i + 2, n as int)) =~= out@ + (
                seq![' ', ' '] + strip_spec(s@.subrange(i + 2, n as int))));
                out.push(' ');
                out.push(' ');
                mode = 0;
                i = i + 2;
            } else {
                assert(rest.subrange(1, rest.len() as int) =~= s@.subrange(i + 1, n as int));
                let d = if c == '\n' {
                    '\n'
                } else {
                    ' '
                };
                assert(out@.push(d) + block_comment_spec(s@.subrange(i + 1, n as int)) =~= out@ + (
                seq![d] + block_comment_spec(s@.subrange(i + 1, n as int))));
                out.push(d);
                i = i + 1;
            }
        }
    }
    proof {
        assert(s@.subrange(n as int, n as int) =~= Seq::<char>::empty());
        assert(out@ + Seq::<char>::empty() =~= out@);
    }
    out
}

/// Removes `//` line comments and `/* */` block comments from SFZ source. Block
/// comments, delimiters included, become spaces and every newline is kept, so the
/// remaining text keeps its line and column numbers.
pub fn strip_comments(text: &str) -> (out: String)
    ensures
        out@ == strip_spec(text@),
{
    let chars = chars_of(text);
    let stripped = strip_comment_chars(chars.as_slice());
    string_of(stripped.as_slice())
}

/// Removing comments keeps every newline: the text has as many lines afterwards.
pub proof fn lemma_strip_keeps_newlines(s: Seq<char>)
    ensures
        count_char(strip_spec(s), '\n') == count_char(s, '\n'),
    decreases s.len(), 0nat,
{
    reveal_with_fuel(count_char, 2);
    if s.len() == 0 {
    } else if s[0] == '/' && s.len() > 1 && s[1] == '/' {
        let r = s.subrange(2, s.len() as int);
        lemma_line_keeps_newlines(r);
        assert(s.subrange(1, s.len() as int).subrange(1, s.len() - 1) =~= r);
    } else if s[0] == '/' && s.len() > 1 && s[1] == '*' {
        let r = s.subrange(2, s.len() as int);
        lemma_block_keeps_newlines(r);
        lemma_count_two_spaces(block_comment_spec(r));
        assert(s.subrange(1, s.len() as int).subrange(1, s.len() - 1) =~= r);
    } else {
        lemma_strip_keeps_newlines(s.subrange(1, s.len() as int));
        assert((seq![s[0]] + strip_spec(s.subrange(1, s.len() as int))).subrange(1, (seq![s[0]] + strip_spec(s.subrange(1, s.len() as int))).len() as int) =~= strip_spec(s.subrange(1, s.len() as int)));
    }
}

proof fn lemma_count_two_spaces(t: Seq<char>)
    ensures
        count_char(seq![' ', ' '] + t, '\n') == count_char(t, '\n'),
{
    reveal_with_fuel(count_char, 3);
    let u = seq![' ', ' '] + t;
    assert(u.subrange(1, u.len() as int) =~= seq![' '] + t);
    assert((seq![' '] + t).subrange(1, t.len() as int + 1) =~= t);
}

proof fn lemma_line_keeps_newlines(s: Seq<char>)
    ensures
        count_char(line_comment_spec(s), '\n') == count_char(s, '\n'),
    decreases s.len(), 1nat,
{
    if s.len() == 0 {
    } else if s[0] == '\n' {
        lemma_strip_keeps_newlines(s.subrange(1, s.len() as int));
        let t = strip_spec(s.subrange(1, s.len() as int));
        assert((seq!['\n'] + t).subrange(1, (seq!['\n'] + t).len() as int) =~= t);
    } else {
        lemma_line_keeps_newlines(s.subrange(1, s.len() as int));
    }
}

proof fn lemma_block_keeps_newlines(s: Seq<char>)
    ensures
        count_char(block_comment_spec(s), '\n') == count_char(s, '\n'),
    decreases s.len(), 1nat,
{
    reveal_with_fuel(count_char, 2);
    if s.len() == 0 {
    } else if s[0] == '*' && s.len() > 1 && s[1] == '/' {
        lemma_strip_keeps_newlines(s.subrange(2, s.len() as int));
        lemma_count_two_spaces(strip_spec(s.subrange(2, s.len() as int)));
        assert(s.subrange(1, s.len() as int).subrange(1, s.len() - 1) =~= s.subrange(2, s.len() as int));
    } else {
        lemma_block_keeps_newlines(s.subrange(1, s.len() as int));
        let d = if s[0] == '\n' { '\n' } else { ' ' };
        let t = block_comment_spec(s.subrange(1, s.len() as int));
        assert((seq![d] + t).subrange(1, (seq![d] + t).len() as int) =~= t);
    }
}

/// Text without a `/` has no comment and is kept as it is.
pub proof fn lemma_strip_without_slash(s: Seq<char>)
    requires
        forall|i: int| 0 <= i < s.len() ==> s[i] != '/',
    ensures
        strip_spec(s) == s,
    decreases s.len(),
{
    if s.len() > 0 {
        lemma_strip_without_slash(s.subrange(1, s.len() as int));
        assert(seq![s[0]] + s.subrange(1, s.len() as int) =~= s);
    }
}

} // verus!
