//! Splitting preprocessed SFZ text into headers and opcodes.

use vstd::prelude::*;
use crate::text::{chars_of, is_whitespace, is_ws, string_of, lowercase, text_lower};

verus! {

/// What a token is: a `<header>` or a `key=value` opcode.
#[derive(Debug, Clone, PartialEq, Eq)]
pub enum TokenKind {
    Header(String),
    Opcode(String, String),
}

/// A token together with the line it starts on (counting from 1).
#[derive(Debug, Clone, PartialEq, Eq)]
pub struct Token {
    pub kind: TokenKind,
    pub line: usize,
}

/// A token as characters: a header's name, or an opcode's key and value, and its line.
pub enum TokenView {
    Header(Seq<char>, nat),
    Opcode(Seq<char>, Seq<char>, nat),
}

/// The characters a token holds.
pub open spec fn token_view(t: Token) -> TokenView {
    match t.kind {
        TokenKind::Header(name) => TokenView::Header(name@, t.line as nat),
        TokenKind::Opcode(k, v) => TokenView::Opcode(k@, v@, t.line as nat),
    }
}

/// The characters of a list of tokens.
pub open spec fn tokens_view(ts: Seq<Token>) -> Seq<TokenView> {
    Seq::new(ts.len(), |i: int| token_view(ts[i]))
}

/// The position of the first `>` at or after `i`, or the end of `s`.
pub open spec fn close_pos(s: Seq<char>, i: int) -> int
    decreases s.len() - i,
{
    if i >= s.len() {
        s.len() as int
    } else if s[i] == '>' {
        i
    } else {
        close_pos(s, i + 1)
    }
}

/// The position where an opcode key starting at `i` ends: the first `=`, white
/// space or `<`, or the end of `s`.
pub open spec fn key_end(s: Seq<char>, i: int) -> int
    decreases s.len() - i,
{
    if i >= s.len() {
        s.len() as int
    } else if s[i] == '=' || is_ws(s[i]) || s[i] == '<' {
        i
    } else {
        key_end(s, i + 1)
    }
}

/// The value of an opcode starting at `i` and the position after it. The value runs
/// up to white space or `<`. A backslash before white space, `<` or another
/// backslash puts that character into the value; any other backslash is kept as it
/// is; a backslash at the very end is dropped.
pub open spec fn value_scan(s: Seq<char>, i: int) -> (Seq<char>, int)
    decreases s.len() - i,
{
    if i < 0 || i >= s.len() {
        (Seq::empty(), s.len() as int)
    } else if s[i] == '\\' {
        if i + 1 < s.len() {
            let e = s[i + 1];
            if is_ws(e) || e == '<' || e == '\\' {
                let r = value_scan(s, i + 2);
                (seq![e] + r.0, r.1)
            } else {
                let r = value_scan(s, i + 1);
                (seq!['\\'] + r.0, r.1)
            }
        } else {
            (Seq::empty(), s.len() as int)
        }
    } else if is_ws(s[i]) || s[i] == '<' {
        (Seq::empty(), i)
    } else {
        let r = value_scan(s, i + 1);
        (seq![s[i]] + r.0, r.1)
    }
}

/// The tokens of `s` from position `i` on, the current line being `line`.
///
/// A `<` starts a header that runs to the next `>` (or the end); white space is
/// skipped, a newline there counting one line; anything else starts an opcode key
/// that runs to `=`, white space or `<`, followed after `=` by its value. A lone `=`
/// where a key should start is skipped together with the character after it. Header
/// names and keys are lower-cased.
pub open spec fn tokens_from(s: Seq<char>, i: int, line: nat) -> Seq<TokenView>
    decreases s.len() - i,
{
    if i < 0 || i >= s.len() {
        Seq::empty()
    } else if s[i] == '<' {
        let j = close_pos(s, i + 1);
        proof {
            lemma_close_pos_bounds(s, i + 1);
        }
        let next = if j < s.len() {
            j + 1
        } else {
            s.len() as int
        };
        seq![TokenView::Header(text_lower(s.subrange(i + 1, j)), line)] + tokens_from(
            s,
            next,
            line,
        )
    } else if is_ws(s[i]) {
        tokens_from(
            s,
            i + 1,
            if s[i] == '\n' {
                line + 1
            } else {
                line
            },
        )
    } else {
        let j = key_end(s, i);
        proof {
            lemma_key_end_bounds(s, i);
        }
        if j == i {
            tokens_from(
                s,
                if i + 2 <= s.len() {
                    i + 2
                } else {
                    s.len() as int
                },
                line,
            )
        } else {
            let after = if j < s.len() && s[j] == '=' {
                j + 1
            } else {
                j
            };
            let v = value_scan(s, after);
            proof {
                lemma_value_scan_bounds(s, after);
            }
            seq![TokenView::Opcode(text_lower(s.subrange(i, j)), v.0, line)] + tokens_from(
                s,
                v.1,
                line,
            )
        }
    }
}

/// The tokens of the whole text `s`, starting on line 1.
pub open spec fn tokenize_spec(s: Seq<char>) -> Seq<TokenView> {
    tokens_from(s, 0, 1)
}

pub proof fn lemma_close_pos_bounds(s: Seq<char>, i: int)
    requires
        0 <= i <= s.len(),
    ensures
        i <= close_pos(s, i) <= s.len(),
        close_pos(s, i) < s.len() ==> s[close_pos(s, i)] == '>',
    decreases s.len() - i,
{
    if i < s.len() && s[i] != '>' {
        lemma_close_pos_bounds(s, i + 1);
    }
}

pub proof fn lemma_key_end_bounds(s: Seq<char>, i: int)
    requires
        0 <= i <= s.len(),
    ensures
        i <= key_end(s, i) <= s.len(),
    decreases s.len() - i,
{
    if i < s.len() && !(s[i] == '=' || is_ws(s[i]) || s[i] == '<') {
        lemma_key_end_bounds(s, i + 1);
    }
}

pub proof fn lemma_value_scan_bounds(s: Seq<char>, i: int)
    requires
        0 <= i <= s.len(),
    ensures
        i <= value_scan(s, i).1 <= s.len(),
    decreases s.len() - i,
{
    if i < s.len() {
        if s[i] == '\\' {
            if i + 1 < s.len() {
                let e = s[i + 1];
                if is_ws(e) || e == '<' || e == '\\' {
                    lemma_value_scan_bounds(s, i + 2);
                } else {
                    lemma_value_scan_bounds(s, i + 1);
                }
            }
        } else if !(is_ws(s[i]) || s[i] == '<') {
            lemma_value_scan_bounds(s, i + 1);
        }
    }
}

fn scan_close(s: &[char], i: usize) -> (j: usize)
    requires
        i <= s@.len(),
    ensures
        j == close_pos(s@, i as int),
{
    let mut j = i;
    while j < s.len() && s[j] != '>'
        invariant
            i <= j <= s@.len(),
            close_pos(s@, j as int) == close_pos(s@, i as int),
        decreases s@.len() - j,
    {
        j = j + 1;
    }
    j
}

fn scan_key(s: &[char], i: usize) -> (j: usize)
    requires
        i <= s@.len(),
    ensures
        j == key_end(s@, i as int),
{
    let mut j = i;
    while j < s.len() && !(s[j] == '=' || is_whitespace(s[j]) || s[j] == '<')
        invariant
            i <= j <= s@.len(),
            key_end(s@, j as int) == key_end(s@, i as int),
        decreases s@.len() - j,
    {
        j = j + 1;
    }
    j
}

fn scan_value(s: &[char], i: usize) -> (r: (Vec<char>, usize))
    requires
        i <= s@.len(),
    ensures
        r.0@ == value_scan(s@, i as int).0,
        r.1 == value_scan(s@, i as int).1,
{
    let mut out: Vec<char> = Vec::new();
    let mut k = i;
    let n = s.len();
    loop
        invariant
            i <= k <= n,
            n == s@.len(),
            out@ + value_scan(s@, k as int).0 == value_scan(s@, i as int).0,
            value_scan(s@, k as int).1 == value_scan(s@, i as int).1,
        decreases n - k,
    {
        if k >= n {
            assert(out@ + Seq::<char>::empty() =~= out@);
            return (out, n);
        }
        let c = s[k];
        if c == '\\' {
            if k + 1 < n {
                let e = s[k + 1];
                if is_whitespace(e) || e == '<' || e == '\\' {
                    assert(out@.push(e) + value_scan(s@, k + 2).0 =~= out@ + (seq![e] + value_scan(s@, k + 2).0));
                    out.push(e);
                    k = k + 2;
                } else {
                    assert(out@.push('\\') + value_scan(s@, k + 1).0 =~= out@ + (seq!['\\'] + value_scan(s@, k + 1).0));
                    out.push('\\');
                    k = k + 1;
                }
            } else {
                assert(out@ + Seq::<char>::empty() =~= out@);
                return (out, n);
            }
        } else if is_whitespace(c) || c == '<' {
            assert(out@ + Seq::<char>::empty() =~= out@);
            return (out, k);
        } else {
            assert(out@.push(c) + value_scan(s@, k + 1).0 =~= out@ + (seq![c] + value_scan(s@, k + 1).0));
            out.push(c);
            k = k + 1;
        }
    }
}

fn slice_string(s: &[char], from: usize, to: usize) -> (r: String)
    requires
        from <= to <= s@.len(),
    ensures
        r@ == s@.subrange(from as int, to as int),
{
    let mut v: Vec<char> = Vec::new();
    let mut k = from;
    while k < to
        invariant
            from <= k <= to,
            to <= s@.len(),
            v@ == s@.subrange(from as int, k as int),
        decreases to - k,
    {
        v.push(s[k]);
        k = k + 1;
        assert(v@ =~= s@.subrange(from as int, k as int));
    }
    string_of(v.as_slice())
}

fn lowered(s: &[char], from: usize, to: usize) -> (r: String)
    requires
        from <= to <= s@.len(),
    ensures
        r@ == text_lower(s@.subrange(from as int, to as int)),
{
    let raw = slice_string(s, from, to);
    lowercase(raw.as_str())
}

/// The tokens of the characters `s`, as `tokenize_spec` describes.
pub fn tokenize_chars(s: &[char]) -> (tokens: Vec<Token>)
    requires
        s@.len() < usize::MAX,
    ensures
        tokens_view(tokens@) == tokenize_spec(s@),
{
    let mut tokens: Vec<Token> = Vec::new();
    let mut line: usize = 1;
    let mut i: usize = 0;
    let n = s.len();
    while i < n
        invariant
            n == s@.len(),
            n < usize::MAX,
            i <= n,
            1 <= line <= 1 + i,
            tokens_view(tokens@) + tokens_from(s@, i as int, line as nat) == tokenize_spec(s@),
        decreases n - i,
    {
        let c = s[i];
        let ghost before = tokens_view(tokens@);
        if c == '<' {
            let j = scan_close(s, i + 1);
            proof {
                lemma_close_pos_bounds(s@, i + 1);
            }
            let name = lowered(s, i + 1, j);
            let next = if j < n {
                j + 1
            } else {
                n
            };
            let t = Token { kind: TokenKind::Header(name), line };
            tokens.push(t);
            proof {
                assert(tokens_view(tokens@) =~= before.push(token_view(t)));
                assert(before.push(token_view(t)) + tokens_from(s@, next as int, line as nat) =~= before + (seq![token_view(t)] + tokens_from(s@, next as int, line as nat)));
            }
            i = next;
        } else if is_whitespace(c) {
            if c == '\n' {
                line = line + 1;
            }
            i = i + 1;
        } else {
            let j = scan_key(s, i);
            proof {
                lemma_key_end_bounds(s@, i as int);
            }
            if j == i {
                i = if n - i >= 2 {
                    i + 2
                } else {
                    n
                };
            } else {
                let after = if j < n && s[j] == '=' {
                    j + 1
                } else {
                    j
                };
                let key = lowered(s, i, j);
                let (value_chars, k) = scan_value(s, after);
                proof {
                    lemma_value_scan_bounds(s@, after as int);
                }
                let value = string_of(value_chars.as_slice());
                let t = Token { kind: TokenKind::Opcode(key, value), line };
                tokens.push(t);
                proof {
                    assert(tokens_view(tokens@) =~= before.push(token_view(t)));
                    assert(before.push(token_view(t)) + tokens_from(s@, k as int, line as nat) =~= before + (seq![token_view(t)] + tokens_from(s@, k as int, line as nat)));
                }
                i = k;
            }
        }
    }
    proof {
        assert(tokens_view(tokens@) + Seq::<TokenView>::empty() =~= tokens_view(tokens@));
    }
    tokens
}

/// Splits preprocessed SFZ text into `<header>` and `key=value` tokens, each with
/// the line it starts on.
pub fn tokenize(text: &str) -> (tokens: Vec<Token>)
    requires
        text@.len() < usize::MAX,
    ensures
        tokens_view(tokens@) == tokenize_spec(text@),
{
    let chars = chars_of(text);
    tokenize_chars(chars.as_slice())
}

/// The line a token starts on.
pub open spec fn token_line(t: TokenView) -> nat {
    match t {
        TokenView::Header(_, l) => l,
        TokenView::Opcode(_, _, l) => l,
    }
}

proof fn lemma_tokens_from_lines(s: Seq<char>, i: int, line: nat)
    requires
        0 <= i <= s.len(),
    ensures
        forall|k: int| 0 <= k < tokens_from(s, i, line).len() ==> token_line(#[trigger] tokens_from(s, i, line)[k]) >= line,
        forall|a: int, b: int| 0 <= a <= b < tokens_from(s, i, line).len() ==> token_line(#[trigger] tokens_from(s, i, line)[a])
            <= token_line(#[trigger] tokens_from(s, i, line)[b]),
    decreases s.len() - i,
{
    if i < s.len() {
        if s[i] == '<' {
            lemma_close_pos_bounds(s, i + 1);
            let j = close_pos(s, i + 1);
            let next = if j < s.len() { j + 1 } else { s.len() as int };
            lemma_tokens_from_lines(s, next, line);
            let rest = tokens_from(s, next, line);
            let all = tokens_from(s, i, line);
            assert(all == seq![TokenView::Header(text_lower(s.subrange(i + 1, j)), line)] + rest);
            assert forall|k: int| 0 <= k < all.len() implies token_line(#[trigger] all[k]) >= line by {
                if k > 0 {
                    assert(all[k] == rest[k - 1]);
                }
            }
            assert forall|a: int, b: int| 0 <= a <= b < all.len() implies token_line(#[trigger] all[a]) <= token_line(#[trigger] all[b]) by {
                if a > 0 {
                    assert(all[a] == rest[a - 1]);
                    assert(all[b] == rest[b - 1]);
                } else if b > 0 {
                    assert(all[b] == rest[b - 1]);
                }
            }
        } else if is_ws(s[i]) {
            let nl = if s[i] == '\n' { line + 1 } else { line };
            lemma_tokens_from_lines(s, i + 1, nl);
            assert(tokens_from(s, i, line) == tokens_from(s, i + 1, nl));
        } else {
            lemma_key_end_bounds(s, i);
            let j = key_end(s, i);
            if j == i {
                let next = if i + 2 <= s.len() { i + 2 } else { s.len() as int };
                lemma_tokens_from_lines(s, next, line);
                assert(tokens_from(s, i, line) == tokens_from(s, next, line));
            } else {
                let after = if j < s.len() && s[j] == '=' { j + 1 } else { j };
                lemma_value_scan_bounds(s, after);
                let v = value_scan(s, after);
                lemma_tokens_from_lines(s, v.1, line);
                let rest = tokens_from(s, v.1, line);
                let all = tokens_from(s, i, line);
                assert(all == seq![TokenView::Opcode(text_lower(s.subrange(i, j)), v.0, line)] + rest);
                assert forall|k: int| 0 <= k < all.len() implies token_line(#[trigger] all[k]) >= line by {
                    if k > 0 {
                        assert(all[k] == rest[k - 1]);
                    }
                }
                assert forall|a: int, b: int| 0 <= a <= b < all.len() implies token_line(#[trigger] all[a]) <= token_line(#[trigger] all[b]) by {
                    if a > 0 {
                        assert(all[a] == rest[a - 1]);
                        assert(all[b] == rest[b - 1]);
                    } else if b > 0 {
                        assert(all[b] == rest[b - 1]);
                    }
                }
            }
        }
    }
}

/// Tokens come in the order of their lines, and every line is at least 1.
pub proof fn lemma_token_lines_ordered(s: Seq<char>)
    ensures
        forall|k: int| 0 <= k < tokenize_spec(s).len() ==> token_line(#[trigger] tokenize_spec(s)[k]) >= 1,
        forall|a: int, b: int| 0 <= a <= b < tokenize_spec(s).len() ==> token_line(#[trigger] tokenize_spec(s)[a])
            <= token_line(#[trigger] tokenize_spec(s)[b]),
{
    lemma_tokens_from_lines(s, 0, 1);
}

} // verus!
