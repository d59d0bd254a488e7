//! Line-by-line handling of SFZ preprocessor directives.

use vstd::prelude::*;
use crate::sfz_preprocess::{apply_from, def_lookup, DefineTable, SfzError, slice_vec};
use crate::text::{chars_of, chars_eq_str, is_whitespace, is_ws, push_all, string_of};

verus! {

/// The state of one `#if` section.
#[derive(Debug, Clone, Copy, PartialEq, Eq, Structural)]
pub enum IfState {
    /// The current branch is taken.
    Taking,
    /// No branch has been taken yet; the current one is skipped.
    Skipping,
    /// A branch was taken; the rest are skipped.
    Done,
}

/// Lines are kept when every open `#if` section is taking its current branch.
pub open spec fn all_taking(stack: Seq<IfState>) -> bool {
    forall|i: int| 0 <= i < stack.len() ==> stack[i] == IfState::Taking
}

/// The first position at or after `i` that holds no white space, or the end.
pub open spec fn first_non_ws(s: Seq<char>, i: int) -> int
    decreases s.len() - i,
{
    if i < 0 || i >= s.len() {
        if i < 0 { 0 } else { s.len() as int }
    } else if is_ws(s[i]) {
        first_non_ws(s, i + 1)
    } else {
        i
    }
}

/// The first position at or after `i` that holds white space, or the end.
pub open spec fn first_ws(s: Seq<char>, i: int) -> int
    decreases s.len() - i,
{
    if i < 0 || i >= s.len() {
        if i < 0 { 0 } else { s.len() as int }
    } else if is_ws(s[i]) {
        i
    } else {
        first_ws(s, i + 1)
    }
}

/// The words (maximal runs without white space) of `s` from `i` on.
pub open spec fn words_from(s: Seq<char>, i: int) -> Seq<Seq<char>>
    decreases s.len() - i,
{
    if i < 0 || i >= s.len() {
        Seq::empty()
    } else if is_ws(s[i]) {
        words_from(s, i + 1)
    } else {
        let j = first_ws(s, i);
        proof {
            lemma_first_ws_bounds(s, i + 1);
        }
        seq![s.subrange(i, j)] + words_from(s, j)
    }
}

/// The words joined by single spaces.
pub open spec fn join_spaces(parts: Seq<Seq<char>>) -> Seq<char>
    decreases parts.len(),
{
    if parts.len() == 0 {
        Seq::empty()
    } else if parts.len() == 1 {
        parts[0]
    } else {
        join_spaces(parts.drop_last()) + seq![' '] + parts.last()
    }
}

/// The words of a directive line (one whose first non-blank character is `#`), taken
/// after the `#`; `None` for other lines.
pub open spec fn directive_words(line: Seq<char>) -> Option<Seq<Seq<char>>> {
    let a = first_non_ws(line, 0);
    if a < line.len() && line[a] == '#' {
        Some(words_from(line, a + 1))
    } else {
        None
    }
}

/// Whether the condition word of an `#if` holds: `!NAME` when `NAME` is not defined,
/// `NAME` when it is.
pub open spec fn if_condition_holds(defs: Seq<(Seq<char>, Seq<char>)>, cond: Seq<char>) -> bool {
    if cond.len() > 0 && cond[0] == '!' {
        def_lookup(defs, cond.subrange(1, cond.len() as int)) is None
    } else {
        def_lookup(defs, cond) is Some
    }
}

/// What handling a line asks for.
pub enum StepResult {
    /// Go on with the next line.
    Continue,
    /// Insert the preprocessed contents of the file named here, then go on.
    Include(Seq<char>),
    /// Stop with this message at this line.
    Fail(Seq<char>, int),
}

/// The effect of one line on the preprocessor: the result, the new `#if` stack, the
/// new output, and the definition the line makes, if any.
pub struct LineStep {
    pub result: StepResult,
    pub stack: Seq<IfState>,
    pub out: Seq<char>,
    pub define: Option<(Seq<char>, Seq<char>)>,
}

/// The state after `#else`.
pub open spec fn else_state(s: IfState) -> IfState {
    match s {
        IfState::Taking => IfState::Done,
        IfState::Skipping => IfState::Taking,
        IfState::Done => IfState::Done,
    }
}

/// How line `line_no` (counting from 0) changes the preprocessor. Directives:
/// `#include PATH` asks for a file (when lines are kept), `#define NAME VALUE...`
/// defines (when lines are kept), `#if COND` opens a section, `#else` switches
/// branch, `#endif` (or `#end`) closes a section; other `#` words are ignored. Any other line is
/// copied to the output, definitions substituted, when lines are kept.
pub open spec fn line_step(
    stack: Seq<IfState>,
    out: Seq<char>,
    defs: Seq<(Seq<char>, Seq<char>)>,
    line_no: int,
    line: Seq<char>,
) -> LineStep {
    let unchanged = LineStep { result: StepResult::Continue, stack, out, define: None };
    match directive_words(line) {
        None => if all_taking(stack) {
            LineStep {
                result: StepResult::Continue,
                stack,
                out: out + apply_from(defs, line, 0) + seq!['\n'],
                define: None,
            }
        } else {
            unchanged
        },
        Some(parts) => if parts.len() == 0 {
            unchanged
        } else if parts[0] == "include"@ {
            if !all_taking(stack) {
                unchanged
            } else if parts.len() < 2 {
                LineStep { result: StepResult::Fail("#include missing path"@, line_no + 1), stack, out, define: None }
            } else {
                LineStep {
                    result: StepResult::Include(join_spaces(parts.subrange(1, parts.len() as int))),
                    stack,
                    out,
                    define: None,
                }
            }
        } else if parts[0] == "define"@ {
            if !all_taking(stack) {
                unchanged
            } else if parts.len() < 2 {
                LineStep { result: StepResult::Fail("#define missing name"@, line_no + 1), stack, out, define: None }
            } else {
                LineStep {
                    result: StepResult::Continue,
                    stack,
                    out,
                    define: Some(
                        (
                            parts[1],
                            if parts.len() > 2 {
                                join_spaces(parts.subrange(2, parts.len() as int))
                            } else {
                                Seq::empty()
                            },
                        ),
                    ),
                }
            }
        } else if parts[0] == "if"@ {
            let cond = if parts.len() > 1 {
                parts[1]
            } else {
                Seq::empty()
            };
            let taking = all_taking(stack) && if_condition_holds(defs, cond);
            LineStep {
                result: StepResult::Continue,
                stack: stack.push(
                    if taking {
                        IfState::Taking
                    } else {
                        IfState::Skipping
                    },
                ),
                out,
                define: None,
            }
        } else if parts[0] == "else"@ {
            if stack.len() == 0 {
                LineStep { result: StepResult::Fail("#else without #if"@, line_no + 1), stack, out, define: None }
            } else {
                LineStep {
                    result: StepResult::Continue,
                    stack: stack.update(stack.len() - 1, else_state(stack.last())),
                    out,
                    define: None,
                }
            }
        } else if parts[0] == "endif"@ || parts[0] == "end"@ {
            if stack.len() == 0 {
                LineStep {
                    result: StepResult::Fail(if parts[0] == "end"@ { "#end without #if"@ } else { "#endif without #if"@ }, line_no + 1),
                    stack,
                    out,
                    define: None,
                }
            } else {
                LineStep { result: StepResult::Continue, stack: stack.drop_last(), out, define: None }
            }
        } else {
            unchanged
        },
    }
}

pub proof fn lemma_first_ws_bounds(s: Seq<char>, i: int)
    requires
        0 <= i <= s.len(),
    ensures
        i <= first_ws(s, i) <= s.len(),
        forall|k: int| i <= k < first_ws(s, i) ==> !is_ws(#[trigger] s[k]),
    decreases s.len() - i,
{
    if i < s.len() && !is_ws(s[i]) {
        lemma_first_ws_bounds(s, i + 1);
    }
}

/// The preprocessor's state: the open `#if` sections and the text produced so far.
#[derive(Debug, Clone)]
pub struct Preprocessor {
    if_stack: Vec<IfState>,
    output: Vec<char>,
}

fn scan_non_ws(s: &[char], i: usize) -> (j: usize)
    requires
        i <= s@.len(),
    ensures
        j as int == first_non_ws(s@, i as int),
        i <= j <= s@.len(),
{
    let mut j = i;
    while j < s.len() && is_whitespace(s[j])
        invariant
            i <= j <= s@.len(),
            first_non_ws(s@, j as int) == first_non_ws(s@, i as int),
        decreases s@.len() - j,
    {
        j = j + 1;
    }
    j
}

fn scan_ws(s: &[char], i: usize) -> (j: usize)
    requires
        i <= s@.len(),
    ensures
        j as int == first_ws(s@, i as int),
        i <= j <= s@.len(),
{
    let mut j = i;
    while j < s.len() && !is_whitespace(s[j])
        invariant
            i <= j <= s@.len(),
            first_ws(s@, j as int) == first_ws(s@, i as int),
        decreases s@.len() - j,
    {
        j = j + 1;
    }
    j
}

/// The characters of each word.
pub open spec fn words_view(ws: Seq<Vec<char>>) -> Seq<Seq<char>> {
    Seq::new(ws.len(), |i: int| ws[i]@)
}

/// The words of `s` from `i` on, as `words_from` describes.
pub fn split_words(s: &[char], i: usize) -> (ws: Vec<Vec<char>>)
    requires
        i <= s@.len(),
    ensures
        words_view(ws@) == words_from(s@, i as int),
{
    let mut ws: Vec<Vec<char>> = Vec::new();
    let mut k = i;
    while k < s.len()
        invariant
            i <= k <= s@.len(),
            words_view(ws@) + words_from(s@, k as int) == words_from(s@, i as int),
        decreases s@.len() - k,
    {
        if is_whitespace(s[k]) {
            k = k + 1;
        } else {
            let j = scan_ws(s, k);
            let w = slice_vec(s, k, j);
            let ghost before = words_view(ws@);
            ws.push(w);
            assert(words_view(ws@) =~= before.push(w@));
            assert(before.push(w@) + words_from(s@, j as int) =~= before + (seq![w@] + words_from(s@, j as int)));
            k = j;
        }
    }
    assert(words_view(ws@) + Seq::<Seq<char>>::empty() =~= words_view(ws@));
    ws
}

/// The words from index `from` on, joined by single spaces.
pub fn join_words(ws: &Vec<Vec<char>>, from: usize) -> (r: Vec<char>)
    requires
        from <= ws@.len(),
    ensures
        r@ == join_spaces(words_view(ws@).subrange(from as int, ws@.len() as int)),
{
    let mut r: Vec<char> = Vec::new();
    let mut k = from;
    while k < ws.len()
        invariant
            from <= k <= ws@.len(),
            r@ == join_spaces(words_view(ws@).subrange(from as int, k as int)),
        decreases ws@.len() - k,
    {
        let ghost prev = words_view(ws@).subrange(from as int, k as int);
        let ghost next = words_view(ws@).subrange(from as int, k + 1);
        assert(next.drop_last() =~= prev);
        if k > from {
            r.push(' ');
        } else {
            assert(prev =~= Seq::<Seq<char>>::empty());
        }
        push_all(&mut r, ws[k].as_slice());
        k = k + 1;
    }
    r
}

fn fail(message: &str, line: usize) -> (r: Result<Option<String>, SfzError>)
    ensures
        r matches Err(e) && e.message@ == message@ && e.line == line && e.column == 1,
{
    Err(SfzError { message: message.to_owned(), line, column: 1 })
}

impl Preprocessor {
    /// The open `#if` sections, outermost first.
    pub closed spec fn stack(&self) -> Seq<IfState> {
        self.if_stack@
    }

    /// The text produced so far.
    pub closed spec fn out(&self) -> Seq<char> {
        self.output@
    }

    /// A preprocessor with no open sections and no output.
    pub fn new() -> (p: Self)
        ensures
            p.stack().len() == 0,
            p.out().len() == 0,
    {
        Preprocessor { if_stack: Vec::new(), output: Vec::new() }
    }

    fn is_active(&self) -> (r: bool)
        ensures
            r == all_taking(self.stack()),
    {
        let mut i: usize = 0;
        while i < self.if_stack.len()
            invariant
                i <= self.if_stack@.len(),
                forall|k: int| 0 <= k < i ==> self.if_stack@[k] == IfState::Taking,
            decreases self.if_stack@.len() - i,
        {
            if self.if_stack[i] != IfState::Taking {
                return false;
            }
            i = i + 1;
        }
        true
    }

    /// Handles line `line_no` (counting from 0), as `line_step` describes. A request
    /// for an included file comes back as `Ok(Some(path))`; the caller preprocesses
    /// that file with the same definitions and hands its text to `push_included`.
    pub fn feed_line(&mut self, defines: &mut DefineTable, line_no: usize, line: &str) -> (r: Result<Option<String>, SfzError>)
        requires
            line_no < usize::MAX,
        ensures
            ({
                let st = line_step(old(self).stack(), old(self).out(), old(defines).entries(), line_no as int, line@);
                &&& final(self).stack() == st.stack
                &&& final(self).out() == st.out
                &&& match st.define {
                    Some((n, v)) => final(defines).entries() == old(defines).entries().push((n, v)),
                    None => final(defines).entries() == old(defines).entries(),
                }
                &&& match st.result {
                    StepResult::Continue => r == Ok::<Option<String>, SfzError>(None),
                    StepResult::Include(p) => r matches Ok(Some(path)) && path@ == p,
                    StepResult::Fail(m, l) => r matches Err(e) && e.message@ == m && e.line == l && e.column == 1,
                }
            }),
    {
        let chars = chars_of(line);
        let a = scan_non_ws(chars.as_slice(), 0);
        if !(a < chars.len() && chars[a] == '#') {
            if self.is_active() {
                let applied = defines.apply_chars(chars.as_slice());
                push_all(&mut self.output, applied.as_slice());
                self.output.push('\n');
            }
            return Ok(None);
        }
        let parts = split_words(chars.as_slice(), a + 1);
        let ghost pv = words_view(parts@);
        if parts.len() == 0 {
            return Ok(None);
        }
        let d = parts[0].as_slice();
        if chars_eq_str(d, "include") {
            if !self.is_active() {
                return Ok(None);
            }
            if parts.len() < 2 {
                return fail("#include missing path", line_no + 1);
            }
            let path = join_words(&parts, 1);
            return Ok(Some(string_of(path.as_slice())));
        } else if chars_eq_str(d, "define") {
            if !self.is_active() {
                return Ok(None);
            }
            if parts.len() < 2 {
                return fail("#define missing name", line_no + 1);
            }
            let name = string_of(parts[1].as_slice());
            let value = if parts.len() > 2 {
                let j = join_words(&parts, 2);
                string_of(j.as_slice())
            } else {
                String::new()
            };
            defines.define(name, value);
            return Ok(None);
        } else if chars_eq_str(d, "if") {
            let empty: Vec<char> = Vec::new();
            let cond: &[char] = if parts.len() > 1 {
                parts[1].as_slice()
            } else {
                empty.as_slice()
            };
            let holds = if cond.len() > 0 && cond[0] == '!' {
                let rest = slice_vec(cond, 1, cond.len());
                !defines.is_defined(rest.as_slice())
            } else {
                defines.is_defined(cond)
            };
            let taking = self.is_active() && holds;
            self.if_stack.push(if taking { IfState::Taking } else { IfState::Skipping });
            return Ok(None);
        } else if chars_eq_str(d, "else") {
            if self.if_stack.len() == 0 {
                return fail("#else without #if", line_no + 1);
            }
            let last = self.if_stack.len() - 1;
            let next = match self.if_stack[last] {
                IfState::Taking => IfState::Done,
                IfState::Skipping => IfState::Taking,
                IfState::Done => IfState::Done,
            };
            self.if_stack.set(last, next);
            return Ok(None);
        } else if chars_eq_str(d, "endif") || chars_eq_str(d, "end") {
            if self.if_stack.len() == 0 {
                if chars_eq_str(d, "end") {
                    return fail("#end without #if", line_no + 1);
                }
                return fail("#endif without #if", line_no + 1);
            }
            self.if_stack.pop();
            return Ok(None);
        }
        Ok(None)
    }

    /// Appends the preprocessed text of an included file, followed by a newline.
    pub fn push_included(&mut self, text: &str)
        ensures
            final(self).stack() == old(self).stack(),
            final(self).out() == old(self).out() + text@ + seq!['\n'],
    {
        let chars = chars_of(text);
        push_all(&mut self.output, chars.as_slice());
        self.output.push('\n');
    }

    /// The preprocessed text, or an error at line `line_count` when an `#if` section
    /// is still open.
    pub fn finish(&self, line_count: usize) -> (r: Result<String, SfzError>)
        ensures
            self.stack().len() == 0 ==> (r matches Ok(s) && s@ == self.out()),
            self.stack().len() > 0 ==> (r matches Err(e) && e.message@ == "Unclosed #if block"@
                && e.line == line_count && e.column == 1),
    {
        if self.if_stack.len() > 0 {
            return Err(SfzError { message: "Unclosed #if block".to_owned(), line: line_count, column: 1 });
        }
        Ok(string_of(self.output.as_slice()))
    }
}

/// The first position at or after `i` holding a newline, or the end.
pub open spec fn newline_pos(s: Seq<char>, i: int) -> int
    decreases s.len() - i,
{
    if i < 0 || i >= s.len() {
        if i < 0 { 0 } else { s.len() as int }
    } else if s[i] == '\n' {
        i
    } else {
        newline_pos(s, i + 1)
    }
}

pub proof fn lemma_newline_pos_bounds(s: Seq<char>, i: int)
    requires
        0 <= i <= s.len(),
    ensures
        i <= newline_pos(s, i) <= s.len(),
        newline_pos(s, i) < s.len() ==> s[newline_pos(s, i)] == '\n',
    decreases s.len() - i,
{
    if i < s.len() && s[i] != '\n' {
        lemma_newline_pos_bounds(s, i + 1);
    }
}

/// The lines of `s` from `i` on: the text between newlines, a `\r` before a newline
/// removed; a newline at the very end starts no further line.
pub open spec fn lines_from(s: Seq<char>, i: int) -> Seq<Seq<char>>
    decreases s.len() - i,
{
    if i < 0 || i >= s.len() {
        Seq::empty()
    } else {
        let j = newline_pos(s, i);
        proof {
            lemma_newline_pos_bounds(s, i);
        }
        let raw = s.subrange(i, j);
        let line = if j < s.len() && raw.len() > 0 && raw.last() == '\r' {
            raw.drop_last()
        } else {
            raw
        };
        seq![line] + lines_from(s, if j < s.len() { j + 1 } else { s.len() as int })
    }
}

/// The characters of each string.
pub open spec fn strings_view(v: Seq<String>) -> Seq<Seq<char>> {
    Seq::new(v.len(), |i: int| v[i]@)
}

/// Splits `text` into lines as `lines_from` describes.
pub fn split_lines(text: &str) -> (lines: Vec<String>)
    ensures
        strings_view(lines@) == lines_from(text@, 0),
{
    let s = chars_of(text);
    let n = s.len();
    let mut lines: Vec<String> = Vec::new();
    let mut i: usize = 0;
    while i < n
        invariant
            n == s@.len(),
            s@ == text@,
            i <= n,
            strings_view(lines@) + lines_from(s@, i as int) == lines_from(s@, 0),
        decreases n - i,
    {
        let mut j = i;
        while j < n && s[j] != '\n'
            invariant
                i <= j <= n,
                n == s@.len(),
                newline_pos(s@, j as int) == newline_pos(s@, i as int),
            decreases n - j,
        {
            j = j + 1;
        }
        proof {
            lemma_newline_pos_bounds(s@, i as int);
        }
        let end = if j < n && j > i && s[j - 1] == '\r' {
            j - 1
        } else {
            j
        };
        let piece = slice_vec(s.as_slice(), i, end);
        let line = string_of(piece.as_slice());
        let ghost before = strings_view(lines@);
        proof {
            let raw = s@.subrange(i as int, j as int);
            if j < n && j > i && s@[j - 1] == '\r' {
                assert(raw.drop_last() =~= s@.subrange(i as int, end as int));
            }
        }
        lines.push(line);
        assert(strings_view(lines@) =~= before.push(line@));
        let next = if j < n { j + 1 } else { n };
        assert(before.push(line@) + lines_from(s@, next as int) =~= before + (seq![line@] + lines_from(s@, next as int)));
        i = next;
    }
    assert(strings_view(lines@) + Seq::<Seq<char>>::empty() =~= strings_view(lines@));
    lines
}

/// The path an `#include` line names: its text trimmed, without one pair of
/// enclosing double quotes or angle brackets.
pub open spec fn include_spec_path(spec: Seq<char>) -> Seq<char> {
    let t = crate::text::trim_ws(spec);
    if t.len() >= 2 && ((t[0] == '"' && t.last() == '"') || (t[0] == '<' && t.last() == '>')) {
        t.subrange(1, t.len() - 1)
    } else {
        t
    }
}

/// The path an `#include` line names, as `include_spec_path` states.
pub fn unquote_include_spec(spec: &str) -> (r: String)
    ensures
        r@ == include_spec_path(spec@),
{
    let c = chars_of(spec);
    let (lo, hi) = crate::text::trimmed_bounds(c.as_slice(), 0, c.len());
    assert(c@.subrange(0, c@.len() as int) =~= c@);
    let ghost t = c@.subrange(lo as int, hi as int);
    let quoted = hi - lo >= 2 && ((c[lo] == '"' && c[hi - 1] == '"') || (c[lo] == '<' && c[hi - 1] == '>'));
    let (a, b) = if quoted { (lo + 1, hi - 1) } else { (lo, hi) };
    let mut out: Vec<char> = Vec::new();
    let mut i = a;
    while i < b
        invariant
            a <= i <= b <= c@.len(),
            out@ == c@.subrange(a as int, i as int),
        decreases b - i,
    {
        out.push(c[i]);
        i = i + 1;
        assert(out@ =~= c@.subrange(a as int, i as int));
    }
    proof {
        if quoted {
            assert(t[0] == c@[lo as int]);
            assert(t.last() == c@[hi - 1]);
            assert(out@ =~= t.subrange(1, t.len() - 1));
        } else {
            if t.len() >= 2 {
                assert(t[0] == c@[lo as int]);
                assert(t.last() == c@[hi - 1]);
            }
            assert(out@ =~= t);
        }
    }
    string_of(out.as_slice())
}

} // verus!
