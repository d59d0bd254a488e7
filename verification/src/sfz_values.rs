//! Reading SFZ opcode values: note names such as `c4`, `Db5` or `F#3`, and the
//! words SFZ uses for booleans.

use vstd::prelude::*;
use crate::sfz_numbers::{all_digits, digits_value, parse_digits_bounded, signed_text_value};
use crate::text::{chars_of, is_alpha, lower_ascii, str_eq, to_ascii_lower};

verus! {

/// The semitone of a lower-case note letter within its octave.
pub open spec fn letter_semitone(c: char) -> Option<int> {
    if c == 'c' {
        Some(0)
    } else if c == 'd' {
        Some(2)
    } else if c == 'e' {
        Some(4)
    } else if c == 'f' {
        Some(5)
    } else if c == 'g' {
        Some(7)
    } else if c == 'a' {
        Some(9)
    } else if c == 'b' {
        Some(11)
    } else {
        None
    }
}

/// The parts of a note name: the letter's semitone, the accidental (`#` or `s`
/// sharpens, `b` or `f` flattens when more follows) and the octave as std's `i32`
/// parsing reads the rest; `None` when `v` is no note name.
pub open spec fn note_name_parts(v: Seq<char>) -> Option<(int, int, int)> {
    if v.len() == 0 || !is_alpha(v[0]) {
        None
    } else {
        match letter_semitone(lower_ascii(v[0])) {
            None => None,
            Some(base) => {
                let rest = v.subrange(1, v.len() as int);
                let (acc, digits) = if rest.len() > 0 && (rest[0] == '#' || rest[0] == 's') {
                    (1int, rest.subrange(1, rest.len() as int))
                } else if rest.len() > 1 && (rest[0] == 'b' || rest[0] == 'f') {
                    (-1int, rest.subrange(1, rest.len() as int))
                } else {
                    (0int, rest)
                };
                match signed_text_value(digits) {
                    Some(o) => if i32::MIN <= o <= i32::MAX { Some((base, acc, o)) } else { None },
                    None => None,
                }
            },
        }
    }
}

/// The arithmetic of a note name stays within `i32`: `(octave + 1) * 12 + semitone +
/// accidental` and each step of it.
pub open spec fn note_name_fits(v: Seq<char>) -> bool {
    match note_name_parts(v) {
        Some((base, acc, o)) => {
            &&& o + 1 <= i32::MAX
            &&& i32::MIN <= (o + 1) * 12 <= i32::MAX
            &&& i32::MIN <= (o + 1) * 12 + base <= i32::MAX
            &&& i32::MIN <= (o + 1) * 12 + base + acc <= i32::MAX
        },
        None => true,
    }
}

/// The MIDI note a note name stands for (C4 is 60), when it is one from 0 to 127.
pub open spec fn note_name_value(v: Seq<char>) -> Option<u8> {
    match note_name_parts(v) {
        Some((base, acc, o)) => {
            let n = (o + 1) * 12 + base + acc;
            if 0 <= n <= 127 { Some(n as u8) } else { None }
        },
        None => None,
    }
}

/// The MIDI note a note name stands for, as a number, or -1 where it stands for none.
pub open spec fn note_number(v: Seq<char>) -> int {
    match note_name_value(v) {
        Some(n) => n as int,
        None => -1,
    }
}

proof fn lemma_digit_text(d: char)
    requires
        '0' as u32 <= d as u32 <= '9' as u32,
    ensures
        signed_text_value(seq![d]) == Some((d as u32 - '0' as u32) as int),
{
    let s = seq![d];
    assert(s.drop_last() =~= Seq::<char>::empty());
    assert(all_digits(s));
    assert(digits_value(Seq::<char>::empty()) == 0);
    assert(s.last() == d);
    assert(digits_value(s) == (d as u32 - '0' as u32) as nat);
}

proof fn lemma_letter_octave(l: char, d: char)
    requires
        letter_semitone(l) is Some,
        'a' as u32 <= l as u32 <= 'z' as u32,
        '0' as u32 <= d as u32 <= '8' as u32,
    ensures
        note_number(seq![l, d]) == ((d as u32 - '0' as u32) as int + 1) * 12 + letter_semitone(l)->0,
        note_number(seq![((l as u32) - 32) as char, d]) == note_number(seq![l, d]),
{
    lemma_digit_text(d);
    let v = seq![l, d];
    assert(v.subrange(1, 2) =~= seq![d]);
    let u = seq![((l as u32) - 32) as char, d];
    assert(u.subrange(1, 2) =~= seq![d]);
    assert(lower_ascii(((l as u32) - 32) as char) == l);
}

/// Note names follow scientific pitch: `c4` is 60; within an octave `d` is two above
/// `c`, `e` two above `d`, `f` one above `e`, `g` two above `f`, `a` two above `g` and
/// `b` two above `a`; `c` of the next octave is twelve above `c`; and an upper-case
/// letter names the same note as the lower-case one.
pub proof fn lemma_note_name_scale(d: char, next: char)
    requires
        '0' as u32 <= d as u32 <= '8' as u32,
        next as u32 == d as u32 + 1,
    ensures
        note_number(seq!['c', '4']) == 60,
        note_number(seq!['c', d]) >= 0,
        note_number(seq!['d', d]) == note_number(seq!['c', d]) + 2,
        note_number(seq!['e', d]) == note_number(seq!['d', d]) + 2,
        note_number(seq!['f', d]) == note_number(seq!['e', d]) + 1,
        note_number(seq!['g', d]) == note_number(seq!['f', d]) + 2,
        note_number(seq!['a', d]) == note_number(seq!['g', d]) + 2,
        note_number(seq!['b', d]) == note_number(seq!['a', d]) + 2,
        d as u32 <= '7' as u32 ==> note_number(seq!['c', next]) == note_number(seq!['c', d]) + 12,
        note_number(seq!['C', d]) == note_number(seq!['c', d]),
        note_number(seq!['D', d]) == note_number(seq!['d', d]),
        note_number(seq!['E', d]) == note_number(seq!['e', d]),
        note_number(seq!['F', d]) == note_number(seq!['f', d]),
        note_number(seq!['G', d]) == note_number(seq!['g', d]),
        note_number(seq!['A', d]) == note_number(seq!['a', d]),
        note_number(seq!['B', d]) == note_number(seq!['b', d]),
{
    lemma_letter_octave('c', '4');
    lemma_letter_octave('c', d);
    lemma_letter_octave('d', d);
    lemma_letter_octave('e', d);
    lemma_letter_octave('f', d);
    lemma_letter_octave('g', d);
    lemma_letter_octave('a', d);
    lemma_letter_octave('b', d);
    if d as u32 <= '7' as u32 {
        lemma_letter_octave('c', next);
    }
    assert((('c' as u32) - 32) as char == 'C');
    assert((('d' as u32) - 32) as char == 'D');
    assert((('e' as u32) - 32) as char == 'E');
    assert((('f' as u32) - 32) as char == 'F');
    assert((('g' as u32) - 32) as char == 'G');
    assert((('a' as u32) - 32) as char == 'A');
    assert((('b' as u32) - 32) as char == 'B');
}

/// A sharp (`#` or `s` after the letter) raises a note by one and a flat (`b` or `f`)
/// lowers it by one: for every letter and every octave digit from 0 to 8 (a flat where
/// the plain note is above 0).
pub proof fn lemma_note_accidentals(l: char, d: char)
    requires
        letter_semitone(l) is Some,
        'a' as u32 <= l as u32 <= 'z' as u32,
        '0' as u32 <= d as u32 <= '8' as u32,
    ensures
        note_number(seq![l, '#', d]) == note_number(seq![l, d]) + 1,
        note_number(seq![l, 's', d]) == note_number(seq![l, d]) + 1,
        note_number(seq![l, d]) >= 1 ==> note_number(seq![l, 'b', d]) == note_number(seq![l, d]) - 1,
        note_number(seq![l, d]) >= 1 ==> note_number(seq![l, 'f', d]) == note_number(seq![l, d]) - 1,
{
    lemma_letter_octave(l, d);
    lemma_digit_text(d);
    assert(seq![l, '#', d].subrange(1, 3).subrange(1, 2) =~= seq![d]);
    assert(seq![l, 's', d].subrange(1, 3).subrange(1, 2) =~= seq![d]);
    assert(seq![l, 'b', d].subrange(1, 3).subrange(1, 2) =~= seq![d]);
    assert(seq![l, 'f', d].subrange(1, 3).subrange(1, 2) =~= seq![d]);
}

fn semitone_of(c: char) -> (r: Option<i64>)
    ensures
        match letter_semitone(c) {
            Some(b) => r == Some(b as i64),
            None => r is None,
        },
{
    if c == 'c' {
        Some(0)
    } else if c == 'd' {
        Some(2)
    } else if c == 'e' {
        Some(4)
    } else if c == 'f' {
        Some(5)
    } else if c == 'g' {
        Some(7)
    } else if c == 'a' {
        Some(9)
    } else if c == 'b' {
        Some(11)
    } else {
        None
    }
}

/// The octave text from `from` on, as std's `i32` parsing reads it.
fn parse_octave(v: &[char], from: usize) -> (r: Option<i64>)
    requires
        from <= v@.len(),
    ensures
        ({
            let d = v@.subrange(from as int, v@.len() as int);
            match signed_text_value(d) {
                Some(o) => if i32::MIN <= o <= i32::MAX { r == Some(o as i64) } else { r is None },
                None => r is None,
            }
        }),
{
    let ghost d = v@.subrange(from as int, v@.len() as int);
    if from < v.len() && v[from] == '-' {
        let ghost d1 = v@.subrange(from + 1, v@.len() as int);
        assert(d.subrange(1, d.len() as int) =~= d1);
        match parse_digits_bounded(v, from + 1, 0x8000_0000) {
            Some(m) => Some(0 - (m as i64)),
            None => {
                proof {
                    if d1.len() > 0 && all_digits(d1) {
                        assert(digits_value(d1) > 0x8000_0000);
                    }
                }
                None
            },
        }
    } else {
        let start = if from < v.len() && v[from] == '+' { from + 1 } else { from };
        proof {
            if from < v@.len() && v@[from as int] == '+' {
                assert(d.subrange(1, d.len() as int) =~= v@.subrange(start as int, v@.len() as int));
            } else {
                assert(d =~= v@.subrange(start as int, v@.len() as int));
            }
        }
        match parse_digits_bounded(v, start, 0x7fff_ffff) {
            Some(m) => Some(m as i64),
            None => None,
        }
    }
}

/// The `i32` that std's parsing reads from `s`, if any.
pub open spec fn i32_text_value(s: Seq<char>) -> Option<i32> {
    match signed_text_value(s) {
        Some(v) => if i32::MIN <= v <= i32::MAX { Some(v as i32) } else { None },
        None => None,
    }
}

/// Reads an `i32` as std's `str::parse::<i32>` does: an optional sign and decimal
/// digits, within range.
pub fn parse_i32(s: &[char]) -> (r: Option<i32>)
    ensures
        r == i32_text_value(s@),
{
    assert(s@.subrange(0, s@.len() as int) =~= s@);
    match parse_octave(s, 0) {
        Some(v) => Some(v as i32),
        None => None,
    }
}

/// Where the octave starts and the accidental of a note name whose letter is `v[0]`.
fn accidental_of(v: &[char]) -> (r: (usize, i64))
    requires
        v@.len() >= 1,
    ensures
        ({
            let rest = v@.subrange(1, v@.len() as int);
            if rest.len() > 0 && (rest[0] == '#' || rest[0] == 's') {
                r == (2usize, 1i64)
            } else if rest.len() > 1 && (rest[0] == 'b' || rest[0] == 'f') {
                r == (2usize, -1i64)
            } else {
                r == (1usize, 0i64)
            }
        }),
{
    if v.len() > 1 && (v[1] == '#' || v[1] == 's') {
        (2, 1)
    } else if v.len() > 2 && (v[1] == 'b' || v[1] == 'f') {
        (2, -1)
    } else {
        (1, 0)
    }
}

/// Whether the arithmetic of the note name `value` stays within `i32`, as
/// `note_name_fits` states; where it does not, `parse_note_name` may not be called.
pub fn note_name_in_range(value: &str) -> (r: bool)
    ensures
        r == note_name_fits(value@),
{
    let v = chars_of(value);
    if v.len() == 0 || !(crate::text::is_ascii_alpha(v[0])) {
        return true;
    }
    let letter = to_ascii_lower(v[0]);
    match semitone_of(letter) {
        None => true,
        Some(base) => {
            let (from, acc) = accidental_of(v.as_slice());
            proof {
                let rest = v@.subrange(1, v@.len() as int);
                if v@.len() >= 2 {
                    assert(rest.subrange(1, rest.len() as int) =~= v@.subrange(2, v@.len() as int));
                }
                assert(rest =~= v@.subrange(1, v@.len() as int));
            }
            match parse_octave(v.as_slice(), from) {
                None => true,
                Some(o) => {
                    let n = (o + 1) * 12 + base + acc;
                    o + 1 <= 0x7fff_ffff && -0x8000_0000 <= (o + 1) * 12 && (o + 1) * 12 <= 0x7fff_ffff
                        && -0x8000_0000 <= (o + 1) * 12 + base && (o + 1) * 12 + base <= 0x7fff_ffff
                        && -0x8000_0000 <= n && n <= 0x7fff_ffff
                },
            }
        },
    }
}

/// The MIDI note a note name such as `c4`, `Db5`, `F#3` or `g-1` stands for, as
/// `note_name_value` states: C4 is 60, and only notes from 0 to 127 are given.
pub fn parse_note_name(value: &str) -> (r: Option<u8>)
    requires
        note_name_fits(value@),
    ensures
        r == note_name_value(value@),
{
    let v = chars_of(value);
    if v.len() == 0 || !(crate::text::is_ascii_alpha(v[0])) {
        return None;
    }
    let letter = to_ascii_lower(v[0]);
    match semitone_of(letter) {
        None => None,
        Some(base) => {
            let (from, acc) = accidental_of(v.as_slice());
            proof {
                let rest = v@.subrange(1, v@.len() as int);
                if v@.len() >= 2 {
                    assert(rest.subrange(1, rest.len() as int) =~= v@.subrange(2, v@.len() as int));
                }
                assert(rest =~= v@.subrange(1, v@.len() as int));
            }
            match parse_octave(v.as_slice(), from) {
                None => None,
                Some(o) => {
                    let n = (o + 1) * 12 + base + acc;
                    if 0 <= n && n <= 127 {
                        Some(n as u8)
                    } else {
                        None
                    }
                },
            }
        },
    }
}

/// The boolean an already lowercased SFZ word stands for: `on`, `yes`, `true` or
/// `off`, `no`, `false`.
pub open spec fn boolean_word_value(lower: Seq<char>) -> Option<bool> {
    if lower == "on"@ || lower == "yes"@ || lower == "true"@ {
        Some(true)
    } else if lower == "off"@ || lower == "no"@ || lower == "false"@ {
        Some(false)
    } else {
        None
    }
}

/// The boolean an already lowercased SFZ word stands for, as `boolean_word_value`
/// states.
pub fn boolean_word(lower: &str) -> (r: Option<bool>)
    ensures
        r == boolean_word_value(lower@),
{
    if str_eq(lower, "on") || str_eq(lower, "yes") || str_eq(lower, "true") {
        Some(true)
    } else if str_eq(lower, "off") || str_eq(lower, "no") || str_eq(lower, "false") {
        Some(false)
    } else {
        None
    }
}

} // verus!
