//! Decimal number text, as std's integer parsing reads it and its `Display` writes it.

use vstd::prelude::*;
use crate::text::{is_digit, is_ascii_digit};

verus! {

/// The value of a run of decimal digits.
pub open spec fn digits_value(d: Seq<char>) -> nat
    decreases d.len(),
{
    if d.len() == 0 {
        0
    } else {
        digits_value(d.drop_last()) * 10 + ((d.last() as u32) - ('0' as u32)) as nat
    }
}

/// Every character of `d` is a decimal digit.
pub open spec fn all_digits(d: Seq<char>) -> bool {
    forall|i: int| 0 <= i < d.len() ==> is_digit(#[trigger] d[i])
}

/// The value of unsigned integer text as std's `u8`/`u32` parsing reads it before the
/// range check: an optional `+`, then at least one decimal digit and nothing else.
pub open spec fn unsigned_text_value(s: Seq<char>) -> Option<nat> {
    let d = if s.len() > 0 && s[0] == '+' {
        s.subrange(1, s.len() as int)
    } else {
        s
    };
    if d.len() > 0 && all_digits(d) {
        Some(digits_value(d))
    } else {
        None
    }
}

/// The value of signed integer text as std's `i32` parsing reads it before the range
/// check: an optional `+` or `-`, then at least one decimal digit and nothing else.
pub open spec fn signed_text_value(s: Seq<char>) -> Option<int> {
    if s.len() > 0 && s[0] == '-' {
        let d = s.subrange(1, s.len() as int);
        if d.len() > 0 && all_digits(d) {
            Some(-(digits_value(d) as int))
        } else {
            None
        }
    } else {
        match unsigned_text_value(s) {
            Some(v) => Some(v as int),
            None => None,
        }
    }
}

/// A digit run's value is at least that of any of its prefixes.
pub proof fn lemma_digits_value_prefix(d: Seq<char>, k: int)
    requires
        0 <= k <= d.len(),
        all_digits(d),
    ensures
        digits_value(d.subrange(0, k)) <= digits_value(d),
    decreases d.len() - k,
{
    if k < d.len() {
        lemma_digits_value_prefix(d, k + 1);
        let p = d.subrange(0, k + 1);
        assert(p.drop_last() =~= d.subrange(0, k));
        assert(is_digit(d[k]));
    } else {
        assert(d.subrange(0, k) =~= d);
    }
}

/// The value of the digits `s[from..]` if they are all digits, there is at least one,
/// and the value does not exceed `limit`; `None` otherwise.
pub fn parse_digits_bounded(s: &[char], from: usize, limit: u64) -> (r: Option<u64>)
    requires
        from <= s@.len(),
    ensures
        ({
            let d = s@.subrange(from as int, s@.len() as int);
            match r {
                Some(v) => d.len() > 0 && all_digits(d) && v == digits_value(d) && v <= limit,
                None => !(d.len() > 0 && all_digits(d) && digits_value(d) <= limit),
            }
        }),
{
    let ghost d = s@.subrange(from as int, s@.len() as int);
    if from >= s.len() {
        return None;
    }
    let mut v: u64 = 0;
    let mut k = from;
    while k < s.len()
        invariant
            from <= k <= s@.len(),
            d == s@.subrange(from as int, s@.len() as int),
            all_digits(s@.subrange(from as int, k as int)),
            v == digits_value(s@.subrange(from as int, k as int)),
            v <= limit,
        decreases s@.len() - k,
    {
        let c = s[k];
        if !is_ascii_digit(c) {
            assert(!is_digit(d[k - from]));
            return None;
        }
        let digit = (c as u32 - 48) as u64;
        let ghost p = s@.subrange(from as int, k + 1);
        assert(p.drop_last() =~= s@.subrange(from as int, k as int));
        assert(all_digits(p));
        if digit > limit || v > (limit - digit) / 10 {
            proof {
                if digit <= limit {
                    assert(v * 10 + digit > limit) by (nonlinear_arith)
                        requires v > (limit - digit) / 10, digit <= limit;
                }
                assert(digits_value(p) == v * 10 + digit);
                if all_digits(d) {
                    lemma_digits_value_prefix(d, k + 1 - from);
                    assert(d.subrange(0, k + 1 - from) =~= p);
                }
            }
            return None;
        }
        proof {
            assert(v * 10 + digit <= limit) by (nonlinear_arith)
                requires v <= (limit - digit) / 10, digit <= limit;
            assert(digits_value(p) == v * 10 + digit);
        }
        v = v * 10 + digit;
        k = k + 1;
    }
    Some(v)
}

/// The character of a decimal digit.
pub open spec fn digit_char(d: nat) -> char {
    (d + 48) as char
}

/// The decimal text of `n` as std's `Display` writes an unsigned integer: its
/// digits, most significant first, with no leading zero.
pub open spec fn decimal_text(n: nat) -> Seq<char>
    decreases n,
{
    if n < 10 {
        seq![digit_char(n)]
    } else {
        decimal_text(n / 10).push(digit_char(n % 10))
    }
}

/// The decimal text of `n` is made of digits, reads back as `n`, and starts with
/// `0` only for zero itself.
pub proof fn lemma_decimal_text(n: nat)
    ensures
        decimal_text(n).len() >= 1,
        all_digits(decimal_text(n)),
        digits_value(decimal_text(n)) == n,
        decimal_text(n)[0] == '0' ==> n == 0,
    decreases n,
{
    if n < 10 {
        assert((digit_char(n) as u32) == n + 48);
        assert(decimal_text(n).drop_last() =~= Seq::<char>::empty());
        assert(digits_value(Seq::<char>::empty()) == 0);
        assert(digits_value(decimal_text(n)) == digits_value(decimal_text(n).drop_last()) * 10 + n);
    } else {
        lemma_decimal_text(n / 10);
        let t = decimal_text(n);
        assert(t.drop_last() =~= decimal_text(n / 10));
        assert((digit_char(n % 10) as u32) == n % 10 + 48);
        assert(n == (n / 10) * 10 + n % 10);
        assert(digits_value(t) == digits_value(t.drop_last()) * 10 + n % 10);
        assert forall|i: int| 0 <= i < t.len() implies is_digit(#[trigger] t[i]) by {
            if i < t.len() - 1 {
                assert(t[i] == decimal_text(n / 10)[i]);
            }
        }
    }
}

/// Two numbers with the same decimal text are equal.
pub proof fn lemma_decimal_text_injective(a: nat, b: nat)
    requires
        decimal_text(a) == decimal_text(b),
    ensures
        a == b,
{
    lemma_decimal_text(a);
    lemma_decimal_text(b);
}

/// Appends the decimal text of `n` to `out`.
pub fn push_decimal(out: &mut Vec<char>, n: u64)
    ensures
        final(out)@ == old(out)@ + decimal_text(n as nat),
    decreases n,
{
    if n >= 10 {
        push_decimal(out, n / 10);
    }
    let d: u8 = (n % 10) as u8;
    let c: char = (d + 48) as char;
    out.push(c);
    proof {
        if n >= 10 {
            assert(decimal_text(n as nat) == decimal_text((n / 10) as nat).push(digit_char((n % 10) as nat)));
        }
    }
}

/// The decimal text of `n`.
pub fn format_decimal(n: u64) -> (s: Vec<char>)
    ensures
        s@ == decimal_text(n as nat),
{
    let mut out: Vec<char> = Vec::new();
    push_decimal(&mut out, n);
    assert(out@ =~= decimal_text(n as nat));
    out
}

} // verus!
