//! The MIDI ranges a region reads from its opcodes once their values are numbers:
//! 7-bit low/high pairs and per-controller conditions.

use vstd::prelude::*;

verus! {

/// A region plays only while controller `cc` lies within `low..=high`.
#[derive(Debug, Clone, Copy, PartialEq, Eq, Structural)]
pub struct CcCondition {
    pub cc: u8,
    pub low: u8,
    pub high: u8,
}

/// An integer held to the MIDI range 0..=127.
pub open spec fn clamp_u7(v: i32) -> u8 {
    if v < 0 { 0u8 } else if v > 127 { 127u8 } else { v as u8 }
}

/// A low/high opcode pair read as a range: `None` when neither opcode is given;
/// else each end held to 0..=127 (its default where it is missing or not a number),
/// the smaller first.
pub open spec fn u7_pair_spec(any_given: bool, low: Option<i32>, high: Option<i32>, default_low: u8, default_high: u8) -> Option<(u8, u8)> {
    if !any_given {
        None
    } else {
        let l = match low {
            Some(v) => clamp_u7(v),
            None => default_low,
        };
        let h = match high {
            Some(v) => clamp_u7(v),
            None => default_high,
        };
        Some((if l <= h { l } else { h }, if l <= h { h } else { l }))
    }
}

fn clamp_to_u7(v: i32) -> (r: u8)
    ensures
        r == clamp_u7(v),
{
    if v < 0 {
        0
    } else if v > 127 {
        127
    } else {
        v as u8
    }
}

/// A low/high opcode pair as a range, as `u7_pair_spec` states; `any_given` tells
/// whether either opcode is present, `low` and `high` their integer values.
pub fn u7_pair(any_given: bool, low: Option<i32>, high: Option<i32>, default_low: u8, default_high: u8) -> (r: Option<(u8, u8)>)
    ensures
        r == u7_pair_spec(any_given, low, high, default_low, default_high),
{
    if !any_given {
        return None;
    }
    let l = match low {
        Some(v) => clamp_to_u7(v),
        None => default_low,
    };
    let h = match high {
        Some(v) => clamp_to_u7(v),
        None => default_high,
    };
    Some((if l <= h { l } else { h }, if l <= h { h } else { l }))
}

/// The controller conditions of a region among the first `n` controllers: for each
/// controller whose `loccN`/`hiccN` (held to 0..=127, defaulting to 0 and 127) narrow
/// the full range, that range, in controller order.
pub open spec fn cc_conditions_spec(lows: Seq<Option<i32>>, highs: Seq<Option<i32>>, n: int) -> Seq<CcCondition>
    decreases n,
{
    if n <= 0 {
        Seq::empty()
    } else {
        let prev = cc_conditions_spec(lows, highs, n - 1);
        let c = n - 1;
        let low = match lows[c] {
            Some(v) => clamp_u7(v),
            None => 0u8,
        };
        let high = match highs[c] {
            Some(v) => clamp_u7(v),
            None => 127u8,
        };
        if low != 0 || high != 127 {
            prev.push(CcCondition { cc: c as u8, low, high })
        } else {
            prev
        }
    }
}

/// The controller conditions of a region, as `cc_conditions_spec` states, from the
/// integer values of its `loccN` and `hiccN` opcodes for the 128 controllers.
pub fn cc_conditions(lows: &[Option<i32>], highs: &[Option<i32>]) -> (r: Vec<CcCondition>)
    requires
        lows@.len() == 128,
        highs@.len() == 128,
    ensures
        r@ == cc_conditions_spec(lows@, highs@, 128),
{
    let mut out: Vec<CcCondition> = Vec::new();
    let mut c: usize = 0;
    while c < 128
        invariant
            c <= 128,
            lows@.len() == 128,
            highs@.len() == 128,
            out@ == cc_conditions_spec(lows@, highs@, c as int),
        decreases 128 - c,
    {
        let low = match lows[c] {
            Some(v) => clamp_to_u7(v),
            None => 0,
        };
        let high = match highs[c] {
            Some(v) => clamp_to_u7(v),
            None => 127,
        };
        if low != 0 || high != 127 {
            out.push(CcCondition { cc: c as u8, low, high });
        }
        c = c + 1;
    }
    out
}

/// A pair range is ordered and within 0..=127 whenever its defaults are.
pub proof fn lemma_u7_pair_ordered(any_given: bool, low: Option<i32>, high: Option<i32>, default_low: u8, default_high: u8)
    requires
        default_low <= 127,
        default_high <= 127,
    ensures
        u7_pair_spec(any_given, low, high, default_low, default_high) matches Some((l, h)) ==> l <= h <= 127,
{
}

/// The conditions name distinct controllers in increasing order, each below `n`, with
/// ends within 0..=127.
pub proof fn lemma_cc_conditions_ordered(lows: Seq<Option<i32>>, highs: Seq<Option<i32>>, n: int)
    requires
        0 <= n <= 128,
    ensures
        forall|i: int| 0 <= i < cc_conditions_spec(lows, highs, n).len() ==> {
            let c = #[trigger] cc_conditions_spec(lows, highs, n)[i];
            c.cc < n && c.low <= 127 && c.high <= 127
        },
        forall|i: int, j: int| 0 <= i < j < cc_conditions_spec(lows, highs, n).len() ==> (#[trigger] cc_conditions_spec(lows, highs, n)[i]).cc < (#[trigger] cc_conditions_spec(lows, highs, n)[j]).cc,
    decreases n,
{
    if n > 0 {
        lemma_cc_conditions_ordered(lows, highs, n - 1);
        let prev = cc_conditions_spec(lows, highs, n - 1);
        let now = cc_conditions_spec(lows, highs, n);
        assert forall|i: int| 0 <= i < now.len() implies {
            let c = #[trigger] now[i];
            c.cc < n && c.low <= 127 && c.high <= 127
        } by {
            if i < prev.len() {
                assert(now[i] == prev[i]);
            }
        }
        assert forall|i: int, j: int| 0 <= i < j < now.len() implies (#[trigger] now[i]).cc < (#[trigger] now[j]).cc by {
            if j < prev.len() {
                assert(now[i] == prev[i]);
                assert(now[j] == prev[j]);
            } else {
                assert(now[i] == prev[i]);
            }
        }
    }
}

} // verus!
