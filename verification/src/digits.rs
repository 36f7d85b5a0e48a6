//! Valuation of digit runs. The grammar's numeric productions (port,
//! dec-octet, h16) accept a whole digit run and then ask whether its
//! value fits the target integer's range; a run whose value is too large
//! is a range violation, whatever its length or leading zeros.

use vstd::prelude::*;
use crate::chars::{is_digit, is_hexdig, hexdig_val, hex_value};

verus! {

/// Whether a byte is a digit of the radix (10 or 16).
pub open spec fn is_digit_radix(c: u8, radix: int) -> bool {
    if radix == 16 {
        is_hexdig(c)
    } else {
        is_digit(c)
    }
}

/// The numeric value of one digit byte of the radix.
pub open spec fn digit_val_radix(c: u8, radix: int) -> int {
    if radix == 16 {
        hexdig_val(c)
    } else {
        c - 48
    }
}

/// The value of the digit run `s[p..e)` read in the radix, most
/// significant digit first.
pub open spec fn run_val(s: Seq<u8>, p: int, e: int, radix: int) -> int
    decreases e - p,
{
    if p < e {
        run_val(s, p, e - 1, radix) * radix + digit_val_radix(s[e - 1], radix)
    } else {
        0
    }
}

/// The value of a digit run is never negative.
pub proof fn lemma_run_val_nonneg(s: Seq<u8>, p: int, e: int, radix: int)
    requires
        p <= e,
        radix == 10 || radix == 16,
        forall|q: int| p <= q < e ==> is_digit_radix(#[trigger] s[q], radix),
    ensures
        run_val(s, p, e, radix) >= 0,
    decreases e - p,
{
    if p < e {
        lemma_run_val_nonneg(s, p, e - 1, radix);
        assert(run_val(s, p, e - 1, radix) * radix >= 0) by (nonlinear_arith)
            requires
                run_val(s, p, e - 1, radix) >= 0,
                radix >= 0,
        ;
    }
}

/// Extending a digit run to the right never shrinks its value.
pub proof fn lemma_run_val_mono(s: Seq<u8>, p: int, m: int, e: int, radix: int)
    requires
        p <= m <= e,
        radix == 10 || radix == 16,
        forall|q: int| p <= q < e ==> is_digit_radix(#[trigger] s[q], radix),
    ensures
        run_val(s, p, e, radix) >= run_val(s, p, m, radix),
    decreases e - m,
{
    if m < e {
        lemma_run_val_mono(s, p, m, e - 1, radix);
        lemma_run_val_nonneg(s, p, e - 1, radix);
        assert(run_val(s, p, e - 1, radix) * radix >= run_val(s, p, e - 1, radix)) by (
        nonlinear_arith)
            requires
                run_val(s, p, e - 1, radix) >= 0,
                radix >= 1,
        ;
    }
}

/// Evaluate the digit run `input[pos..end]` in the radix, refusing a
/// value above `cap`: the result is the run's value exactly when that
/// value is within range, and nothing otherwise.
pub fn run_value_capped(input: &[u8], pos: usize, end: usize, radix: u32, cap: u32) -> (r: Option<
    u32,
>)
    requires
        pos <= end <= input@.len(),
        radix == 10 || radix == 16,
        cap <= 65535,
        forall|q: int| pos <= q < end ==> is_digit_radix(#[trigger] input@[q], radix as int),
    ensures
        match r {
            Some(v) => run_val(input@, pos as int, end as int, radix as int) <= cap && v as int
                == run_val(input@, pos as int, end as int, radix as int),
            None => run_val(input@, pos as int, end as int, radix as int) > cap,
        },
{
    let mut acc: u32 = 0;
    let mut cur: usize = pos;
    while cur < end
        invariant
            pos <= cur <= end <= input@.len(),
            radix == 10 || radix == 16,
            cap <= 65535,
            acc <= cap,
            acc as int == run_val(input@, pos as int, cur as int, radix as int),
            forall|q: int| pos <= q < end ==> is_digit_radix(#[trigger] input@[q], radix as int),
        decreases end - cur,
    {
        let c: u8 = input[cur];
        let d: u32 = if radix == 16 {
            hex_value(c) as u32
        } else {
            (c - 48) as u32
        };
        assert(acc * radix + d <= 65535 * 16 + 15) by (nonlinear_arith)
            requires
                acc <= 65535,
                radix <= 16,
                d <= 15,
        ;
        let next: u32 = acc * radix + d;
        assert(next as int == run_val(input@, pos as int, cur + 1, radix as int));
        if next > cap {
            proof {
                lemma_run_val_mono(input@, pos as int, cur + 1, end as int, radix as int);
            }
            return None;
        }
        acc = next;
        cur = cur + 1;
    }
    Some(acc)
}

} // verus!
