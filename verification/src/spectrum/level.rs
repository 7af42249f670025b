//! Fixed-point values of the unit interval.
//!
//! Magnitudes, the smoothing weight and the peak decay step are all counted
//! in millionths: `UNIT` stands for 1.0. Products of two such values are
//! brought back to the scale by `div_round`, which rounds to the nearest
//! integer and rounds ties upward.

use vstd::prelude::*;

verus! {

/// A value of the unit interval in millionths: `0` is 0.0, `UNIT` is 1.0.
pub type Level = u32;

/// The fixed-point representation of 1.0.
pub const UNIT: u32 = 1_000_000;

/// Every element of `s` lies in the unit interval.
pub open spec fn all_levels(s: Seq<u32>) -> bool {
    forall|i: int| 0 <= i < s.len() ==> #[trigger] s[i] <= UNIT
}

/// The quotient `a / b` rounded to the nearest integer, ties upward.
/// Meant for `a >= 0` and `b > 0`.
pub open spec fn div_round(a: int, b: int) -> int {
    (2 * a + b) / (2 * b)
}

/// What pins the rounded quotient down: it is the one integer `q` with
/// `q - 1/2 <= a / b < q + 1/2`.
pub proof fn lemma_div_round_range(a: int, b: int)
    requires
        b > 0,
    ensures
        2 * b * div_round(a, b) <= 2 * a + b < 2 * b * div_round(a, b) + 2 * b,
{
    let n = 2 * a + b;
    let d = 2 * b;
    assert(n == d * (n / d) + n % d && 0 <= n % d < d) by {
        vstd::arithmetic::div_mod::lemma_fundamental_div_mod(n, d);
        vstd::arithmetic::div_mod::lemma_mod_bound(n, d);
    }
}

/// Rounding keeps a quotient inside any integer bounds that the exact
/// quotient respects.
pub proof fn lemma_div_round_bounds(a: int, b: int, lo: int, hi: int)
    requires
        b > 0,
        lo * b <= a <= hi * b,
    ensures
        lo <= div_round(a, b) <= hi,
{
    let q = div_round(a, b);
    lemma_div_round_range(a, b);
    assert(q <= hi) by (nonlinear_arith)
        requires
            2 * b * q <= 2 * a + b,
            a <= hi * b,
            b > 0,
    ;
    assert(lo <= q) by (nonlinear_arith)
        requires
            2 * a + b < 2 * b * q + 2 * b,
            lo * b <= a,
            b > 0,
    ;
}

/// An exact quotient is left as it is.
pub proof fn lemma_div_round_exact(q: int, b: int)
    requires
        b > 0,
    ensures
        div_round(q * b, b) == q,
{
    lemma_div_round_bounds(q * b, b, q, q);
}

/// Rounding is monotone in the numerator.
pub proof fn lemma_div_round_monotone(a1: int, a2: int, b: int)
    requires
        b > 0,
        a1 <= a2,
    ensures
        div_round(a1, b) <= div_round(a2, b),
{
    vstd::arithmetic::div_mod::lemma_div_is_ordered(2 * a1 + b, 2 * a2 + b, 2 * b);
}

/// `a / b` rounded to the nearest integer, ties upward.
pub fn rounded_quotient(a: u64, b: u64) -> (q: u64)
    requires
        b > 0,
        2 * a + b <= u64::MAX,
        2 * b <= u64::MAX,
    ensures
        q == div_round(a as int, b as int),
{
    (2 * a + b) / (2 * b)
}

} // verus!
