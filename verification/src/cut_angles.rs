//! The two cut angles and their cosines.
//!
//! The cones of the parts open at the angle `0.7619934 + 4 / 18` deep in
//! the shell and at `0.7619934 + 1 / 18` near the surface. The classifier
//! works with their cosines, `SPLIT_COS` and `SPLIT2_COS`; this file shows
//! that the two constants are those cosines to the nearest millionth.

use vstd::prelude::*;
use crate::fixed::ONE;
use crate::partition::{SPLIT2_COS, SPLIT_COS};

verus! {

/// Denominator of the two cut angles as fractions.
pub open spec fn angle_denominator() -> int {
    45_000_000
}

/// Numerator of the wider cut angle, `0.7619934 + 4 / 18`.
pub open spec fn split_angle() -> int {
    44_289_703
}

/// Numerator of the narrower cut angle, `0.7619934 + 1 / 18`.
pub open spec fn split2_angle() -> int {
    36_789_703
}

/// `12! * d^12` times the cosine series of `n / d` through the term of
/// degree ten. For an angle between zero and one the terms of the series
/// fall in magnitude and change sign, so this sum lies below the cosine,
/// and the sum with the next term, `n^12`, lies above it.
pub open spec fn cosine_series(n: int, d: int) -> int {
    let y = n * n;
    let e = d * d;
    479_001_600 * (e * e * e * e * e * e) - 239_500_800 * (y * (e * e * e * e * e)) + 19_958_400
        * (y * y * (e * e * e * e)) - 665_280 * (y * y * y * (e * e * e)) + 11_880 * (y * y * y * y
        * (e * e)) - 132 * (y * y * y * y * y * e)
}

/// `12! * d^12`, the factor that `cosine_series` carries.
pub open spec fn series_scale(d: int) -> int {
    let e = d * d;
    479_001_600 * (e * e * e * e * e * e)
}

/// The fixed-point number `c` is the cosine of `n / d` to the nearest
/// millionth, as far as the two sums that enclose the cosine show.
pub open spec fn is_rounded_cosine(c: int, n: int, d: int) -> bool {
    let y = n * n;
    &&& 0 < n < d
    &&& (2 * c - 1) * series_scale(d) < 2 * ONE * cosine_series(n, d)
    &&& 2 * ONE * (cosine_series(n, d) + y * y * y * y * y * y) < (2 * c + 1) * series_scale(d)
}

/// The two cut angles are `0.7619934 + 4 / 18` and `0.7619934 + 1 / 18`,
/// and `SPLIT_COS` and `SPLIT2_COS` are their cosines to the nearest
/// millionth.
pub proof fn lemma_split_cosines()
    ensures
        10_000_000 * 18 * split_angle() == (7_619_934 * 18 + 4 * 10_000_000) * angle_denominator(),
        10_000_000 * 18 * split2_angle() == (7_619_934 * 18 + 10_000_000) * angle_denominator(),
        is_rounded_cosine(SPLIT_COS as int, split_angle(), angle_denominator()),
        is_rounded_cosine(SPLIT2_COS as int, split2_angle(), angle_denominator()),
{
    lemma_rounded_cosine(SPLIT_COS as int, split_angle(), angle_denominator());
    lemma_rounded_cosine(SPLIT2_COS as int, split2_angle(), angle_denominator());
}

/// The check of `is_rounded_cosine` for the two cut angles.
proof fn lemma_rounded_cosine(c: int, n: int, d: int)
    requires
        (c == 553_517 && n == 44_289_703 || c == 684_011 && n == 36_789_703),
        d == 45_000_000,
    ensures
        is_rounded_cosine(c, n, d),
{
    let one = ONE as int;
    let y = n * n;
    let e = d * d;
    let s = cosine_series(n, d);
    let k = series_scale(d);
    let top = y * y * y * y * y * y;
    assert((2 * c - 1) * k < 2 * one * s && 2 * one * (s + top) < (2 * c + 1) * k)
        by (nonlinear_arith)
        requires
            (c == 553_517 && n == 44_289_703 || c == 684_011 && n == 36_789_703),
            d == 45_000_000,
            one == 1_000_000,
            y == n * n,
            e == d * d,
            top == y * y * y * y * y * y,
            k == 479_001_600 * (e * e * e * e * e * e),
            s == 479_001_600 * (e * e * e * e * e * e) - 239_500_800 * (y * (e * e * e * e * e))
                + 19_958_400 * (y * y * (e * e * e * e)) - 665_280 * (y * y * y * (e * e * e))
                + 11_880 * (y * y * y * y * (e * e)) - 132 * (y * y * y * y * y * e),
    ;
}

} // verus!
