//! What holds of the brackets that `find_root` passes through.

use vstd::prelude::*;
use vstd::arithmetic::power2::{lemma_pow2_unfold, pow2};
use crate::fixed::ONE;
use crate::points3d::{bracket_after, magnitude, midpoint_spec, next_bracket, within_box, Point};

verus! {

/// The midpoint is the sum of the two ends scaled by one half.
pub proof fn lemma_midpoint_is_half_sum(a: Point, b: Point)
    ensures
        midpoint_spec(a, b)@ == a@.plus(b@).scaled(ONE / 2),
{
    lemma_half(a.x + b.x);
    lemma_half(a.y + b.y);
    lemma_half(a.z + b.z);
}

/// Half a million millionths of a number are its half.
proof fn lemma_half(s: int)
    ensures
        s * (ONE / 2) / (ONE as int) == s / 2,
{
    assert(s * 500_000 / 1_000_000 == s / 2);
}

/// Width of the bracket `(a, b)` along each coordinate.
pub open spec fn bracket_width(a: Point, b: Point) -> (int, int, int) {
    (magnitude(a.x - b.x), magnitude(a.y - b.y), magnitude(a.z - b.z))
}

/// `narrow` is at most half of `wide`, rounded up.
pub open spec fn at_most_half(narrow: int, wide: int) -> bool {
    2 * narrow <= wide + 1
}

/// A bisection step halves the bracket along every coordinate: the new width
/// is half the old one, rounded up or down, and exactly half of an even one.
/// The new bracket lies within the old one.
pub proof fn lemma_step_halves(a: Point, b: Point, hit: bool)
    ensures
        ({
            let (na, nb) = next_bracket(a, b, hit);
            let (wx, wy, wz) = bracket_width(a, b);
            let (nx, ny, nz) = bracket_width(na, nb);
            &&& at_most_half(nx, wx) && wx <= 2 * nx + 1
            &&& at_most_half(ny, wy) && wy <= 2 * ny + 1
            &&& at_most_half(nz, wz) && wz <= 2 * nz + 1
            &&& within_box(a, b, na)
            &&& within_box(a, b, nb)
        }),
{
}

/// Where the ends of a bracket differ by an even number along every
/// coordinate, a bisection step halves its Euclidean length exactly.
pub proof fn lemma_step_halves_length(a: Point, b: Point, hit: bool)
    requires
        (a.x - b.x) % 2 == 0,
        (a.y - b.y) % 2 == 0,
        (a.z - b.z) % 2 == 0,
    ensures
        ({
            let (na, nb) = next_bracket(a, b, hit);
            4 * na@.minus(nb@).sqr_len() == a@.minus(b@).sqr_len()
        }),
{
    let (na, nb) = next_bracket(a, b, hit);
    let d = a@.minus(b@);
    let e = na@.minus(nb@);
    assert(2 * e.x == d.x && 2 * e.y == d.y && 2 * e.z == d.z);
    assert(4 * (e.x * e.x + e.y * e.y + e.z * e.z) == d.x * d.x + d.y * d.y + d.z * d.z)
        by (nonlinear_arith)
        requires
            2 * e.x == d.x,
            2 * e.y == d.y,
            2 * e.z == d.z,
    ;
}

/// Whatever the classifier answers, the bracket after `steps` steps lies
/// within the first one, and its width along each coordinate, less one, is
/// at most the `2^steps`-th part of the first width, less one.
pub proof fn lemma_bracket_shrinks<F: Fn(Point) -> u32>(
    f: &F,
    a0: Point,
    b0: Point,
    target: u32,
    steps: nat,
    a: Point,
    b: Point,
)
    requires
        bracket_after(f, a0, b0, target, steps, a, b),
    ensures
        within_box(a0, b0, a),
        within_box(a0, b0, b),
        pow2(steps) * (bracket_width(a, b).0 - 1) <= bracket_width(a0, b0).0 - 1,
        pow2(steps) * (bracket_width(a, b).1 - 1) <= bracket_width(a0, b0).1 - 1,
        pow2(steps) * (bracket_width(a, b).2 - 1) <= bracket_width(a0, b0).2 - 1,
    decreases steps,
{
    if steps == 0 {
        vstd::arithmetic::power2::lemma2_to64();
    } else {
        let v = choose|v: u32| #[trigger]
            f.ensures((midpoint_spec(a0, b0),), v) && bracket_after(
                f,
                next_bracket(a0, b0, v == target).0,
                next_bracket(a0, b0, v == target).1,
                target,
                (steps - 1) as nat,
                a,
                b,
            );
        let (a1, b1) = next_bracket(a0, b0, v == target);
        lemma_step_halves(a0, b0, v == target);
        lemma_bracket_shrinks(f, a1, b1, target, (steps - 1) as nat, a, b);
        lemma_pow2_unfold(steps);
        let half = pow2((steps - 1) as nat) as int;
        let (w, w1, w0) = (bracket_width(a, b), bracket_width(a1, b1), bracket_width(a0, b0));
        lemma_scaled_half(half, w.0, w1.0, w0.0);
        lemma_scaled_half(half, w.1, w1.1, w0.1);
        lemma_scaled_half(half, w.2, w1.2, w0.2);
    }
}

/// One more halving doubles the factor by which a width has shrunk.
proof fn lemma_scaled_half(k: int, w: int, w1: int, w0: int)
    requires
        k >= 0,
        k * (w - 1) <= w1 - 1,
        at_most_half(w1, w0),
    ensures
        2 * k * (w - 1) <= w0 - 1,
{
    assert(2 * k * (w - 1) <= 2 * (w1 - 1)) by (nonlinear_arith)
        requires
            k * (w - 1) <= w1 - 1,
    ;
}

/// For a classifier that is a function of the point (`class`), bisection
/// keeps the two ends on their sides: where the first end of the first
/// bracket is of the target class and the second end is not, the same holds
/// of every later bracket.
pub proof fn lemma_bracket_keeps_sides<F: Fn(Point) -> u32>(
    f: &F,
    class: spec_fn(Point) -> u32,
    a0: Point,
    b0: Point,
    target: u32,
    steps: nat,
    a: Point,
    b: Point,
)
    requires
        forall|p: Point, v: u32| f.ensures((p,), v) ==> v == class(p),
        class(a0) == target,
        class(b0) != target,
        bracket_after(f, a0, b0, target, steps, a, b),
    ensures
        class(a) == target,
        class(b) != target,
    decreases steps,
{
    if steps > 0 {
        let v = choose|v: u32| #[trigger]
            f.ensures((midpoint_spec(a0, b0),), v) && bracket_after(
                f,
                next_bracket(a0, b0, v == target).0,
                next_bracket(a0, b0, v == target).1,
                target,
                (steps - 1) as nat,
                a,
                b,
            );
        let (a1, b1) = next_bracket(a0, b0, v == target);
        lemma_bracket_keeps_sides(f, class, a1, b1, target, (steps - 1) as nat, a, b);
    }
}

/// For a classifier that is a function of the point, the bracket after a
/// given number of steps is determined.
pub proof fn lemma_bracket_is_determined<F: Fn(Point) -> u32>(
    f: &F,
    class: spec_fn(Point) -> u32,
    a0: Point,
    b0: Point,
    target: u32,
    steps: nat,
    a: Point,
    b: Point,
    c: Point,
    d: Point,
)
    requires
        forall|p: Point, v: u32| f.ensures((p,), v) ==> v == class(p),
        bracket_after(f, a0, b0, target, steps, a, b),
        bracket_after(f, a0, b0, target, steps, c, d),
    ensures
        a == c,
        b == d,
    decreases steps,
{
    if steps > 0 {
        let v = class(midpoint_spec(a0, b0));
        let (a1, b1) = next_bracket(a0, b0, v == target);
        lemma_bracket_is_determined(f, class, a1, b1, target, (steps - 1) as nat, a, b, c, d);
    }
}

} // verus!
