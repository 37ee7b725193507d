//! What holds of the partition: the values of a part index, the bits of the
//! cone test, and the points that are void for being too deep or too far.

use vstd::prelude::*;
use vstd::arithmetic::div_mod::lemma_fundamental_div_mod_converse;
use vstd::arithmetic::power2::{lemma2_to64, lemma_pow2_strictly_increases, lemma_pow2_unfold};
use crate::fixed::ONE;
use crate::partition::{
    axis_bit, axis_direction, beyond_cup, cone_index, cut_factor, depth, inner_cosine,
    inner_threshold, on_positive_side, outer_cosine, outer_threshold, part_index,
    positive_margins, projection, radius, shell_index, AXIS_COUNT, AXIS_U, AXIS_V, AXIS_W,
    CUP_REJECT, DEEP_INTERIOR_DEPTH, OUTER_LAYER, SPLIT2_COS, WORKING_RANGE,
};
use crate::points3d::{lemma_bounded_products, lemma_coordinates_within_len, Vector};

verus! {

/// The bits of the axes double from one axis to the next, from 1 for axis 0.
pub proof fn lemma_axis_bit(i: int)
    requires
        0 <= i <= AXIS_COUNT,
    ensures
        0 < axis_bit(i) <= 1024,
        axis_bit(i + 1) == 2 * axis_bit(i),
        axis_bit(0) == 1,
        axis_bit(3) == 8,
        axis_bit(10) == 1024,
{
    lemma2_to64();
    lemma_pow2_unfold((i + 1) as nat);
    if i < 10 {
        lemma_pow2_strictly_increases(i as nat, 10);
    }
}

/// Bit `i` is set in `index`.
pub open spec fn has_bit(index: int, i: int) -> bool {
    (index / axis_bit(i)) % 2 == 1
}

/// The bits of the first `n` axes stay below the bit of axis `n`.
pub proof fn lemma_cone_index_bound(p: Vector, n: int)
    requires
        0 <= n <= AXIS_COUNT,
    ensures
        0 <= cone_index(p, n) < axis_bit(n),
    decreases n,
{
    if n > 0 {
        lemma_cone_index_bound(p, n - 1);
        lemma_axis_bit(n - 1);
    } else {
        lemma_axis_bit(0);
    }
}

/// Bit `i` of the cone index is set if and only if the cone of axis `i`
/// holds the point.
pub proof fn lemma_cone_index_bits(p: Vector, n: int, i: int)
    requires
        0 <= i < n <= AXIS_COUNT,
    ensures
        has_bit(cone_index(p, n), i) == on_positive_side(p, i),
    decreases n,
{
    let below = cone_index(p, n - 1);
    let top = axis_bit(n - 1);
    let d = axis_bit(i);
    lemma_cone_index_bound(p, n - 1);
    lemma_axis_bit(n - 1);
    lemma_axis_bit(i);
    if i == n - 1 {
        lemma_fundamental_div_mod_converse(below, d, 0, below);
        lemma_fundamental_div_mod_converse(below + d, d, 1, below);
    } else {
        lemma_cone_index_bits(p, n - 1, i);
        if on_positive_side(p, n - 1) {
            // the bit of axis n - 1 is an even multiple of the bit of axis i
            let k = lemma_higher_bit_is_even_multiple(i, n - 1);
            let q = below / d;
            let r = below % d;
            vstd::arithmetic::div_mod::lemma_fundamental_div_mod(below, d);
            vstd::arithmetic::div_mod::lemma_mod_bound(below, d);
            assert(below + top == (q + 2 * k) * d + r) by (nonlinear_arith)
                requires
                    below == d * q + r,
                    top == 2 * k * d,
            ;
            lemma_fundamental_div_mod_converse(below + top, d, q + 2 * k, r);
        }
    }
}

/// The bit of a higher axis is an even multiple of the bit of a lower one.
proof fn lemma_higher_bit_is_even_multiple(i: int, j: int) -> (k: int)
    requires
        0 <= i < j <= AXIS_COUNT,
    ensures
        axis_bit(j) == 2 * k * axis_bit(i),
        k > 0,
    decreases j - i,
{
    lemma_axis_bit(j - 1);
    if j == i + 1 {
        1
    } else {
        let half = lemma_higher_bit_is_even_multiple(i, j - 1);
        assert(2 * (2 * half * axis_bit(i)) == 2 * (2 * half) * axis_bit(i)) by (nonlinear_arith);
        2 * half
    }
}

/// Where no cone of the first `n` axes holds the point, no bit is set, and
/// the other way round.
pub proof fn lemma_no_cone_holds(p: Vector, n: int)
    requires
        0 <= n <= AXIS_COUNT,
    ensures
        cone_index(p, n) == 0 <==> (forall|i: int| 0 <= i < n ==> !on_positive_side(p, i)),
    decreases n,
{
    if n > 0 {
        lemma_no_cone_holds(p, n - 1);
        lemma_cone_index_bound(p, n - 1);
        lemma_axis_bit(n - 1);
    }
}

/// The cone index is the bit of axis `a` alone if and only if the cone of
/// axis `a` holds the point and no other cone does.
pub proof fn lemma_sole_cone(p: Vector, n: int, a: int)
    requires
        0 <= a < n <= AXIS_COUNT,
    ensures
        cone_index(p, n) == axis_bit(a) <==> on_positive_side(p, a) && (forall|i: int|
            0 <= i < n && i != a ==> !on_positive_side(p, i)),
    decreases n,
{
    lemma_cone_index_bound(p, n - 1);
    lemma_axis_bit(n - 1);
    lemma_axis_bit(a);
    if a == n - 1 {
        lemma_no_cone_holds(p, n - 1);
    } else {
        lemma_sole_cone(p, n - 1, a);
        let k = lemma_higher_bit_is_even_multiple(a, n - 1);
        assert(axis_bit(n - 1) > axis_bit(a)) by (nonlinear_arith)
            requires
                axis_bit(n - 1) == 2 * k * axis_bit(a),
                k > 0,
                axis_bit(a) > 0,
        ;
    }
}

/// A point that has a part lies in the cone of the axis of that part and in
/// no other, so at most one margin is taken inside a cone.
pub proof fn lemma_part_has_one_cone(p: Vector)
    requires
        shell_index(p, AXIS_COUNT as int) != 0,
    ensures
        on_positive_side(p, 0) != on_positive_side(p, 3),
        forall|i: int| 0 <= i < AXIS_COUNT && i != 0 && i != 3 ==> !on_positive_side(p, i),
        positive_margins(p, AXIS_COUNT as int).len() <= 1,
{
    let n = AXIS_COUNT as int;
    lemma_axis_bit(0);
    lemma_sole_cone(p, n, 0);
    lemma_sole_cone(p, n, 3);
    lemma_positive_margins_count(p, n);
}

/// No more margins are taken inside cones than cones hold the point: none
/// where no cone does, and at most one where a single cone does.
pub proof fn lemma_positive_margins_count(p: Vector, n: int)
    requires
        0 <= n <= AXIS_COUNT,
    ensures
        (forall|i: int| 0 <= i < n ==> !on_positive_side(p, i)) ==> positive_margins(p, n).len()
            == 0,
        (forall|i: int, j: int|
            0 <= i < n && 0 <= j < n && on_positive_side(p, i) && on_positive_side(p, j) ==> i
                == j) ==> positive_margins(p, n).len() <= 1,
    decreases n,
{
    if n > 0 {
        lemma_positive_margins_count(p, n - 1);
    }
}

/// The transition band of a cone lies outside the cone: at every depth the
/// inner cosine is at most the outer one, and so is the inner threshold of
/// every point at most its outer threshold.
pub proof fn lemma_thresholds_ordered(p: Vector)
    ensures
        forall|d: int| 0 < inner_cosine(d) <= #[trigger] outer_cosine(d),
        0 <= inner_threshold(p) <= outer_threshold(p),
{
    lemma_coordinates_within_len(p);
    let r = radius(p);
    let c = cut_factor(r);
    let (i, o) = (inner_cosine(depth(p)), outer_cosine(depth(p)));
    assert(c >= 0);
    assert(0 <= i * c <= o * c) by (nonlinear_arith)
        requires
            0 < i <= o,
            c >= 0,
    ;
}

/// With the deep interior switched off, every point deeper than 4 below the
/// surface is void.
pub proof fn lemma_deep_point_is_void(p: Vector, n: int)
    requires
        depth(p) > DEEP_INTERIOR_DEPTH,
    ensures
        part_index(p, n, false) == 0,
{
}

/// With the deep interior switched off, a part index is zero or holds the
/// bit of axis 0 or of axis 3, alone or with the bit of the outer layer: no
/// other bit is ever set.
pub proof fn lemma_part_index_bits(p: Vector, n: int)
    ensures
        ({
            let index = part_index(p, n, false);
            &&& index == 0 || index == 1 || index == 8 || index == 1 + OUTER_LAYER || index == 8
                + OUTER_LAYER
            &&& forall|i: int|
                0 <= i < 32 && has_bit(index, i) ==> i == 0 || i == 3 || i == 10
        }),
{
    let index = part_index(p, n, false);
    assert(index == 0 || index == 1 || index == 8 || index == 1025 || index == 1032);
    assert forall|i: int| 0 <= i < 32 && has_bit(index, i) implies i == 0 || i == 3 || i
        == 10 by {
        lemma_bits_of_part(index, i);
    }
}

/// The bits of the five values that a part index takes.
proof fn lemma_bits_of_part(index: int, i: int)
    requires
        index == 0 || index == 1 || index == 8 || index == 1025 || index == 1032,
        0 <= i,
        has_bit(index, i),
    ensures
        i == 0 || i == 3 || i == 10,
{
    lemma_bit_value(i);
    let d = axis_bit(i);
    if i > 10 {
        vstd::arithmetic::div_mod::lemma_basic_div(index, d);
    } else if i == 1 {
        assert(index / 2 % 2 == 0);
    } else if i == 2 {
        assert(index / 4 % 2 == 0);
    } else if i == 4 {
        assert(index / 16 % 2 == 0);
    } else if i == 5 {
        assert(index / 32 % 2 == 0);
    } else if i == 6 {
        assert(index / 64 % 2 == 0);
    } else if i == 7 {
        assert(index / 128 % 2 == 0);
    } else if i == 8 {
        assert(index / 256 % 2 == 0);
    } else if i == 9 {
        assert(index / 512 % 2 == 0);
    }
}

/// The value of the bit of axis `i`, for the first eleven bits, and a bound
/// on the later ones.
proof fn lemma_bit_value(i: int)
    requires
        0 <= i,
    ensures
        i == 0 ==> axis_bit(i) == 1,
        i == 1 ==> axis_bit(i) == 2,
        i == 2 ==> axis_bit(i) == 4,
        i == 3 ==> axis_bit(i) == 8,
        i == 4 ==> axis_bit(i) == 16,
        i == 5 ==> axis_bit(i) == 32,
        i == 6 ==> axis_bit(i) == 64,
        i == 7 ==> axis_bit(i) == 128,
        i == 8 ==> axis_bit(i) == 256,
        i == 9 ==> axis_bit(i) == 512,
        i == 10 ==> axis_bit(i) == 1024,
        i > 10 ==> axis_bit(i) >= 2048,
{
    lemma2_to64();
    if i > 11 {
        lemma_pow2_strictly_increases(11, i as nat);
    }
}

/// The projection of a point in the working range on an axis is below
/// 3000 in magnitude.
pub proof fn lemma_projection_bound(p: Vector, i: int)
    requires
        p.bounded(WORKING_RANGE as int),
    ensures
        -3_000_000_000_000_000 <= projection(p, i) <= 3_000_000_000_000_000,
{
    lemma_bounded_products(p, axis_direction(i), WORKING_RANGE as int, ONE as int);
}

/// A point outside the working range belongs to no part.
pub proof fn lemma_far_point_is_void(p: Vector, n: int, deep: bool)
    requires
        !p.bounded(WORKING_RANGE as int),
        0 <= n <= AXIS_COUNT,
    ensures
        part_index(p, n, deep) == 0,
{
    lemma_coordinates_within_len(p);
    let r = radius(p);
    assert(r > WORKING_RANGE);
    assert(outer_cosine(depth(p)) == 100 * SPLIT2_COS);
    assert(inner_cosine(depth(p)) == 100 * SPLIT2_COS);
    assert(cut_factor(r) >= 7 * r);
    assert(outer_threshold(p) > 1000 * CUP_REJECT);
    assert(inner_threshold(p) > 1000 * CUP_REJECT);
    if !beyond_cup(p, n) {
        lemma_no_cone_holds(p, n);
    }
}

/// Every axis direction has length one to within a millionth, and the
/// coordinates `u`, `v`, `w` of the ring axes solve, to within a millionth,
/// the equations `w = 2 u^2 - 1` and `w^2 = u v` that place the axes.
pub proof fn lemma_axis_directions(i: int)
    ensures
        ONE * ONE - ONE < axis_direction(i).sqr_len() < ONE * ONE + ONE,
        axis_direction(i).bounded(ONE as int),
        -ONE < AXIS_W * ONE - (2 * AXIS_U * AXIS_U - ONE * ONE) < ONE,
        -ONE < AXIS_W * AXIS_W - AXIS_U * AXIS_V < ONE,
{
    let (u, v, w) = (AXIS_U as int, AXIS_V as int, AXIS_W as int);
    assert(u * u == 729_230_602_500 && v * v == 60_582_438_225 && w * w == 210_186_488_521 && u
        * v == 210_186_983_250 && (-u) * (-u) == u * u && (-v) * (-v) == v * v && (-w) * (-w) == w
        * w) by (nonlinear_arith)
        requires
            u == 853_950,
            v == 246_135,
            w == 458_461,
    ;
    let one = ONE as int;
    assert(one * one == 1_000_000_000_000 && (-one) * (-one) == 1_000_000_000_000 && w * one
        == 458_461_000_000 && 0 * 0 == 0) by (nonlinear_arith)
        requires
            one == 1_000_000,
            w == 458_461,
    ;
}

} // verus!
