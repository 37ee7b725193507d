//! The rotations that take the ten axes to one another, and what they do to
//! the cone test.
//!
//! The axes form two poles and two rings of four. A quarter turn about the
//! poles and a half turn about the first coordinate axis take this set to
//! itself, and so does every rotation made of the two. The cup test, the
//! cone test with its bits and the corner rule are carried along by them.
//! The part index is carried along only so far: only axis 0 and axis 3 have
//! parts, and the layers of a part are told apart by a direction that does
//! not turn with the axes.

use vstd::prelude::*;
use crate::fixed::ONE;
use crate::corner_laws::{
    corner_square, count_where, lemma_corner_rule, margin_at, margin_count, margin_squares,
    margin_taken, sum_where,
};
use crate::partition::{
    axis_bit, axis_direction, axis_rejects, axle_distance, between_layers, beyond_cup,
    cone_index, cone_rejects, corner_rejects, depth, in_axle_zone, in_cup, in_outer_layer,
    in_transition, inner_threshold, negative_margin, on_negative_side, on_positive_side,
    outer_threshold, part_index, positive_margin, projection, radius, shell_index, AXIS_COUNT,
    DEEP_INTERIOR_DEPTH,
};
use crate::partition_laws::{has_bit, lemma_axis_bit, lemma_cone_index_bits, lemma_sole_cone};
use crate::points3d::Vector;

verus! {

/// A rotation that takes the set of axes to itself.
pub enum Turn {
    /// A quarter turn about the poles.
    Quarter,
    /// A half turn about the first coordinate axis, which swaps the poles.
    Half,
}

/// The image of `p` under the turn.
pub open spec fn turned(t: Turn, p: Vector) -> Vector {
    match t {
        Turn::Quarter => Vector { x: -p.y, y: p.x, z: p.z },
        Turn::Half => Vector { x: p.x, y: -p.y, z: -p.z },
    }
}

/// The axis that the turn takes axis `i` to.
pub open spec fn turned_axis(t: Turn, i: int) -> int {
    match t {
        Turn::Quarter => if i == 0 || i == 1 {
            i
        } else if i == 5 {
            2
        } else if i == 9 {
            6
        } else {
            i + 1
        },
        Turn::Half => if i == 0 {
            1
        } else if i == 1 {
            0
        } else if i == 2 {
            6
        } else if i == 6 {
            2
        } else if i == 3 {
            9
        } else if i == 9 {
            3
        } else if i == 4 {
            8
        } else if i == 8 {
            4
        } else if i == 5 {
            7
        } else {
            5
        },
    }
}

/// The axis that the turn takes to axis `j`.
pub open spec fn turned_axis_back(t: Turn, j: int) -> int {
    match t {
        Turn::Quarter => if j == 0 || j == 1 {
            j
        } else if j == 2 {
            5
        } else if j == 6 {
            9
        } else {
            j - 1
        },
        Turn::Half => turned_axis(t, j),
    }
}

/// A turn takes each axis to an axis, and each axis is the image of one.
pub proof fn lemma_turn_permutes_axes(t: Turn, i: int)
    requires
        0 <= i < AXIS_COUNT,
    ensures
        0 <= turned_axis(t, i) < AXIS_COUNT,
        0 <= turned_axis_back(t, i) < AXIS_COUNT,
        turned(t, axis_direction(i)) == axis_direction(turned_axis(t, i)),
        turned_axis_back(t, turned_axis(t, i)) == i,
        turned_axis(t, turned_axis_back(t, i)) == i,
{
}

/// The quarter turn is the rotation about axis 0 with sine one and cosine
/// zero; the half turn is the rotation about the first coordinate axis with
/// sine zero and cosine minus one.
pub proof fn lemma_turn_is_rotation(t: Turn, p: Vector)
    ensures
        t is Quarter ==> p.rotated(axis_direction(0), ONE as int, 0) == turned(t, p),
        t is Half ==> p.rotated(Vector { x: ONE as int, y: 0, z: 0 }, 0, -ONE) == turned(t, p),
{
    let one = ONE as int;
    let cube = one * one * one;
    assert(cube == 1_000_000_000_000_000_000);
    let q = turned(t, p);
    assert(q.x * cube / cube == q.x && q.y * cube / cube == q.y && q.z * cube / cube == q.z) by {
        vstd::arithmetic::div_mod::lemma_div_multiples_vanish(q.x, cube);
        vstd::arithmetic::div_mod::lemma_div_multiples_vanish(q.y, cube);
        vstd::arithmetic::div_mod::lemma_div_multiples_vanish(q.z, cube);
    }
    match t {
        Turn::Quarter => {
            let axle = axis_direction(0);
            assert(axle.x == 0 && axle.y == 0 && axle.z == one);
            let k = one - 0;
            let s = one;
            assert(s * axle.z * one == cube);
            assert(s * axle.x * one == 0 && s * axle.y * one == 0);
            assert(k * axle.x * axle.x == 0 && k * axle.x * axle.y == 0 && k * axle.x * axle.z
                == 0 && k * axle.y * axle.y == 0 && k * axle.y * axle.z == 0);
            assert(k * axle.z * axle.z == cube);
            assert(0 * one * one == 0);
            let r = p.rotated(axle, s, 0);
            assert(r.x == p.row(0, -cube, 0) / cube);
            assert(r.y == p.row(cube, 0, 0) / cube);
            assert(r.z == p.row(0, 0, cube) / cube);
            lemma_row_of_one(p, cube);
            lemma_row_of_one(p, -cube);
        },
        Turn::Half => {
            let axle = Vector { x: one, y: 0, z: 0 };
            let k = one - (-one);
            assert(0 * axle.x * one == 0 && 0 * axle.y * one == 0 && 0 * axle.z * one == 0);
            assert(k * axle.x * axle.x == 2 * cube);
            assert(k * axle.x * axle.y == 0 && k * axle.x * axle.z == 0 && k * axle.y * axle.y
                == 0 && k * axle.y * axle.z == 0 && k * axle.z * axle.z == 0);
            assert((-one) * one * one == -cube);
            let r = p.rotated(axle, 0, -one);
            assert(r.x == p.row(cube, 0, 0) / cube);
            assert(r.y == p.row(0, -cube, 0) / cube);
            assert(r.z == p.row(0, 0, -cube) / cube);
            lemma_row_of_one(p, cube);
            lemma_row_of_one(p, -cube);
        },
    }
}

/// The rotation by the angle zero, with sine zero and cosine one, leaves
/// every vector in place, whatever the axle.
pub proof fn lemma_rotation_by_zero(p: Vector, axle: Vector)
    ensures
        p.rotated(axle, 0, ONE as int) == p,
{
    let one = ONE as int;
    let cube = one * one * one;
    assert(cube == 1_000_000_000_000_000_000);
    assert(one * one * one == cube);
    assert(0 * axle.x * axle.x == 0 && 0 * axle.x * axle.y == 0 && 0 * axle.x * axle.z == 0 && 0
        * axle.y * axle.y == 0 && 0 * axle.y * axle.z == 0 && 0 * axle.z * axle.z == 0);
    assert(0 * axle.x * one == 0 && 0 * axle.y * one == 0 && 0 * axle.z * one == 0);
    let r = p.rotated(axle, 0, one);
    assert(r.x == p.row(cube, 0, 0) / cube);
    assert(r.y == p.row(0, cube, 0) / cube);
    assert(r.z == p.row(0, 0, cube) / cube);
    lemma_row_of_one(p, cube);
    assert(p.x * cube / cube == p.x && p.y * cube / cube == p.y && p.z * cube / cube == p.z) by {
        vstd::arithmetic::div_mod::lemma_div_multiples_vanish(p.x, cube);
        vstd::arithmetic::div_mod::lemma_div_multiples_vanish(p.y, cube);
        vstd::arithmetic::div_mod::lemma_div_multiples_vanish(p.z, cube);
    }
}

/// The product of a vector with a row that holds one entry `m` and two zeros.
proof fn lemma_row_of_one(p: Vector, m: int)
    ensures
        p.row(m, 0, 0) == p.x * m,
        p.row(0, m, 0) == p.y * m,
        p.row(0, 0, m) == p.z * m,
        p.x * (-m) == (-p.x) * m,
        p.y * (-m) == (-p.y) * m,
        p.z * (-m) == (-p.z) * m,
{
    assert(p.x * m + p.y * 0 + p.z * 0 == p.x * m) by (nonlinear_arith);
    assert(p.x * 0 + p.y * m + p.z * 0 == p.y * m) by (nonlinear_arith);
    assert(p.x * 0 + p.y * 0 + p.z * m == p.z * m) by (nonlinear_arith);
    assert(p.x * (-m) == (-p.x) * m) by (nonlinear_arith);
    assert(p.y * (-m) == (-p.y) * m) by (nonlinear_arith);
    assert(p.z * (-m) == (-p.z) * m) by (nonlinear_arith);
}

/// A turn keeps scalar products and lengths, and turns a vector product
/// with its factors.
pub proof fn lemma_turn_keeps_products(t: Turn, p: Vector, q: Vector)
    ensures
        turned(t, p).dot(turned(t, q)) == p.dot(q),
        turned(t, p).cross(turned(t, q)) == turned(t, p.cross(q)),
        turned(t, p).sqr_len() == p.sqr_len(),
        turned(t, p).len() == p.len(),
{
    let (a, b) = (turned(t, p), turned(t, q));
    assert(a.dot(b) == p.dot(q)) by (nonlinear_arith)
        requires
            (a.x == -p.y && a.y == p.x && a.z == p.z && b.x == -q.y && b.y == q.x && b.z == q.z)
                || (a.x == p.x && a.y == -p.y && a.z == -p.z && b.x == q.x && b.y == -q.y && b.z
                == -q.z),
            a.dot(b) == a.x * b.x + a.y * b.y + a.z * b.z,
            p.dot(q) == p.x * q.x + p.y * q.y + p.z * q.z,
    ;
    assert(a.dot(a) == p.dot(p)) by (nonlinear_arith)
        requires
            (a.x == -p.y && a.y == p.x && a.z == p.z) || (a.x == p.x && a.y == -p.y && a.z
                == -p.z),
            a.dot(a) == a.x * a.x + a.y * a.y + a.z * a.z,
            p.dot(p) == p.x * p.x + p.y * p.y + p.z * p.z,
    ;
    let c = p.cross(q);
    let e = a.cross(b);
    match t {
        Turn::Quarter => {
            assert(e.x == -c.y && e.y == c.x && e.z == c.z) by (nonlinear_arith)
                requires
                    a.x == -p.y && a.y == p.x && a.z == p.z,
                    b.x == -q.y && b.y == q.x && b.z == q.z,
                    c.x == p.y * q.z - p.z * q.y,
                    c.y == p.z * q.x - p.x * q.z,
                    c.z == p.x * q.y - p.y * q.x,
                    e.x == a.y * b.z - a.z * b.y,
                    e.y == a.z * b.x - a.x * b.z,
                    e.z == a.x * b.y - a.y * b.x,
            ;
        },
        Turn::Half => {
            assert(e.x == c.x && e.y == -c.y && e.z == -c.z) by (nonlinear_arith)
                requires
                    a.x == p.x && a.y == -p.y && a.z == -p.z,
                    b.x == q.x && b.y == -q.y && b.z == -q.z,
                    c.x == p.y * q.z - p.z * q.y,
                    c.y == p.z * q.x - p.x * q.z,
                    c.z == p.x * q.y - p.y * q.x,
                    e.x == a.y * b.z - a.z * b.y,
                    e.y == a.z * b.x - a.x * b.z,
                    e.z == a.x * b.y - a.y * b.x,
            ;
        },
    }
}

/// A turn carries the test of a point against the cone of an axis along:
/// what holds of `p` and axis `i` holds of the image of `p` and the image of
/// the axis.
pub proof fn lemma_turn_carries_axis_test(t: Turn, p: Vector, i: int)
    requires
        0 <= i < AXIS_COUNT,
    ensures
        radius(turned(t, p)) == radius(p),
        depth(turned(t, p)) == depth(p),
        outer_threshold(turned(t, p)) == outer_threshold(p),
        inner_threshold(turned(t, p)) == inner_threshold(p),
        projection(turned(t, p), turned_axis(t, i)) == projection(p, i),
        axle_distance(turned(t, p), turned_axis(t, i)) == axle_distance(p, i),
        on_positive_side(turned(t, p), turned_axis(t, i)) == on_positive_side(p, i),
        in_transition(turned(t, p), turned_axis(t, i)) == in_transition(p, i),
        on_negative_side(turned(t, p), turned_axis(t, i)) == on_negative_side(p, i),
        positive_margin(turned(t, p), turned_axis(t, i)) == positive_margin(p, i),
        negative_margin(turned(t, p), turned_axis(t, i)) == negative_margin(p, i),
        in_axle_zone(turned(t, p), turned_axis(t, i)) == in_axle_zone(p, i),
        forall|cup: bool|
            axis_rejects(turned(t, p), turned_axis(t, i), cup) == axis_rejects(p, i, cup),
{
    lemma_turn_permutes_axes(t, i);
    lemma_turn_keeps_products(t, p, axis_direction(i));
    lemma_turn_keeps_products(t, p.cross(axis_direction(i)), p);
}

/// A turn carries the cup test and the cone test as a whole along: the
/// image of a point is rejected by them if and only if the point is.
pub proof fn lemma_turn_carries_cone_test(t: Turn, p: Vector)
    ensures
        beyond_cup(turned(t, p), AXIS_COUNT as int) == beyond_cup(p, AXIS_COUNT as int),
        in_cup(turned(t, p), AXIS_COUNT as int) == in_cup(p, AXIS_COUNT as int),
        cone_rejects(turned(t, p), AXIS_COUNT as int) == cone_rejects(p, AXIS_COUNT as int),
{
    let q = turned(t, p);
    let n = AXIS_COUNT as int;
    assert forall|i: int| 0 <= i < n implies {
        &&& 0 <= turned_axis(t, i) < n
        &&& 0 <= turned_axis_back(t, i) < n
        &&& turned_axis(t, turned_axis_back(t, i)) == i
        &&& #[trigger] projection(q, turned_axis(t, i)) == projection(p, i)
        &&& forall|cup: bool| axis_rejects(q, turned_axis(t, i), cup) == axis_rejects(p, i, cup)
    } by {
        lemma_turn_permutes_axes(t, i);
        lemma_turn_carries_axis_test(t, p, i);
    }
    lemma_carried_cup(t, p, crate::partition::CUP_REJECT as int);
    lemma_carried_cup(t, p, crate::partition::CUP_RELAX as int);
    let cup = in_cup(p, n);
    if cone_rejects(p, n) {
        let i = choose|i: int| 0 <= i < n && #[trigger] axis_rejects(p, i, in_cup(p, n));
        lemma_turn_carries_axis_test(t, p, i);
        lemma_turn_permutes_axes(t, i);
        assert(axis_rejects(q, turned_axis(t, i), in_cup(q, n)));
    }
    if cone_rejects(q, n) {
        let j = choose|j: int| 0 <= j < n && #[trigger] axis_rejects(q, j, in_cup(q, n));
        let i = turned_axis_back(t, j);
        lemma_turn_permutes_axes(t, j);
        lemma_turn_carries_axis_test(t, p, i);
        assert(axis_rejects(p, i, in_cup(p, n)));
    }
}

/// A turn relabels the bits of the cone index as it permutes the axes: the
/// bit of the image of axis `i` is set for the image of `p` if and only if
/// the bit of axis `i` is set for `p`.
pub proof fn lemma_turn_relabels_bits(t: Turn, p: Vector, i: int)
    requires
        0 <= i < AXIS_COUNT,
    ensures
        has_bit(cone_index(turned(t, p), AXIS_COUNT as int), turned_axis(t, i)) == has_bit(
            cone_index(p, AXIS_COUNT as int),
            i,
        ),
{
    lemma_turn_permutes_axes(t, i);
    lemma_turn_carries_axis_test(t, p, i);
    lemma_cone_index_bits(p, AXIS_COUNT as int, i);
    lemma_cone_index_bits(turned(t, p), AXIS_COUNT as int, turned_axis(t, i));
}

/// A turn carries the margins along with the axes, so as many are taken for
/// the image of a point as for the point, with the same corner squares.
pub proof fn lemma_turn_keeps_margins(t: Turn, p: Vector, inside: bool)
    ensures
        margin_count(turned(t, p), AXIS_COUNT as int, inside) == margin_count(
            p,
            AXIS_COUNT as int,
            inside,
        ),
        margin_squares(turned(t, p), AXIS_COUNT as int, inside) == margin_squares(
            p,
            AXIS_COUNT as int,
            inside,
        ),
{
    let q = turned(t, p);
    let f1 = |i: int| margin_taken(p, i, inside);
    let v1 = |i: int| corner_square(margin_at(p, i, inside));
    let f2 = |i: int| margin_taken(q, i, inside);
    let v2 = |i: int| corner_square(margin_at(q, i, inside));
    assert forall|i: int| 0 <= i < AXIS_COUNT implies f2(#[trigger] turned_axis(t, i)) == f1(i)
        && v2(turned_axis(t, i)) == v1(i) by {
        lemma_turn_carries_axis_test(t, p, i);
    }
    lemma_turned_sums(t, f1, v1, f2, v2);
}

/// Counts and sums over the ten axes do not change when the axes are
/// permuted by a turn.
proof fn lemma_turned_sums(
    t: Turn,
    f1: spec_fn(int) -> bool,
    v1: spec_fn(int) -> int,
    f2: spec_fn(int) -> bool,
    v2: spec_fn(int) -> int,
)
    requires
        forall|i: int|
            0 <= i < AXIS_COUNT ==> f2(#[trigger] turned_axis(t, i)) == f1(i) && v2(
                turned_axis(t, i),
            ) == v1(i),
    ensures
        count_where(f2, AXIS_COUNT as int) == count_where(f1, AXIS_COUNT as int),
        sum_where(f2, v2, AXIS_COUNT as int) == sum_where(f1, v1, AXIS_COUNT as int),
{
    assert(f2(turned_axis(t, 0)) == f1(0) && v2(turned_axis(t, 0)) == v1(0));
    assert(f2(turned_axis(t, 1)) == f1(1) && v2(turned_axis(t, 1)) == v1(1));
    assert(f2(turned_axis(t, 2)) == f1(2) && v2(turned_axis(t, 2)) == v1(2));
    assert(f2(turned_axis(t, 3)) == f1(3) && v2(turned_axis(t, 3)) == v1(3));
    assert(f2(turned_axis(t, 4)) == f1(4) && v2(turned_axis(t, 4)) == v1(4));
    assert(f2(turned_axis(t, 5)) == f1(5) && v2(turned_axis(t, 5)) == v1(5));
    assert(f2(turned_axis(t, 6)) == f1(6) && v2(turned_axis(t, 6)) == v1(6));
    assert(f2(turned_axis(t, 7)) == f1(7) && v2(turned_axis(t, 7)) == v1(7));
    assert(f2(turned_axis(t, 8)) == f1(8) && v2(turned_axis(t, 8)) == v1(8));
    assert(f2(turned_axis(t, 9)) == f1(9) && v2(turned_axis(t, 9)) == v1(9));
    reveal_with_fuel(count_where, 11);
    reveal_with_fuel(sum_where, 11);
}

/// A turn carries the corner rule along: the image of a point lies outside
/// a rounded corner if and only if the point does.
pub proof fn lemma_turn_carries_corner_test(t: Turn, p: Vector)
    ensures
        corner_rejects(turned(t, p), AXIS_COUNT as int) == corner_rejects(p, AXIS_COUNT as int),
{
    lemma_turn_keeps_margins(t, p, true);
    lemma_turn_keeps_margins(t, p, false);
    lemma_corner_rule(p, AXIS_COUNT as int);
    lemma_corner_rule(turned(t, p), AXIS_COUNT as int);
    lemma_turn_carries_axis_test(t, p, 0);
}

/// Where a turn takes the axis of a part to an axis that has a part too,
/// and the tests for the layers of the part come out the same for the point
/// and for its image, the part index of the image is the part index of the
/// point with the bit of the axis replaced by that of its image.
pub proof fn lemma_turn_relabels_part(t: Turn, p: Vector, a: int)
    requires
        a == 0 || a == 3,
        turned_axis(t, a) == 0 || turned_axis(t, a) == 3,
        cone_index(p, AXIS_COUNT as int) == axis_bit(a),
        in_outer_layer(turned(t, p), turned_axis(t, a)) == in_outer_layer(p, a),
        between_layers(turned(t, p), turned_axis(t, a)) == between_layers(p, a),
    ensures
        shell_index(p, AXIS_COUNT as int) == 0 ==> shell_index(turned(t, p), AXIS_COUNT as int)
            == 0,
        shell_index(p, AXIS_COUNT as int) != 0 ==> shell_index(turned(t, p), AXIS_COUNT as int)
            == shell_index(p, AXIS_COUNT as int) - axis_bit(a) + axis_bit(turned_axis(t, a)),
        forall|deep: bool|
            depth(p) <= DEEP_INTERIOR_DEPTH || !deep ==> (part_index(
                turned(t, p),
                AXIS_COUNT as int,
                deep,
            ) == 0) == (part_index(p, AXIS_COUNT as int, deep) == 0),
{
    let n = AXIS_COUNT as int;
    let q = turned(t, p);
    let b = turned_axis(t, a);
    lemma_turn_carries_cone_test(t, p);
    lemma_turn_carries_corner_test(t, p);
    lemma_turn_carries_axis_test(t, p, a);
    lemma_axis_bit(0);
    // the cone of the image axis holds the image, and no other cone does
    lemma_sole_cone(p, n, a);
    assert forall|j: int| 0 <= j < n && j != b implies !on_positive_side(q, j) by {
        let i = turned_axis_back(t, j);
        lemma_turn_permutes_axes(t, j);
        lemma_turn_permutes_axes(t, a);
        lemma_turn_carries_axis_test(t, p, i);
    }
    lemma_sole_cone(q, n, b);
    assert(cone_index(q, n) == axis_bit(b));
}

/// Some projection of `p` exceeds `level` if and only if some projection of
/// its image does.
proof fn lemma_carried_cup(t: Turn, p: Vector, level: int)
    ensures
        (exists|i: int| 0 <= i < AXIS_COUNT && #[trigger] projection(turned(t, p), i) > level) == (
        exists|i: int| 0 <= i < AXIS_COUNT && #[trigger] projection(p, i) > level),
{
    let q = turned(t, p);
    if exists|i: int| 0 <= i < AXIS_COUNT && #[trigger] projection(p, i) > level {
        let i = choose|i: int| 0 <= i < AXIS_COUNT && #[trigger] projection(p, i) > level;
        lemma_turn_carries_axis_test(t, p, i);
        lemma_turn_permutes_axes(t, i);
        assert(projection(q, turned_axis(t, i)) > level);
    }
    if exists|j: int| 0 <= j < AXIS_COUNT && #[trigger] projection(q, j) > level {
        let j = choose|j: int| 0 <= j < AXIS_COUNT && #[trigger] projection(q, j) > level;
        let i = turned_axis_back(t, j);
        lemma_turn_permutes_axes(t, j);
        lemma_turn_carries_axis_test(t, p, i);
        assert(projection(p, i) > level);
    }
}

} // verus!
