//! The partition of space into puzzle parts, as a mathematical definition.
//!
//! The puzzle is a ball of radius 18 cut along ten axes. A point near the
//! surface of the ball belongs to the part of an axis if it lies inside the
//! cone around that axis and keeps clear of the axles and of the rounded
//! corners between neighbouring cuts. The functions of this file define the
//! part index of every point; `DecaminxCreator` computes it.
//!
//! Scales. Positions and axis directions are vectors in millionths
//! (`ONE`). A projection on an axis and an axle distance are products of the
//! two and so count in units of `ONE * ONE`. Cosines are held a hundred times
//! finer than `ONE`, the cut factor ten times finer, so that the products of
//! the thresholds are formed without rounding.

use vstd::prelude::*;
use vstd::arithmetic::power2::pow2;
use crate::fixed::ONE;
use crate::points3d::Vector;

verus! {

/// Number of cut axes.
pub const AXIS_COUNT: usize = 10;

/// Radius of the ball.
pub const BALL_RADIUS: i64 = 18_000_000;

/// Cosine of the wider cut angle, `0.7619934 + 4 / 18`.
pub const SPLIT_COS: i64 = 553_517;

/// Cosine of the narrower cut angle, `0.7619934 + 1 / 18`.
pub const SPLIT2_COS: i64 = 684_011;

/// First coordinate of the axis direction `(u, v, w)`.
pub const AXIS_U: i64 = 853_950;

/// Second coordinate of the axis direction `(u, v, w)`.
pub const AXIS_V: i64 = 246_135;

/// Third coordinate of the axis direction `(u, v, w)`.
pub const AXIS_W: i64 = 458_461;

/// A projection above this (28.5) puts the point outside every part.
pub const CUP_REJECT: i64 = 28_500_000_000_000;

/// A projection above this (28.0) puts the point in the cup of its axis.
pub const CUP_RELAX: i64 = 28_000_000_000_000;

/// Depth (4.0) beyond which a point counts as deep inside the ball.
pub const DEEP_INTERIOR_DEPTH: i64 = 4_000_000;

/// Depth (3.8) beyond which no part reaches.
pub const PART_DEPTH: i64 = 3_800_000;

/// The value one of a margin.
pub const MARGIN_ONE: i64 = 5_000_000_000_000_000;

/// Bit of the part index that marks the outer layer of a part.
pub const OUTER_LAYER: u32 = 1024;

/// Index of the upper half of the deep interior.
pub const UPPER_CORE: u32 = 2023;

/// Index of the lower half of the deep interior; the two centre regions
/// follow it as `LOWER_CORE + 1` and `LOWER_CORE + 2`.
pub const LOWER_CORE: u32 = 2024;

/// Largest magnitude of a coordinate that the classifier computes with;
/// a point with a larger one lies far outside the puzzle and is void.
pub const WORKING_RANGE: i64 = 1_000_000_000;

/// The direction of axis `i`: the two poles, then four directions above the
/// equator and four below it, each group a quarter turn apart.
pub open spec fn axis_direction(i: int) -> Vector {
    if i == 0 {
        Vector { x: 0, y: 0, z: ONE as int }
    } else if i == 1 {
        Vector { x: 0, y: 0, z: -ONE }
    } else if i == 2 {
        Vector { x: AXIS_U as int, y: AXIS_V as int, z: AXIS_W as int }
    } else if i == 3 {
        Vector { x: -AXIS_V, y: AXIS_U as int, z: AXIS_W as int }
    } else if i == 4 {
        Vector { x: -AXIS_U, y: -AXIS_V, z: AXIS_W as int }
    } else if i == 5 {
        Vector { x: AXIS_V as int, y: -AXIS_U, z: AXIS_W as int }
    } else if i == 6 {
        Vector { x: AXIS_U as int, y: -AXIS_V, z: -AXIS_W }
    } else if i == 7 {
        Vector { x: AXIS_V as int, y: AXIS_U as int, z: -AXIS_W }
    } else if i == 8 {
        Vector { x: -AXIS_U, y: AXIS_V as int, z: -AXIS_W }
    } else {
        Vector { x: -AXIS_V, y: -AXIS_U, z: -AXIS_W }
    }
}

/// Distance of `p` from the centre of the ball, rounded down.
pub open spec fn radius(p: Vector) -> int {
    p.len()
}

/// How far `p` lies below the surface of the ball; negative outside it.
pub open spec fn depth(p: Vector) -> int {
    BALL_RADIUS - radius(p)
}

/// Projection of `p` on axis `i`.
pub open spec fn projection(p: Vector, i: int) -> int {
    p.dot(axis_direction(i))
}

/// Distance of `p` from the line of axis `i`, rounded down.
pub open spec fn axle_distance(p: Vector, i: int) -> int {
    p.cross(axis_direction(i)).len()
}

/// `p` lies beyond the cup of one of the first `n` axes.
pub open spec fn beyond_cup(p: Vector, n: int) -> bool {
    exists|i: int| 0 <= i < n && #[trigger] projection(p, i) > CUP_REJECT
}

/// `p` lies in the cup of one of the first `n` axes, where the axle zone
/// does not apply.
pub open spec fn in_cup(p: Vector, n: int) -> bool {
    exists|i: int| 0 <= i < n && #[trigger] projection(p, i) > CUP_RELAX
}

/// A hundred times the cosine that bounds the cone of a part at the given
/// depth. Below depth 0.6 the cone narrows linearly until depth 0.4, above
/// which the narrow angle holds.
pub open spec fn outer_cosine(depth: int) -> int {
    if depth > 600_000 {
        100 * SPLIT_COS
    } else if depth > 400_000 {
        100 * SPLIT_COS - (depth - 600_000) * 15
    } else {
        100 * SPLIT2_COS
    }
}

/// A hundred times the cosine below which a point is clear of a cone at the
/// given depth. Down to the surface the wide angle holds; outside the ball
/// it narrows linearly until depth -0.2, beyond which the narrow angle holds.
pub open spec fn inner_cosine(depth: int) -> int {
    if depth > 0 {
        100 * SPLIT_COS
    } else if depth > -200_000 {
        100 * SPLIT2_COS - (depth + 200_000) * 15
    } else {
        100 * SPLIT2_COS
    }
}

/// The band just below the surface, between depth 0 and 0.4, where a corner
/// between a part and its neighbour is not rounded.
pub open spec fn in_middle_band(depth: int) -> bool {
    0 < depth <= 400_000
}

/// Ten times the factor that turns a cosine into a bound on a projection:
/// seven parts of the radius and three parts of the radius held between 16
/// and 18.
pub open spec fn cut_factor(r: int) -> int {
    let held = if r > BALL_RADIUS {
        BALL_RADIUS as int
    } else if r < BALL_RADIUS - 2 * ONE {
        BALL_RADIUS - 2 * ONE
    } else {
        r
    };
    7 * r + 3 * held
}

/// A thousand times the projection above which `p` is inside a cone.
pub open spec fn outer_threshold(p: Vector) -> int {
    outer_cosine(depth(p)) * cut_factor(radius(p))
}

/// A thousand times the projection up to which `p` is clear of a cone.
pub open spec fn inner_threshold(p: Vector) -> int {
    inner_cosine(depth(p)) * cut_factor(radius(p))
}

/// `p` is inside the cone of axis `i`.
pub open spec fn on_positive_side(p: Vector, i: int) -> bool {
    1000 * projection(p, i) > outer_threshold(p)
}

/// `p` is in the band between the inside and the outside of the cone of
/// axis `i`, which belongs to no part.
pub open spec fn in_transition(p: Vector, i: int) -> bool {
    !on_positive_side(p, i) && 1000 * projection(p, i) > inner_threshold(p)
}

/// `p` is outside the cone of axis `i`, on the side of the axis.
pub open spec fn on_negative_side(p: Vector, i: int) -> bool {
    !on_positive_side(p, i) && !in_transition(p, i) && projection(p, i) > 0
}

/// How close `p`, inside the cone of axis `i`, is to its boundary: one
/// (`MARGIN_ONE`) on the boundary, falling by 0.8 for each unit of
/// projection beyond it.
pub open spec fn positive_margin(p: Vector, i: int) -> int {
    MARGIN_ONE - 4 * (1000 * projection(p, i) - outer_threshold(p))
}

/// How close `p`, outside the cone of axis `i`, is to its boundary: one
/// (`MARGIN_ONE`) on the boundary, falling by 0.8 for each unit of
/// projection short of it.
pub open spec fn negative_margin(p: Vector, i: int) -> int {
    MARGIN_ONE - 4 * (inner_threshold(p) - 1000 * projection(p, i))
}

/// Radius of the zone around each axle that belongs to no part: 3.2
/// further than one unit outside the ball, 1.35 elsewhere.
pub open spec fn axle_radius(depth: int) -> int {
    if depth < -ONE {
        3_200_000 * ONE
    } else {
        1_350_000 * ONE
    }
}

/// `p` lies in the zone around the axle of axis `i`.
pub open spec fn in_axle_zone(p: Vector, i: int) -> bool {
    axle_distance(p, i) < axle_radius(depth(p))
}

/// The test of `p` against the cone of axis `i` ends the classification:
/// `p` is in the transition band, or inside the cone but in the axle zone
/// while not in a cup.
pub open spec fn axis_rejects(p: Vector, i: int, cup: bool) -> bool {
    in_transition(p, i) || (on_positive_side(p, i) && !cup && in_axle_zone(p, i))
}

/// One of the first `n` axes rejects `p`.
pub open spec fn cone_rejects(p: Vector, n: int) -> bool {
    exists|i: int| 0 <= i < n && #[trigger] axis_rejects(p, i, in_cup(p, n))
}

/// The bit of axis `i` in a part index.
pub open spec fn axis_bit(i: int) -> int {
    pow2(i as nat) as int
}

/// The bits of those of the first `n` axes whose cone holds `p`.
pub open spec fn cone_index(p: Vector, n: int) -> int
    decreases n,
{
    if n <= 0 {
        0
    } else if on_positive_side(p, n - 1) {
        cone_index(p, n - 1) + axis_bit(n - 1)
    } else {
        cone_index(p, n - 1)
    }
}

/// The margins, in the order of the axes, of those of the first `n` axes
/// whose cone holds `p` with a margin above zero.
pub open spec fn positive_margins(p: Vector, n: int) -> Seq<int>
    decreases n,
{
    if n <= 0 {
        Seq::empty()
    } else if on_positive_side(p, n - 1) && positive_margin(p, n - 1) > 0 {
        positive_margins(p, n - 1).push(positive_margin(p, n - 1))
    } else {
        positive_margins(p, n - 1)
    }
}

/// The margins, in the order of the axes, of those of the first `n` axes
/// that have `p` on their side outside the cone with a margin above zero.
pub open spec fn negative_margins(p: Vector, n: int) -> Seq<int>
    decreases n,
{
    if n <= 0 {
        Seq::empty()
    } else if on_negative_side(p, n - 1) && negative_margin(p, n - 1) > 0 {
        negative_margins(p, n - 1).push(negative_margin(p, n - 1))
    } else {
        negative_margins(p, n - 1)
    }
}

/// The part of a margin that counts in a corner: the margin, held at zero
/// from below.
pub open spec fn corner_term(margin: int) -> int {
    if margin > 0 {
        margin
    } else {
        0
    }
}

/// Two margins lie inside the quarter circle that rounds a corner: the sum
/// of their squares is below one.
pub open spec fn inside_corner(m1: int, m2: int) -> bool {
    corner_term(m1) * corner_term(m1) + corner_term(m2) * corner_term(m2) < MARGIN_ONE
        * MARGIN_ONE
}

/// The corner rule on the margins taken inside cones (`inside`) and
/// outside them (`outside`): the point lies outside a rounded corner if two
/// margins of one kind, or, outside the middle band, one of each kind, do
/// not lie inside the quarter circle.
pub open spec fn corner_rule(inside: Seq<int>, outside: Seq<int>, middle: bool) -> bool {
    ||| inside.len() == 2 && !inside_corner(inside[0], inside[1])
    ||| outside.len() == 2 && !inside_corner(outside[0], outside[1])
    ||| inside.len() == 1 && outside.len() == 1 && !middle && !inside_corner(inside[0], outside[0])
}

/// `p` lies outside a rounded corner: between two cones that hold it,
/// between two cones that it is close to, or, outside the middle band,
/// between one of each.
pub open spec fn corner_rejects(p: Vector, n: int) -> bool {
    corner_rule(positive_margins(p, n), negative_margins(p, n), in_middle_band(depth(p)))
}

/// The axis of a part index that holds the bit of axis 0 or that of axis 3.
pub open spec fn part_axis(index: int) -> int {
    if index == 1 {
        0
    } else {
        3
    }
}

/// Projection of `p` on the direction at right angles to axis `a` that
/// `any_perp` picks.
pub open spec fn side_projection(p: Vector, a: int) -> int {
    p.dot(axis_direction(a).any_perp())
}

/// `p`, in the part of axis `a`, belongs to its outer layer: further than
/// 26.5 from the centre, or nearer than 4.25 to the axle and further from
/// the centre than 22.5 on the one side and 24.5 on the other.
pub open spec fn in_outer_layer(p: Vector, a: int) -> bool {
    ||| radius(p) > 26_500_000
    ||| (axle_distance(p, a) < 4_250_000 * ONE && radius(p) > (if side_projection(p, a) > 200_000
        * ONE {
        22_500_000int
    } else {
        24_500_000int
    }))
}

/// `p` lies in the gap between the inner and the outer layer of the part of
/// axis `a`: not in the outer layer, but further than 26.3 from the centre,
/// or nearer than 4.35 to the axle and further from the centre than 22.3 on
/// the one side and 24.3 on the other.
pub open spec fn between_layers(p: Vector, a: int) -> bool {
    &&& !in_outer_layer(p, a)
    &&& (radius(p) > 26_300_000 || (axle_distance(p, a) < 4_350_000 * ONE && radius(p) > (
    if side_projection(p, a) > -200_000 * ONE {
        22_300_000int
    } else {
        24_300_000int
    })))
}

/// The part index of a point that is not deep inside the ball, with the
/// first `n` axes in use. Only the parts of axis 0 and of axis 3 exist.
pub open spec fn shell_index(p: Vector, n: int) -> int {
    let index = cone_index(p, n);
    if beyond_cup(p, n) || cone_rejects(p, n) {
        0
    } else if index != 1 && index != 8 {
        0
    } else if depth(p) > PART_DEPTH {
        0
    } else if between_layers(p, part_axis(index)) {
        0
    } else if corner_rejects(p, n) {
        0
    } else if in_outer_layer(p, part_axis(index)) {
        index + OUTER_LAYER
    } else {
        index
    }
}

/// `p` lies nearer than 1.25 to the axle of one of the first `n` axes, on
/// the side of that axis.
pub open spec fn in_core_axle(p: Vector, n: int) -> bool {
    exists|i: int|
        0 <= i < n && #[trigger] projection(p, i) > 0 && axle_distance(p, i) < 1_250_000 * ONE
}

/// Distance of `p` from the vertical line through `(cx, cy)`, measured as
/// the sum of the distances along the first two coordinates.
pub open spec fn centre_distance(p: Vector, cx: int, cy: int) -> int {
    (if p.x >= cx {
        p.x - cx
    } else {
        cx - p.x
    }) + (if p.y >= cy {
        p.y - cy
    } else {
        cy - p.y
    })
}

/// The index of a point deep inside the ball, for a model in which the deep
/// interior is switched on: zero around the axles, around the two centre
/// regions and around the equator plane; `LOWER_CORE + 1` and
/// `LOWER_CORE + 2` in the centre regions about `(7, 7)` and `(-7, -7)`;
/// `UPPER_CORE` above the equator and `LOWER_CORE` below it.
pub open spec fn core_index(p: Vector, n: int) -> int {
    let first = centre_distance(p, 7 * ONE, 7 * ONE);
    let second = centre_distance(p, -7 * ONE, -7 * ONE);
    if in_core_axle(p, n) {
        0
    } else if first < 2_500_000 {
        LOWER_CORE + 1
    } else if first < 2_800_000 {
        0
    } else if second < 2_500_000 {
        LOWER_CORE + 2
    } else if second < 2_800_000 {
        0
    } else if -100_000 < p.z < 100_000 {
        0
    } else if p.z > 0 {
        UPPER_CORE as int
    } else {
        LOWER_CORE as int
    }
}

/// The part index of `p` with the first `n` axes in use: zero where `p`
/// belongs to no part. Deeper than 4 below the surface every point is void
/// unless the deep interior is switched on (`deep`).
pub open spec fn part_index(p: Vector, n: int, deep: bool) -> int {
    if depth(p) > DEEP_INTERIOR_DEPTH {
        if deep {
            core_index(p, n)
        } else {
            0
        }
    } else {
        shell_index(p, n)
    }
}

} // verus!
