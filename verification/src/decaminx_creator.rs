//! The classifier: computes the part index that `partition` defines.

use vstd::prelude::*;
use crate::fixed::ONE;
use crate::partition::{
    axis_bit, axis_direction, axis_rejects, axle_distance, axle_radius, beyond_cup, cone_index,
    cone_rejects, core_index, corner_rule, cut_factor, depth, in_core_axle, in_cup, inner_cosine,
    inner_threshold, inside_corner, negative_margins, on_positive_side, outer_cosine,
    outer_threshold, part_index, positive_margins, projection, radius, AXIS_COUNT, AXIS_U,
    AXIS_V, AXIS_W, BALL_RADIUS, CUP_REJECT, CUP_RELAX, DEEP_INTERIOR_DEPTH, LOWER_CORE,
    MARGIN_ONE, OUTER_LAYER, PART_DEPTH, SPLIT2_COS, SPLIT_COS, UPPER_CORE, WORKING_RANGE,
};
use crate::partition_laws::{lemma_axis_bit, lemma_far_point_is_void, lemma_projection_bound};
use crate::points3d::{
    cross, dot, lemma_bounded_product, lemma_bounded_products, lemma_square_bound, Point, Vector,
};
use vstd::arithmetic::power2::lemma2_to64;

verus! {

/// A part index: bit `i` marks the part of axis `i`, bit 10 its outer
/// layer; zero marks a point that belongs to no part.
pub type PartIndex = u32;

/// An axis that a point is close to, and how close it is to the boundary of
/// its cone.
#[derive(Clone, Copy, Debug)]
pub struct NearAxis {
    pub margin: i64,
    pub axis: Point,
}

/// What a point belongs to.
#[derive(Clone, Copy, Debug, PartialEq, Eq, Structural)]
pub enum Region {
    /// No part: the point lies in a cut, in an axle, or outside the puzzle.
    Void,
    /// The part with this index.
    Part(PartIndex),
    /// A region of the deep interior, with its marker.
    Special(PartIndex),
}

/// The region of `p` with all axes in use: the part index told apart by
/// where it comes from.
pub open spec fn region(p: Vector, deep: bool) -> Region {
    let index = part_index(p, AXIS_COUNT as int, deep);
    if index == 0 {
        Region::Void
    } else if crate::partition::depth(p) > DEEP_INTERIOR_DEPTH {
        Region::Special(index as PartIndex)
    } else {
        Region::Part(index as PartIndex)
    }
}

/// The puzzle model: ten cut axes, the radius of the ball and the cosines
/// of the two cut angles.
pub struct DecaminxCreator {
    axis: Vec<Point>,
    normals: Vec<Point>,
    split_cos: i64,
    split2_cos: i64,
    ball_radius: i64,
    deep_interior: bool,
}

/// What a `DecaminxCreator` stands for in contracts.
pub struct Model {
    /// The directions of the cut axes, in the order of their bits.
    pub axes: Seq<Vector>,
    /// Cosine of the wider cut angle.
    pub split_cos: int,
    /// Cosine of the narrower cut angle.
    pub split2_cos: int,
    /// Radius of the ball.
    pub ball_radius: int,
    /// Whether points deeper than 4 below the surface get an index of
    /// their own in place of zero.
    pub deep_interior: bool,
}

/// The model of the puzzle, with the deep interior switched on or off. The
/// partition is defined for this model: its axes are `axis_direction`, its
/// cosines `SPLIT_COS` and `SPLIT2_COS`, its radius `BALL_RADIUS`.
pub open spec fn puzzle_model(deep: bool) -> Model {
    Model {
        axes: Seq::new(AXIS_COUNT as nat, |i: int| axis_direction(i)),
        split_cos: SPLIT_COS as int,
        split2_cos: SPLIT2_COS as int,
        ball_radius: BALL_RADIUS as int,
        deep_interior: deep,
    }
}

impl View for DecaminxCreator {
    type V = Model;

    closed spec fn view(&self) -> Model {
        Model {
            axes: Seq::new(self.axis@.len(), |i: int| self.axis@[i]@),
            split_cos: self.split_cos as int,
            split2_cos: self.split2_cos as int,
            ball_radius: self.ball_radius as int,
            deep_interior: self.deep_interior,
        }
    }
}

/// `v` holds the ten axis directions in their order.
pub open spec fn is_axis_table(v: Seq<Point>) -> bool {
    &&& v.len() == AXIS_COUNT
    &&& forall|i: int| 0 <= i < AXIS_COUNT ==> (#[trigger] v[i])@ == axis_direction(i)
}

/// The ten axis directions in their order.
fn axis_table() -> (v: Vec<Point>)
    ensures
        is_axis_table(v@),
{
    let (u, v, w): (i64, i64, i64) = (AXIS_U, AXIS_V, AXIS_W);
    let (nu, nv, nw): (i64, i64, i64) = (-AXIS_U, -AXIS_V, -AXIS_W);
    let down: i64 = -ONE;
    vec![
        Point { x: 0, y: 0, z: ONE },
        Point { x: 0, y: 0, z: down },
        Point { x: u, y: v, z: w },
        Point { x: nv, y: u, z: w },
        Point { x: nu, y: nv, z: w },
        Point { x: v, y: nu, z: w },
        Point { x: u, y: nv, z: nw },
        Point { x: v, y: u, z: nw },
        Point { x: nu, y: v, z: nw },
        Point { x: nv, y: nu, z: nw },
    ]
}

impl DecaminxCreator {
    #[verifier::type_invariant]
    spec fn well_formed(&self) -> bool {
        &&& is_axis_table(self.axis@)
        &&& is_axis_table(self.normals@)
        &&& self.split_cos == SPLIT_COS
        &&& self.split2_cos == SPLIT2_COS
        &&& self.ball_radius == BALL_RADIUS
    }

    /// The model of the puzzle, with the deep interior switched off.
    pub fn new() -> (r: Self)
        ensures
            r@ == puzzle_model(false),
    {
        let r = Self {
            axis: axis_table(),
            normals: axis_table(),
            split_cos: SPLIT_COS,
            split2_cos: SPLIT2_COS,
            ball_radius: BALL_RADIUS,
            deep_interior: false,
        };
        assert(r@.axes =~= puzzle_model(false).axes);
        r
    }

    /// The same model with the deep interior switched on or off.
    pub fn with_deep_interior(self, enabled: bool) -> (r: Self)
        ensures
            r@ == puzzle_model(enabled),
    {
        proof {
            use_type_invariant(&self);
        }
        let r = Self {
            axis: self.axis,
            normals: self.normals,
            split_cos: self.split_cos,
            split2_cos: self.split2_cos,
            ball_radius: self.ball_radius,
            deep_interior: enabled,
        };
        assert(r@.axes =~= puzzle_model(enabled).axes);
        r
    }

    /// The ten axis directions, in the order of their bits.
    pub fn axes(&self) -> (r: &Vec<Point>)
        ensures
            is_axis_table(r@),
    {
        proof {
            use_type_invariant(self);
        }
        &self.axis
    }

    /// Cosine of the wider cut angle.
    pub fn split_cos(&self) -> (r: i64)
        ensures
            r == SPLIT_COS,
    {
        proof {
            use_type_invariant(self);
        }
        self.split_cos
    }

    /// Cosine of the narrower cut angle.
    pub fn split2_cos(&self) -> (r: i64)
        ensures
            r == SPLIT2_COS,
    {
        proof {
            use_type_invariant(self);
        }
        self.split2_cos
    }

    /// Radius of the ball.
    pub fn ball_radius(&self) -> (r: i64)
        ensures
            r == BALL_RADIUS,
    {
        proof {
            use_type_invariant(self);
        }
        self.ball_radius
    }

    /// Whether the deep interior is switched on, which tells the two
    /// models that there are apart.
    pub fn deep_interior_enabled(&self) -> (r: bool)
        ensures
            self@ == puzzle_model(r),
    {
        proof {
            use_type_invariant(self);
            assert(self@.axes =~= puzzle_model(self.deep_interior).axes);
        }
        self.deep_interior
    }

    /// The sticker index of a point on the face of axis `current_normal`.
    /// Stickers are not implemented: the index is zero for every point.
    pub fn get_sticker_index(
        &self,
        pos: crate::points2d::Point,
        current_normal: usize,
    ) -> (r: PartIndex)
        ensures
            r == 0,
    {
        0
    }

    /// The number of faces. Faces are not implemented: the number is zero.
    pub fn faces(&self) -> (r: usize)
        ensures
            r == 0,
    {
        0
    }

    /// The region of `pos`: void, a part of the puzzle, or, with the deep
    /// interior switched on, one of its special regions.
    pub fn classify(&self, pos: Point) -> (r: Region)
        ensures
            r == region(pos@, self@.deep_interior),
    {
        let index: PartIndex = self.get_part_index(pos);
        if index == 0 {
            Region::Void
        } else if index >= UPPER_CORE {
            Region::Special(index)
        } else {
            Region::Part(index)
        }
    }

    /// Whether the cone of axis `i` holds `pos`: the first question of the
    /// cone test, asked of one axis alone.
    pub fn in_cone(&self, pos: Point, i: usize) -> (r: bool)
        requires
            i < AXIS_COUNT,
        ensures
            r == on_positive_side(pos@, i as int),
    {
        proof {
            use_type_invariant(self);
            crate::points3d::lemma_coordinates_within_len(pos@);
            let axis = axis_direction(i as int);
            lemma_bounded_product(pos.x as int, axis.x, 0x8000_0000_0000_0000, ONE as int);
            lemma_bounded_product(pos.y as int, axis.y, 0x8000_0000_0000_0000, ONE as int);
            lemma_bounded_product(pos.z as int, axis.z, 0x8000_0000_0000_0000, ONE as int);
        }
        let axis: Point = self.axis[i];
        let d: i128 = (pos.x as i128) * (axis.x as i128) + (pos.y as i128) * (axis.y as i128) + (
        pos.z as i128) * (axis.z as i128);
        let outer: i128 = if in_working_range(pos) {
            proof {
                crate::points3d::lemma_len_bound(pos@, WORKING_RANGE as int);
            }
            let r: i64 = pos.len() as i64;
            let split_cos_out: i64 = self.outer_cosine(self.ball_radius - r);
            let cut: i64 = self.cut_factor(r);
            proof {
                lemma_bounded_product(
                    split_cos_out as int,
                    cut as int,
                    69_000_000,
                    15_000_000_000,
                );
            }
            (split_cos_out as i128) * (cut as i128)
        } else {
            // far outside the ball the narrow angle holds, and the radius
            // is held at that of the ball
            let cut: i128 = 7 * (pos.len() as i128) + 3 * (self.ball_radius as i128);
            proof {
                lemma_bounded_product(
                    100 * SPLIT2_COS,
                    cut as int,
                    69_000_000,
                    0x8_0000_0000_0000_0000,
                );
            }
            (100 * self.split2_cos) as i128 * cut
        };
        1000 * d > outer
    }

    /// Projection of `pos` on axis `i`.
    fn project(&self, pos: Point, i: usize) -> (d: i64)
        requires
            i < AXIS_COUNT,
            pos@.bounded(WORKING_RANGE as int),
        ensures
            d == projection(pos@, i as int),
            -3_000_000_000_000_000 <= d <= 3_000_000_000_000_000,
    {
        proof {
            use_type_invariant(self);
            lemma_projection_bound(pos@, i as int);
        }
        dot(pos, self.axis[i])
    }

    /// Projection of `pos` on the normal of face `i`, which is that of axis `i`.
    fn project_on_normal(&self, pos: Point, i: usize) -> (d: i64)
        requires
            i < AXIS_COUNT,
            pos@.bounded(WORKING_RANGE as int),
        ensures
            d == projection(pos@, i as int),
    {
        proof {
            use_type_invariant(self);
            lemma_projection_bound(pos@, i as int);
        }
        dot(pos, self.normals[i])
    }

    /// Distance of `pos` from the line of axis `i`, rounded down.
    fn distance_to_axle(&self, pos: Point, i: usize) -> (r: u64)
        requires
            i < AXIS_COUNT,
            pos@.bounded(WORKING_RANGE as int),
        ensures
            r == axle_distance(pos@, i as int),
    {
        proof {
            use_type_invariant(self);
            lemma_bounded_products(
                pos@,
                axis_direction(i as int),
                WORKING_RANGE as int,
                ONE as int,
            );
        }
        cross(pos, self.axis[i]).len()
    }

    /// The part index of `pos`: zero where it belongs to no part.
    pub fn get_part_index(&self, pos: Point) -> (r: PartIndex)
        ensures
            r == part_index(pos@, AXIS_COUNT as int, self@.deep_interior),
            !self@.deep_interior && crate::partition::depth(pos@) > DEEP_INTERIOR_DEPTH ==> r == 0,
            !self@.deep_interior ==> r == 0 || r == 1 || r == 8 || r == 1 + OUTER_LAYER || r == 8
                + OUTER_LAYER,
    {
        proof {
            use_type_invariant(self);
        }
        self.get_part_index_impl(pos, self.axis.len())
    }

    /// The part index of `pos` with only the first `current_normal` axes in
    /// use, or all ten where `current_normal` is larger.
    pub fn get_part_index_impl(&self, pos: Point, current_normal: usize) -> (r: PartIndex)
        ensures
            r == part_index(pos@, axes_in_use(current_normal), self@.deep_interior),
            !self@.deep_interior && crate::partition::depth(pos@) > DEEP_INTERIOR_DEPTH ==> r == 0,
            !self@.deep_interior ==> r == 0 || r == 1 || r == 8 || r == 1 + OUTER_LAYER || r == 8
                + OUTER_LAYER,
    {
        let n: usize = if current_normal < AXIS_COUNT {
            current_normal
        } else {
            AXIS_COUNT
        };
        if !in_working_range(pos) {
            proof {
                lemma_far_point_is_void(pos@, n as int, self@.deep_interior);
            }
            return 0;
        }
        proof {
            crate::points3d::lemma_len_bound(pos@, WORKING_RANGE as int);
            use_type_invariant(self);
        }
        let r: i64 = pos.len() as i64;
        let depth: i64 = self.ball_radius - r;
        if depth > DEEP_INTERIOR_DEPTH {
            if !self.deep_interior {
                return 0;
            }
            return self.core_index(pos, n);
        }
        let (beyond, cup): (bool, bool) = self.cup_test(pos, n);
        if beyond {
            return 0;
        }
        let mut axis_pos: Vec<NearAxis> = Vec::new();
        let mut axis_neg: Vec<NearAxis> = Vec::new();
        let mut index: PartIndex = match self.cone_test(
            pos,
            n,
            r,
            depth,
            cup,
            &mut axis_pos,
            &mut axis_neg,
        ) {
            Some(bits) => bits,
            None => {
                return 0;
            },
        };

        if index != 1 && index != 8 {
            return 0;
        }
        if depth > PART_DEPTH {
            return 0;
        }
        let aindex: usize = if index == 1 {
            0
        } else {
            3
        };
        proof {
            lemma_bounded_products(
                pos@,
                axis_direction(aindex as int).any_perp(),
                WORKING_RANGE as int,
                ONE as int,
            );
        }
        let a: Point = self.axis[aindex];
        let pa: Point = a.any_perp();
        let dist_to_axle: u64 = self.distance_to_axle(pos, aindex);
        let side: i64 = dot(pos, pa);
        if r > 26_500_000 || (dist_to_axle < 4_250_000_000_000 && r > (if side > 200_000_000_000 {
            22_500_000
        } else {
            24_500_000
        })) {
            index += OUTER_LAYER;
        } else if r > 26_300_000 || (dist_to_axle < 4_350_000_000_000 && r > (if side
            > -200_000_000_000 {
            22_300_000
        } else {
            24_300_000
        })) {
            return 0;
        }
        let middle: bool = 0 < depth && depth <= 400_000;
        if corner_test(&axis_pos, &axis_neg, middle) {
            return 0;
        }
        index
    }

    /// The index of a point deep inside the ball, with the first `n` axes
    /// in use.
    fn core_index(&self, pos: Point, n: usize) -> (r: PartIndex)
        requires
            n <= AXIS_COUNT,
            pos@.bounded(WORKING_RANGE as int),
        ensures
            r == core_index(pos@, n as int),
    {
        let mut i: usize = 0;
        while i < n
            invariant
                i <= n <= AXIS_COUNT,
                pos@.bounded(WORKING_RANGE as int),
                !in_core_axle(pos@, i as int),
            decreases n - i,
        {
            if self.project(pos, i) > 0 {
                let dist_to_axle: u64 = self.distance_to_axle(pos, i);
                if dist_to_axle < 1_250_000_000_000 {
                    return 0;
                }
            }
            i += 1;
        }
        let first: i64 = distance_along(pos.x, 7 * ONE) + distance_along(pos.y, 7 * ONE);
        if first < 2_500_000 {
            return LOWER_CORE + 1;
        } else if first < 2_800_000 {
            return 0;
        }
        let second: i64 = distance_along(pos.x, -7 * ONE) + distance_along(pos.y, -7 * ONE);
        if second < 2_500_000 {
            return LOWER_CORE + 2;
        } else if second < 2_800_000 {
            return 0;
        }
        if -100_000 < pos.z && pos.z < 100_000 {
            return 0;
        }
        if pos.z > 0 {
            return UPPER_CORE;
        }
        LOWER_CORE
    }

    /// The cup test: whether `pos` lies beyond the cup of one of the first
    /// `n` axes, and, if not, whether it lies in the cup of one.
    fn cup_test(&self, pos: Point, n: usize) -> (r: (bool, bool))
        requires
            n <= AXIS_COUNT,
            pos@.bounded(WORKING_RANGE as int),
        ensures
            r.0 == beyond_cup(pos@, n as int),
            !r.0 ==> r.1 == in_cup(pos@, n as int),
    {
        let mut cup: bool = false;
        let mut i: usize = 0;
        while i < n
            invariant
                i <= n <= AXIS_COUNT,
                pos@.bounded(WORKING_RANGE as int),
                !beyond_cup(pos@, i as int),
                cup == in_cup(pos@, i as int),
            decreases n - i,
        {
            let d: i64 = self.project_on_normal(pos, i);
            if d > CUP_REJECT {
                return (true, cup);
            }
            if d > CUP_RELAX {
                cup = true;
            }
            i += 1;
        }
        (false, cup)
    }

    /// The cone test of `pos` against the first `n` axes. Returns `None`
    /// where an axis rejects the point. Otherwise returns the bits of the
    /// axes whose cone holds the point, and leaves in `axis_pos` and
    /// `axis_neg` the axes that the point is close to, with their margins.
    fn cone_test(
        &self,
        pos: Point,
        n: usize,
        r: i64,
        depth: i64,
        cup: bool,
        axis_pos: &mut Vec<NearAxis>,
        axis_neg: &mut Vec<NearAxis>,
    ) -> (index: Option<PartIndex>)
        requires
            n <= AXIS_COUNT,
            pos@.bounded(WORKING_RANGE as int),
            r == radius(pos@),
            depth == crate::partition::depth(pos@),
            cup == in_cup(pos@, n as int),
        ensures
            index is None <==> cone_rejects(pos@, n as int),
            index matches Some(bits) ==> {
                &&& bits == cone_index(pos@, n as int)
                &&& margins(final(axis_pos)@) == positive_margins(pos@, n as int)
                &&& margins(final(axis_neg)@) == negative_margins(pos@, n as int)
            },
    {
        proof {
            use_type_invariant(self);
            crate::points3d::lemma_len_bound(pos@, WORKING_RANGE as int);
            lemma_axis_bit(0);
        }
        axis_pos.clear();
        axis_neg.clear();
        let split_cos_out: i64 = self.outer_cosine(depth);
        let split_cos_in: i64 = self.inner_cosine(depth);
        let cut: i64 = self.cut_factor(r);
        proof {
            lemma_bounded_product(
                split_cos_out as int,
                cut as int,
                69_000_000,
                15_000_000_000,
            );
            lemma_bounded_product(split_cos_in as int, cut as int, 69_000_000, 15_000_000_000);
        }
        let outer: i128 = (split_cos_out as i128) * (cut as i128);
        let inner: i128 = (split_cos_in as i128) * (cut as i128);
        let max_dist_to_axle: u64 = if depth < -ONE {
            3_200_000_000_000
        } else {
            1_350_000_000_000
        };
        let mut index: PartIndex = 0;
        let mut i: usize = 0;
        while i < n
            invariant
                i <= n <= AXIS_COUNT,
                pos@.bounded(WORKING_RANGE as int),
                outer == outer_threshold(pos@),
                inner == inner_threshold(pos@),
                -1_100_000_000_000_000_000 <= outer <= 1_100_000_000_000_000_000,
                -1_100_000_000_000_000_000 <= inner <= 1_100_000_000_000_000_000,
                max_dist_to_axle == axle_radius(crate::partition::depth(pos@)),
                is_axis_table(self.axis@),
                cup == in_cup(pos@, n as int),
                index == cone_index(pos@, i as int),
                index < axis_bit(i as int),
                forall|j: int| 0 <= j < i ==> !#[trigger] axis_rejects(pos@, j, cup),
                margins(axis_pos@) == positive_margins(pos@, i as int),
                margins(axis_neg@) == negative_margins(pos@, i as int),
            decreases n - i,
        {
            let d: i64 = self.project(pos, i);
            let scaled: i128 = 1000 * (d as i128);
            proof {
                lemma_axis_bit(i as int);
            }
            if scaled > outer {
                index += bit_of(i);
                let margin: i128 = (MARGIN_ONE as i128) - 4 * (scaled - outer);
                if margin > 0 {
                    axis_pos.push(NearAxis { margin: margin as i64, axis: self.axis[i] });
                }
                if !cup {
                    let dist_to_axle: u64 = self.distance_to_axle(pos, i);
                    if dist_to_axle < max_dist_to_axle {
                        assert(axis_rejects(pos@, i as int, cup));
                        return None;
                    }
                }
            } else if scaled > inner {
                assert(axis_rejects(pos@, i as int, cup));
                return None;
            } else if d > 0 {
                let margin: i128 = (MARGIN_ONE as i128) - 4 * (inner - scaled);
                if margin > 0 {
                    axis_neg.push(NearAxis { margin: margin as i64, axis: self.axis[i] });
                }
            }
            i += 1;
        }
        Some(index)
    }

    /// A hundred times the cosine that bounds the cone of a part at `depth`.
    fn outer_cosine(&self, depth: i64) -> (c: i64)
        ensures
            c == outer_cosine(depth as int),
            55_000_000 <= c <= 69_000_000,
    {
        proof {
            use_type_invariant(self);
        }
        if depth > 600_000 {
            100 * self.split_cos
        } else if depth > 400_000 {
            100 * self.split_cos - (depth - 600_000) * 15
        } else {
            100 * self.split2_cos
        }
    }

    /// A hundred times the cosine below which a point is clear of a cone at
    /// `depth`.
    fn inner_cosine(&self, depth: i64) -> (c: i64)
        ensures
            c == inner_cosine(depth as int),
            55_000_000 <= c <= 69_000_000,
    {
        proof {
            use_type_invariant(self);
        }
        if depth > 0 {
            100 * self.split_cos
        } else if depth > -200_000 {
            100 * self.split2_cos - (depth + 200_000) * 15
        } else {
            100 * self.split2_cos
        }
    }

    /// Ten times the cut factor at radius `r`.
    fn cut_factor(&self, r: i64) -> (c: i64)
        requires
            0 <= r <= 2 * WORKING_RANGE,
        ensures
            c == cut_factor(r as int),
            7 * r <= c <= 7 * r + 3 * BALL_RADIUS,
    {
        proof {
            use_type_invariant(self);
        }
        let held: i64 = if r > self.ball_radius {
            self.ball_radius
        } else if r < self.ball_radius - 2 * ONE {
            self.ball_radius - 2 * ONE
        } else {
            r
        };
        7 * r + 3 * held
    }
}

/// The number of axes in use for a given axis count: the count itself, and
/// ten where it is larger.
pub open spec fn axes_in_use(current_normal: usize) -> int {
    if current_normal < AXIS_COUNT {
        current_normal as int
    } else {
        AXIS_COUNT as int
    }
}

/// No coordinate of `pos` exceeds the working range.
pub fn in_working_range(pos: Point) -> (r: bool)
    ensures
        r == pos@.bounded(WORKING_RANGE as int),
{
    -WORKING_RANGE <= pos.x && pos.x <= WORKING_RANGE && -WORKING_RANGE <= pos.y && pos.y
        <= WORKING_RANGE && -WORKING_RANGE <= pos.z && pos.z <= WORKING_RANGE
}

/// Distance between two coordinates in the working range.
fn distance_along(a: i64, b: i64) -> (r: i64)
    requires
        -WORKING_RANGE <= a <= WORKING_RANGE,
        -WORKING_RANGE <= b <= WORKING_RANGE,
    ensures
        r == (if a >= b {
            a - b
        } else {
            b - a
        }),
{
    if a >= b {
        a - b
    } else {
        b - a
    }
}

/// The margins that a list of near axes holds, in its order.
pub open spec fn margins(v: Seq<NearAxis>) -> Seq<int> {
    Seq::new(v.len(), |k: int| v[k].margin as int)
}

/// Two margins lie inside the quarter circle that rounds a corner.
pub fn validate(m1: i64, m2: i64) -> (r: bool)
    ensures
        r == inside_corner(m1 as int, m2 as int),
{
    let d1: u128 = if m1 > 0 { m1 as u128 } else { 0 };
    let d2: u128 = if m2 > 0 { m2 as u128 } else { 0 };
    proof {
        lemma_square_bound(d1 as int);
        lemma_square_bound(d2 as int);
        lemma_square_bound(MARGIN_ONE as int);
    }
    d1 * d1 + d2 * d2 < (MARGIN_ONE as u128) * (MARGIN_ONE as u128)
}

/// The corner rule on the axes that a point is close to: whether the point
/// lies outside a rounded corner.
pub fn corner_test(axis_pos: &Vec<NearAxis>, axis_neg: &Vec<NearAxis>, middle: bool) -> (r: bool)
    ensures
        r == corner_rule(margins(axis_pos@), margins(axis_neg@), middle),
{
    if axis_pos.len() == 2 && !validate(axis_pos[0].margin, axis_pos[1].margin) {
        return true;
    }
    if axis_neg.len() == 2 && !validate(axis_neg[0].margin, axis_neg[1].margin) {
        return true;
    }
    axis_pos.len() == 1 && axis_neg.len() == 1 && !middle && !validate(
        axis_pos[0].margin,
        axis_neg[0].margin,
    )
}

/// The bit of axis `i` in a part index.
fn bit_of(i: usize) -> (b: u32)
    requires
        i < AXIS_COUNT,
    ensures
        b == axis_bit(i as int),
{
    proof {
        lemma2_to64();
        vstd::bits::lemma_u32_shl_is_mul(1, i as u32);
    }
    1u32 << i
}

} // verus!
