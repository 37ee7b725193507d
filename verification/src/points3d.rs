//! Fixed-point vectors in three dimensions and the algebra on them.

use vstd::prelude::*;
use crate::fixed::{div_floor, is_isqrt, isqrt, isqrt_u128, ONE};

verus! {

/// Absolute value.
pub open spec fn magnitude(a: int) -> int {
    if a < 0 {
        -a
    } else {
        a
    }
}

/// One entry of a rotation matrix, scaled by `ONE` cubed: a part on the
/// diagonal, the part `k * a * b` with `k` standing for one minus the cosine,
/// and a part that is skew-symmetric.
pub open spec fn rotation_entry(diag: int, k: int, a: int, b: int, skew: int) -> int {
    diag + k * a * b + skew
}

/// A vector with mathematical integers as coordinates: what a `Point` stands
/// for in contracts.
pub struct Vector {
    pub x: int,
    pub y: int,
    pub z: int,
}

impl Vector {
    /// Scalar product.
    pub open spec fn dot(self, other: Vector) -> int {
        self.x * other.x + self.y * other.y + self.z * other.z
    }

    /// Vector product.
    pub open spec fn cross(self, other: Vector) -> Vector {
        Vector {
            x: self.y * other.z - self.z * other.y,
            y: self.z * other.x - self.x * other.z,
            z: self.x * other.y - self.y * other.x,
        }
    }

    /// Square of the Euclidean length.
    pub open spec fn sqr_len(self) -> int {
        self.dot(self)
    }

    /// Euclidean length, rounded down.
    pub open spec fn len(self) -> int {
        isqrt(self.sqr_len())
    }

    /// Coordinate-wise sum.
    pub open spec fn plus(self, other: Vector) -> Vector {
        Vector { x: self.x + other.x, y: self.y + other.y, z: self.z + other.z }
    }

    /// Coordinate-wise difference.
    pub open spec fn minus(self, other: Vector) -> Vector {
        Vector { x: self.x - other.x, y: self.y - other.y, z: self.z - other.z }
    }

    /// The product with the integer `k`.
    pub open spec fn times(self, k: int) -> Vector {
        Vector { x: self.x * k, y: self.y * k, z: self.z * k }
    }

    /// The opposite vector.
    pub open spec fn negated(self) -> Vector {
        Vector { x: -self.x, y: -self.y, z: -self.z }
    }

    /// A vector at right angles to `self`: the coordinate of strictly
    /// smallest magnitude is dropped (the first one only if it is smaller
    /// than both others, else the second one if it is smaller than the
    /// third, else the third), and the remaining two are swapped, one of
    /// them with its sign changed.
    pub open spec fn any_perp(self) -> Vector {
        if magnitude(self.x) < magnitude(self.y) && magnitude(self.x) < magnitude(self.z) {
            Vector { x: 0, y: self.z, z: -self.y }
        } else if magnitude(self.y) < magnitude(self.z) {
            Vector { x: -self.z, y: 0, z: self.x }
        } else {
            Vector { x: self.y, y: -self.x, z: 0 }
        }
    }

    /// The product with the fixed-point number `factor`, each coordinate
    /// rounded down.
    pub open spec fn scaled(self, factor: int) -> Vector {
        Vector {
            x: self.x * factor / (ONE as int),
            y: self.y * factor / (ONE as int),
            z: self.z * factor / (ONE as int),
        }
    }

    /// The vector of length one (`ONE`) in the direction of `self`, each
    /// coordinate rounded down. Meaningful for a vector whose length is not zero.
    pub open spec fn normalized(self) -> Vector {
        Vector {
            x: self.x * (ONE as int) / self.len(),
            y: self.y * (ONE as int) / self.len(),
            z: self.z * (ONE as int) / self.len(),
        }
    }

    /// The image of `self` under the rotation about the unit vector `axle`
    /// by the angle whose sine and cosine are the fixed-point numbers `sin`
    /// and `cos` (Rodrigues' formula). The matrix is formed exactly; each
    /// coordinate of the image is rounded down.
    pub open spec fn rotated(self, axle: Vector, sin: int, cos: int) -> Vector {
        let one = ONE as int;
        let k = one - cos;
        let d = cos * one * one;
        let m00 = rotation_entry(d, k, axle.x, axle.x, 0);
        let m01 = rotation_entry(0, k, axle.x, axle.y, -(sin * axle.z * one));
        let m02 = rotation_entry(0, k, axle.x, axle.z, sin * axle.y * one);
        let m10 = rotation_entry(0, k, axle.x, axle.y, sin * axle.z * one);
        let m11 = rotation_entry(d, k, axle.y, axle.y, 0);
        let m12 = rotation_entry(0, k, axle.y, axle.z, -(sin * axle.x * one));
        let m20 = rotation_entry(0, k, axle.x, axle.z, -(sin * axle.y * one));
        let m21 = rotation_entry(0, k, axle.y, axle.z, sin * axle.x * one);
        let m22 = rotation_entry(d, k, axle.z, axle.z, 0);
        Vector {
            x: self.row(m00, m01, m02) / (one * one * one),
            y: self.row(m10, m11, m12) / (one * one * one),
            z: self.row(m20, m21, m22) / (one * one * one),
        }
    }

    /// The product of `self` with one row of a matrix.
    pub open spec fn row(self, m0: int, m1: int, m2: int) -> int {
        self.x * m0 + self.y * m1 + self.z * m2
    }

    /// No coordinate exceeds `limit` in magnitude.
    pub open spec fn bounded(self, limit: int) -> bool {
        &&& -limit <= self.x <= limit
        &&& -limit <= self.y <= limit
        &&& -limit <= self.z <= limit
    }

    /// Every coordinate is representable in a `Point`.
    pub open spec fn fits(self) -> bool {
        &&& i64::MIN <= self.x <= i64::MAX
        &&& i64::MIN <= self.y <= i64::MAX
        &&& i64::MIN <= self.z <= i64::MAX
    }

    /// The `Point` with these coordinates, meaningful when `self.fits()`.
    pub open spec fn to_point(self) -> Point {
        Point { x: self.x as i64, y: self.y as i64, z: self.z as i64 }
    }
}

/// A position or a direction in space. Each coordinate counts millionths of a
/// unit of length.
#[derive(Clone, Copy, Debug, PartialEq, Eq, Structural)]
pub struct Point {
    pub x: i64,
    pub y: i64,
    pub z: i64,
}

impl View for Point {
    type V = Vector;

    open spec fn view(&self) -> Vector {
        Vector { x: self.x as int, y: self.y as int, z: self.z as int }
    }
}

impl Point {
    /// The origin.
    pub fn zero() -> (r: Point)
        ensures
            r@ == (Vector { x: 0, y: 0, z: 0 }),
    {
        Point { x: 0, y: 0, z: 0 }
    }

    /// Square of the Euclidean length, exact.
    pub fn sqr_len(self) -> (r: u128)
        ensures
            r == self@.sqr_len(),
    {
        let x: i128 = self.x as i128;
        let y: i128 = self.y as i128;
        let z: i128 = self.z as i128;
        proof {
            lemma_square_bound(x as int);
            lemma_square_bound(y as int);
            lemma_square_bound(z as int);
        }
        let xx: u128 = (x * x) as u128;
        let yy: u128 = (y * y) as u128;
        let zz: u128 = (z * z) as u128;
        xx + yy + zz
    }

    /// Product with the fixed-point number `factor`: every coordinate is
    /// multiplied by `factor`, divided by `ONE` and rounded down.
    pub fn scale(self, factor: i64) -> (r: Point)
        requires
            self@.scaled(factor as int).fits(),
        ensures
            r@ == self@.scaled(factor as int),
    {
        proof {
            lemma_product_bound(self.x as int, factor as int);
            lemma_product_bound(self.y as int, factor as int);
            lemma_product_bound(self.z as int, factor as int);
        }
        let x: i128 = div_floor((self.x as i128) * (factor as i128), ONE as i128);
        let y: i128 = div_floor((self.y as i128) * (factor as i128), ONE as i128);
        let z: i128 = div_floor((self.z as i128) * (factor as i128), ONE as i128);
        Point { x: x as i64, y: y as i64, z: z as i64 }
    }

    /// The vector of length one in the same direction: every coordinate is
    /// multiplied by `ONE`, divided by the length and rounded down.
    pub fn norm(self) -> (r: Point)
        requires
            self@.sqr_len() > 0,
        ensures
            r@ == self@.normalized(),
            r@.bounded(ONE as int),
    {
        let l: u64 = self.len();
        proof {
            lemma_coordinates_within_len(self@);
            lemma_unit_quotient(self.x as int, l as int);
            lemma_unit_quotient(self.y as int, l as int);
            lemma_unit_quotient(self.z as int, l as int);
        }
        let x: i128 = div_floor((self.x as i128) * (ONE as i128), l as i128);
        let y: i128 = div_floor((self.y as i128) * (ONE as i128), l as i128);
        let z: i128 = div_floor((self.z as i128) * (ONE as i128), l as i128);
        Point { x: x as i64, y: y as i64, z: z as i64 }
    }

    /// Rotation about the unit vector `axle` by the angle whose sine and
    /// cosine are the fixed-point numbers `sin` and `cos`.
    pub fn rotate(self, axle: Point, sin: i64, cos: i64) -> (r: Point)
        requires
            axle@.bounded(ONE as int),
            -ONE <= sin <= ONE,
            -ONE <= cos <= ONE,
            self@.rotated(axle@, sin as int, cos as int).fits(),
        ensures
            r@ == self@.rotated(axle@, sin as int, cos as int),
    {
        let k: i64 = ONE - cos;
        let d: i64 = cos * ONE * ONE;
        let sx: i64 = skew_part(sin, axle.x);
        let sy: i64 = skew_part(sin, axle.y);
        let sz: i64 = skew_part(sin, axle.z);
        let m00: i64 = matrix_entry(d, k, axle.x, axle.x, 0);
        let m01: i64 = matrix_entry(0, k, axle.x, axle.y, -sz);
        let m02: i64 = matrix_entry(0, k, axle.x, axle.z, sy);
        let m10: i64 = matrix_entry(0, k, axle.x, axle.y, sz);
        let m11: i64 = matrix_entry(d, k, axle.y, axle.y, 0);
        let m12: i64 = matrix_entry(0, k, axle.y, axle.z, -sx);
        let m20: i64 = matrix_entry(0, k, axle.x, axle.z, -sy);
        let m21: i64 = matrix_entry(0, k, axle.y, axle.z, sx);
        let m22: i64 = matrix_entry(d, k, axle.z, axle.z, 0);
        let x: i128 = self.times_row(m00, m01, m02);
        let y: i128 = self.times_row(m10, m11, m12);
        let z: i128 = self.times_row(m20, m21, m22);
        Point { x: x as i64, y: y as i64, z: z as i64 }
    }

    /// The product of `self` with one row of a rotation matrix scaled by
    /// `ONE` cubed, divided by `ONE` cubed and rounded down.
    fn times_row(self, m0: i64, m1: i64, m2: i64) -> (r: i128)
        requires
            -4 * ONE * ONE * ONE <= m0 <= 4 * ONE * ONE * ONE,
            -4 * ONE * ONE * ONE <= m1 <= 4 * ONE * ONE * ONE,
            -4 * ONE * ONE * ONE <= m2 <= 4 * ONE * ONE * ONE,
        ensures
            r == self@.row(m0 as int, m1 as int, m2 as int) / ((ONE as int) * (ONE as int) * (ONE
                as int)),
    {
        proof {
            lemma_row_term_bound(self.x as int, m0 as int);
            lemma_row_term_bound(self.y as int, m1 as int);
            lemma_row_term_bound(self.z as int, m2 as int);
        }
        let sum: i128 = (self.x as i128) * (m0 as i128) + (self.y as i128) * (m1 as i128) + (
        self.z as i128) * (m2 as i128);
        div_floor(sum, 1_000_000_000_000_000_000)
    }

    /// A vector at right angles to `self`; see [`Vector::any_perp`]. Its
    /// length is that of `self` without the dropped coordinate.
    pub fn any_perp(self) -> (r: Point)
        requires
            self@.negated().fits(),
        ensures
            r@ == self@.any_perp(),
            self@.dot(r@) == 0,
    {
        let ax: i64 = if self.x < 0 { -self.x } else { self.x };
        let ay: i64 = if self.y < 0 { -self.y } else { self.y };
        let az: i64 = if self.z < 0 { -self.z } else { self.z };
        proof {
            lemma_any_perp(self@);
        }
        if ax < ay && ax < az {
            return Point { x: 0, y: self.z, z: -self.y };
        }
        if ay < az {
            return Point { x: -self.z, y: 0, z: self.x };
        }
        Point { x: self.y, y: -self.x, z: 0 }
    }

    /// Euclidean length, rounded down.
    pub fn len(self) -> (r: u64)
        ensures
            r == self@.len(),
            is_isqrt(self@.sqr_len(), r as int),
    {
        isqrt_u128(self.sqr_len())
    }
}

impl Default for Point {
    /// The origin.
    fn default() -> (r: Point)
        ensures
            r == (Point { x: 0, y: 0, z: 0 }),
    {
        Point { x: 0, y: 0, z: 0 }
    }
}

impl core::ops::Add for Point {
    type Output = Point;

    /// Coordinate-wise sum, for operands whose sum is representable.
    fn add(self, rhs: Point) -> (r: Point) {
        Point { x: self.x + rhs.x, y: self.y + rhs.y, z: self.z + rhs.z }
    }
}

impl vstd::std_specs::ops::AddSpecImpl for Point {
    open spec fn obeys_add_spec() -> bool {
        true
    }

    open spec fn add_req(self, rhs: Point) -> bool {
        self@.plus(rhs@).fits()
    }

    open spec fn add_spec(self, rhs: Point) -> Point {
        self@.plus(rhs@).to_point()
    }
}

impl core::ops::Sub for Point {
    type Output = Point;

    /// Coordinate-wise difference, for operands whose difference is representable.
    fn sub(self, rhs: Point) -> (r: Point) {
        Point { x: self.x - rhs.x, y: self.y - rhs.y, z: self.z - rhs.z }
    }
}

impl vstd::std_specs::ops::SubSpecImpl for Point {
    open spec fn obeys_sub_spec() -> bool {
        true
    }

    open spec fn sub_req(self, rhs: Point) -> bool {
        self@.minus(rhs@).fits()
    }

    open spec fn sub_spec(self, rhs: Point) -> Point {
        self@.minus(rhs@).to_point()
    }
}

impl core::ops::Neg for Point {
    type Output = Point;

    /// The opposite vector, for an operand whose opposite is representable.
    fn neg(self) -> (r: Point) {
        Point { x: -self.x, y: -self.y, z: -self.z }
    }
}

impl vstd::std_specs::ops::NegSpecImpl for Point {
    open spec fn obeys_neg_spec() -> bool {
        true
    }

    open spec fn neg_req(self) -> bool {
        self@.negated().fits()
    }

    open spec fn neg_spec(self) -> Point {
        self@.negated().to_point()
    }
}

impl core::ops::AddAssign for Point {
    /// Adds `rhs` to `self` in place.
    fn add_assign(&mut self, rhs: Point)
        requires
            old(self)@.plus(rhs@).fits(),
        ensures
            final(self)@ == old(self)@.plus(rhs@),
    {
        self.x += rhs.x;
        self.y += rhs.y;
        self.z += rhs.z;
    }
}

impl core::ops::SubAssign for Point {
    /// Subtracts `rhs` from `self` in place.
    fn sub_assign(&mut self, rhs: Point)
        requires
            old(self)@.minus(rhs@).fits(),
        ensures
            final(self)@ == old(self)@.minus(rhs@),
    {
        self.x -= rhs.x;
        self.y -= rhs.y;
        self.z -= rhs.z;
    }
}

/// Scalar product of two vectors, exact.
pub fn dot(lhs: Point, rhs: Point) -> (r: i64)
    requires
        i64::MIN <= lhs@.dot(rhs@) <= i64::MAX,
    ensures
        r == lhs@.dot(rhs@),
{
    proof {
        lemma_product_bound(lhs.x as int, rhs.x as int);
        lemma_product_bound(lhs.y as int, rhs.y as int);
        lemma_product_bound(lhs.z as int, rhs.z as int);
    }
    let xx: i128 = (lhs.x as i128) * (rhs.x as i128);
    let yy: i128 = (lhs.y as i128) * (rhs.y as i128);
    let zz: i128 = (lhs.z as i128) * (rhs.z as i128);
    let sum: i128 = xx + zz + yy;
    sum as i64
}

/// Vector product of two vectors, exact.
pub fn cross(lhs: Point, rhs: Point) -> (r: Point)
    requires
        lhs@.cross(rhs@).fits(),
    ensures
        r@ == lhs@.cross(rhs@),
{
    proof {
        lemma_product_bound(lhs.y as int, rhs.z as int);
        lemma_product_bound(lhs.z as int, rhs.y as int);
        lemma_product_bound(lhs.z as int, rhs.x as int);
        lemma_product_bound(lhs.x as int, rhs.z as int);
        lemma_product_bound(lhs.x as int, rhs.y as int);
        lemma_product_bound(lhs.y as int, rhs.x as int);
    }
    let x: i128 = (lhs.y as i128) * (rhs.z as i128) - (lhs.z as i128) * (rhs.y as i128);
    let y: i128 = (lhs.z as i128) * (rhs.x as i128) - (lhs.x as i128) * (rhs.z as i128);
    let z: i128 = (lhs.x as i128) * (rhs.y as i128) - (lhs.y as i128) * (rhs.x as i128);
    Point { x: x as i64, y: y as i64, z: z as i64 }
}

/// `any_perp` gives a vector at right angles to its argument, and one that
/// is zero only if the argument is.
pub proof fn lemma_any_perp(v: Vector)
    ensures
        v.dot(v.any_perp()) == 0,
        v.any_perp().sqr_len() == 0 ==> v.sqr_len() == 0,
{
    let w = v.any_perp();
    assert(v.dot(w) == 0) by (nonlinear_arith)
        requires
            w == v.any_perp(),
    ;
    if w.sqr_len() == 0 {
        lemma_zero_length(w);
    }
}

/// Only the zero vector has length zero.
pub proof fn lemma_zero_length(v: Vector)
    requires
        v.sqr_len() == 0,
    ensures
        v.x == 0 && v.y == 0 && v.z == 0,
{
    assert(v.x == 0 && v.y == 0 && v.z == 0) by (nonlinear_arith)
        requires
            v.x * v.x + v.y * v.y + v.z * v.z == 0,
    ;
}

/// No coordinate of a vector exceeds its rounded-down length in magnitude.
pub proof fn lemma_coordinates_within_len(v: Vector)
    ensures
        v.bounded(v.len()),
        v.len() >= 0,
        v.sqr_len() > 0 ==> v.len() > 0,
{
    let l = v.len();
    let (x, y, z) = (v.x, v.y, v.z);
    assert(v.sqr_len() >= 0) by (nonlinear_arith)
        requires
            v.sqr_len() == x * x + y * y + z * z,
    ;
    crate::fixed::lemma_isqrt_is_floor(v.sqr_len());
    assert(-l <= x <= l && -l <= y <= l && -l <= z <= l) by (nonlinear_arith)
        requires
            0 <= l,
            x * x + y * y + z * z < (l + 1) * (l + 1),
    ;
    if v.sqr_len() > 0 {
        assert(l > 0) by (nonlinear_arith)
            requires
                0 <= l,
                0 < v.sqr_len() < (l + 1) * (l + 1),
        ;
    }
}

/// A vector whose coordinates are bounded by `limit` is at most twice as long.
pub proof fn lemma_len_bound(v: Vector, limit: int)
    requires
        v.bounded(limit),
    ensures
        0 <= v.len() <= 2 * limit,
{
    lemma_coordinates_within_len(v);
    let l = v.len();
    let (x, y, z) = (v.x, v.y, v.z);
    crate::fixed::lemma_isqrt_is_floor(v.sqr_len());
    assert(l <= 2 * limit) by (nonlinear_arith)
        requires
            0 <= l,
            l * l <= x * x + y * y + z * z,
            -limit <= x <= limit,
            -limit <= y <= limit,
            -limit <= z <= limit,
    ;
}

/// A coordinate bounded by the length `l` gives a quotient bounded by `ONE`.
proof fn lemma_unit_quotient(a: int, l: int)
    requires
        l > 0,
        -l <= a <= l,
    ensures
        -(ONE as int) <= a * (ONE as int) / l <= ONE as int,
{
    let one = ONE as int;
    let n = a * one;
    vstd::arithmetic::div_mod::lemma_fundamental_div_mod(n, l);
    vstd::arithmetic::div_mod::lemma_mod_bound(n, l);
    let q = n / l;
    let r = n % l;
    assert(-one <= q <= one) by (nonlinear_arith)
        requires
            n == l * q + r,
            0 <= r < l,
            n == a * one,
            -l <= a <= l,
            one > 0,
    ;
}

/// The skew-symmetric part of a rotation matrix that belongs to the
/// coordinate `a` of the axis: `sin * a * ONE`.
fn skew_part(sin: i64, a: i64) -> (r: i64)
    requires
        -ONE <= sin <= ONE,
        -ONE <= a <= ONE,
    ensures
        r == sin * a * ONE,
        -ONE * ONE * ONE <= r <= ONE * ONE * ONE,
{
    assert(-1_000_000_000_000 <= sin * a <= 1_000_000_000_000) by (nonlinear_arith)
        requires
            -1_000_000 <= sin <= 1_000_000,
            -1_000_000 <= a <= 1_000_000,
    ;
    sin * a * ONE
}

/// One entry of a rotation matrix scaled by `ONE` cubed.
fn matrix_entry(diag: i64, k: i64, a: i64, b: i64, skew: i64) -> (r: i64)
    requires
        -ONE * ONE * ONE <= diag <= ONE * ONE * ONE,
        0 <= k <= 2 * ONE,
        -ONE <= a <= ONE,
        -ONE <= b <= ONE,
        -ONE * ONE * ONE <= skew <= ONE * ONE * ONE,
    ensures
        r == rotation_entry(diag as int, k as int, a as int, b as int, skew as int),
        -4 * ONE * ONE * ONE <= r <= 4 * ONE * ONE * ONE,
{
    assert(-2_000_000_000_000 <= k * a <= 2_000_000_000_000) by (nonlinear_arith)
        requires
            0 <= k <= 2_000_000,
            -1_000_000 <= a <= 1_000_000,
    ;
    let ka: i64 = k * a;
    assert(-2_000_000_000_000_000_000 <= ka * b <= 2_000_000_000_000_000_000) by (nonlinear_arith)
        requires
            -2_000_000_000_000 <= ka <= 2_000_000_000_000,
            -1_000_000 <= b <= 1_000_000,
    ;
    diag + ka * b + skew
}

/// A 64-bit coordinate times a matrix entry stays below `2^125` in magnitude.
proof fn lemma_row_term_bound(a: int, m: int)
    requires
        i64::MIN <= a <= i64::MAX,
        -4_000_000_000_000_000_000 <= m <= 4_000_000_000_000_000_000,
    ensures
        -0x2000_0000_0000_0000_0000_0000_0000_0000 <= a * m
            <= 0x2000_0000_0000_0000_0000_0000_0000_0000,
{
    assert(-0x2000_0000_0000_0000_0000_0000_0000_0000 <= a * m
        <= 0x2000_0000_0000_0000_0000_0000_0000_0000) by (nonlinear_arith)
        requires
            -0x8000_0000_0000_0000 <= a <= 0x7fff_ffff_ffff_ffff,
            -0x4000_0000_0000_0000 <= m <= 0x4000_0000_0000_0000,
    ;
}

/// The point halfway between `a` and `b`, each coordinate rounded down.
pub open spec fn midpoint_spec(a: Point, b: Point) -> Point {
    Point {
        x: ((a.x + b.x) / 2) as i64,
        y: ((a.y + b.y) / 2) as i64,
        z: ((a.z + b.z) / 2) as i64,
    }
}

/// Every coordinate of `p` lies between the same coordinates of `a` and `b`.
pub open spec fn within_box(a: Point, b: Point, p: Point) -> bool {
    &&& (a.x <= p.x <= b.x || b.x <= p.x <= a.x)
    &&& (a.y <= p.y <= b.y || b.y <= p.y <= a.y)
    &&& (a.z <= p.z <= b.z || b.z <= p.z <= a.z)
}

/// The bracket that follows `(a, b)` in a bisection: the midpoint replaces
/// `a` where it was classified as the target (`hit`), and `b` where not.
pub open spec fn next_bracket(a: Point, b: Point, hit: bool) -> (Point, Point) {
    if hit {
        (midpoint_spec(a, b), b)
    } else {
        (a, midpoint_spec(a, b))
    }
}

/// `(a, b)` is a bracket that `steps` bisection steps can lead to from
/// `(a0, b0)`, each step classifying the midpoint of the current bracket with
/// `f` and comparing the outcome with `target`.
pub open spec fn bracket_after<F: Fn(Point) -> u32>(
    f: &F,
    a0: Point,
    b0: Point,
    target: u32,
    steps: nat,
    a: Point,
    b: Point,
) -> bool
    decreases steps,
{
    if steps == 0 {
        a == a0 && b == b0
    } else {
        exists|v: u32| #[trigger]
            f.ensures((midpoint_spec(a0, b0),), v) && bracket_after(
                f,
                next_bracket(a0, b0, v == target).0,
                next_bracket(a0, b0, v == target).1,
                target,
                (steps - 1) as nat,
                a,
                b,
            )
    }
}

/// The point halfway between `a` and `b`, each coordinate rounded down.
pub fn midpoint(a: Point, b: Point) -> (r: Point)
    ensures
        r == midpoint_spec(a, b),
        within_box(a, b, r),
{
    let x: i128 = div_floor((a.x as i128) + (b.x as i128), 2);
    let y: i128 = div_floor((a.y as i128) + (b.y as i128), 2);
    let z: i128 = div_floor((a.z as i128) + (b.z as i128), 2);
    Point { x: x as i64, y: y as i64, z: z as i64 }
}

/// Bisection between `pos1`, which `f` classifies as `target`, and `pos2`,
/// which it does not. The midpoint of the current bracket is formed `tries`
/// times (once if `tries` is zero). Each midpoint but the last is classified
/// and replaces the end of the bracket that it agrees with; the last one is
/// returned.
pub fn find_root<F: Fn(Point) -> u32>(
    f: &F,
    pos1: Point,
    pos2: Point,
    target: u32,
    tries: usize,
) -> (r: Point)
    requires
        forall|p: Point| within_box(pos1, pos2, p) ==> f.requires((p,)),
    ensures
        exists|a: Point, b: Point| #[trigger]
            bracket_after(f, pos1, pos2, target, bisection_steps(tries), a, b) && r
                == midpoint_spec(a, b),
        within_box(pos1, pos2, r),
{
    let mut a: Point = pos1;
    let mut b: Point = pos2;
    let mut i: usize = 0;
    loop
        invariant
            i == 0 || i < tries,
            within_box(pos1, pos2, a),
            within_box(pos1, pos2, b),
            forall|p: Point| within_box(pos1, pos2, p) ==> f.requires((p,)),
            forall|c: Point, d: Point|
                bracket_after(f, a, b, target, (bisection_steps(tries) - i) as nat, c, d)
                    ==> bracket_after(f, pos1, pos2, target, bisection_steps(tries), c, d),
        decreases tries - i,
    {
        let ghost left: nat = (bisection_steps(tries) - i) as nat;
        i += 1;
        let mid: Point = midpoint(a, b);
        if i >= tries {
            proof {
                assert(left == 0);
                assert(bracket_after(f, a, b, target, left, a, b));
                assert(bracket_after(f, pos1, pos2, target, bisection_steps(tries), a, b));
            }
            return mid;
        }
        assert(within_box(pos1, pos2, mid));
        let v: u32 = f(mid);
        let ghost (na, nb) = next_bracket(a, b, v == target);
        assert forall|c: Point, d: Point|
            bracket_after(f, na, nb, target, (bisection_steps(tries) - i) as nat, c, d)
            implies bracket_after(f, pos1, pos2, target, bisection_steps(tries), c, d) by {
            assert(bracket_after(f, a, b, target, left, c, d));
        }
        if v == target {
            a = mid;
        } else {
            b = mid;
        }
    }
}

/// The number of midpoints that `find_root` classifies for a given `tries`.
pub open spec fn bisection_steps(tries: usize) -> nat {
    if tries == 0 {
        0
    } else {
        (tries - 1) as nat
    }
}

/// Distance from `p` to the segment between `start` and `end`, rounded down:
/// the distance to the nearer end where the foot of the perpendicular from
/// `p` falls outside the segment or the segment has no length, and the
/// length of that perpendicular where it falls inside.
pub open spec fn segment_distance(p: Vector, start: Vector, end: Vector) -> int {
    let along = end.minus(start);
    let to_start = start.minus(p);
    let to_end = end.minus(p);
    if along.sqr_len() == 0 {
        to_end.len()
    } else if to_end.dot(along) <= 0 {
        to_end.len()
    } else if to_end.dot(along) >= along.sqr_len() {
        to_start.len()
    } else {
        isqrt(to_start.cross(along).sqr_len() / along.sqr_len())
    }
}

/// The intermediate values of `dist_pl` are representable.
pub open spec fn segment_distance_fits(p: Vector, start: Vector, end: Vector) -> bool {
    let along = end.minus(start);
    let to_start = start.minus(p);
    let to_end = end.minus(p);
    &&& along.fits()
    &&& to_start.fits()
    &&& to_end.fits()
    &&& i64::MIN <= to_end.dot(along) <= i64::MAX
    &&& to_start.cross(along).fits()
}

/// Distance from `p` to the segment between `start` and `end`, rounded down.
pub fn dist_pl(p: Point, start: Point, end: Point) -> (r: u64)
    requires
        segment_distance_fits(p@, start@, end@),
    ensures
        r == segment_distance(p@, start@, end@),
{
    let along: Point = end - start;
    let l: u128 = along.sqr_len();
    let to_start: Point = start - p;
    let to_end: Point = end - p;
    if l == 0 {
        return to_end.len();
    }
    let d: i64 = dot(to_end, along);
    if d <= 0 {
        to_end.len()
    } else if d as u128 >= l {
        to_start.len()
    } else {
        isqrt_u128(cross(to_start, along).sqr_len() / l)
    }
}

/// Points whose coordinates stay below `2^29` in magnitude can be measured
/// against each other by `dist_pl`.
pub proof fn lemma_segment_distance_fits(p: Vector, start: Vector, end: Vector)
    requires
        p.bounded(0x2000_0000),
        start.bounded(0x2000_0000),
        end.bounded(0x2000_0000),
    ensures
        segment_distance_fits(p, start, end),
{
    let along = end.minus(start);
    let to_start = start.minus(p);
    let to_end = end.minus(p);
    lemma_bounded_products(to_end, along, 0x4000_0000, 0x4000_0000);
    lemma_bounded_products(to_start, along, 0x4000_0000, 0x4000_0000);
}

/// Products of the coordinates of a vector bounded by `la` with those of a
/// vector bounded by `lb` are bounded by `la * lb`.
pub proof fn lemma_bounded_products(a: Vector, b: Vector, la: int, lb: int)
    requires
        a.bounded(la),
        b.bounded(lb),
    ensures
        -3 * (la * lb) <= a.dot(b) <= 3 * (la * lb),
        a.cross(b).bounded(2 * (la * lb)),
{
    lemma_bounded_product(a.x, b.x, la, lb);
    lemma_bounded_product(a.y, b.y, la, lb);
    lemma_bounded_product(a.z, b.z, la, lb);
    lemma_bounded_product(a.y, b.z, la, lb);
    lemma_bounded_product(a.z, b.y, la, lb);
    lemma_bounded_product(a.z, b.x, la, lb);
    lemma_bounded_product(a.x, b.z, la, lb);
    lemma_bounded_product(a.x, b.y, la, lb);
    lemma_bounded_product(a.y, b.x, la, lb);
}

/// The product of a number bounded by `la` and one bounded by `lb` is
/// bounded by `la * lb`.
pub proof fn lemma_bounded_product(a: int, b: int, la: int, lb: int)
    requires
        -la <= a <= la,
        -lb <= b <= lb,
    ensures
        -(la * lb) <= a * b <= la * lb,
{
    assert(-(la * lb) <= a * b <= la * lb) by (nonlinear_arith)
        requires
            -la <= a <= la,
            -lb <= b <= lb,
    ;
}

/// The product of two 64-bit values is at most `2^126` in magnitude.
pub proof fn lemma_product_bound(a: int, b: int)
    requires
        i64::MIN <= a <= i64::MAX,
        i64::MIN <= b <= i64::MAX,
    ensures
        -0x4000_0000_0000_0000_0000_0000_0000_0000 <= a * b
            <= 0x4000_0000_0000_0000_0000_0000_0000_0000,
{
    assert(-0x4000_0000_0000_0000_0000_0000_0000_0000 <= a * b
        <= 0x4000_0000_0000_0000_0000_0000_0000_0000) by (nonlinear_arith)
        requires
            -0x8000_0000_0000_0000 <= a <= 0x7fff_ffff_ffff_ffff,
            -0x8000_0000_0000_0000 <= b <= 0x7fff_ffff_ffff_ffff,
    ;
}

/// The square of a 64-bit value is non-negative and below `2^126 + 1`.
pub proof fn lemma_square_bound(a: int)
    requires
        i64::MIN <= a <= i64::MAX,
    ensures
        0 <= a * a <= 0x4000_0000_0000_0000_0000_0000_0000_0000,
{
    assert(0 <= a * a <= 0x4000_0000_0000_0000_0000_0000_0000_0000) by (nonlinear_arith)
        requires
            -0x8000_0000_0000_0000 <= a <= 0x7fff_ffff_ffff_ffff,
    ;
}

} // verus!
