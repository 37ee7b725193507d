//! What `segment_distance` measures: the least distance from a point to the
//! points of a segment, rounded down.
//!
//! A point of the segment from `start` to `end` is
//! `start + (s / t) (end - start)` with integers `0 <= s <= t`, `t > 0`. To
//! stay with integers, the laws speak of `t` times the vector from `p` to
//! that point, `between(p, start, end, s, t)`.

use vstd::prelude::*;
use crate::fixed::lemma_isqrt_is_floor;
use crate::points3d::{lemma_zero_length, segment_distance, Vector};

verus! {

/// `t` times the vector from `p` to the point of the segment from `start` to
/// `end` with the parameter `s / t`.
pub open spec fn between(p: Vector, start: Vector, end: Vector, s: int, t: int) -> Vector {
    start.minus(p).times(t).plus(end.minus(start).times(s))
}

/// The square of a length is not negative.
pub proof fn lemma_sqr_len_not_negative(v: Vector)
    ensures
        v.sqr_len() >= 0,
{
    assert(v.x * v.x + v.y * v.y + v.z * v.z >= 0) by (nonlinear_arith);
}

/// The square of a difference.
proof fn lemma_square_of_difference(x: int, y: int)
    ensures
        (x - y) * (x - y) == x * x - 2 * (x * y) + y * y,
{
    assert((x - y) * (x - y) == x * x - 2 * (x * y) + y * y) by (nonlinear_arith);
}

/// The square of a sum of three.
proof fn lemma_square_of_sum(x: int, y: int, z: int)
    ensures
        (x + y + z) * (x + y + z) == x * x + y * y + z * z + 2 * (x * y) + 2 * (x * z) + 2 * (y
            * z),
{
    assert((x + y + z) * (x + y + z) == x * x + y * y + z * z + 2 * (x * y) + 2 * (x * z) + 2 * (y
        * z)) by (nonlinear_arith);
}

/// The product of two sums of three.
proof fn lemma_product_of_sums(a: int, b: int, c: int, x: int, y: int, z: int)
    ensures
        (a + b + c) * (x + y + z) == a * x + a * y + a * z + b * x + b * y + b * z + c * x + c * y
            + c * z,
{
    assert((a + b + c) * (x + y + z) == a * x + a * y + a * z + b * x + b * y + b * z + c * x + c
        * y + c * z) by (nonlinear_arith);
}

/// A product of two products, with its factors regrouped.
proof fn lemma_regroup(a: int, b: int, c: int, d: int)
    ensures
        (a * b) * (c * d) == (a * d) * (c * b),
        (a * a) * (b * b) == (a * b) * (a * b),
{
    assert((a * b) * (c * d) == (a * d) * (c * b)) by (nonlinear_arith);
    assert((a * a) * (b * b) == (a * b) * (a * b)) by (nonlinear_arith);
}

/// A common factor of three terms.
proof fn lemma_common_factor(k: int, x: int, y: int, z: int)
    ensures
        k * (x + y + z) == k * x + k * y + k * z,
{
    assert(k * (x + y + z) == k * x + k * y + k * z) by (nonlinear_arith);
}

/// Lagrange's identity: the squares of the vector product and of the scalar
/// product of two vectors add up to the product of their squared lengths.
pub proof fn lemma_lagrange(a: Vector, b: Vector)
    ensures
        a.cross(b).sqr_len() + a.dot(b) * a.dot(b) == a.sqr_len() * b.sqr_len(),
{
    let (xx, xy, xz) = (a.x * b.x, a.x * b.y, a.x * b.z);
    let (yx, yy, yz) = (a.y * b.x, a.y * b.y, a.y * b.z);
    let (zx, zy, zz) = (a.z * b.x, a.z * b.y, a.z * b.z);
    let c = a.cross(b);
    lemma_square_of_difference(yz, zy);
    lemma_square_of_difference(zx, xz);
    lemma_square_of_difference(xy, yx);
    lemma_square_of_sum(xx, yy, zz);
    lemma_product_of_sums(a.x * a.x, a.y * a.y, a.z * a.z, b.x * b.x, b.y * b.y, b.z * b.z);
    lemma_regroup(a.x, b.x, a.x, b.x);
    lemma_regroup(a.x, b.y, a.x, b.y);
    lemma_regroup(a.x, b.z, a.x, b.z);
    lemma_regroup(a.y, b.x, a.y, b.x);
    lemma_regroup(a.y, b.y, a.y, b.y);
    lemma_regroup(a.y, b.z, a.y, b.z);
    lemma_regroup(a.z, b.x, a.z, b.x);
    lemma_regroup(a.z, b.y, a.z, b.y);
    lemma_regroup(a.z, b.z, a.z, b.z);
    lemma_regroup(a.y, b.z, a.z, b.y);
    lemma_regroup(a.z, b.x, a.x, b.z);
    lemma_regroup(a.x, b.y, a.y, b.x);
    assert(yz * zy == yy * zz);
    assert(zx * xz == zz * xx);
    assert(xy * yx == xx * yy);
    assert(c.sqr_len() == (yz - zy) * (yz - zy) + (zx - xz) * (zx - xz) + (xy - yx) * (xy - yx));
    assert(a.dot(b) * a.dot(b) == (xx + yy + zz) * (xx + yy + zz));
}

/// The length and the products of `u * t + e * s`.
proof fn lemma_combination_length(u: Vector, e: Vector, s: int, t: int)
    ensures
        u.times(t).plus(e.times(s)).sqr_len() == t * t * u.sqr_len() + 2 * (t * s) * u.dot(e) + s
            * s * e.sqr_len(),
        u.times(t).plus(e.times(s)).cross(e) == u.cross(e).times(t),
        u.cross(e).times(t).sqr_len() == t * t * u.cross(e).sqr_len(),
        u.times(t).plus(e.times(s)).dot(e) == t * u.dot(e) + s * e.sqr_len(),
{
    let a = u.times(t).plus(e.times(s));
    lemma_combination_square(u.x, e.x, s, t);
    lemma_combination_square(u.y, e.y, s, t);
    lemma_combination_square(u.z, e.z, s, t);
    lemma_common_factor(t * t, u.x * u.x, u.y * u.y, u.z * u.z);
    lemma_common_factor(2 * (t * s), u.x * e.x, u.y * e.y, u.z * e.z);
    lemma_common_factor(s * s, e.x * e.x, e.y * e.y, e.z * e.z);
    lemma_common_factor(t, u.x * e.x, u.y * e.y, u.z * e.z);
    lemma_common_factor(s, e.x * e.x, e.y * e.y, e.z * e.z);
    let c = u.cross(e);
    let d = a.cross(e);
    lemma_combination_cross(u.y, u.z, e.y, e.z, s, t);
    lemma_combination_cross(u.z, u.x, e.z, e.x, s, t);
    lemma_combination_cross(u.x, u.y, e.x, e.y, s, t);
    assert(d.x == c.x * t && d.y == c.y * t && d.z == c.z * t);
    let ct = c.times(t);
    lemma_regroup(c.x, t, c.x, t);
    lemma_regroup(c.y, t, c.y, t);
    lemma_regroup(c.z, t, c.z, t);
    lemma_regroup(t, c.x, t, c.x);
    lemma_regroup(t, c.y, t, c.y);
    lemma_regroup(t, c.z, t, c.z);
    assert(c.x * t == t * c.x && c.y * t == t * c.y && c.z * t == t * c.z) by (nonlinear_arith);
    lemma_common_factor(t * t, c.x * c.x, c.y * c.y, c.z * c.z);
}

/// One coordinate of `u * t + e * s`, squared and times `e`.
proof fn lemma_combination_square(u: int, e: int, s: int, t: int)
    ensures
        (u * t + e * s) * (u * t + e * s) == (t * t) * (u * u) + (2 * (t * s)) * (u * e) + (s * s)
            * (e * e),
        (u * t + e * s) * e == t * (u * e) + s * (e * e),
{
    let a = u * t;
    let b = e * s;
    assert((a + b) * (a + b) == a * a + 2 * (a * b) + b * b) by (nonlinear_arith);
    assert(a * a == (t * t) * (u * u)) by (nonlinear_arith)
        requires
            a == u * t,
    ;
    assert(b * b == (s * s) * (e * e)) by (nonlinear_arith)
        requires
            b == e * s,
    ;
    assert(a * b == (t * s) * (u * e)) by (nonlinear_arith)
        requires
            a == u * t,
            b == e * s,
    ;
    assert((2 * (t * s)) * (u * e) == 2 * ((t * s) * (u * e))) by (nonlinear_arith);
    assert((a + b) * e == a * e + b * e) by (nonlinear_arith);
    assert(a * e == t * (u * e)) by (nonlinear_arith)
        requires
            a == u * t,
    ;
    assert(b * e == s * (e * e)) by (nonlinear_arith)
        requires
            b == e * s,
    ;
}

/// One coordinate of the vector product of `u * t + e * s` and `e`.
proof fn lemma_combination_cross(u1: int, u2: int, e1: int, e2: int, s: int, t: int)
    ensures
        (u1 * t + e1 * s) * e2 - (u2 * t + e2 * s) * e1 == (u1 * e2 - u2 * e1) * t,
{
    assert((u1 * t + e1 * s) * e2 - (u2 * t + e2 * s) * e1 == (u1 * e2 - u2 * e1) * t)
        by (nonlinear_arith);
}

/// No point of the segment is nearer to `p` than `segment_distance` says.
pub proof fn lemma_segment_distance_is_least(
    p: Vector,
    start: Vector,
    end: Vector,
    s: int,
    t: int,
)
    requires
        0 <= s <= t,
        t > 0,
    ensures
        t * t * (segment_distance(p, start, end) * segment_distance(p, start, end)) <= between(
            p,
            start,
            end,
            s,
            t,
        ).sqr_len(),
{
    let along = end.minus(start);
    let to_start = start.minus(p);
    let to_end = end.minus(p);
    let a = between(p, start, end, s, t);
    let r = segment_distance(p, start, end);
    let l2 = along.sqr_len();
    let d = to_end.dot(along);
    lemma_sqr_len_not_negative(along);
    lemma_sqr_len_not_negative(to_start);
    lemma_sqr_len_not_negative(to_end);
    lemma_combination_length(to_start, along, s, t);
    // the same vector, seen from the end of the segment
    assert(a == to_end.times(t).plus(along.times(s - t))) by {
        assert(a.x == to_end.x * t + along.x * (s - t)) by (nonlinear_arith)
            requires
                a.x == to_start.x * t + along.x * s,
                to_end.x == to_start.x + along.x,
        ;
        assert(a.y == to_end.y * t + along.y * (s - t)) by (nonlinear_arith)
            requires
                a.y == to_start.y * t + along.y * s,
                to_end.y == to_start.y + along.y,
        ;
        assert(a.z == to_end.z * t + along.z * (s - t)) by (nonlinear_arith)
            requires
                a.z == to_start.z * t + along.z * s,
                to_end.z == to_start.z + along.z,
        ;
    }
    lemma_combination_length(to_end, along, s - t, t);
    let n = a.sqr_len();
    if l2 == 0 || d <= 0 {
        // the end of the segment is the nearest point
        let m = to_end.sqr_len();
        lemma_isqrt_is_floor(m);
        if l2 == 0 {
            lemma_zero_length(along);
        }
        assert(n >= t * t * m) by (nonlinear_arith)
            requires
                n == t * t * m + 2 * (t * (s - t)) * d + (s - t) * (s - t) * l2,
                l2 == 0 || d <= 0,
                l2 >= 0,
                0 <= s <= t,
                l2 == 0 ==> d == 0,
        ;
        assert(t * t * (r * r) <= t * t * m) by (nonlinear_arith)
            requires
                r * r <= m,
        ;
    } else if d >= l2 {
        // the start of the segment is the nearest point
        let m = to_start.sqr_len();
        let ds = to_start.dot(along);
        lemma_isqrt_is_floor(m);
        assert(ds == d - l2) by (nonlinear_arith)
            requires
                ds == to_start.x * along.x + to_start.y * along.y + to_start.z * along.z,
                d == to_end.x * along.x + to_end.y * along.y + to_end.z * along.z,
                l2 == along.x * along.x + along.y * along.y + along.z * along.z,
                to_end.x == to_start.x + along.x,
                to_end.y == to_start.y + along.y,
                to_end.z == to_start.z + along.z,
        ;
        assert(n >= t * t * m) by (nonlinear_arith)
            requires
                n == t * t * m + 2 * (t * s) * ds + s * s * l2,
                ds >= 0,
                l2 >= 0,
                0 <= s <= t,
        ;
        assert(t * t * (r * r) <= t * t * m) by (nonlinear_arith)
            requires
                r * r <= m,
        ;
    } else {
        // the foot of the perpendicular is the nearest point
        let c = to_start.cross(along).sqr_len();
        lemma_sqr_len_not_negative(to_start.cross(along));
        lemma_lagrange(a, along);
        lemma_isqrt_is_floor(c / l2);
        vstd::arithmetic::div_mod::lemma_fundamental_div_mod(c, l2);
        vstd::arithmetic::div_mod::lemma_mod_bound(c, l2);
        vstd::arithmetic::div_mod::lemma_div_pos_is_pos(c, l2);
        let q = c / l2;
        let ae = a.dot(along);
        assert(r * r * l2 <= c) by (nonlinear_arith)
            requires
                r * r <= q,
                c == l2 * q + c % l2,
                0 <= c % l2,
                l2 > 0,
        ;
        assert(t * t * (r * r) <= n) by (nonlinear_arith)
            requires
                t * t * c + ae * ae == n * l2,
                r * r * l2 <= c,
                l2 > 0,
        ;
    }
}

/// Some point of the segment is nearer to `p` than `segment_distance` and
/// one: the law gives its parameter `s / t`.
pub proof fn lemma_segment_distance_is_attained(
    p: Vector,
    start: Vector,
    end: Vector,
) -> (st: (int, int))
    ensures
        0 <= st.0 <= st.1,
        st.1 > 0,
        segment_distance(p, start, end) >= 0,
        between(p, start, end, st.0, st.1).sqr_len() < st.1 * st.1 * ((segment_distance(
            p,
            start,
            end,
        ) + 1) * (segment_distance(p, start, end) + 1)),
{
    let along = end.minus(start);
    let to_start = start.minus(p);
    let to_end = end.minus(p);
    let r = segment_distance(p, start, end);
    let l2 = along.sqr_len();
    let d = to_end.dot(along);
    lemma_sqr_len_not_negative(along);
    lemma_sqr_len_not_negative(to_start);
    lemma_sqr_len_not_negative(to_end);
    if l2 == 0 || d <= 0 {
        lemma_isqrt_is_floor(to_end.sqr_len());
        lemma_combination_length(to_start, along, 1, 1);
        let a = between(p, start, end, 1, 1);
        assert(a == to_end) by {
            assert(a.x == to_end.x && a.y == to_end.y && a.z == to_end.z) by (nonlinear_arith)
                requires
                    a.x == to_start.x * 1 + along.x * 1,
                    a.y == to_start.y * 1 + along.y * 1,
                    a.z == to_start.z * 1 + along.z * 1,
                    to_end.x == to_start.x + along.x,
                    to_end.y == to_start.y + along.y,
                    to_end.z == to_start.z + along.z,
            ;
        }
        assert(1 * 1 * ((r + 1) * (r + 1)) == (r + 1) * (r + 1)) by (nonlinear_arith);
        (1, 1)
    } else if d >= l2 {
        lemma_isqrt_is_floor(to_start.sqr_len());
        let a = between(p, start, end, 0, 1);
        assert(a == to_start) by {
            assert(a.x == to_start.x && a.y == to_start.y && a.z == to_start.z) by (nonlinear_arith)
                requires
                    a.x == to_start.x * 1 + along.x * 0,
                    a.y == to_start.y * 1 + along.y * 0,
                    a.z == to_start.z * 1 + along.z * 0,
            ;
        }
        assert(1 * 1 * ((r + 1) * (r + 1)) == (r + 1) * (r + 1)) by (nonlinear_arith);
        (0, 1)
    } else {
        let c = to_start.cross(along).sqr_len();
        let ds = to_start.dot(along);
        lemma_sqr_len_not_negative(to_start.cross(along));
        assert(ds == d - l2) by (nonlinear_arith)
            requires
                ds == to_start.x * along.x + to_start.y * along.y + to_start.z * along.z,
                d == to_end.x * along.x + to_end.y * along.y + to_end.z * along.z,
                l2 == along.x * along.x + along.y * along.y + along.z * along.z,
                to_end.x == to_start.x + along.x,
                to_end.y == to_start.y + along.y,
                to_end.z == to_start.z + along.z,
        ;
        let s = -ds;
        let t = l2;
        let a = between(p, start, end, s, t);
        lemma_combination_length(to_start, along, s, t);
        lemma_lagrange(a, along);
        lemma_isqrt_is_floor(c / l2);
        vstd::arithmetic::div_mod::lemma_fundamental_div_mod(c, l2);
        vstd::arithmetic::div_mod::lemma_mod_bound(c, l2);
        vstd::arithmetic::div_mod::lemma_div_pos_is_pos(c, l2);
        let q = c / l2;
        let n = a.sqr_len();
        let ae = a.dot(along);
        assert(ae == 0) by (nonlinear_arith)
            requires
                ae == t * ds + s * l2,
                s == -ds,
                t == l2,
        ;
        assert(c < l2 * ((r + 1) * (r + 1))) by (nonlinear_arith)
            requires
                q < (r + 1) * (r + 1),
                c == l2 * q + c % l2,
                c % l2 < l2,
                l2 > 0,
        ;
        assert(n < t * t * ((r + 1) * (r + 1))) by (nonlinear_arith)
            requires
                t * t * c + ae * ae == n * l2,
                ae == 0,
                t == l2,
                l2 > 0,
                c < l2 * ((r + 1) * (r + 1)),
        ;
        (s, t)
    }
}

} // verus!
