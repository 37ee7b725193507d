use decaminx::fixed::ONE;
use decaminx::points3d::{dist_pl, Point};

fn p(x: i64, y: i64, z: i64) -> Point {
    Point { x, y, z }
}

fn units(v: i64) -> f64 {
    v as f64 / ONE as f64
}

fn fixed(v: f64) -> i64 {
    (v * ONE as f64).round() as i64
}

fn close(a: i64, b: f64, slack: f64) -> bool {
    (units(a) - b).abs() <= slack
}

#[test]
fn length_agrees_with_the_square_root() {
    for v in [p(3, 4, 12), p(ONE, ONE, ONE), p(-4_430_430, 15_371_100, 8_252_298), p(7, 0, 0)] {
        let exact = (units(v.x).powi(2) + units(v.y).powi(2) + units(v.z).powi(2)).sqrt();
        let l = v.len() as i64;
        assert!(units(l) <= exact + 1e-12);
        assert!(exact < units(l + 1) + 1e-12);
    }
}

#[test]
fn norm_has_length_one_to_a_millionth() {
    for v in [p(3 * ONE, -4 * ONE, 12 * ONE), p(-4_430_430, 15_371_100, 8_252_298), p(ONE, 1, -1)] {
        let n = v.norm();
        let l = (units(n.x).powi(2) + units(n.y).powi(2) + units(n.z).powi(2)).sqrt();
        assert!((l - 1.0).abs() < 3e-6, "length {}", l);
        // the same direction
        let d = units(v.x) * units(n.x) + units(v.y) * units(n.y) + units(v.z) * units(n.z);
        let lv = (units(v.x).powi(2) + units(v.y).powi(2) + units(v.z).powi(2)).sqrt();
        assert!((d - lv).abs() < 1e-4 * lv);
    }
}

fn rotate_in_floats(v: [f64; 3], a: [f64; 3], angle: f64) -> [f64; 3] {
    // v cos + (a x v) sin + a (a . v) (1 - cos)
    let (s, c) = angle.sin_cos();
    let dot = a[0] * v[0] + a[1] * v[1] + a[2] * v[2];
    let cross = [a[1] * v[2] - a[2] * v[1], a[2] * v[0] - a[0] * v[2], a[0] * v[1] - a[1] * v[0]];
    [
        v[0] * c + cross[0] * s + a[0] * dot * (1.0 - c),
        v[1] * c + cross[1] * s + a[1] * dot * (1.0 - c),
        v[2] * c + cross[2] * s + a[2] * dot * (1.0 - c),
    ]
}

#[test]
fn rotate_agrees_with_the_rotation_formula() {
    let axles = [p(0, 0, ONE), p(600_000, 0, 800_000), p(-246_135, 853_950, 458_461)];
    let points = [p(18 * ONE, 0, 0), p(-4_430_430, 15_371_100, 8_252_298), p(123, -456_789, 12)];
    for axle in axles {
        for v in points {
            for angle in [0.3f64, 1.2, -2.0, 3.0, 0.0001] {
                let (s, c) = angle.sin_cos();
                let r = v.rotate(axle, fixed(s), fixed(c));
                let a = [units(axle.x), units(axle.y), units(axle.z)];
                let e = rotate_in_floats([units(v.x), units(v.y), units(v.z)], a, angle);
                // the sine, the cosine and the axle are good to a millionth
                let slack = 1e-5 * (1.0 + units(v.len() as i64));
                assert!(close(r.x, e[0], slack), "{:?} about {:?} by {}", v, axle, angle);
                assert!(close(r.y, e[1], slack), "{:?} about {:?} by {}", v, axle, angle);
                assert!(close(r.z, e[2], slack), "{:?} about {:?} by {}", v, axle, angle);
            }
        }
    }
}

fn distance_in_floats(q: [f64; 3], a: [f64; 3], b: [f64; 3]) -> f64 {
    let e = [b[0] - a[0], b[1] - a[1], b[2] - a[2]];
    let l2 = e[0] * e[0] + e[1] * e[1] + e[2] * e[2];
    let t = if l2 == 0.0 {
        0.0
    } else {
        (((q[0] - a[0]) * e[0] + (q[1] - a[1]) * e[1] + (q[2] - a[2]) * e[2]) / l2).clamp(0.0, 1.0)
    };
    let f = [a[0] + t * e[0] - q[0], a[1] + t * e[1] - q[1], a[2] + t * e[2] - q[2]];
    (f[0] * f[0] + f[1] * f[1] + f[2] * f[2]).sqrt()
}

#[test]
fn distance_to_a_segment_agrees_with_the_nearest_point() {
    let points = [
        p(0, 0, 0),
        p(5 * ONE, 3 * ONE, -ONE),
        p(-4_430_430, 15_371_100, 8_252_298),
        p(2 * ONE, ONE, ONE),
        p(-7, 12, 100 * ONE),
    ];
    for q in points {
        for a in points {
            for b in points {
                let d = dist_pl(q, a, b) as i64;
                let e = distance_in_floats(
                    [units(q.x), units(q.y), units(q.z)],
                    [units(a.x), units(a.y), units(a.z)],
                    [units(b.x), units(b.y), units(b.z)],
                );
                assert!(units(d) <= e + 1e-9, "{:?} to {:?} - {:?}: {} {}", q, a, b, d, e);
                assert!(e < units(d + 1) + 1e-9, "{:?} to {:?} - {:?}: {} {}", q, a, b, d, e);
            }
        }
    }
}
