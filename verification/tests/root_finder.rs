use decaminx::decaminx_creator::DecaminxCreator;
use decaminx::fixed::ONE;
use decaminx::points3d::{find_root, Point};

fn p(x: i64, y: i64, z: i64) -> Point {
    Point { x, y, z }
}

#[test]
fn finds_the_edge_of_the_axle_zone() {
    let model = DecaminxCreator::new();
    let classify = |pos: Point| model.get_part_index(pos);
    let inside = p(2 * ONE, 0, 18 * ONE);
    let outside = p(0, 0, 18 * ONE);
    assert_eq!(classify(inside), 1);
    assert_eq!(classify(outside), 0);
    assert_eq!(find_root(&classify, inside, outside, 1, 30), p(1_349_999, 0, 18 * ONE));
}

#[test]
fn forms_as_many_midpoints_as_tries() {
    let model = DecaminxCreator::new();
    let classify = |pos: Point| model.get_part_index(pos);
    let inside = p(2 * ONE, 0, 18 * ONE);
    let outside = p(0, 0, 18 * ONE);
    assert_eq!(find_root(&classify, inside, outside, 1, 0), p(1_000_000, 0, 18 * ONE));
    assert_eq!(find_root(&classify, inside, outside, 1, 1), p(1_000_000, 0, 18 * ONE));
    assert_eq!(find_root(&classify, inside, outside, 1, 2), p(1_500_000, 0, 18 * ONE));
    assert_eq!(find_root(&classify, inside, outside, 1, 3), p(1_250_000, 0, 18 * ONE));
    assert_eq!(
        find_root(&classify, inside, p(-7, 3, 18_000_001), 1, 5),
        p(1_312_497, 0, 18 * ONE)
    );
}

#[test]
fn classifies_each_midpoint_but_the_last() {
    let calls = std::cell::Cell::new(0);
    let f = |pos: Point| {
        calls.set(calls.get() + 1);
        if pos.x <= -3 {
            1
        } else {
            0
        }
    };
    assert_eq!(find_root(&f, p(-10, -10, -10), p(11, 5, 0), 1, 4), p(-2, -4, -6));
    assert_eq!(calls.get(), 3);
}

#[test]
fn the_bracket_halves_with_each_step() {
    let f = |pos: Point| if pos.x < 1000 { 7 } else { 0 };
    let a = p(0, 0, 0);
    let b = p(1 << 20, 0, 0);
    let mut last: i64 = 1 << 20;
    for tries in 1..=20usize {
        let m = find_root(&f, a, b, 7, tries);
        // the midpoint of a bracket of width 2^(21 - tries) around 1000
        let half: i64 = 1 << (20 - tries);
        assert!((m.x - 1000).abs() <= half, "tries {}", tries);
        assert!(half * 2 <= last);
        last = half * 2;
    }
}
