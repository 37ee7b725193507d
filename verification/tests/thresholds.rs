use decaminx::decaminx_creator::DecaminxCreator;
use decaminx::points3d::Point;

fn p(x: i64, y: i64, z: i64) -> Point {
    Point { x, y, z }
}

/// Checks pairs of neighbouring points that lie on the two sides of a
/// threshold, with the radius of each point where the threshold is one on
/// the radius.
fn check(pairs: &[(Point, u64, u32, Point, u64, u32)]) {
    let model = DecaminxCreator::new();
    for &(a, ra, ia, b, rb, ib) in pairs {
        assert_eq!(a.len(), ra);
        assert_eq!(b.len(), rb);
        assert_eq!(model.get_part_index(a), ia, "at {:?}", a);
        assert_eq!(model.get_part_index(b), ib, "at {:?}", b);
    }
}

#[test]
fn thresholds_two_units_from_the_pole_axis() {
    check(&[
        // no part reaches deeper than 3.8
        (p(2000000, 0, 14058449), 14199999, 0, p(2000000, 0, 14058450), 14200000, 1),
        // further than one unit outside the ball the axle zone widens to 3.2
        (p(2000000, 0, 18894444), 19000000, 1, p(2000000, 0, 18894445), 19000001, 0),
        // the cup lifts the axle zone above a projection of 28
        (p(2000000, 0, 28000000), 28071337, 0, p(2000000, 0, 28000001), 28071338, 1025),
        // and ends at a projection of 28.5
        (p(2000000, 0, 28500000), 28570089, 1025, p(2000000, 0, 28500001), 28570090, 0),
    ]);
}

#[test]
fn thresholds_between_the_layers_of_a_part() {
    check(&[
        // nearer than 4.25 to the axle the outer layer starts at radius 24.5
        // on the one side, with a gap from 24.3
        (p(4200000, 0, 23934286), 24300000, 1, p(4200000, 0, 23934287), 24300001, 0),
        (p(4200000, 0, 24137316), 24500000, 0, p(4200000, 0, 24137317), 24500001, 1025),
        // and at radius 22.5 on the other side, with a gap from 22.3
        (p(-4200000, 0, 21900914), 22300000, 1, p(-4200000, 0, 21900915), 22300001, 0),
        (p(-4200000, 0, 22104525), 22500000, 0, p(-4200000, 0, 22104526), 22500001, 1025),
        // between the sides the gap starts at 22.3 and ends at 24.5
        (p(0, 4200000, 21900914), 22300000, 1, p(0, 4200000, 21900915), 22300001, 0),
        (p(0, 4200000, 24137316), 24500000, 0, p(0, 4200000, 24137317), 24500001, 1025),
        // between 4.25 and 4.35 from the axle there is the gap only
        (p(4300000, 0, 23916522), 24300000, 1, p(4300000, 0, 23916523), 24300001, 0),
        (p(-4300000, 0, 21881500), 22300000, 1, p(-4300000, 0, 21881501), 22300001, 0),
        // and everywhere the outer layer starts at radius 26.5
        (p(4300000, 0, 26148805), 26500000, 0, p(4300000, 0, 26148806), 26500001, 1025),
        (p(-4300000, 0, 26148805), 26500000, 0, p(-4300000, 0, 26148806), 26500001, 1025),
    ]);
}

#[test]
fn thresholds_of_the_cone_at_the_surface() {
    check(&[
        // just below the surface the transition band of a neighbouring
        // cone reaches the point; on the surface that band is narrower
        (p(4200000, 0, 17503142), 17999999, 0, p(4200000, 0, 17503143), 18000000, 1),
        (p(4300000, 0, 17478844), 17999999, 0, p(4300000, 0, 17478845), 18000000, 1),
        // along the surface: the axle zone, then the cone, then its edge
        (p(1349999, 0, 18000000), 18050553, 0, p(1350000, 0, 18000000), 18050554, 1),
        (p(5160904, 0, 18000000), 18725248, 1, p(5160905, 0, 18000000), 18725248, 0),
    ]);
}

#[test]
fn thresholds_of_the_rounded_corners() {
    check(&[
        // two neighbouring cones are close: the point leaves the quarter
        // circle between them
        (p(2000000, 0, 14128323), 14269180, 1, p(2000000, 0, 14128324), 14269181, 0),
        // and enters it again where the cones narrow
        (p(2000000, 0, 17301239), 17416454, 0, p(2000000, 0, 17301240), 17416455, 1),
    ]);
}
