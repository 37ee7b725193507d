use decaminx::decaminx_creator::{DecaminxCreator, Region};
use decaminx::fixed::ONE;
use decaminx::partition::{
    AXIS_COUNT, AXIS_U, AXIS_V, AXIS_W, BALL_RADIUS, LOWER_CORE, OUTER_LAYER, SPLIT2_COS,
    SPLIT_COS, UPPER_CORE,
};
use decaminx::points3d::{dot, Point};

fn p(x: i64, y: i64, z: i64) -> Point {
    Point { x, y, z }
}

#[test]
fn the_model_holds_ten_unit_axes() {
    let model = DecaminxCreator::new();
    let axes = model.axes();
    assert_eq!(axes.len(), AXIS_COUNT);
    assert_eq!(axes[0], p(0, 0, ONE));
    assert_eq!(axes[1], p(0, 0, -ONE));
    assert_eq!(axes[2], p(AXIS_U, AXIS_V, AXIS_W));
    assert_eq!(axes[3], p(-AXIS_V, AXIS_U, AXIS_W));
    assert_eq!(axes[9], p(-AXIS_V, -AXIS_U, -AXIS_W));
    let one = (ONE as u128) * (ONE as u128);
    for axis in axes.iter() {
        let l = axis.sqr_len();
        assert!(one - (ONE as u128) < l && l < one + ONE as u128);
    }
    // opposite poles, and rings whose neighbours are a quarter turn apart
    assert_eq!(axes[0], -axes[1]);
    for i in 2..6 {
        let next = if i == 5 { 2 } else { i + 1 };
        assert_eq!(p(-axes[i].y, axes[i].x, axes[i].z), axes[next]);
    }
    for i in 6..10 {
        let next = if i == 9 { 6 } else { i + 1 };
        assert_eq!(p(-axes[i].y, axes[i].x, axes[i].z), axes[next]);
    }
}

#[test]
fn the_ring_axes_solve_their_equations() {
    let (u, v, w) = (AXIS_U as f64 / 1e6, AXIS_V as f64 / 1e6, AXIS_W as f64 / 1e6);
    assert!((u * u + v * v + w * w - 1.0).abs() < 1e-6);
    assert!((w - (2.0 * u * u - 1.0)).abs() < 1e-6);
    assert!((w * w - u * v).abs() < 1e-6);
}

#[test]
fn the_thresholds_are_the_cosines_of_the_cut_angles() {
    let model = DecaminxCreator::new();
    assert_eq!(model.ball_radius(), 18 * ONE);
    assert_eq!(model.ball_radius(), BALL_RADIUS);
    assert_eq!(model.split_cos(), SPLIT_COS);
    assert_eq!(model.split2_cos(), SPLIT2_COS);
    let split = (0.7619934f64 + 4.0 / 18.0).cos();
    let split2 = (0.7619934f64 + 1.0 / 18.0).cos();
    assert_eq!(model.split_cos(), (split * 1e6).round() as i64);
    assert_eq!(model.split2_cos(), (split2 * 1e6).round() as i64);
}

#[test]
fn the_deep_interior_is_off_by_default() {
    let model = DecaminxCreator::new();
    assert!(!model.deep_interior_enabled());
    let model = model.with_deep_interior(true);
    assert!(model.deep_interior_enabled());
    let model = model.with_deep_interior(false);
    assert!(!model.deep_interior_enabled());
}

#[test]
fn stickers_and_faces_are_not_implemented() {
    let model = DecaminxCreator::new();
    assert_eq!(model.faces(), 0);
    let on_face = decaminx::points2d::Point { x: ONE, y: -ONE };
    assert_eq!(model.get_sticker_index(on_face, 0), 0);
    assert_eq!(model.get_sticker_index(on_face, 9), 0);
}

#[test]
fn regions_tell_parts_from_special_markers() {
    let model = DecaminxCreator::new();
    assert_eq!(model.classify(p(0, 0, 0)), Region::Void);
    assert_eq!(model.classify(p(0, 0, 18 * ONE)), Region::Void);
    assert_eq!(model.classify(p(2 * ONE, 0, 18 * ONE)), Region::Part(1));
    assert_eq!(model.classify(p(-2_430_430, 15_371_100, 8_252_298)), Region::Part(8));
    assert_eq!(model.classify(p(0, 0, 28_400_000)), Region::Part(1 + OUTER_LAYER));
    assert_eq!(model.classify(p(3 * ONE, ONE, 5 * ONE)), Region::Void);
    let model = model.with_deep_interior(true);
    assert_eq!(model.classify(p(3 * ONE, ONE, 5 * ONE)), Region::Special(UPPER_CORE));
    assert_eq!(model.classify(p(3 * ONE, ONE, -5 * ONE)), Region::Special(LOWER_CORE));
    assert_eq!(model.classify(p(7 * ONE, 7 * ONE, ONE)), Region::Special(LOWER_CORE + 1));
    assert_eq!(model.classify(p(3 * ONE, ONE, 0)), Region::Void);
    assert_eq!(model.classify(p(2 * ONE, 0, 18 * ONE)), Region::Part(1));
}

#[test]
fn a_quarter_turn_takes_the_axes_to_one_another() {
    let model = DecaminxCreator::new();
    let axes = model.axes();
    let turned_to = [0usize, 1, 3, 4, 5, 2, 7, 8, 9, 6];
    for i in 0..10 {
        assert_eq!(axes[i].rotate(axes[0], ONE, 0), axes[turned_to[i]]);
    }
    let swapped_with = [1usize, 0, 6, 9, 8, 7, 2, 5, 4, 3];
    for i in 0..10 {
        assert_eq!(axes[i].rotate(p(ONE, 0, 0), 0, -ONE), axes[swapped_with[i]]);
    }
    // projections turn with the axes
    let point = p(3_275_507, 1_720_369, 22_782_814);
    let turned = point.rotate(axes[0], ONE, 0);
    assert_eq!(turned, p(-1_720_369, 3_275_507, 22_782_814));
    for i in 0..10 {
        assert_eq!(dot(turned, axes[turned_to[i]]), dot(point, axes[i]));
    }
    assert_eq!(turned.len(), point.len());
}

#[test]
fn a_quarter_turn_keeps_the_part_of_the_pole_where_the_layers_agree() {
    let model = DecaminxCreator::new();
    let axes = model.axes();
    for point in [
        p(2 * ONE, 0, 18 * ONE),
        p(-1_696_826, 1_319_209, 18_394_264),
        p(-4_830_591, 3_289_279, 20_252_586),
        p(5_293_702, -951_482, 28_261_541),
        p(-1_654_837, 3_485_845, 26_679_696),
    ] {
        let index = model.get_part_index(point);
        assert!(index == 1 || index == 1 + OUTER_LAYER);
        let mut image = point;
        for _ in 0..4 {
            image = image.rotate(axes[0], ONE, 0);
            assert_eq!(model.get_part_index(image), index);
        }
        assert_eq!(image, point);
    }
}

#[test]
fn default_point_is_the_origin() {
    assert_eq!(Point::default(), Point::zero());
}
