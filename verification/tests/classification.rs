use decaminx::decaminx_creator::{
    corner_test, in_working_range, validate, DecaminxCreator, NearAxis,
};
use decaminx::fixed::ONE;
use decaminx::partition::{LOWER_CORE, MARGIN_ONE, OUTER_LAYER, UPPER_CORE};
use decaminx::points3d::Point;

fn p(x: i64, y: i64, z: i64) -> Point {
    Point { x, y, z }
}

#[test]
fn deep_points_are_void() {
    let model = DecaminxCreator::new();
    assert_eq!(model.get_part_index(p(0, 0, 0)), 0);
    assert_eq!(model.get_part_index(p(2 * ONE, 2 * ONE, 13 * ONE)), 0);
    assert_eq!(model.get_part_index(p(0, 2 * ONE, 13 * ONE)), 0);
    assert_eq!(model.get_part_index(p(7 * ONE, 7 * ONE, ONE)), 0);
    // depth just above four, and exactly four
    assert_eq!(model.get_part_index(p(2 * ONE, 0, 13_845_000)), 0);
}

#[test]
fn the_pole_lies_on_the_axle() {
    let model = DecaminxCreator::new();
    // inside the cone of axis 0, but on its axle
    assert_eq!(model.get_part_index(p(0, 0, 18 * ONE)), 0);
    // the axle zone ends at 1.35 from the axis
    assert_eq!(model.get_part_index(p(1_349_999, 0, 18 * ONE)), 0);
    assert_eq!(model.get_part_index(p(1_350_000, 0, 18 * ONE)), 1);
    assert_eq!(model.get_part_index(p(2 * ONE, 0, 18 * ONE)), 1);
    assert_eq!(model.get_part_index(p(0, 2 * ONE, 18 * ONE)), 1);
}

#[test]
fn the_cone_of_the_pole_holds_the_pole() {
    let model = DecaminxCreator::new();
    let pole = p(0, 0, 18 * ONE);
    assert!(model.in_cone(pole, 0));
    for i in 1..10 {
        assert!(!model.in_cone(pole, i));
    }
    // the bit of axis 0 is set, and the axle of axis 0 takes the point
    assert_eq!(model.get_part_index(pole), 0);
    // two units beside the axle the point keeps its bit
    let beside = p(2 * ONE, 0, 18 * ONE);
    assert!(model.in_cone(beside, 0));
    for i in 1..10 {
        assert!(!model.in_cone(beside, i));
    }
    assert_eq!(model.get_part_index(beside), 1);
}

#[test]
fn the_cup_lifts_the_axle_zone() {
    let model = DecaminxCreator::new();
    assert_eq!(model.get_part_index(p(0, 0, 27 * ONE)), 0);
    assert_eq!(model.get_part_index(p(0, 0, 28_400_000)), 1 + OUTER_LAYER);
    assert_eq!(model.get_part_index(p(0, 0, 28_600_000)), 0);
    assert_eq!(model.get_part_index(p(0, 0, 29 * ONE)), 0);
}

#[test]
fn the_cone_boundary_is_strict() {
    let model = DecaminxCreator::new();
    // a thousand times the projection on axis 0 equals the outer threshold
    let on_boundary = p(13_130_491, 0, 12_312_198);
    assert_eq!(on_boundary.len(), 18_000_000);
    assert_eq!(1000 * 12_312_198 * ONE, 68_401_100 * 180_000_000);
    assert!(!model.in_cone(on_boundary, 0));
    assert_eq!(model.get_part_index_impl(on_boundary, 1), 0);
    // one millionth further along the axis, at the same radius
    let inside = p(13_130_490, 0, 12_312_199);
    assert_eq!(inside.len(), 18_000_000);
    assert!(model.in_cone(inside, 0));
    assert_eq!(model.get_part_index_impl(inside, 1), 1);
    // with all axes in use the cone of axis 2 holds the point as well
    assert!(model.in_cone(inside, 2));
    assert_eq!(model.get_part_index(inside), 0);
}

#[test]
fn the_axis_count_restricts_the_axes() {
    let model = DecaminxCreator::new();
    let near_axis_three = p(-2_430_430, 15_371_100, 8_252_298);
    assert_eq!(model.get_part_index(near_axis_three), 8);
    assert_eq!(model.get_part_index_impl(near_axis_three, 10), 8);
    assert_eq!(model.get_part_index_impl(near_axis_three, 11), 8);
    assert_eq!(model.get_part_index_impl(near_axis_three, usize::MAX), 8);
    assert_eq!(model.get_part_index_impl(near_axis_three, 4), 8);
    assert_eq!(model.get_part_index_impl(near_axis_three, 3), 0);
    assert_eq!(model.get_part_index_impl(near_axis_three, 0), 0);
    assert_eq!(model.get_part_index_impl(p(2 * ONE, 0, 18 * ONE), 0), 0);
    assert_eq!(model.get_part_index_impl(p(2 * ONE, 0, 18 * ONE), 1), 1);
}

#[test]
fn only_two_axes_have_parts() {
    let model = DecaminxCreator::new();
    // a quarter turn about the pole takes axis 3 to axis 4, which has no part
    let near_axis_three = p(-2_430_430, 15_371_100, 8_252_298);
    let turned = p(-15_371_100, -2_430_430, 8_252_298);
    assert_eq!(model.get_part_index(near_axis_three), 8);
    assert_eq!(model.get_part_index(turned), 0);
    // and it can move a point of the part of axis 0 between its layers
    let inner = p(3_275_507, 1_720_369, 22_782_814);
    let inner_turned = p(-1_720_369, 3_275_507, 22_782_814);
    assert_eq!(model.get_part_index(inner), 1);
    assert_eq!(model.get_part_index(inner_turned), 1 + OUTER_LAYER);
}

#[test]
fn far_points_are_void() {
    let model = DecaminxCreator::new();
    assert!(in_working_range(p(1_000_000_000, -1_000_000_000, 0)));
    assert!(!in_working_range(p(1_000_000_001, 0, 0)));
    assert!(!in_working_range(p(0, 0, -1_000_000_001)));
    assert_eq!(model.get_part_index(p(2_000_000_000, 0, 0)), 0);
    assert_eq!(model.get_part_index(p(0, 0, 1_000_000_001)), 0);
    assert_eq!(model.get_part_index(p(1_000_000_000, 1_000_000_000, 1_000_000_000)), 0);
    assert_eq!(model.get_part_index(p(i64::MAX, i64::MIN, i64::MAX)), 0);
    assert_eq!(model.get_part_index(p(i64::MIN, i64::MIN, i64::MIN)), 0);
    let deep = DecaminxCreator::new().with_deep_interior(true);
    assert_eq!(deep.get_part_index(p(i64::MAX, 0, 0)), 0);
    // far points lie in cones all the same, beyond their cups
    assert!(model.in_cone(p(0, 0, i64::MAX), 0));
    assert!(!model.in_cone(p(0, 0, i64::MAX), 1));
    assert!(model.in_cone(p(0, 0, i64::MIN), 1));
    assert!(!model.in_cone(p(i64::MAX, i64::MAX, 0), 0));
    assert!(model.in_cone(p(i64::MAX, i64::MAX, 0), 2));
}

#[test]
fn sample_points() {
    let model = DecaminxCreator::new();
    let samples: [((i64, i64, i64), u32); 160] = [
        ((-5315519, 21707453, 6938993), 1032),
        ((-7746242, -19135286, 15178814), 0),
        ((-19351761, -3889409, -9716842), 0),
        ((-6270067, 3342444, 17064558), 0),
        ((-8315500, 17734745, 10051155), 0),
        ((22662413, 4176496, 13141723), 0),
        ((-3831234, 16386957, 9032526), 0),
        ((-9681948, 13560470, 7228244), 8),
        ((-11680806, 19146391, 16931213), 1032),
        ((5355340, 4431038, 20666988), 0),
        ((6379726, -7852087, -17806541), 0),
        ((14436159, 4514128, 12707524), 0),
        ((-10666162, -1235036, 19945730), 0),
        ((-5324496, -5211956, 20729538), 0),
        ((-57683, 17288296, -66259), 0),
        ((4632493, -7977524, 11219253), 0),
        ((24499420, -12451181, 5237773), 0),
        ((1300873, 14250091, 7016721), 0),
        ((3264225, 12754868, 14341507), 0),
        ((-11378702, -1781805, 23606117), 0),
        ((1609166, -25727083, -8032945), 0),
        ((12855006, 4908219, 14546462), 0),
        ((10075436, -1353401, 23673922), 0),
        ((-5245262, 9457358, 16514404), 0),
        ((10453135, 9353035, 19297243), 0),
        ((4397108, 6590743, 26876259), 0),
        ((1524783, -15253142, 6184587), 0),
        ((-10256721, 11997724, 13195226), 8),
        ((-12531237, 16108265, 19954983), 0),
        ((2269834, 19592489, 19828804), 0),
        ((5474509, 8050082, 10408132), 0),
        ((-5752457, -4745133, 20986523), 0),
        ((-6775693, 24044205, 8706210), 1032),
        ((-8425542, 25524185, 8992880), 1032),
        ((1990057, 22361561, 11693827), 8),
        ((-26609821, -5725301, -4017931), 0),
        ((-14224139, -7468086, 7079108), 0),
        ((-11088648, 13016970, 7931526), 8),
        ((-6350412, 23560001, -2634637), 0),
        ((-12951016, 1121605, 20239971), 0),
        ((-1262679, 19511570, 12507681), 8),
        ((19857782, 2388399, -711309), 0),
        ((-9344532, 1193194, 17817825), 0),
        ((-5433175, 7674072, 15219849), 0),
        ((17068953, 20788879, 7582397), 0),
        ((17283974, -337448, 23026585), 0),
        ((-14099299, -6130051, 4478868), 0),
        ((-6732140, 8874565, 25784004), 0),
        ((-7309626, 19186474, 14101988), 1032),
        ((-7982097, 13713018, 6145086), 8),
        ((19106102, 4289655, 10946484), 0),
        ((5368468, -21792772, 15063706), 0),
        ((2893938, 19228851, 18903652), 0),
        ((3487629, 5518346, 27959049), 1025),
        ((-2680065, 20635757, 13218787), 1032),
        ((10671515, 4486069, 20821686), 0),
        ((14539696, 3255038, 9268722), 0),
        ((-16511683, 6465990, 22301729), 0),
        ((4269143, 12650972, 7724382), 0),
        ((-3040846, 10074543, 21259813), 0),
        ((-536760, 2164829, 16011490), 0),
        ((-13119079, -3169752, -11330016), 0),
        ((-1331938, -706356, 14889356), 1),
        ((-3168189, -1343775, 17033199), 0),
        ((-15992152, 19647600, 13607248), 1032),
        ((519879, 11171340, 18762716), 0),
        ((-21034046, -4707374, 11284029), 0),
        ((-12650607, -8251187, 9567277), 0),
        ((-5665013, 196849, 21064587), 0),
        ((5014227, 14295259, 10654086), 0),
        ((-4579645, 25293343, 3893359), 0),
        ((7883760, 2934425, 22025675), 0),
        ((-4753415, 6664349, 25280268), 0),
        ((-9474254, 12584364, 9852339), 8),
        ((-2910517, 14625848, 10194551), 8),
        ((-9130551, -5065890, 12182049), 0),
        ((-2898735, 11723819, 19806864), 0),
        ((-2009548, 15369917, 9179387), 8),
        ((4153955, 23008430, 11354220), 8),
        ((-751808, -5034712, 23116077), 1),
        ((-3015055, -2498263, 17994987), 1),
        ((-10967653, 14163272, 13649993), 8),
        ((4077115, 18406887, 13472580), 8),
        ((-1909727, -3211594, 19536707), 1),
        ((-3588823, -2438802, 21028502), 1),
        ((-2301349, 18695644, 6414968), 8),
        ((480193, -4782305, 26682764), 1025),
        ((-11737878, 18109606, 10088658), 8),
        ((-6636785, 18020735, 6128180), 8),
        ((-11152770, 18938950, 6660508), 8),
        ((-4017722, 2337889, 19974279), 1),
        ((-4863050, 11762554, 7863976), 8),
        ((-2371872, 20509104, 6516846), 8),
        ((-208103, -4835358, 23571829), 1),
        ((-10275847, 19822922, 5443065), 8),
        ((-1009207, 20535728, 7049204), 8),
        ((2389546, 2941053, 26790192), 1025),
        ((-1320978, 13183347, 6155233), 8),
        ((1138194, -3453653, 23545731), 1),
        ((-5527518, 1483758, 19739046), 1),
        ((-7527354, 16865593, 11613940), 8),
        ((-330805, 17008047, 11184827), 8),
        ((335236, 16096487, 12784694), 8),
        ((1272200, -1287220, 15129659), 1),
        ((-1157460, 4578189, 19695042), 1),
        ((-15233100, 19659739, 10048718), 1032),
        ((-6594170, 20140270, 16133144), 1032),
        ((-10413731, 11682726, 10053185), 8),
        ((-2131454, 22566978, 17346529), 1032),
        ((3175412, -1336880, 23873327), 1),
        ((-3421861, -3163631, 21979191), 1),
        ((3939218, -1595854, 23294308), 1),
        ((5190670, -819838, 20939211), 1),
        ((-13007000, 22511574, 9528884), 1032),
        ((-7766971, 24135933, 11953650), 1032),
        ((3915393, 452832, 20487528), 1),
        ((-4321813, -92235, 21119024), 1),
        ((-18886417, 19876873, 8107035), 1032),
        ((-13744017, 25061525, 3008839), 1032),
        ((-564434, -1260841, 16208147), 1),
        ((-6713308, 24437305, 9057730), 1032),
        ((-1336343, -5009147, 24073351), 1),
        ((19414, 4152674, 20110029), 1),
        ((-4065035, -1631884, 17674547), 1),
        ((4004046, -4014638, 18862616), 1),
        ((-14419543, 19252481, 13518858), 1032),
        ((-1621056, 268223, 15262348), 1),
        ((-1081262, -4529861, 23271862), 1),
        ((-10990149, 20815819, 15249740), 1032),
        ((-4392527, 3403283, 26198286), 1025),
        ((-2241475, 20799028, 10900378), 1032),
        ((161153, 21344473, 16296427), 1032),
        ((2032285, -3276864, 27019760), 1025),
        ((-14377223, 15400221, 16122101), 1032),
        ((4213136, 23215929, 15396432), 1032),
        ((-751917, 24639757, 15012388), 1032),
        ((1266290, 24719557, 11609584), 1032),
        ((-3689198, 1742982, 17945229), 1),
        ((-10750029, 21124653, 15679271), 1032),
        ((-1683737, 24009640, 11694536), 1032),
        ((3149262, -1690529, 26281952), 1025),
        ((-1464460, -3317654, 25266655), 1025),
        ((-4439557, 3102763, 27571529), 1025),
        ((-3698118, 739393, 23105780), 1025),
        ((4462464, -3363466, 26804480), 1025),
        ((1360015, -3649046, 25795145), 1025),
        ((3399168, -138917, 24271481), 1025),
        ((-2458236, -3782382, 27247377), 1025),
        ((1853371, -3475789, 27580362), 1025),
        ((3907493, 3158713, 26026283), 1025),
        ((2530791, 4847384, 27691000), 1025),
        ((-3241478, -2322529, 24157074), 1025),
        ((-2538711, -4785935, 27843836), 1025),
        ((-5558141, 1913240, 27003796), 1025),
        ((-2240955, -3147804, 23787310), 1025),
        ((-3795429, 1626526, 27720928), 1025),
        ((-2432215, 3299135, 25150139), 1025),
        ((2448412, 2336316, 28086336), 1025),
        ((3191121, -3641507, 28255785), 1025),
        ((1140170, 2618530, 28275785), 1025),
    ];
    for ((x, y, z), expected) in samples {
        assert_eq!(model.get_part_index(p(x, y, z)), expected, "at ({}, {}, {})", x, y, z);
    }
}

#[test]
fn results_use_three_bits_only() {
    let model = DecaminxCreator::new();
    let mut seen_nonzero = 0;
    for ix in -12..=12 {
        for iy in -12..=12 {
            for iz in -12..=12 {
                let point = p(ix * 2_400_000 + 17, iy * 2_400_000 - 5, iz * 2_400_000 + 3);
                let index = model.get_part_index(point);
                assert_eq!(index & !(1 | 8 | 1024), 0);
                assert!(index == 0 || index & (1 | 8) != 0);
                if index != 0 {
                    seen_nonzero += 1;
                }
                if point.len() < 14 * ONE as u64 {
                    assert_eq!(index, 0);
                }
            }
        }
    }
    assert!(seen_nonzero > 0);
}

#[test]
fn deep_interior_when_switched_on() {
    let model = DecaminxCreator::new().with_deep_interior(true);
    // the two centre regions and the rings around them
    assert_eq!(model.get_part_index(p(7 * ONE, 7 * ONE, ONE)), LOWER_CORE + 1);
    assert_eq!(model.get_part_index(p(-7 * ONE, -7 * ONE, ONE)), LOWER_CORE + 2);
    assert_eq!(model.get_part_index(p(7 * ONE, 9_400_000, ONE)), LOWER_CORE + 1);
    assert_eq!(model.get_part_index(p(7 * ONE, 9_600_000, ONE)), 0);
    assert_eq!(model.get_part_index(p(-7 * ONE, -9_600_000, ONE)), 0);
    // the two halves and the plane between them
    assert_eq!(model.get_part_index(p(3 * ONE, ONE, 5 * ONE)), UPPER_CORE);
    assert_eq!(model.get_part_index(p(3 * ONE, ONE, -5 * ONE)), LOWER_CORE);
    assert_eq!(model.get_part_index(p(3 * ONE, ONE, 50_000)), 0);
    assert_eq!(model.get_part_index(p(3 * ONE, ONE, 99_999)), 0);
    assert_eq!(model.get_part_index(p(3 * ONE, ONE, 100_000)), UPPER_CORE);
    assert_eq!(model.get_part_index(p(3 * ONE, ONE, -99_999)), 0);
    assert_eq!(model.get_part_index(p(3 * ONE, ONE, -100_000)), LOWER_CORE);
    // the axles
    assert_eq!(model.get_part_index(p(0, ONE, 5 * ONE)), 0);
    assert_eq!(model.get_part_index(p(0, 1_249_999, 5 * ONE)), 0);
    assert_eq!(model.get_part_index(p(0, 1_250_000, 5 * ONE)), UPPER_CORE);
    assert_eq!(model.get_part_index_impl(p(0, ONE, 5 * ONE), 0), UPPER_CORE);
    // the shell is the same in both models
    assert_eq!(model.get_part_index(p(2 * ONE, 0, 18 * ONE)), 1);
    assert_eq!(model.get_part_index(p(2 * ONE, 2 * ONE, 14 * ONE)), 0);
    // switched off again
    let model = model.with_deep_interior(false);
    assert_eq!(model.get_part_index(p(3 * ONE, ONE, 5 * ONE)), 0);
}

#[test]
fn corner_rule() {
    assert!(validate(0, 0));
    assert!(validate(MARGIN_ONE - 1, 0));
    assert!(!validate(MARGIN_ONE, 0));
    assert!(!validate(0, MARGIN_ONE));
    assert!(validate(MARGIN_ONE - 1, -MARGIN_ONE));
    assert!(validate(-5, -7));
    // 0.6 and 0.8 lie on the quarter circle, which is outside
    assert!(!validate(3_000_000_000_000_000, 4_000_000_000_000_000));
    assert!(validate(3_000_000_000_000_000, 3_999_999_999_999_999));
    assert!(!validate(i64::MAX, i64::MAX));
    assert!(validate(i64::MIN, i64::MIN));
}

fn near(margin: i64) -> NearAxis {
    NearAxis { margin, axis: p(0, 0, ONE) }
}

#[test]
fn corner_rule_on_lists_of_near_axes() {
    let on_circle = [near(3_000_000_000_000_000), near(4_000_000_000_000_000)];
    let inside = [near(3_000_000_000_000_000), near(3_999_999_999_999_999)];
    let none: [NearAxis; 0] = [];
    // two margins inside cones
    assert!(corner_test(&on_circle.to_vec(), &none.to_vec(), false));
    assert!(!corner_test(&inside.to_vec(), &none.to_vec(), false));
    // two margins outside cones
    assert!(corner_test(&none.to_vec(), &on_circle.to_vec(), true));
    assert!(!corner_test(&none.to_vec(), &inside.to_vec(), true));
    // one of each, which counts outside the middle band only
    let first = vec![on_circle[0]];
    let second = vec![on_circle[1]];
    assert!(corner_test(&first, &second, false));
    assert!(!corner_test(&first, &second, true));
    assert!(!corner_test(&first, &vec![inside[1]], false));
    // one margin, or three of a kind, are not tested
    assert!(!corner_test(&vec![near(MARGIN_ONE)], &none.to_vec(), false));
    let three = vec![near(MARGIN_ONE), near(MARGIN_ONE), near(MARGIN_ONE)];
    assert!(!corner_test(&three, &none.to_vec(), false));
    assert!(!corner_test(&none.to_vec(), &three, false));
    assert!(!corner_test(&none.to_vec(), &none.to_vec(), false));
}
