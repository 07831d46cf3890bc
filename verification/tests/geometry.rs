use naqshsmit::arithmetic::{floor_div, integer_sqrt, wide_product};
use naqshsmit::linear_algebra::{
    barycentric_weights, bounding_box, calculate_intensity, calculate_normal,
    calculate_normal_and_intensity, convert_to_screen_coords, cramer_weights, fold_to_pixel,
    hold_coordinate, round_to_pixel, shade_color, Barycentric, Point2, Point3, TriangleCoords,
    TriangleCoords3, Vec3Unsigned, COORDINATE_LIMIT, EMPTY_DEPTH, UNIT,
};
use naqshsmit::context::window_point;
use naqshsmit::utils::swap;
use naqshsmit::wavefront_parser::Vertex;

fn triangle() -> TriangleCoords {
    TriangleCoords::new(Point2::new(10, 10), Point2::new(50, 10), Point2::new(30, 50))
}

#[test]
fn point2_accessors() {
    let mut p = Point2::new(3, -4);
    assert_eq!(p.get_pair_as_clones(), (3, -4));
    assert_eq!(p.unravel(), (&3, &-4));
    {
        let (x, y) = p.unravel_mut();
        *x = 8;
        *y = 9;
    }
    assert_eq!(p, Point2(8, 9));
    assert_eq!(p[0], 8);
    assert_eq!(p[1], 9);
    p[1] = 2;
    assert_eq!(p, Point2(8, 2));
    assert_eq!(p.expand(), Point3(8, 2, 1));
}

#[test]
fn point2_difference() {
    assert_eq!(Point2::new(5, 7) - Point2::new(1, 9), Point2(4, -2));
}

#[test]
fn point2_product_lists_the_box_column_by_column() {
    let pairs = Point2::new(1, 2) * Point2::new(2, 4);
    assert_eq!(pairs, vec![(1, 2), (1, 3), (1, 4), (2, 2), (2, 3), (2, 4)]);
    assert!((Point2::new(3, 0) * Point2::new(2, 5)).is_empty());
    assert!((Point2::new(0, 5) * Point2::new(2, 4)).is_empty());
    assert_eq!(Point2::new(7, 7) * Point2::new(7, 7), vec![(7, 7)]);
}

#[test]
fn screen_coords_are_magnitudes() {
    assert_eq!(convert_to_screen_coords(7), 7);
    assert_eq!(convert_to_screen_coords(-7), 7);
    assert_eq!(convert_to_screen_coords(0), 0);
    assert_eq!(convert_to_screen_coords(i32::MAX), 2147483647);
    assert_eq!(convert_to_screen_coords(i32::MIN), 2147483648);
}

#[test]
fn combinations_of_a_triple() {
    let triple = Vec3Unsigned::new(4, 5, 6);
    assert_eq!(triple.unravel(), (4, 5, 6));
    assert_eq!(triple.unravel_vec(), vec![4, 5, 6]);
    assert_eq!(triple.combinate(2), vec![vec![4, 5], vec![4, 6], vec![5, 6]]);
    assert_eq!(triple.combinate(1), vec![vec![4], vec![5], vec![6]]);
    assert_eq!(triple.combinate(3), vec![vec![4, 5, 6]]);
    assert_eq!(triple.combinate(0), vec![Vec::<usize>::new()]);
    assert!(triple.combinate(4).is_empty());
    assert!(triple.combinate(usize::MAX).is_empty());
}

#[test]
fn triangle_accessors() {
    let t = triangle();
    assert_eq!(t.unraval(), (10, 10, 50, 10, 30, 50));
    assert_eq!(t.unraval_vec(), vec![(10, 10), (50, 10), (30, 50)]);
    assert_eq!(t.unravel_multidim_vec(), vec![vec![10, 10], vec![50, 10], vec![30, 50]]);
    assert_eq!(t.unravel_point3(), (&Point2(10, 10), &Point2(50, 10), &Point2(30, 50)));
    assert_eq!(t[0], Point2(10, 10));
    assert_eq!(t[1], Point2(50, 10));
    assert_eq!(t[2], Point2(30, 50));
    let from_vec =
        TriangleCoords::from_vec(vec![Point2(10, 10), Point2(50, 10), Point2(30, 50)]);
    assert_eq!(from_vec, t);
}

#[test]
fn weights_of_a_pixel_inside_are_positive_and_sum_to_one() {
    let w = triangle().get_barycentric_coords(Point2::new(30, 20));
    assert_eq!(w, Barycentric { alpha: 600, beta: 600, gamma: 400, scale: 1600 });
    assert!(w.is_positive());
    assert_eq!(w.alpha + w.beta + w.gamma, w.scale);
    assert_eq!(w.alpha * 10 + w.beta * 50 + w.gamma * 30, w.scale * 30);
    assert_eq!(w.alpha * 10 + w.beta * 10 + w.gamma * 50, w.scale * 20);
}

#[test]
fn weights_of_a_pixel_outside_have_a_negative_one() {
    let w = triangle().get_barycentric_coords(Point2::new(0, 0));
    assert_eq!(w, Barycentric { alpha: 2200, beta: -200, gamma: -400, scale: 1600 });
    assert!(!w.is_positive());
}

#[test]
fn weights_on_an_edge_are_not_all_positive() {
    let w = triangle().get_barycentric_coords(Point2::new(30, 10));
    assert_eq!(w.gamma, 0);
    assert!(!w.is_positive());
}

#[test]
fn weights_in_a_triangle_without_area() {
    let flat = TriangleCoords::new(Point2::new(0, 0), Point2::new(1, 1), Point2::new(2, 2));
    let w = flat.get_barycentric_coords(Point2::new(1, 1));
    assert_eq!(w, Barycentric { alpha: -1, beta: 1, gamma: 1, scale: 1 });
    assert!(!w.is_positive());
}

#[test]
fn weights_with_the_largest_coordinates() {
    let t = TriangleCoords::new(
        Point2::new(i32::MIN, i32::MIN),
        Point2::new(i32::MAX, i32::MIN),
        Point2::new(i32::MIN, i32::MAX),
    );
    let w = t.get_barycentric_coords(Point2::new(0, 0));
    assert_eq!(w.alpha + w.beta + w.gamma, w.scale);
    assert!(w.scale > 0);
}

#[test]
fn both_ways_to_the_weights_agree() {
    let expected = barycentric_weights(10, 10, 50, 10, 30, 50, 30, 20);
    assert_eq!(cramer_weights(10, 10, 50, 10, 30, 50, 30, 20), expected);
    assert_eq!(
        cramer_weights(0, 0, 1, 1, 2, 2, 5, 5),
        Barycentric { alpha: -1, beta: 1, gamma: 1, scale: 1 }
    );
    assert_eq!(
        cramer_weights(10, 10, 50, 10, 30, 50, 0, 0),
        barycentric_weights(10, 10, 50, 10, 30, 50, 0, 0)
    );
    let t = TriangleCoords3::new(Point3(10, 10, 5), Point3(50, 10, 6), Point3(30, 50, 7));
    assert_eq!(
        t.decompose_barycentric(Point3(31, 22, 0)),
        t.get_barycentric_coords(Point3(31, 22, 0))
    );
}

#[test]
fn bounding_box_stays_within_the_buffer() {
    assert_eq!(triangle().get_bounding_box(60, 60), Some((Point2(10, 10), Point2(50, 50))));
    assert_eq!(triangle().get_bounding_box(40, 30), Some((Point2(10, 10), Point2(39, 29))));
    let wide = TriangleCoords::new(
        Point2::new(i32::MIN, -5),
        Point2::new(i32::MAX, 3),
        Point2::new(0, i32::MAX),
    );
    assert_eq!(wide.get_bounding_box(8, 6), Some((Point2(0, 0), Point2(7, 5))));
}

#[test]
fn bounding_box_outside_the_buffer_is_empty() {
    assert_eq!(triangle().get_bounding_box(10, 60), None);
    assert_eq!(triangle().get_bounding_box(60, 10), None);
    assert_eq!(triangle().get_bounding_box(0, 0), None);
    let left = TriangleCoords::new(Point2::new(-9, 1), Point2::new(-2, 2), Point2::new(-5, 8));
    assert_eq!(left.get_bounding_box(60, 60), None);
    assert_eq!(bounding_box((70, 1), (80, 2), (90, 3), 60, 60), None);
}

#[test]
fn origin_projects_to_the_center() {
    let origin = Point3(0, 0, 123);
    assert_eq!(origin.from_world_to_screen(800, 600), Point3(400, 300, 123));
    assert_eq!(origin.from_world_to_screen(801, 601), Point3(400, 300, 123));
    assert_eq!(origin.from_world_to_screen(0, 1), Point3(0, 0, 123));
    assert_eq!(
        origin.from_world_to_screen(usize::MAX, usize::MAX - 1),
        Point3((usize::MAX / 2) as i64, ((usize::MAX - 1) / 2) as i64, 123)
    );
    assert_eq!(hold_coordinate((usize::MAX / 2) as i64), COORDINATE_LIMIT - 1);
    assert_eq!(hold_coordinate(i64::MIN), 1 - COORDINATE_LIMIT);
    assert_eq!(hold_coordinate(-7), -7);
}

#[test]
fn projection_maps_the_unit_square_to_the_screen() {
    assert_eq!(Point3(-UNIT, -UNIT, 0).from_world_to_screen(800, 600), Point3(0, 0, 0));
    assert_eq!(Point3(UNIT, UNIT, -7).from_world_to_screen(800, 600), Point3(800, 600, -7));
    assert_eq!(Point3(500_000, -250_000, 1).from_world_to_screen(100, 100), Point3(75, 37, 1));
    assert_eq!(Point3(-1_000_001, 0, 0).from_world_to_screen(100, 100), Point3(-1, 50, 0));
    let far = Point3(COORDINATE_LIMIT - 1, 0, 0).from_world_to_screen(usize::MAX, 2);
    assert_eq!(far, Point3(i64::MAX, 1, 0));
    let near = Point3(1 - COORDINATE_LIMIT, 0, 0).from_world_to_screen(usize::MAX, 2);
    assert_eq!(near, Point3(i64::MIN, 1, 0));
}

#[test]
fn rounded_and_folded_pixels() {
    assert_eq!(round_to_pixel(-500_000, 11), 3);
    assert_eq!(round_to_pixel(500_000, 11), 8);
    assert_eq!(round_to_pixel(0, 5), 3);
    assert_eq!(round_to_pixel(-3_000_000, 10), -10);
    assert_eq!(round_to_pixel(-1_100_000, 10), -1);
    assert_eq!(round_to_pixel(-1_099_999, 10), 0);
    assert_eq!(round_to_pixel(-1_300_000, 10), -2);
    assert_eq!(round_to_pixel(-900_000, 10), 1);
    assert_eq!(round_to_pixel(-1_000_000, 10), 0);
    assert_eq!(round_to_pixel(COORDINATE_LIMIT - 1, usize::MAX), i32::MAX);
    assert_eq!(round_to_pixel(1 - COORDINATE_LIMIT, usize::MAX), i32::MIN);
    assert_eq!(fold_to_pixel(-500_000, 100), 25);
    assert_eq!(fold_to_pixel(-3_000_000, 10), 10);
    assert_eq!(fold_to_pixel(0, 5), 2);
    assert_eq!(fold_to_pixel(COORDINATE_LIMIT - 1, usize::MAX), i32::MAX);
}

#[test]
fn point3_accessors_and_products() {
    let mut p = Point3(1, 2, 3);
    assert_eq!(p.unravel(), (&1, &2, &3));
    {
        let (x, _, z) = p.unravel_mut();
        *x = 4;
        *z = 6;
    }
    assert_eq!(p, Point3(4, 2, 6));
    assert_eq!((p[0], p[1], p[2]), (4, 2, 6));
    p[1] = 5;
    assert_eq!(p, Point3(4, 5, 6));
    assert_eq!(Point3(1, 0, 0) ^ Point3(0, 1, 0), Point3(0, 0, 1));
    assert_eq!(Point3(1, 2, 3) ^ Point3(4, 5, 6), Point3(-3, 6, -3));
    assert_eq!(Point3(1, 2, 3) * Point3(4, 5, 6), 32);
    assert_eq!(Point3(1, 2, 3) & Point3(4, -5, 6), 12);
}

#[test]
fn length_and_unit_vector() {
    assert_eq!(Point3(3, 4, 0).get_length(), 5);
    assert_eq!(Point3(1, 1, 1).get_length(), 1);
    assert_eq!(Point3(0, 0, 0).get_length(), 0);
    assert_eq!(Point3(i64::MIN, i64::MIN, i64::MIN).get_length(), 15975348984942515101);
    assert_eq!(Point3(3, 4, 0).normalize(), Some(Point3(600_000, 800_000, 0)));
    assert_eq!(Point3(-3, 0, -4).normalize(), Some(Point3(-600_000, 0, -800_000)));
    assert_eq!(Point3(1, 1, 1).normalize(), Some(Point3(UNIT, UNIT, UNIT)));
    assert_eq!(Point3(0, 0, 0).normalize(), None);
}

#[test]
fn integer_square_roots() {
    assert_eq!(integer_sqrt(0), 0);
    assert_eq!(integer_sqrt(1), 1);
    assert_eq!(integer_sqrt(24), 4);
    assert_eq!(integer_sqrt(25), 5);
    assert_eq!(integer_sqrt(u128::MAX), u64::MAX);
}

#[test]
fn quotients_round_down() {
    assert_eq!(floor_div(7, 2), 3);
    assert_eq!(floor_div(-7, 2), -4);
    assert_eq!(floor_div(-8, 2), -4);
    assert_eq!(floor_div(0, 5), 0);
    assert_eq!(floor_div(i128::MIN, 1), i128::MIN);
    assert_eq!(floor_div(i128::MIN, 3), -56713727820156410577229101238628035243);
    assert_eq!(wide_product(i64::MIN, i64::MIN), 1i128 << 126);
}

#[test]
fn normal_and_intensity_of_a_face() {
    let a = Vertex::new((-500_000, -500_000, 0), None);
    let b = Vertex::new((500_000, -500_000, 0), None);
    let c = Vertex::new((0, 500_000, 0), Some(UNIT));
    let normal = calculate_normal(vec![a, b, c]);
    assert_eq!(normal, Point3(0, 0, -1_000_000_000_000));
    assert_eq!(b - a, Point3(1_000_000, 0, 0));
    assert_eq!(calculate_intensity(normal, Point3(0, 0, -UNIT)), UNIT);
    assert_eq!(calculate_intensity(normal, Point3(0, 0, UNIT)), -UNIT);
    assert_eq!(calculate_intensity(normal, Point3(UNIT, 0, 0)), 0);
    assert_eq!(calculate_intensity(Point3(0, 0, 0), Point3(0, 0, UNIT)), 0);
    assert_eq!(calculate_intensity(normal, Point3(0, 707_107, -707_107)), 707_107);
    assert_eq!(calculate_normal_and_intensity(vec![a, b, c], Point3(0, 0, -500_000)), 500_000);
}

#[test]
fn shade_of_an_intensity() {
    assert_eq!(shade_color(UNIT), 255);
    assert_eq!(shade_color(500_000), 128);
    assert_eq!(shade_color(707_107), 180);
    assert_eq!(shade_color(1), 0);
    assert_eq!(shade_color(1_960), 0);
    assert_eq!(shade_color(1_961), 1);
    assert_eq!(shade_color(2 * UNIT), 254);
}

#[test]
fn depth_of_a_plane() {
    let t = TriangleCoords3::new(Point3(0, 0, 100), Point3(10, 0, 200), Point3(0, 10, 400));
    assert_eq!(t.get_depth(t.get_barycentric_coords(Point3(0, 0, 0))), 100);
    assert_eq!(t.get_depth(t.get_barycentric_coords(Point3(10, 0, 0))), 200);
    assert_eq!(t.get_depth(t.get_barycentric_coords(Point3(0, 10, 0))), 400);
    assert_eq!(t.get_depth(t.get_barycentric_coords(Point3(5, 5, 0))), 300);
    assert_eq!(t.get_depth(t.get_barycentric_coords(Point3(1, 1, 0))), 140);
    assert_eq!(t.get_depth(t.get_barycentric_coords(Point3(10, 10, 0))), 500);
    assert_eq!(t.get_depth(t.get_barycentric_coords(Point3(-1, 0, 0))), 90);
    let flat = TriangleCoords3::new(Point3(0, 0, 5), Point3(1, 1, 7), Point3(2, 2, 11));
    assert_eq!(flat.get_depth(flat.get_barycentric_coords(Point3(1, 1, 0))), 13);
    assert!(t.get_depth(t.get_barycentric_coords(Point3(3, 3, 0))) > EMPTY_DEPTH);
}

#[test]
fn triangle3_accessors() {
    let t = TriangleCoords3::from_vec(vec![Point3(1, 2, 3), Point3(4, 5, 6), Point3(7, 8, 9)]);
    assert_eq!(t, TriangleCoords3::new(Point3(1, 2, 3), Point3(4, 5, 6), Point3(7, 8, 9)));
    assert_eq!(t.unravel_point3(), (&Point3(1, 2, 3), &Point3(4, 5, 6), &Point3(7, 8, 9)));
    assert_eq!(t.unraval_vec(), vec![(1, 2, 3), (4, 5, 6), (7, 8, 9)]);
    assert_eq!(t.unravel_multidim_vec(), vec![vec![1, 2], vec![4, 5], vec![7, 8]]);
    assert_eq!(t.unravel_triplet_vec(), (vec![1, 2], vec![4, 5], vec![7, 8]));
    assert_eq!(t[2], Point3(7, 8, 9));
    assert_eq!(t.get_bounding_box(5, 5), Some((Point2(1, 2), Point2(4, 4))));
}

#[test]
fn swap_exchanges_place_by_place() {
    let (mut a, mut b, mut c, mut d, mut e) = (1, 2, 3, 4, 5);
    {
        let mut these = [&mut a, &mut b];
        let mut with_these = [&mut c, &mut d, &mut e];
        swap(&mut these, &mut with_these);
    }
    assert_eq!((a, b, c, d, e), (3, 4, 1, 2, 5));
}

#[test]
fn window_shows_the_frame_turned_by_half_a_turn() {
    assert_eq!(window_point(800, 600, 0, 0), (800, 600));
    assert_eq!(window_point(800, 600, 599, 799), (1, 1));
    assert_eq!(window_point(800, 600, 10, 20), (780, 590));
}

#[test]
fn bounded_points_and_triangles() {
    assert!(Point3(COORDINATE_LIMIT - 1, 1 - COORDINATE_LIMIT, 0).is_bounded());
    assert!(!Point3(COORDINATE_LIMIT, 0, 0).is_bounded());
    assert!(!Point3(0, -COORDINATE_LIMIT, 0).is_bounded());
    assert!(!Point3(0, 0, i64::MIN).is_bounded());
    let t = TriangleCoords3::new(Point3(0, 0, 0), Point3(1, 2, 3), Point3(0, 0, COORDINATE_LIMIT));
    assert!(!t.is_bounded());
    assert!(TriangleCoords3::new(Point3(0, 0, 0), Point3(1, 2, 3), Point3(4, 5, 6)).is_bounded());
}
