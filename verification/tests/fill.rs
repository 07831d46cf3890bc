use naqshsmit::draw_modes::draw_threaded_with_zbuffer::{
    draw_triangle_threaded_with_zbuffer, fill_with_depth_test, new_depth_buffer,
    screen_triangle, shade_threaded_with_zbuffer, Shading,
};
use naqshsmit::draw_modes::draw_triangle::{draw_triangle_single, draw_triangle_threaded};
use naqshsmit::draw_modes::flat_shader_with_light::{
    flat_shader_with_light_renderer, lit_face, lit_triangle,
};
use naqshsmit::draw_modes::flat_shader_with_zbuffer::{
    flat_shader_renderer_threaded_with_zbuffer, rounded_triangle,
};
use naqshsmit::image_canvas::Canvas;
use naqshsmit::linear_algebra::{
    Point2, Point3, TriangleCoords, TriangleCoords3, Vec3Unsigned, EMPTY_DEPTH, UNIT,
};
use naqshsmit::wavefront_parser::WavefronObject;

fn flat_triangle() -> TriangleCoords {
    TriangleCoords::new(Point2::new(10, 10), Point2::new(50, 10), Point2::new(30, 50))
}

fn deep_triangle(z: i64) -> TriangleCoords3 {
    TriangleCoords3::new(Point3(10, 10, z), Point3(50, 10, z), Point3(30, 50, z))
}

fn count(canvas: &Canvas, color: u8) -> usize {
    canvas.get_map().iter().flatten().filter(|c| **c == color).count()
}

const FACE: &[u8] = b"v -0.5 -0.5 0\nv 0.5 -0.5 0\nv 0 0.5 0\nf 1 2 3\n";

#[test]
fn flat_fill_paints_the_inside_only() {
    let mut canvas = Canvas::new(60, 60, 0);
    draw_triangle_single(flat_triangle(), &mut canvas, 200);
    assert_eq!(canvas.get_pixel_impl(30, 20), 200);
    assert_eq!(canvas.get_pixel_impl(30, 49), 200);
    assert_eq!(canvas.get_pixel_impl(11, 11), 200);
    assert_eq!(canvas.get_pixel_impl(30, 10), 0);
    assert_eq!(canvas.get_pixel_impl(10, 10), 0);
    assert_eq!(canvas.get_pixel_impl(30, 50), 0);
    assert_eq!(canvas.get_pixel_impl(20, 30), 0);
    assert_eq!(canvas.get_pixel_impl(12, 45), 0);
    assert_eq!(canvas.get_pixel_impl(5, 5), 0);
    assert_eq!(count(&canvas, 200), 761);
}

#[test]
fn flat_fill_of_a_triangle_without_area_paints_nothing() {
    let mut canvas = Canvas::new(20, 20, 0);
    let flat = TriangleCoords::new(Point2::new(1, 1), Point2::new(5, 5), Point2::new(9, 9));
    draw_triangle_single(flat, &mut canvas, 200);
    assert_eq!(count(&canvas, 200), 0);
}

#[test]
fn flat_fill_beside_the_canvas_paints_nothing() {
    let mut canvas = Canvas::new(8, 8, 0);
    draw_triangle_threaded(flat_triangle(), &mut canvas, 200);
    assert_eq!(count(&canvas, 200), 0);
    let mut none = Canvas::new(0, 0, 0);
    draw_triangle_single(flat_triangle(), &mut none, 200);
    assert_eq!(none.get_size(), (0, 0));
}

#[test]
fn flat_fill_is_cut_at_the_canvas() {
    let mut canvas = Canvas::new(31, 21, 0);
    draw_triangle_threaded(flat_triangle(), &mut canvas, 200);
    assert_eq!(canvas.get_pixel_impl(30, 20), 200);
    assert_eq!(canvas.get_pixel_impl(11, 11), 200);
    let mut whole = Canvas::new(60, 60, 0);
    draw_triangle_single(flat_triangle(), &mut whole, 200);
    for y in 0..21 {
        for x in 0..31 {
            assert_eq!(canvas.get_pixel_impl(x, y), whole.get_pixel_impl(x, y));
        }
    }
}

#[test]
fn later_flat_fill_paints_over_an_earlier_one() {
    let mut canvas = Canvas::new(60, 60, 0);
    draw_triangle_single(flat_triangle(), &mut canvas, 200);
    draw_triangle_single(flat_triangle(), &mut canvas, 77);
    assert_eq!(canvas.get_pixel_impl(30, 20), 77);
    assert_eq!(count(&canvas, 200), 0);
}

#[test]
fn depth_buffer_starts_empty() {
    let zbuffer = new_depth_buffer(3, 2);
    assert_eq!(zbuffer, vec![EMPTY_DEPTH; 6]);
    assert!(new_depth_buffer(0, 9).is_empty());
}

#[test]
fn second_fill_at_a_lower_depth_is_rejected_everywhere() {
    let mut canvas = Canvas::new(60, 60, 0);
    let mut zbuffer = new_depth_buffer(60, 60);
    draw_triangle_threaded_with_zbuffer(deep_triangle(UNIT), &mut zbuffer, &mut canvas, 200);
    let first = canvas.get_map();
    let depths = zbuffer.clone();
    assert_eq!(canvas.get_pixel_impl(30, 20), 200);
    assert_eq!(zbuffer[30 + 20 * 60], UNIT);
    draw_triangle_threaded_with_zbuffer(deep_triangle(500_000), &mut zbuffer, &mut canvas, 77);
    assert_eq!(canvas.get_map(), first);
    assert_eq!(zbuffer, depths);
    assert_eq!(canvas.get_pixel_impl(30, 20), 200);
    assert_eq!(canvas.get_pixel_impl(25, 30), 200);
    assert_eq!(canvas.get_pixel_impl(30, 49), 200);
    assert_eq!(count(&canvas, 77), 0);
}

#[test]
fn fill_at_the_same_depth_changes_nothing() {
    let mut canvas = Canvas::new(60, 60, 0);
    let mut zbuffer = new_depth_buffer(60, 60);
    draw_triangle_threaded_with_zbuffer(deep_triangle(UNIT), &mut zbuffer, &mut canvas, 200);
    draw_triangle_threaded_with_zbuffer(deep_triangle(UNIT), &mut zbuffer, &mut canvas, 77);
    assert_eq!(count(&canvas, 77), 0);
    assert_eq!(canvas.get_pixel_impl(30, 20), 200);
}

#[test]
fn fill_at_a_greater_depth_takes_the_cell_and_the_color() {
    let mut canvas = Canvas::new(60, 60, 0);
    let mut zbuffer = new_depth_buffer(60, 60);
    draw_triangle_threaded_with_zbuffer(deep_triangle(500_000), &mut zbuffer, &mut canvas, 200);
    draw_triangle_threaded_with_zbuffer(deep_triangle(UNIT), &mut zbuffer, &mut canvas, 77);
    assert_eq!(canvas.get_pixel_impl(30, 20), 77);
    assert_eq!(zbuffer[30 + 20 * 60], UNIT);
    assert_eq!(count(&canvas, 200), 0);
}

#[test]
fn depth_tested_fill_reaches_as_far_as_the_bounding_box() {
    let mut canvas = Canvas::new(60, 60, 0);
    let mut zbuffer = new_depth_buffer(60, 60);
    fill_with_depth_test(deep_triangle(UNIT), &mut zbuffer, &mut canvas, Shading::Flat(200));
    assert_eq!(canvas.get_pixel_impl(12, 45), 200);
    assert_eq!(canvas.get_pixel_impl(10, 10), 200);
    assert_eq!(canvas.get_pixel_impl(50, 50), 200);
    assert_eq!(canvas.get_pixel_impl(9, 10), 0);
    assert_eq!(canvas.get_pixel_impl(51, 50), 0);
    assert_eq!(canvas.get_pixel_impl(5, 5), 0);
    assert_eq!(count(&canvas, 200), 41 * 41);
    assert_eq!(zbuffer[5 + 5 * 60], EMPTY_DEPTH);
}

#[test]
fn depth_tested_fill_follows_the_plane_of_the_triangle() {
    let mut canvas = Canvas::new(20, 20, 0);
    let mut zbuffer = new_depth_buffer(20, 20);
    let near = TriangleCoords3::new(Point3(0, 0, 100), Point3(10, 0, 200), Point3(0, 10, 400));
    draw_triangle_threaded_with_zbuffer(near, &mut zbuffer, &mut canvas, 1);
    assert_eq!(zbuffer[1 + 1 * 20], 140);
    assert_eq!(zbuffer[10 + 10 * 20], 500);
    let level = TriangleCoords3::new(Point3(0, 0, 300), Point3(10, 0, 300), Point3(0, 10, 300));
    draw_triangle_threaded_with_zbuffer(level, &mut zbuffer, &mut canvas, 2);
    assert_eq!(canvas.get_pixel_impl(1, 1), 2);
    assert_eq!(canvas.get_pixel_impl(5, 5), 1);
    assert_eq!(canvas.get_pixel_impl(10, 10), 1);
    assert_eq!(canvas.get_pixel_impl(4, 5), 2);
    assert_eq!(zbuffer[4 + 5 * 20], 300);
}

#[test]
fn face_on_the_screen() {
    let mesh = WavefronObject::new(FACE).unwrap();
    let face = Vec3Unsigned::new(1, 2, 3);
    assert_eq!(
        screen_triangle(&mesh, &face, 100, 100),
        Some(TriangleCoords3::new(Point3(25, 25, 0), Point3(75, 25, 0), Point3(50, 75, 0)))
    );
    assert_eq!(
        rounded_triangle(&mesh, &face, 11, 11),
        Some(TriangleCoords::new(Point2(3, 3), Point2(8, 3), Point2(6, 8)))
    );
    assert_eq!(screen_triangle(&mesh, &Vec3Unsigned::new(1, 2, 4), 100, 100), None);
    assert_eq!(rounded_triangle(&mesh, &Vec3Unsigned::new(0, 2, 3), 11, 11), None);
}

#[test]
fn shading_with_a_depth_test_stays_in_the_bounding_boxes() {
    let mesh = WavefronObject::new(FACE).unwrap();
    let mut canvas = Canvas::new(100, 100, 0);
    shade_threaded_with_zbuffer(&mesh, &mut canvas);
    let color = canvas.get_pixel_impl(50, 40);
    for y in 0..100 {
        for x in 0..100 {
            let inside = (25..=75).contains(&x) && (25..=75).contains(&y);
            let expected = if inside { color } else { 0 };
            assert_eq!(canvas.get_pixel_impl(x, y), expected);
        }
    }
}

#[test]
fn flat_shading_in_chance_colors_stays_in_the_triangles() {
    let mesh = WavefronObject::new(FACE).unwrap();
    let mut canvas = Canvas::new(100, 100, 0);
    flat_shader_renderer_threaded_with_zbuffer(&mesh, &mut canvas);
    let color = canvas.get_pixel_impl(50, 40);
    let mut expected = Canvas::new(100, 100, 0);
    let triangle = rounded_triangle(&mesh, &Vec3Unsigned::new(1, 2, 3), 100, 100).unwrap();
    draw_triangle_single(triangle, &mut expected, color);
    assert_eq!(canvas.get_map(), expected.get_map());
}

#[test]
fn lit_face_has_the_color_of_its_intensity() {
    let mesh = WavefronObject::new(FACE).unwrap();
    let face = Vec3Unsigned::new(1, 2, 3);
    let triangle = TriangleCoords::new(Point2(25, 25), Point2(75, 25), Point2(50, 75));
    assert_eq!(lit_face(&mesh, &face, Point3(0, 0, -UNIT), 100, 100), Some((triangle, UNIT)));
    assert_eq!(lit_triangle(&mesh, &face, Point3(0, 0, -UNIT), 100, 100), Some((triangle, 255)));
    assert_eq!(lit_triangle(&mesh, &face, Point3(0, 0, UNIT), 100, 100), None);
    assert_eq!(lit_triangle(&mesh, &face, Point3(UNIT, 0, 0), 100, 100), None);
    assert_eq!(lit_triangle(&mesh, &Vec3Unsigned::new(1, 2, 9), Point3(0, 0, -UNIT), 9, 9), None);
    let mut canvas = Canvas::new(100, 100, 3);
    flat_shader_with_light_renderer(&mesh, Point3(0, 0, -UNIT), &mut canvas);
    let mut expected = Canvas::new(100, 100, 3);
    draw_triangle_single(triangle, &mut expected, 255);
    assert_eq!(canvas.get_map(), expected.get_map());
    assert_eq!(canvas.get_pixel_impl(50, 40), 255);
    let mut slanted = Canvas::new(100, 100, 3);
    flat_shader_with_light_renderer(&mesh, Point3(0, 707_107, -707_107), &mut slanted);
    assert_eq!(slanted.get_pixel_impl(50, 40), 180);
    assert_eq!(slanted.get_pixel_impl(5, 5), 3);
}

#[test]
fn face_that_the_light_does_not_reach_adds_no_pixels() {
    let mesh = WavefronObject::new(FACE).unwrap();
    let before = Canvas::new(100, 100, 3).get_map();
    let mut away = Canvas::new(100, 100, 3);
    flat_shader_with_light_renderer(&mesh, Point3(0, 0, UNIT), &mut away);
    assert_eq!(away.get_map(), before);
    let mut across = Canvas::new(100, 100, 3);
    flat_shader_with_light_renderer(&mesh, Point3(UNIT, 0, 0), &mut across);
    assert_eq!(across.get_map(), before);
    let mut grazing = Canvas::new(100, 100, 3);
    flat_shader_with_light_renderer(&mesh, Point3(UNIT, UNIT, 0), &mut grazing);
    assert_eq!(grazing.get_map(), before);
}

#[test]
fn later_lit_face_paints_over_an_earlier_one() {
    let text = b"v -0.5 -0.5 0\nv 0.5 -0.5 0\nv 0 0.5 0\nv -0.5 -0.5 0.5\nv 0.5 -0.5 0.5\nv 0 0.5 0\nf 1 2 3\nf 4 5 6\n";
    let mesh = WavefronObject::new(text).unwrap();
    let mut canvas = Canvas::new(100, 100, 3);
    flat_shader_with_light_renderer(&mesh, Point3(0, 0, -UNIT), &mut canvas);
    assert_eq!(canvas.get_pixel_impl(50, 40), 228);
}
