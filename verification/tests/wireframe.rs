use naqshsmit::draw_modes::draw_wireframe::{draw_line, wireframe_renderer};
use naqshsmit::image_canvas::Canvas;
use naqshsmit::linear_algebra::Point2;
use naqshsmit::wavefront_parser::WavefronObject;

fn drawn(canvas: &Canvas, color: u8) -> Vec<(usize, usize)> {
    let (w, h) = canvas.get_size();
    let mut found = Vec::new();
    for x in 0..w {
        for y in 0..h {
            if canvas.get_pixel_impl(x, y) == color {
                found.push((x, y));
            }
        }
    }
    found
}

#[test]
fn line_visits_six_columns_with_rising_rows() {
    let mut canvas = Canvas::new(8, 8, 0);
    draw_line(Point2::new(0, 0), Point2::new(5, 2), &mut canvas, 9);
    assert_eq!(drawn(&canvas, 9), vec![(0, 0), (1, 0), (2, 1), (3, 1), (4, 2), (5, 2)]);
}

#[test]
fn line_is_the_same_from_either_end() {
    let mut forward = Canvas::new(8, 8, 0);
    let mut backward = Canvas::new(8, 8, 0);
    draw_line(Point2::new(1, 6), Point2::new(7, 3), &mut forward, 9);
    draw_line(Point2::new(7, 3), Point2::new(1, 6), &mut backward, 9);
    assert_eq!(forward.get_map(), backward.get_map());
    assert_eq!(
        drawn(&forward, 9),
        vec![(1, 6), (2, 6), (3, 5), (4, 5), (5, 4), (6, 4), (7, 3)]
    );
}

#[test]
fn steep_line_is_walked_along_its_rows() {
    let mut canvas = Canvas::new(8, 8, 0);
    draw_line(Point2::new(2, 5), Point2::new(0, 0), &mut canvas, 9);
    assert_eq!(drawn(&canvas, 9), vec![(0, 0), (0, 1), (1, 2), (1, 3), (2, 4), (2, 5)]);
}

#[test]
fn line_of_one_point_and_straight_lines() {
    let mut canvas = Canvas::new(4, 4, 0);
    draw_line(Point2::new(2, 1), Point2::new(2, 1), &mut canvas, 9);
    assert_eq!(drawn(&canvas, 9), vec![(2, 1)]);
    draw_line(Point2::new(0, 3), Point2::new(3, 3), &mut canvas, 8);
    assert_eq!(drawn(&canvas, 8), vec![(0, 3), (1, 3), (2, 3), (3, 3)]);
    draw_line(Point2::new(0, 0), Point2::new(3, 3), &mut canvas, 7);
    assert_eq!(drawn(&canvas, 7), vec![(0, 0), (1, 1), (2, 2), (3, 3)]);
}

#[test]
fn line_leaves_out_what_falls_off_the_canvas() {
    let mut canvas = Canvas::new(3, 3, 0);
    draw_line(Point2::new(0, 1), Point2::new(6, 1), &mut canvas, 9);
    assert_eq!(drawn(&canvas, 9), vec![(0, 1), (1, 1), (2, 1)]);
}

#[test]
fn line_left_of_the_canvas_is_folded_onto_it() {
    let mut canvas = Canvas::new(4, 4, 0);
    draw_line(Point2::new(-2, 0), Point2::new(-1, 0), &mut canvas, 9);
    assert_eq!(drawn(&canvas, 9), vec![(1, 0), (2, 0)]);
}

#[test]
fn wireframe_draws_the_three_edges_of_a_face() {
    let mesh =
        WavefronObject::new(b"v -0.5 -0.5 0\nv 0.5 -0.5 0\nv 0.5 0.5 0\nf 1 2 3\n").unwrap();
    let mut canvas = Canvas::new(11, 11, 0);
    wireframe_renderer(&mesh, &mut canvas, 5);
    let mut expected = Canvas::new(11, 11, 0);
    draw_line(Point2::new(3, 3), Point2::new(8, 3), &mut expected, 5);
    draw_line(Point2::new(3, 3), Point2::new(8, 8), &mut expected, 5);
    draw_line(Point2::new(8, 3), Point2::new(8, 8), &mut expected, 5);
    assert_eq!(canvas.get_map(), expected.get_map());
    assert_eq!(drawn(&canvas, 5).len(), 15);
}

#[test]
fn wireframe_passes_over_edges_without_a_vertex() {
    let mesh = WavefronObject::new(b"v -0.5 -0.5 0\nv 0.5 -0.5 0\nf 1 2 7\nf 1 2\n").unwrap();
    let mut canvas = Canvas::new(11, 11, 0);
    wireframe_renderer(&mesh, &mut canvas, 5);
    assert_eq!(drawn(&canvas, 5), vec![(3, 3), (4, 3), (5, 3), (6, 3), (7, 3), (8, 3)]);
}
