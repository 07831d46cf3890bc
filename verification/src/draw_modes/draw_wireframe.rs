//! Lines between pixel positions, and the wireframe of a mesh.

use crate::arithmetic::magnitude;
use crate::image_canvas::Canvas;
use crate::linear_algebra::{
    choices, index_views, nearest_pixel, round_to_pixel, Point2, Vec3Unsigned,
};
use crate::wavefront_parser::{lookup, Vertex, WavefronObject};
use vstd::prelude::*;

verus! {

/// How a line is walked: whether columns and rows change places, and the two
/// ends `(x1, y1)` and `(x2, y2)` in the walking frame, with `x1 <= x2`.
pub struct LineFrame {
    pub steep: bool,
    pub x1: int,
    pub y1: int,
    pub x2: int,
    pub y2: int,
}

/// The frame in which the line between `from` and `to` is walked. A line that
/// is steeper than 45 degrees is walked along its rows; every line is walked
/// from its lower end of the walking axis to its higher one.
pub open spec fn line_frame(from: Point2, to: Point2) -> LineFrame {
    let steep = magnitude(from.0 - to.0) < magnitude(from.1 - to.1);
    let (ax, ay, bx, by) = if steep {
        (from.1 as int, from.0 as int, to.1 as int, to.0 as int)
    } else {
        (from.0 as int, from.1 as int, to.0 as int, to.1 as int)
    };
    if ax > bx {
        LineFrame { steep, x1: bx, y1: by, x2: ax, y2: ay }
    } else {
        LineFrame { steep, x1: ax, y1: ay, x2: bx, y2: by }
    }
}

/// How far the line has moved along its minor axis after `t` steps along its
/// major axis of length `dx`, where the minor axis has length `dy`: the
/// integer nearest to `t * dy / dx`, the lower one of two equally near.
pub open spec fn line_offset(t: int, dx: int, dy: int) -> int {
    if dx == 0 {
        0
    } else {
        (2 * dy * t + dx - 1) / (2 * dx)
    }
}

/// The number of positions on the line between `from` and `to`.
pub open spec fn line_length(from: Point2, to: Point2) -> int {
    let frame = line_frame(from, to);
    frame.x2 - frame.x1 + 1
}

/// The position number `t` on the line between `from` and `to`.
pub open spec fn line_point(from: Point2, to: Point2, t: int) -> (int, int) {
    let frame = line_frame(from, to);
    let dx = frame.x2 - frame.x1;
    let dy = magnitude(frame.y2 - frame.y1);
    let x = frame.x1 + t;
    let y = if frame.y2 > frame.y1 {
        frame.y1 + line_offset(t, dx, dy)
    } else {
        frame.y1 - line_offset(t, dx, dy)
    };
    if frame.steep {
        (y, x)
    } else {
        (x, y)
    }
}

/// Whether the pixel at column `x` of row `y` is written when one of the first
/// `n` positions of the line between `from` and `to` is drawn. A position is
/// written at the magnitudes of its coordinates.
pub open spec fn on_line(from: Point2, to: Point2, n: int, x: int, y: int) -> bool {
    exists|t: int|
        0 <= t < n && magnitude((#[trigger] line_point(from, to, t)).0) == x && magnitude(
            line_point(from, to, t).1,
        ) == y
}

/// Along its major axis the line never leaves the span between its ends along
/// the minor axis.
pub proof fn lemma_line_offset_bounds(t: int, dx: int, dy: int)
    requires
        0 <= t <= dx,
        0 <= dy <= dx,
    ensures
        0 <= line_offset(t, dx, dy) <= dy,
{
    if dx > 0 {
        let n = line_offset(t, dx, dy);
        let x = 2 * dy * t + dx - 1;
        assert(0 <= dy * t <= dy * dx) by (nonlinear_arith)
            requires
                0 <= t <= dx,
                0 <= dy,
        ;
        assert(2 * dy * t == 2 * (dy * t)) by (nonlinear_arith);
        vstd::arithmetic::div_mod::lemma_fundamental_div_mod(x, 2 * dx);
        vstd::arithmetic::div_mod::lemma_mod_bound(x, 2 * dx);
        vstd::arithmetic::div_mod::lemma_div_pos_is_pos(x, 2 * dx);
        assert(n <= dy) by (nonlinear_arith)
            requires
                x == (2 * dx) * n + x % (2 * dx),
                0 <= x % (2 * dx),
                x <= 2 * (dy * dx) + dx - 1,
                dx > 0,
        ;
    }
}

/// Along its major axis the line never moves back along its minor axis, and
/// from one step to the next it moves by one place at most.
pub proof fn lemma_line_offset_steps(t: int, dx: int, dy: int)
    requires
        0 <= t < dx,
        0 <= dy <= dx,
    ensures
        line_offset(t, dx, dy) <= line_offset(t + 1, dx, dy) <= line_offset(t, dx, dy) + 1,
{
    let here = 2 * dy * t + dx - 1;
    let next = 2 * dy * (t + 1) + dx - 1;
    assert(next == here + 2 * dy) by (nonlinear_arith)
        requires
            here == 2 * dy * t + dx - 1,
            next == 2 * dy * (t + 1) + dx - 1,
    ;
    vstd::arithmetic::div_mod::lemma_div_is_ordered(here, next, 2 * dx);
    vstd::arithmetic::div_mod::lemma_div_is_ordered(next, here + 2 * dx, 2 * dx);
    vstd::arithmetic::div_mod::lemma_fundamental_div_mod(here, 2 * dx);
    vstd::arithmetic::div_mod::lemma_mod_bound(here, 2 * dx);
    let q = here / (2 * dx);
    assert(here + 2 * dx == (q + 1) * (2 * dx) + here % (2 * dx)) by (nonlinear_arith)
        requires
            here == (2 * dx) * q + here % (2 * dx),
    ;
    vstd::arithmetic::div_mod::lemma_fundamental_div_mod_converse(
        here + 2 * dx,
        2 * dx,
        q + 1,
        here % (2 * dx),
    );
}

/// Draws the line between `from` and `to` with `color`: every position of the
/// line that falls on the canvas is written, and nothing else changes.
pub fn draw_line(from: Point2, to: Point2, image_canvas: &mut Canvas, color: u8)
    ensures
        final(image_canvas).width() == old(image_canvas).width(),
        final(image_canvas).height() == old(image_canvas).height(),
        forall|x: int, y: int|
            old(image_canvas).in_bounds(x, y) ==> #[trigger] final(image_canvas).pixel(x, y) == (
            if on_line(from, to, line_length(from, to), x, y) {
                color
            } else {
                old(image_canvas).pixel(x, y)
            }),
{
    let mut steep = false;
    let (fx, fy) = from.get_pair_as_clones();
    let (tx, ty) = to.get_pair_as_clones();
    let mut x1: i64 = fx as i64;
    let mut y1: i64 = fy as i64;
    let mut x2: i64 = tx as i64;
    let mut y2: i64 = ty as i64;
    let wide = if x1 >= x2 {
        x1 - x2
    } else {
        x2 - x1
    };
    let tall = if y1 >= y2 {
        y1 - y2
    } else {
        y2 - y1
    };
    if wide < tall {
        std::mem::swap(&mut x1, &mut y1);
        std::mem::swap(&mut x2, &mut y2);
        steep = true;
    }
    if x1 > x2 {
        std::mem::swap(&mut x1, &mut x2);
        std::mem::swap(&mut y1, &mut y2);
    }
    let dx: i64 = x2 - x1;
    let dy: i64 = if y2 >= y1 {
        y2 - y1
    } else {
        y1 - y2
    };
    let derr: i64 = dy * 2;
    let mut err: i64 = 0;
    let mut y: i64 = y1;
    let mut x: i64 = x1;
    let ghost frame = line_frame(from, to);
    let ghost mut moved: int = 0;
    assert(frame.steep == steep && frame.x1 == x1 && frame.y1 == y1 && frame.x2 == x2 && frame.y2
        == y2);
    assert(0 <= dy <= dx);
    proof {
        if dx > 0 {
            vstd::arithmetic::div_mod::lemma_fundamental_div_mod_converse(
                2 * dy * 0 + dx - 1,
                2 * dx,
                0,
                dx - 1,
            );
        }
    }
    while x <= x2
        invariant
            frame == line_frame(from, to),
            frame.steep == steep && frame.x1 == x1 && frame.y1 == y1 && frame.x2 == x2 && frame.y2
                == y2,
            i32::MIN <= x1 <= x2 <= i32::MAX,
            i32::MIN <= y1 <= i32::MAX,
            i32::MIN <= y2 <= i32::MAX,
            dx == x2 - x1,
            dy == magnitude(y2 - y1),
            0 <= dy <= dx,
            derr == 2 * dy,
            x1 <= x <= x2 + 1,
            x <= x2 ==> moved == line_offset(x - x1, dx as int, dy as int) && moved <= dy,
            0 <= moved <= dy + 1,
            y == if y2 > y1 {
                y1 + moved
            } else {
                y1 - moved
            },
            err == 2 * dy * (x - x1) - 2 * dx * moved,
            -dx < err <= dx || (dx == 0 && err == 0),
            image_canvas.width() == old(image_canvas).width(),
            image_canvas.height() == old(image_canvas).height(),
            forall|px: int, py: int|
                old(image_canvas).in_bounds(px, py) ==> #[trigger] image_canvas.pixel(px, py) == (
                if on_line(from, to, x - x1, px, py) {
                    color
                } else {
                    old(image_canvas).pixel(px, py)
                }),
        decreases x2 + 1 - x,
    {
        let ghost t = x - x1;
        let ghost before = *image_canvas;
        assert(line_point(from, to, t) == if steep {
            (y as int, x as int)
        } else {
            (x as int, y as int)
        });
        if steep {
            let _ = image_canvas.set_pixel(y as i32, x as i32, color);
        } else {
            let _ = image_canvas.set_pixel(x as i32, y as i32, color);
        }
        proof {
            assert forall|px: int, py: int|
                old(image_canvas).in_bounds(px, py) implies #[trigger] image_canvas.pixel(px, py)
                == (if on_line(from, to, t + 1, px, py) {
                color
            } else {
                old(image_canvas).pixel(px, py)
            }) by {
                let here = magnitude(line_point(from, to, t).0) == px && magnitude(
                    line_point(from, to, t).1,
                ) == py;
                if on_line(from, to, t, px, py) {
                    let s = choose|s: int|
                        0 <= s < t && magnitude((#[trigger] line_point(from, to, s)).0) == px
                            && magnitude(line_point(from, to, s).1) == py;
                    assert(0 <= s < t + 1);
                }
                if here {
                    assert(0 <= t < t + 1);
                }
                if on_line(from, to, t + 1, px, py) {
                    let s = choose|s: int|
                        0 <= s < t + 1 && magnitude((#[trigger] line_point(from, to, s)).0) == px
                            && magnitude(line_point(from, to, s).1) == py;
                    if s < t {
                        assert(on_line(from, to, t, px, py));
                    }
                }
                assert(on_line(from, to, t + 1, px, py) == (on_line(from, to, t, px, py) || here));
            }
        }
        assert(2 * dy * (t + 1) == 2 * dy * t + 2 * dy) by (nonlinear_arith);
        err += derr;
        if err > dx {
            assert(2 * dx * (moved + 1) == 2 * dx * moved + 2 * dx) by (nonlinear_arith);
            y += if y2 > y1 {
                1
            } else {
                -1
            };
            err -= dx * 2;
            proof {
                moved = moved + 1;
            }
        }
        x += 1;
        proof {
            if x <= x2 {
                let v = 2 * dy * (t + 1) + dx - 1;
                assert(v == moved * (2 * dx) + (err + dx - 1)) by (nonlinear_arith)
                    requires
                        v == 2 * dy * (t + 1) + dx - 1,
                        err == 2 * dy * (t + 1) - 2 * dx * moved,
                ;
                vstd::arithmetic::div_mod::lemma_fundamental_div_mod_converse(
                    v,
                    2 * dx,
                    moved,
                    err + dx - 1,
                );
                lemma_line_offset_bounds(t + 1, dx as int, dy as int);
            }
        }
    }
}

/// The pixel at which a vertex is drawn on a screen of `width` by `height`
/// pixels.
pub open spec fn pixel_of(vertex: Vertex, width: int, height: int) -> Point2 {
    Point2(nearest_pixel(vertex.xyz.0 as int, width), nearest_pixel(vertex.xyz.1 as int, height))
}

/// Whether the edge between the vertices with the indices `first` and
/// `second` writes the pixel at column `x` of row `y`. An index that names no
/// vertex gives no edge.
pub open spec fn edge_covers(
    vertices: Seq<Vertex>,
    first: usize,
    second: usize,
    width: int,
    height: int,
    x: int,
    y: int,
) -> bool {
    match (lookup(vertices, first as int), lookup(vertices, second as int)) {
        (Some(a), Some(b)) => on_line(
            pixel_of(a, width, height),
            pixel_of(b, width, height),
            line_length(pixel_of(a, width, height), pixel_of(b, width, height)),
            x,
            y,
        ),
        _ => false,
    }
}

/// Whether one of the first `n` of the `pairs` of indices gives an edge that
/// writes the pixel at column `x` of row `y`.
pub open spec fn pairs_cover(
    vertices: Seq<Vertex>,
    pairs: Seq<Seq<usize>>,
    n: int,
    width: int,
    height: int,
    x: int,
    y: int,
) -> bool {
    exists|k: int|
        0 <= k < n && #[trigger] edge_covers(vertices, pairs[k][0], pairs[k][1], width, height, x, y)
}

/// Whether one of the three edges of a face writes the pixel at column `x` of
/// row `y`.
pub open spec fn face_covers(
    vertices: Seq<Vertex>,
    face: Vec3Unsigned,
    width: int,
    height: int,
    x: int,
    y: int,
) -> bool {
    pairs_cover(vertices, choices(face.0, face.1, face.2, 2), 3, width, height, x, y)
}

/// Whether an edge of one of the first `n` of the `faces` writes the pixel at
/// column `x` of row `y`.
pub open spec fn faces_cover(
    vertices: Seq<Vertex>,
    faces: Seq<Vec3Unsigned>,
    n: int,
    width: int,
    height: int,
    x: int,
    y: int,
) -> bool {
    exists|i: int| 0 <= i < n && #[trigger] face_covers(vertices, faces[i], width, height, x, y)
}

/// Draws with `color` the three edges of every face of `model` that names all
/// three of its vertices: a pixel of the canvas is written if an edge passes
/// over it, and stays as it was if none does.
pub fn wireframe_renderer(model: &WavefronObject, image_canvas: &mut Canvas, color: u8)
    ensures
        final(image_canvas).width() == old(image_canvas).width(),
        final(image_canvas).height() == old(image_canvas).height(),
        forall|x: int, y: int|
            old(image_canvas).in_bounds(x, y) ==> #[trigger] final(image_canvas).pixel(x, y) == (
            if faces_cover(
                model.vertices(),
                model.vertex_faces(),
                model.vertex_faces().len() as int,
                old(image_canvas).width() as int,
                old(image_canvas).height() as int,
                x,
                y,
            ) {
                color
            } else {
                old(image_canvas).pixel(x, y)
            }),
{
    let (w, h) = image_canvas.get_size();
    let face_vertices = model.get_vert_triplets_from_face_elements();
    let ghost vertices = model.vertices();
    let mut i: usize = 0;
    while i < face_vertices.len()
        invariant
            i <= face_vertices@.len(),
            vertices == model.vertices(),
            w == old(image_canvas).width(),
            h == old(image_canvas).height(),
            image_canvas.width() == old(image_canvas).width(),
            image_canvas.height() == old(image_canvas).height(),
            forall|x: int, y: int|
                old(image_canvas).in_bounds(x, y) ==> #[trigger] image_canvas.pixel(x, y) == (
                if faces_cover(vertices, face_vertices@, i as int, w as int, h as int, x, y) {
                    color
                } else {
                    old(image_canvas).pixel(x, y)
                }),
        decreases face_vertices.len() - i,
    {
        let veretex_indices = face_vertices[i];
        let combination = veretex_indices.combinate(2);
        let ghost pairs = index_views(combination);
        let ghost face_start = *image_canvas;
        assert(combination@.len() == 3) by {
            assert(pairs.len() == 3);
        }
        let mut k: usize = 0;
        while k < combination.len()
            invariant
                k <= combination@.len(),
                combination@.len() == 3,
                pairs == index_views(combination),
                pairs == choices(veretex_indices.0, veretex_indices.1, veretex_indices.2, 2),
                vertices == model.vertices(),
                w == old(image_canvas).width(),
                h == old(image_canvas).height(),
                image_canvas.width() == old(image_canvas).width(),
                image_canvas.height() == old(image_canvas).height(),
                face_start.width() == old(image_canvas).width(),
                face_start.height() == old(image_canvas).height(),
                forall|x: int, y: int|
                    old(image_canvas).in_bounds(x, y) ==> #[trigger] image_canvas.pixel(x, y) == (
                    if pairs_cover(vertices, pairs, k as int, w as int, h as int, x, y) {
                        color
                    } else {
                        face_start.pixel(x, y)
                    }),
            decreases combination.len() - k,
        {
            let pair = &combination[k];
            assert(pair@ == pairs[k as int]);
            assert(pair@.len() == 2);
            let (vi, vii) = (pair[0], pair[1]);
            let ghost before = *image_canvas;
            let first = model.get_vertex_at_index(&vi);
            let second = model.get_vertex_at_index(&vii);
            if first.is_some() && second.is_some() {
                let first_vertex = first.unwrap();
                let second_vertex = second.unwrap();
                let (xv1, yv1, _) = first_vertex.xyz.unravel();
                let (xv2, yv2, _) = second_vertex.xyz.unravel();
                let from = Point2::new(round_to_pixel(*xv1, w), round_to_pixel(*yv1, h));
                let to = Point2::new(round_to_pixel(*xv2, w), round_to_pixel(*yv2, h));
                draw_line(from, to, image_canvas, color);
            }
            proof {
                assert forall|x: int, y: int|
                    old(image_canvas).in_bounds(x, y) implies #[trigger] image_canvas.pixel(x, y)
                    == (if pairs_cover(vertices, pairs, k as int + 1, w as int, h as int, x, y) {
                    color
                } else {
                    face_start.pixel(x, y)
                }) by {
                    let here = edge_covers(vertices, vi, vii, w as int, h as int, x, y);
                    if pairs_cover(vertices, pairs, k as int, w as int, h as int, x, y) {
                        let m = choose|m: int|
                            0 <= m < k && #[trigger] edge_covers(
                                vertices,
                                pairs[m][0],
                                pairs[m][1],
                                w as int,
                                h as int,
                                x,
                                y,
                            );
                        assert(0 <= m < k + 1);
                    }
                    if here {
                        assert(edge_covers(
                            vertices,
                            pairs[k as int][0],
                            pairs[k as int][1],
                            w as int,
                            h as int,
                            x,
                            y,
                        ));
                    }
                    if pairs_cover(vertices, pairs, k as int + 1, w as int, h as int, x, y) {
                        let m = choose|m: int|
                            0 <= m < k + 1 && #[trigger] edge_covers(
                                vertices,
                                pairs[m][0],
                                pairs[m][1],
                                w as int,
                                h as int,
                                x,
                                y,
                            );
                        if m < k {
                            assert(pairs_cover(vertices, pairs, k as int, w as int, h as int, x, y));
                        }
                    }
                    assert(before.pixel(x, y) == (if pairs_cover(
                        vertices,
                        pairs,
                        k as int,
                        w as int,
                        h as int,
                        x,
                        y,
                    ) {
                        color
                    } else {
                        face_start.pixel(x, y)
                    }));
                }
            }
            k += 1;
        }
        proof {
            assert forall|x: int, y: int|
                old(image_canvas).in_bounds(x, y) implies #[trigger] image_canvas.pixel(x, y) == (
            if faces_cover(vertices, face_vertices@, i as int + 1, w as int, h as int, x, y) {
                color
            } else {
                old(image_canvas).pixel(x, y)
            }) by {
                let here = face_covers(vertices, face_vertices@[i as int], w as int, h as int, x, y);
                assert(here == pairs_cover(vertices, pairs, 3, w as int, h as int, x, y));
                if faces_cover(vertices, face_vertices@, i as int, w as int, h as int, x, y) {
                    let m = choose|m: int|
                        0 <= m < i && #[trigger] face_covers(
                            vertices,
                            face_vertices@[m],
                            w as int,
                            h as int,
                            x,
                            y,
                        );
                    assert(0 <= m < i + 1);
                }
                if faces_cover(vertices, face_vertices@, i as int + 1, w as int, h as int, x, y) {
                    let m = choose|m: int|
                        0 <= m < i + 1 && #[trigger] face_covers(
                            vertices,
                            face_vertices@[m],
                            w as int,
                            h as int,
                            x,
                            y,
                        );
                    if m < i {
                        assert(faces_cover(
                            vertices,
                            face_vertices@,
                            i as int,
                            w as int,
                            h as int,
                            x,
                            y,
                        ));
                    }
                }
                assert(face_start.pixel(x, y) == (if faces_cover(
                    vertices,
                    face_vertices@,
                    i as int,
                    w as int,
                    h as int,
                    x,
                    y,
                ) {
                    color
                } else {
                    old(image_canvas).pixel(x, y)
                }));
            }
        }
        i += 1;
    }
}

} // verus!
