//! Flat fill without a depth test.

use crate::arithmetic::span;
use crate::geometry_laws::{
    grid_index, in_box, lemma_covered_within_box, lemma_grid_holds_box, lemma_grid_within_box,
};
use crate::image_canvas::Canvas;
use crate::linear_algebra::{grid, pair_of, Point2, TriangleCoords};
use vstd::prelude::*;

verus! {

/// Paints with `color` every pixel of `image_canvas` that `coords` covers, and
/// no other: a pixel on an edge of the triangle is not covered, and a triangle
/// without area covers nothing.
pub fn draw_triangle_single(coords: TriangleCoords, image_canvas: &mut Canvas, color: u8)
    ensures
        final(image_canvas).width() == old(image_canvas).width(),
        final(image_canvas).height() == old(image_canvas).height(),
        forall|x: int, y: int|
            old(image_canvas).in_bounds(x, y) ==> #[trigger] final(image_canvas).pixel(x, y) == (
            if coords.covers((x, y)) {
                color
            } else {
                old(image_canvas).pixel(x, y)
            }),
{
    let (w, h) = image_canvas.get_size();
    proof {
        use_type_invariant(&*image_canvas);
    }
    match coords.get_bounding_box(w, h) {
        None => {
            proof {
                assert forall|x: int, y: int| old(image_canvas).in_bounds(x, y) implies !coords.covers(
                    (x, y),
                ) by {
                    if coords.covers((x, y)) {
                        lemma_covered_within_box(
                            pair_of(coords.0),
                            pair_of(coords.1),
                            pair_of(coords.2),
                            (x, y),
                        );
                    }
                }
            }
        },
        Some((low, high)) => {
            proof {
                let nx = span(low.0 as int, high.0 as int) as int;
                let ny = span(low.1 as int, high.1 as int) as int;
                assert(nx * ny * 8 <= w * h * 8) by (nonlinear_arith)
                    requires
                        0 <= nx <= w,
                        0 <= ny <= h,
                ;
            }
            let pairs = low * high;
            let mut k: usize = 0;
            while k < pairs.len()
                invariant
                    k <= pairs.len(),
                    pairs@ == grid(low, high),
                    0 <= low.0 <= high.0 < w,
                    0 <= low.1 <= high.1 < h,
                    w == old(image_canvas).width(),
                    h == old(image_canvas).height(),
                    image_canvas.width() == old(image_canvas).width(),
                    image_canvas.height() == old(image_canvas).height(),
                    forall|x: int, y: int|
                        old(image_canvas).in_bounds(x, y) ==> #[trigger] image_canvas.pixel(x, y)
                            == (if coords.covers((x, y)) && in_box(low, high, x, y) && grid_index(
                            low,
                            high,
                            x,
                            y,
                        ) < k {
                            color
                        } else {
                            old(image_canvas).pixel(x, y)
                        }),
                decreases pairs.len() - k,
            {
                let (i, j) = pairs[k];
                proof {
                    lemma_grid_within_box(low, high, k as int);
                }
                let p = Point2::new(i, j);
                let weights = coords.get_barycentric_coords(p);
                let ghost before = *image_canvas;
                if weights.is_positive() {
                    let _ = image_canvas.set_pixel(p.0, p.1, color);
                }
                proof {
                    assert forall|x: int, y: int|
                        old(image_canvas).in_bounds(x, y) implies #[trigger] image_canvas.pixel(x, y)
                        == (if coords.covers((x, y)) && in_box(low, high, x, y) && grid_index(
                        low,
                        high,
                        x,
                        y,
                    ) < k + 1 {
                        color
                    } else {
                        old(image_canvas).pixel(x, y)
                    }) by {
                        if in_box(low, high, x, y) {
                            lemma_grid_holds_box(low, high, x, y);
                        }
                        assert(before.pixel(x, y) == (if coords.covers((x, y)) && in_box(
                            low,
                            high,
                            x,
                            y,
                        ) && grid_index(low, high, x, y) < k {
                            color
                        } else {
                            old(image_canvas).pixel(x, y)
                        }));
                    }
                }
                k += 1;
            }
            proof {
                assert forall|x: int, y: int|
                    old(image_canvas).in_bounds(x, y) implies #[trigger] image_canvas.pixel(x, y) == (
                if coords.covers((x, y)) {
                    color
                } else {
                    old(image_canvas).pixel(x, y)
                }) by {
                    if coords.covers((x, y)) {
                        lemma_covered_within_box(
                            pair_of(coords.0),
                            pair_of(coords.1),
                            pair_of(coords.2),
                            (x, y),
                        );
                        lemma_grid_holds_box(low, high, x, y);
                    }
                }
            }
        },
    }
}

/// The flat fill that one unit of work performs once it holds the frame
/// buffer: `draw_triangle_single` on the buffer behind the lock.
pub fn draw_triangle_threaded(coords: TriangleCoords, image_canvas: &mut Canvas, color: u8)
    ensures
        final(image_canvas).width() == old(image_canvas).width(),
        final(image_canvas).height() == old(image_canvas).height(),
        forall|x: int, y: int|
            old(image_canvas).in_bounds(x, y) ==> #[trigger] final(image_canvas).pixel(x, y) == (
            if coords.covers((x, y)) {
                color
            } else {
                old(image_canvas).pixel(x, y)
            }),
{
    draw_triangle_single(coords, image_canvas, color)
}

/// What flat fills, one after the other, make of the pixel at column `x` of
/// row `y` that shows `shown` before the first: each entry of `strokes` is a
/// triangle with its color, or nothing, and a later fill paints over an
/// earlier one.
pub open spec fn painted(
    strokes: Seq<Option<(TriangleCoords, u8)>>,
    x: int,
    y: int,
    shown: u8,
) -> u8
    decreases strokes.len(),
{
    if strokes.len() == 0 {
        shown
    } else {
        let before = painted(strokes.drop_last(), x, y, shown);
        match strokes.last() {
            Some((triangle, color)) => if triangle.covers((x, y)) {
                color
            } else {
                before
            },
            None => before,
        }
    }
}

/// One more stroke paints over what the strokes before it have made.
pub proof fn lemma_painted_push(
    strokes: Seq<Option<(TriangleCoords, u8)>>,
    stroke: Option<(TriangleCoords, u8)>,
    x: int,
    y: int,
    shown: u8,
)
    ensures
        painted(strokes.push(stroke), x, y, shown) == match stroke {
            Some((triangle, color)) => if triangle.covers((x, y)) {
                color
            } else {
                painted(strokes, x, y, shown)
            },
            None => painted(strokes, x, y, shown),
        },
{
    assert(strokes.push(stroke).drop_last() =~= strokes);
}

} // verus!
