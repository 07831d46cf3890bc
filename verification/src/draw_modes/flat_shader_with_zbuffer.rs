//! Flat fill of a whole mesh, each face in a color of its own.

use crate::draw_modes::draw_triangle::{draw_triangle_threaded, lemma_painted_push, painted};
use crate::draw_modes::draw_wireframe::pixel_of;
use crate::image_canvas::Canvas;
use crate::linear_algebra::{round_to_pixel, Point2, TriangleCoords, Vec3Unsigned};
use crate::utils::random_color;
use crate::wavefront_parser::{lookup, Vertex, WavefronObject};
use vstd::prelude::*;

verus! {

/// The triangle that a face covers on a screen of `width` by `height` pixels,
/// each corner at the pixel nearest to its vertex; none where an index of the
/// face names no vertex.
pub open spec fn rounded_triangle_of(
    vertices: Seq<Vertex>,
    face: Vec3Unsigned,
    width: int,
    height: int,
) -> Option<TriangleCoords> {
    match (
        lookup(vertices, face.0 as int),
        lookup(vertices, face.1 as int),
        lookup(vertices, face.2 as int),
    ) {
        (Some(a), Some(b), Some(c)) => Some(
            TriangleCoords(
                pixel_of(a, width, height),
                pixel_of(b, width, height),
                pixel_of(c, width, height),
            ),
        ),
        _ => None,
    }
}

/// What a face adds to the frame when it is filled with `color`.
pub open spec fn colored_stroke(
    vertices: Seq<Vertex>,
    face: Vec3Unsigned,
    color: u8,
    width: int,
    height: int,
) -> Option<(TriangleCoords, u8)> {
    match rounded_triangle_of(vertices, face, width, height) {
        Some(triangle) => Some((triangle, color)),
        None => None,
    }
}

/// What the faces of a mesh add to the frame, face by face, when the face
/// number `k` is filled with the color number `k`.
pub open spec fn colored_strokes(
    vertices: Seq<Vertex>,
    faces: Seq<Vec3Unsigned>,
    colors: Seq<u8>,
    width: int,
    height: int,
) -> Seq<Option<(TriangleCoords, u8)>> {
    Seq::new(faces.len(), |k: int| colored_stroke(vertices, faces[k], colors[k], width, height))
}

/// Whether `after` is what the flat fills of all `faces`, with the `colors` in
/// their order, make of the frame `before`.
pub open spec fn is_flat_shading(
    vertices: Seq<Vertex>,
    faces: Seq<Vec3Unsigned>,
    colors: Seq<u8>,
    before: Canvas,
    after: Canvas,
) -> bool {
    &&& colors.len() == faces.len()
    &&& after.width() == before.width()
    &&& after.height() == before.height()
    &&& forall|x: int, y: int|
        before.in_bounds(x, y) ==> #[trigger] after.pixel(x, y) == painted(
            colored_strokes(
                vertices,
                faces,
                colors,
                before.width() as int,
                before.height() as int,
            ),
            x,
            y,
            before.pixel(x, y),
        )
}

/// Whether `point` is the pixel nearest to the vertex with the index `index`.
pub open spec fn is_rounded(
    vertices: Seq<Vertex>,
    index: usize,
    width: int,
    height: int,
    point: Point2,
) -> bool {
    &&& lookup(vertices, index as int) is Some
    &&& point == pixel_of(lookup(vertices, index as int)->0, width, height)
}

/// The triangle that the face `verts` of `model` covers on a screen of
/// `width` by `height` pixels, each corner at the pixel nearest to its vertex.
pub fn rounded_triangle(
    model: &WavefronObject,
    verts: &Vec3Unsigned,
    width: usize,
    height: usize,
) -> (triangle: Option<TriangleCoords>)
    ensures
        triangle == rounded_triangle_of(model.vertices(), *verts, width as int, height as int),
{
    let indices = verts.unravel_vec();
    let mut pt_vec: Vec<Point2> = Vec::new();
    let mut i: usize = 0;
    while i < indices.len()
        invariant
            i <= indices@.len(),
            indices@ == seq![verts.0, verts.1, verts.2],
            pt_vec@.len() == i,
            forall|k: int|
                0 <= k < i ==> is_rounded(
                    model.vertices(),
                    indices@[k],
                    width as int,
                    height as int,
                    #[trigger] pt_vec@[k],
                ),
        decreases indices.len() - i,
    {
        let vi = indices[i];
        match model.get_vertex_at_index(&vi) {
            None => {
                return None;
            },
            Some(vertex) => {
                let (vx, vy, _) = vertex.xyz.unravel();
                let first = round_to_pixel(*vx, width);
                let second = round_to_pixel(*vy, height);
                let p = Point2(first, second);
                pt_vec.push(p);
            },
        }
        i += 1;
    }
    assert(is_rounded(model.vertices(), indices@[0], width as int, height as int, pt_vec@[0]));
    assert(is_rounded(model.vertices(), indices@[1], width as int, height as int, pt_vec@[1]));
    assert(is_rounded(model.vertices(), indices@[2], width as int, height as int, pt_vec@[2]));
    Some(TriangleCoords::from_vec(pt_vec))
}

/// Fills every face of `model` that names all three of its vertices, in the
/// order of the mesh and without a depth test, each face in a color that
/// chance picks. Whatever the colors are, the frame is what the fills with
/// those colors make of it: a later face paints over an earlier one.
pub fn flat_shader_renderer_threaded_with_zbuffer(
    model: &WavefronObject,
    image_canvas: &mut Canvas,
)
    ensures
        exists|colors: Seq<u8>| #[trigger]
            is_flat_shading(
                model.vertices(),
                model.vertex_faces(),
                colors,
                *old(image_canvas),
                *final(image_canvas),
            ),
{
    let (w, h) = image_canvas.get_size();
    let face_vertices = model.get_vert_triplets_from_face_elements();
    let ghost mut colors: Seq<u8> = Seq::empty();
    let ghost mut strokes: Seq<Option<(TriangleCoords, u8)>> = Seq::empty();
    let mut i: usize = 0;
    while i < face_vertices.len()
        invariant
            i <= face_vertices@.len(),
            colors.len() == i,
            strokes.len() == i,
            forall|k: int|
                0 <= k < i ==> #[trigger] strokes[k] == colored_stroke(
                    model.vertices(),
                    face_vertices@[k],
                    colors[k],
                    w as int,
                    h as int,
                ),
            w == old(image_canvas).width(),
            h == old(image_canvas).height(),
            image_canvas.width() == old(image_canvas).width(),
            image_canvas.height() == old(image_canvas).height(),
            forall|x: int, y: int|
                old(image_canvas).in_bounds(x, y) ==> #[trigger] image_canvas.pixel(x, y)
                    == painted(strokes, x, y, old(image_canvas).pixel(x, y)),
        decreases face_vertices.len() - i,
    {
        let vert_index = face_vertices[i];
        let color = random_color();
        let ghost before = *image_canvas;
        let ghost earlier = strokes;
        let triangle = rounded_triangle(model, &vert_index, w, h);
        match triangle {
            None => {},
            Some(coords) => {
                draw_triangle_threaded(coords, image_canvas, color);
            },
        }
        proof {
            colors = colors.push(color);
            strokes = strokes.push(
                colored_stroke(model.vertices(), vert_index, color, w as int, h as int),
            );
            assert forall|x: int, y: int|
                old(image_canvas).in_bounds(x, y) implies #[trigger] image_canvas.pixel(x, y)
                == painted(strokes, x, y, old(image_canvas).pixel(x, y)) by {
                lemma_painted_push(
                    earlier,
                    colored_stroke(model.vertices(), vert_index, color, w as int, h as int),
                    x,
                    y,
                    old(image_canvas).pixel(x, y),
                );
                assert(before.pixel(x, y) == painted(
                    earlier,
                    x,
                    y,
                    old(image_canvas).pixel(x, y),
                ));
            }
        }
        i += 1;
    }
    proof {
        assert(strokes =~= colored_strokes(
            model.vertices(),
            face_vertices@,
            colors,
            w as int,
            h as int,
        ));
        assert(is_flat_shading(
            model.vertices(),
            face_vertices@,
            colors,
            *old(image_canvas),
            *image_canvas,
        ));
    }
}

} // verus!
