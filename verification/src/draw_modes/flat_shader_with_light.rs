//! Flat shading: every face in one color, as bright as the light falls on it.

use crate::draw_modes::draw_triangle::{draw_triangle_threaded, lemma_painted_push, painted};
use crate::image_canvas::Canvas;
use crate::linear_algebra::{
    calculate_normal_and_intensity, face_normal, fold_to_pixel, folded_pixel, intensity_of,
    shade_color, shade_of, Point2, Point3, TriangleCoords, Vec3Unsigned,
};
use crate::wavefront_parser::{lookup, Vertex, WavefronObject};
use vstd::prelude::*;

verus! {

/// The pixel at which a vertex of a lit face is drawn on a screen of `width`
/// by `height` pixels.
pub open spec fn folded_point(vertex: Vertex, width: int, height: int) -> Point2 {
    Point2(folded_pixel(vertex.xyz.0 as int, width), folded_pixel(vertex.xyz.1 as int, height))
}

/// The triangle that a face covers on the screen, and how strongly the face
/// is lit from `light_dir`; nothing where an index of the face names no
/// vertex.
pub open spec fn lit_face_of(
    vertices: Seq<Vertex>,
    face: Vec3Unsigned,
    light_dir: Point3,
    width: int,
    height: int,
) -> Option<(TriangleCoords, int)> {
    match (
        lookup(vertices, face.0 as int),
        lookup(vertices, face.1 as int),
        lookup(vertices, face.2 as int),
    ) {
        (Some(a), Some(b), Some(c)) => Some(
            (
                TriangleCoords(
                    folded_point(a, width, height),
                    folded_point(b, width, height),
                    folded_point(c, width, height),
                ),
                intensity_of(face_normal(a.xyz, b.xyz, c.xyz), light_dir),
            ),
        ),
        _ => None,
    }
}

/// What a face adds to the frame: its triangle in the color of its
/// intensity. A face that the light does not reach, because it faces away
/// from the light or stands edge-on to it, adds nothing.
pub open spec fn lit_stroke(
    vertices: Seq<Vertex>,
    face: Vec3Unsigned,
    light_dir: Point3,
    width: int,
    height: int,
) -> Option<(TriangleCoords, u8)> {
    match lit_face_of(vertices, face, light_dir, width, height) {
        Some((triangle, intensity)) => if intensity > 0 {
            Some((triangle, shade_of(intensity)))
        } else {
            None
        },
        None => None,
    }
}

/// What the faces of a mesh add to the frame, face by face.
pub open spec fn lit_strokes(
    vertices: Seq<Vertex>,
    faces: Seq<Vec3Unsigned>,
    light_dir: Point3,
    width: int,
    height: int,
) -> Seq<Option<(TriangleCoords, u8)>> {
    Seq::new(faces.len(), |k: int| lit_stroke(vertices, faces[k], light_dir, width, height))
}

/// The triangle that the face `verts` of `model` covers on a screen of
/// `width` by `height` pixels, and how strongly it is lit from `light_dir`.
pub fn lit_face(
    model: &WavefronObject,
    verts: &Vec3Unsigned,
    light_dir: Point3,
    width: usize,
    height: usize,
) -> (face: Option<(TriangleCoords, i64)>)
    requires
        light_dir.bounded(),
    ensures
        match lit_face_of(model.vertices(), *verts, light_dir, width as int, height as int) {
            Some((triangle, intensity)) => face matches Some((drawn, lit)) && drawn == triangle
                && lit == intensity,
            None => face is None,
        },
{
    let indices = verts.unravel_vec();
    let mut pt_vec: Vec<Point2> = Vec::new();
    let mut vt_vec: Vec<Vertex> = Vec::new();
    let mut i: usize = 0;
    while i < indices.len()
        invariant
            i <= indices@.len(),
            indices@ == seq![verts.0, verts.1, verts.2],
            pt_vec@.len() == i,
            vt_vec@.len() == i,
            forall|k: int|
                0 <= k < i ==> is_folded(
                    model.vertices(),
                    indices@[k],
                    width as int,
                    height as int,
                    #[trigger] vt_vec@[k],
                    pt_vec@[k],
                ),
        decreases indices.len() - i,
    {
        let vi = indices[i];
        match model.get_vertex_at_index(&vi) {
            None => {
                return None;
            },
            Some(vertex) => {
                let (vx, vy, _) = vertex.xyz.unravel();
                let first = fold_to_pixel(*vx, width);
                let second = fold_to_pixel(*vy, height);
                let p = Point2(first, second);
                pt_vec.push(p);
                vt_vec.push(*vertex);
            },
        }
        i += 1;
    }
    assert(is_folded(
        model.vertices(),
        indices@[0],
        width as int,
        height as int,
        vt_vec@[0],
        pt_vec@[0],
    ));
    assert(is_folded(
        model.vertices(),
        indices@[1],
        width as int,
        height as int,
        vt_vec@[1],
        pt_vec@[1],
    ));
    assert(is_folded(
        model.vertices(),
        indices@[2],
        width as int,
        height as int,
        vt_vec@[2],
        pt_vec@[2],
    ));
    let coords = TriangleCoords::from_vec(pt_vec);
    let intensity = calculate_normal_and_intensity(vt_vec, light_dir);
    Some((coords, intensity))
}

/// What the face `verts` of `model` adds to the frame under the light from
/// `light_dir`: its triangle on a screen of `width` by `height` pixels and the
/// color of its intensity, or nothing where the light does not reach it.
pub fn lit_triangle(
    model: &WavefronObject,
    verts: &Vec3Unsigned,
    light_dir: Point3,
    width: usize,
    height: usize,
) -> (stroke: Option<(TriangleCoords, u8)>)
    requires
        light_dir.bounded(),
    ensures
        stroke == lit_stroke(model.vertices(), *verts, light_dir, width as int, height as int),
{
    match lit_face(model, verts, light_dir, width, height) {
        None => None,
        Some((coords, intensity)) => {
            if intensity > 0 {
                Some((coords, shade_color(intensity)))
            } else {
                None
            }
        },
    }
}

/// Whether `vertex` is the vertex with the index `index`, and `point` the
/// pixel at which it is drawn.
pub open spec fn is_folded(
    vertices: Seq<Vertex>,
    index: usize,
    width: int,
    height: int,
    vertex: Vertex,
    point: Point2,
) -> bool {
    &&& lookup(vertices, index as int) == Some(vertex)
    &&& vertex.xyz.bounded()
    &&& point == folded_point(vertex, width, height)
}

/// Fills every face of `model` that names all three of its vertices and that
/// the light from `light_dir` reaches, in the order of the mesh and without a
/// depth test: a later face paints over an earlier one.
pub fn flat_shader_with_light_renderer(
    model: &WavefronObject,
    light_dir: Point3,
    image_canvas: &mut Canvas,
)
    requires
        light_dir.bounded(),
    ensures
        final(image_canvas).width() == old(image_canvas).width(),
        final(image_canvas).height() == old(image_canvas).height(),
        forall|x: int, y: int|
            old(image_canvas).in_bounds(x, y) ==> #[trigger] final(image_canvas).pixel(x, y)
                == painted(
                lit_strokes(
                    model.vertices(),
                    model.vertex_faces(),
                    light_dir,
                    old(image_canvas).width() as int,
                    old(image_canvas).height() as int,
                ),
                x,
                y,
                old(image_canvas).pixel(x, y),
            ),
{
    let (w, h) = image_canvas.get_size();
    let face_vertices = model.get_vert_triplets_from_face_elements();
    let ghost strokes = lit_strokes(
        model.vertices(),
        face_vertices@,
        light_dir,
        w as int,
        h as int,
    );
    let mut i: usize = 0;
    while i < face_vertices.len()
        invariant
            i <= face_vertices@.len(),
            light_dir.bounded(),
            strokes == lit_strokes(model.vertices(), face_vertices@, light_dir, w as int, h as int),
            w == old(image_canvas).width(),
            h == old(image_canvas).height(),
            image_canvas.width() == old(image_canvas).width(),
            image_canvas.height() == old(image_canvas).height(),
            forall|x: int, y: int|
                old(image_canvas).in_bounds(x, y) ==> #[trigger] image_canvas.pixel(x, y)
                    == painted(strokes.take(i as int), x, y, old(image_canvas).pixel(x, y)),
        decreases face_vertices.len() - i,
    {
        let vert_index = face_vertices[i];
        let ghost before = *image_canvas;
        match lit_triangle(model, &vert_index, light_dir, w, h) {
            None => {},
            Some((coords, color)) => {
                draw_triangle_threaded(coords, image_canvas, color);
            },
        }
        proof {
            assert(strokes.take(i as int + 1) =~= strokes.take(i as int).push(strokes[i as int]));
            assert forall|x: int, y: int|
                old(image_canvas).in_bounds(x, y) implies #[trigger] image_canvas.pixel(x, y)
                == painted(strokes.take(i as int + 1), x, y, old(image_canvas).pixel(x, y)) by {
                lemma_painted_push(
                    strokes.take(i as int),
                    strokes[i as int],
                    x,
                    y,
                    old(image_canvas).pixel(x, y),
                );
                assert(before.pixel(x, y) == painted(
                    strokes.take(i as int),
                    x,
                    y,
                    old(image_canvas).pixel(x, y),
                ));
            }
        }
        i += 1;
    }
    assert(strokes.take(i as int) =~= strokes);
}

} // verus!
