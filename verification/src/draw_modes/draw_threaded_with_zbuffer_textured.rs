//! Textured fill with a depth test.

use crate::draw_modes::draw_threaded_with_zbuffer::{
    fill_with_depth_test, filled_cell, new_depth_buffer, screen_triangle, screen_triangle_of,
    Shading,
};
use crate::geometry_laws::{cell_index, lemma_cell_index_bounds};
use crate::image_canvas::Canvas;
use crate::linear_algebra::{Point2, TriangleCoords3, UVTriplet, Vec3Unsigned, EMPTY_DEPTH, UNIT};
use crate::read_tga::Texture;
use crate::wavefront_parser::{
    complete_triplet, lookup, triplet_of, FaceElement, TextureUV, Vertex, WavefronObject,
};
use vstd::prelude::*;

verus! {

/// The column or the row of the texel that a texture coordinate names: its
/// whole part, and zero for a negative coordinate.
pub open spec fn whole_part(coordinate: i64) -> i32 {
    if coordinate < 0 {
        0
    } else {
        (coordinate / UNIT) as i32
    }
}

/// The texel that a texture coordinate names; none where the coordinate has
/// no second component.
pub open spec fn texel_of(uv: TextureUV) -> Option<Point2> {
    match uv.v {
        Some(v) => Some(Point2(whole_part(uv.u), whole_part(v))),
        None => None,
    }
}

/// The texels that the three corners of a face name; none where an index of
/// the face names no texture coordinate, or one without a second component.
pub open spec fn uv_triplet_of(textures: Seq<TextureUV>, face: Vec3Unsigned) -> Option<UVTriplet> {
    match (
        lookup(textures, face.0 as int),
        lookup(textures, face.1 as int),
        lookup(textures, face.2 as int),
    ) {
        (Some(a), Some(b), Some(c)) => match (texel_of(a), texel_of(b), texel_of(c)) {
            (Some(first), Some(second), Some(third)) => Some(UVTriplet(first, second, third)),
            _ => None,
        },
        _ => None,
    }
}

/// Whether `point` is the texel that the texture coordinate with the index
/// `index` names.
pub open spec fn is_texel(textures: Seq<TextureUV>, index: usize, point: Point2) -> bool {
    &&& lookup(textures, index as int) is Some
    &&& texel_of(lookup(textures, index as int)->0) == Some(point)
}

fn whole(coordinate: i64) -> (part: i32)
    requires
        -1073741824 < coordinate < 1073741824,
    ensures
        part == whole_part(coordinate),
{
    if coordinate < 0 {
        0
    } else {
        (coordinate / UNIT) as i32
    }
}

/// The texels that the three corners of the face `textures` of `model` name.
pub fn uv_triplet(model: &WavefronObject, textures: &Vec3Unsigned) -> (triplet: Option<UVTriplet>)
    ensures
        triplet == uv_triplet_of(model.textures(), *textures),
{
    let indices = textures.unravel_vec();
    let mut points_uv: Vec<Point2> = Vec::new();
    let mut k: usize = 0;
    while k < indices.len()
        invariant
            k <= indices@.len(),
            indices@ == seq![textures.0, textures.1, textures.2],
            points_uv@.len() == k,
            forall|j: int|
                0 <= j < k ==> is_texel(model.textures(), indices@[j], #[trigger] points_uv@[j]),
        decreases indices.len() - k,
    {
        let i = indices[k];
        match model.get_texture_at_index(&i) {
            None => {
                return None;
            },
            Some(uv) => {
                if uv.v.is_none() {
                    return None;
                }
                let (u, v) = uv.unravel_uv_impl();
                points_uv.push(Point2(whole(u), whole(v)));
            },
        }
        k += 1;
    }
    assert(is_texel(model.textures(), indices@[0], points_uv@[0]));
    assert(is_texel(model.textures(), indices@[1], points_uv@[1]));
    assert(is_texel(model.textures(), indices@[2], points_uv@[2]));
    Some(UVTriplet::from_vec(points_uv))
}

/// Submits to every cell in the bounding box of `coords` the color that the
/// texture has there, at the depth that the triangle's plane has there: the
/// texels that `uv_points` names for the three corners, blended by the
/// weights of the cell.
pub fn draw_triangle_threaded_with_zbuffer_with_texture(
    coords: TriangleCoords3,
    zbuffer: &mut Vec<i64>,
    image_canvas: &mut Canvas,
    uv_points: &UVTriplet,
    texture: &Texture,
)
    requires
        coords.bounded(),
        old(zbuffer)@.len() == old(image_canvas).width() * old(image_canvas).height(),
    ensures
        final(image_canvas).width() == old(image_canvas).width(),
        final(image_canvas).height() == old(image_canvas).height(),
        final(zbuffer)@.len() == old(zbuffer)@.len(),
        forall|x: int, y: int|
            old(image_canvas).in_bounds(x, y) ==> (
                #[trigger] final(zbuffer)@[cell_index(x, y, old(image_canvas).width() as int)],
                final(image_canvas).pixel(x, y),
            ) == filled_cell(
                coords,
                old(image_canvas).width() as int,
                old(image_canvas).height() as int,
                uv_points.color_at(coords, (x, y), texture.data@, texture.width as int),
                x,
                y,
                (
                    old(zbuffer)@[cell_index(x, y, old(image_canvas).width() as int)],
                    old(image_canvas).pixel(x, y),
                ),
            ),
{
    fill_with_depth_test(coords, zbuffer, image_canvas, Shading::Textured(uv_points, texture))
}

/// What a face is drawn with: the triangle that its vertices cover on a
/// screen of `width` by `height` pixels, and the texels that its own texture
/// coordinates name. A face that lacks a vertex index or a texture index, or
/// of which an index names nothing, is not drawn.
pub open spec fn textured_face_of(
    vertices: Seq<Vertex>,
    textures: Seq<TextureUV>,
    face: FaceElement,
    width: int,
    height: int,
) -> Option<(TriangleCoords3, UVTriplet)> {
    match (triplet_of(face.vertex_triplet), triplet_of(face.texture_triplet)) {
        (Some(verts), Some(uvs)) => match (
            screen_triangle_of(vertices, verts, width, height),
            uv_triplet_of(textures, uvs),
        ) {
            (Some(triangle), Some(texels)) => Some((triangle, texels)),
            _ => None,
        },
        _ => None,
    }
}

/// What the face `face` of `model` is drawn with on a screen of `width` by
/// `height` pixels.
pub fn textured_face(
    model: &WavefronObject,
    face: &FaceElement,
    width: usize,
    height: usize,
) -> (drawn: Option<(TriangleCoords3, UVTriplet)>)
    ensures
        drawn == textured_face_of(
            model.vertices(),
            model.textures(),
            *face,
            width as int,
            height as int,
        ),
        drawn matches Some(pair) ==> pair.0.bounded(),
{
    let verts = match complete_triplet(face.vertex_triplet) {
        Some(verts) => verts,
        None => {
            return None;
        },
    };
    let uvs = match complete_triplet(face.texture_triplet) {
        Some(uvs) => uvs,
        None => {
            return None;
        },
    };
    let triangle = screen_triangle(model, &verts, width, height);
    let texels = uv_triplet(model, &uvs);
    if triangle.is_some() && texels.is_some() {
        Some((triangle.unwrap(), texels.unwrap()))
    } else {
        None
    }
}

/// What the textured fills of the first `n` faces make of the cell at column
/// `x` of row `y`: every face is drawn with its own vertices and its own
/// texture coordinates, and a face that is not drawn leaves the cell as it
/// is.
pub open spec fn textured_cell(
    vertices: Seq<Vertex>,
    textures: Seq<TextureUV>,
    faces: Seq<FaceElement>,
    data: Seq<u8>,
    texture_width: int,
    n: int,
    width: int,
    height: int,
    x: int,
    y: int,
    cell: (i64, u8),
) -> (i64, u8)
    decreases n,
{
    if n <= 0 {
        cell
    } else {
        let before = textured_cell(
            vertices,
            textures,
            faces,
            data,
            texture_width,
            n - 1,
            width,
            height,
            x,
            y,
            cell,
        );
        match textured_face_of(vertices, textures, faces[n - 1], width, height) {
            Some((triangle, uvs)) => filled_cell(
                triangle,
                width,
                height,
                uvs.color_at(triangle, (x, y), data, texture_width),
                x,
                y,
                before,
            ),
            None => before,
        }
    }
}

/// Fills the faces of `model` from `texture`, in the order of the mesh and
/// with a depth test on a depth buffer of its own. Every face is drawn with
/// its own vertices and its own texture coordinates; a face that lacks either
/// is passed over.
pub fn shade_threaded_with_zbuffer_with_texture(
    model: &WavefronObject,
    texture: &Texture,
    image_canvas: &mut Canvas,
)
    ensures
        final(image_canvas).width() == old(image_canvas).width(),
        final(image_canvas).height() == old(image_canvas).height(),
        forall|x: int, y: int|
            old(image_canvas).in_bounds(x, y) ==> #[trigger] final(image_canvas).pixel(x, y)
                == textured_cell(
                model.vertices(),
                model.textures(),
                model.faces(),
                texture.data@,
                texture.width as int,
                model.faces().len() as int,
                old(image_canvas).width() as int,
                old(image_canvas).height() as int,
                x,
                y,
                (EMPTY_DEPTH, old(image_canvas).pixel(x, y)),
            ).1,
{
    let (w, h) = image_canvas.get_size();
    proof {
        use_type_invariant(&*image_canvas);
        assert(w * h <= usize::MAX) by (nonlinear_arith)
            requires
                h == 0 || w * h * 8 <= isize::MAX,
                0 <= w,
                0 <= h,
        ;
    }
    let mut zbuffer = new_depth_buffer(w, h);
    let n = model.get_n_faces();
    let mut i: usize = 0;
    proof {
        assert forall|x: int, y: int| old(image_canvas).in_bounds(x, y) implies (
            #[trigger] zbuffer@[cell_index(x, y, w as int)],
            image_canvas.pixel(x, y),
        ) == (EMPTY_DEPTH, old(image_canvas).pixel(x, y)) by {
            lemma_cell_index_bounds(x, y, w as int, h as int);
        }
    }
    while i < n
        invariant
            i <= n,
            n == model.faces().len(),
            w == old(image_canvas).width(),
            h == old(image_canvas).height(),
            image_canvas.width() == old(image_canvas).width(),
            image_canvas.height() == old(image_canvas).height(),
            zbuffer@.len() == w * h,
            forall|x: int, y: int|
                old(image_canvas).in_bounds(x, y) ==> (
                    #[trigger] zbuffer@[cell_index(x, y, w as int)],
                    image_canvas.pixel(x, y),
                ) == textured_cell(
                    model.vertices(),
                    model.textures(),
                    model.faces(),
                    texture.data@,
                    texture.width as int,
                    i as int,
                    w as int,
                    h as int,
                    x,
                    y,
                    (EMPTY_DEPTH, old(image_canvas).pixel(x, y)),
                ),
        decreases n - i,
    {
        let face = model.get_face_impl(i);
        let ghost canvas_before = *image_canvas;
        let ghost depths_before = zbuffer@;
        match textured_face(model, &face, w, h) {
            None => {},
            Some((pts, uv_triplet)) => {
                draw_triangle_threaded_with_zbuffer_with_texture(
                    pts,
                    &mut zbuffer,
                    image_canvas,
                    &uv_triplet,
                    texture,
                );
            },
        }
        proof {
            assert forall|x: int, y: int| old(image_canvas).in_bounds(x, y) implies (
                #[trigger] zbuffer@[cell_index(x, y, w as int)],
                image_canvas.pixel(x, y),
            ) == textured_cell(
                model.vertices(),
                model.textures(),
                model.faces(),
                texture.data@,
                texture.width as int,
                i as int + 1,
                w as int,
                h as int,
                x,
                y,
                (EMPTY_DEPTH, old(image_canvas).pixel(x, y)),
            ) by {
                assert((depths_before[cell_index(x, y, w as int)], canvas_before.pixel(x, y))
                    == textured_cell(
                    model.vertices(),
                    model.textures(),
                    model.faces(),
                    texture.data@,
                    texture.width as int,
                    i as int,
                    w as int,
                    h as int,
                    x,
                    y,
                    (EMPTY_DEPTH, old(image_canvas).pixel(x, y)),
                ));
            }
        }
        i += 1;
    }
    proof {
        assert forall|x: int, y: int|
            old(image_canvas).in_bounds(x, y) implies #[trigger] image_canvas.pixel(x, y)
            == textured_cell(
            model.vertices(),
            model.textures(),
            model.faces(),
            texture.data@,
            texture.width as int,
            model.faces().len() as int,
            w as int,
            h as int,
            x,
            y,
            (EMPTY_DEPTH, old(image_canvas).pixel(x, y)),
        ).1 by {
            let depth = zbuffer@[cell_index(x, y, w as int)];
        }
    }
}

} // verus!
