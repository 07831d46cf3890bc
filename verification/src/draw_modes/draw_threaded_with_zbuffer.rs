//! Flat fill with a depth test.

use crate::arithmetic::span;
use crate::geometry_laws::{
    cell_index, grid_index, in_box, lemma_cell_index_bounds, lemma_cell_index_unique,
    lemma_grid_holds_box, lemma_grid_within_box,
};
use crate::image_canvas::Canvas;
use crate::linear_algebra::{
    clamped_box, grid, held_coordinate, hold_coordinate, plane_of, Point3, TriangleCoords3,
    UVTriplet, Vec3Unsigned, EMPTY_DEPTH,
};
use crate::read_tga::Texture;
use crate::utils::random_color;
use crate::wavefront_parser::{lookup, Vertex, WavefronObject};
use vstd::prelude::*;

verus! {

/// What the submission of `color` at `depth` makes of a cell that holds the
/// depth `cell.0` and shows the color `cell.1`: a depth that is strictly
/// greater takes the cell, any other leaves it as it is.
pub open spec fn submit(cell: (i64, u8), depth: i64, color: u8) -> (i64, u8) {
    if depth > cell.0 {
        (depth, color)
    } else {
        cell
    }
}

/// Whether the fill of `coords` into a buffer of `width` by `height` cells
/// tests the cell at column `x` of row `y`: the cell lies in the bounding box
/// of the triangle.
pub open spec fn tests_cell(coords: TriangleCoords3, width: int, height: int, x: int, y: int) -> bool {
    match clamped_box(plane_of(coords.0), plane_of(coords.1), plane_of(coords.2), width, height) {
        Some((low, high)) => in_box(low, high, x, y),
        None => false,
    }
}

/// What the fill of `coords` with `color` makes of the cell at column `x` of
/// row `y`.
pub open spec fn filled_cell(
    coords: TriangleCoords3,
    width: int,
    height: int,
    color: u8,
    x: int,
    y: int,
    cell: (i64, u8),
) -> (i64, u8) {
    if tests_cell(coords, width, height, x, y) {
        submit(cell, coords.depth_at((x, y)), color)
    } else {
        cell
    }
}

/// Once a cell holds a depth, a submission at a depth that is not greater
/// changes neither the depth nor the color of the cell; a submission at a
/// greater depth always changes both.
pub proof fn lemma_depth_test(cell: (i64, u8), depth: i64, color: u8)
    ensures
        depth <= cell.0 ==> submit(cell, depth, color) == cell,
        depth > cell.0 ==> submit(cell, depth, color) == (depth, color),
{
}

/// A cell that nothing was drawn to takes every triangle: whatever the
/// triangle and the position, the depth of its plane there is greater than
/// the depth of an empty cell.
pub proof fn lemma_empty_cell_takes_any_depth(
    coords: TriangleCoords3,
    p: (int, int),
    shown: u8,
    color: u8,
)
    ensures
        submit((EMPTY_DEPTH, shown), coords.depth_at(p), color) == (coords.depth_at(p), color),
{
}

/// After a submission at the depth `first`, a submission at a depth that is
/// not greater than `first` changes nothing, whatever the cell held before.
pub proof fn lemma_lower_submission_rejected(
    cell: (i64, u8),
    first: i64,
    first_color: u8,
    second: i64,
    second_color: u8,
)
    requires
        second <= first,
    ensures
        submit(submit(cell, first, first_color), second, second_color) == submit(
            cell,
            first,
            first_color,
        ),
{
}

/// To fill a triangle a second time changes nothing, whatever color the second
/// fill brings.
pub proof fn lemma_refill_changes_nothing(
    coords: TriangleCoords3,
    width: int,
    height: int,
    first_color: u8,
    second_color: u8,
    x: int,
    y: int,
    cell: (i64, u8),
)
    ensures
        filled_cell(
            coords,
            width,
            height,
            second_color,
            x,
            y,
            filled_cell(coords, width, height, first_color, x, y, cell),
        ) == filled_cell(coords, width, height, first_color, x, y, cell),
{
}

/// A depth buffer for a frame of `width` by `height` pixels, with nothing
/// drawn to it.
pub fn new_depth_buffer(width: usize, height: usize) -> (zbuffer: Vec<i64>)
    requires
        width * height <= usize::MAX,
    ensures
        zbuffer@ == Seq::new((width * height) as nat, |i: int| EMPTY_DEPTH),
{
    let cells = width * height;
    let mut zbuffer: Vec<i64> = Vec::new();
    let mut i: usize = 0;
    while i < cells
        invariant
            i <= cells,
            zbuffer@ == Seq::new(i as nat, |k: int| EMPTY_DEPTH),
        decreases cells - i,
    {
        zbuffer.push(EMPTY_DEPTH);
        i += 1;
        assert(zbuffer@ =~= Seq::new(i as nat, |k: int| EMPTY_DEPTH));
    }
    zbuffer
}

/// Where the color of a cell comes from.
pub enum Shading<'a> {
    /// One color for the whole triangle.
    Flat(u8),
    /// The texels that the corners of the triangle name in a texture, blended
    /// by the weights of the cell.
    Textured(&'a UVTriplet, &'a Texture),
}

impl<'a> Shading<'a> {
    /// The color that the cell at column `x` of row `y` gets in the triangle
    /// `coords`.
    pub open spec fn color_at(&self, coords: TriangleCoords3, x: int, y: int) -> u8 {
        match *self {
            Shading::Flat(color) => color,
            Shading::Textured(uv_points, texture) => uv_points.color_at(
                coords,
                (x, y),
                texture.data@,
                texture.width as int,
            ),
        }
    }

    /// The color that the column and row of `p` get in the triangle `coords`.
    pub fn color(&self, coords: TriangleCoords3, p: Point3) -> (color: u8)
        requires
            coords.bounded(),
            i32::MIN <= p.0 <= i32::MAX,
            i32::MIN <= p.1 <= i32::MAX,
        ensures
            color == self.color_at(coords, p.0 as int, p.1 as int),
    {
        match self {
            Shading::Flat(color) => *color,
            Shading::Textured(uv_points, texture) => uv_points.get_color(p, coords, texture),
        }
    }
}

/// Submits a color to every cell in the bounding box of `coords`, at the depth
/// that the triangle's plane has there. The depth is tested whatever the
/// barycentric weights of the cell are: the fill reaches past the edges of the
/// triangle, as far as its bounding box goes.
pub fn fill_with_depth_test(
    coords: TriangleCoords3,
    zbuffer: &mut Vec<i64>,
    image_canvas: &mut Canvas,
    shading: Shading<'_>,
)
    requires
        coords.bounded(),
        old(zbuffer)@.len() == old(image_canvas).width() * old(image_canvas).height(),
    ensures
        final(image_canvas).width() == old(image_canvas).width(),
        final(image_canvas).height() == old(image_canvas).height(),
        final(zbuffer)@.len() == old(zbuffer)@.len(),
        forall|x: int, y: int|
            old(image_canvas).in_bounds(x, y) ==> (
                #[trigger] final(zbuffer)@[cell_index(x, y, old(image_canvas).width() as int)],
                final(image_canvas).pixel(x, y),
            ) == filled_cell(
                coords,
                old(image_canvas).width() as int,
                old(image_canvas).height() as int,
                shading.color_at(coords, x, y),
                x,
                y,
                (
                    old(zbuffer)@[cell_index(x, y, old(image_canvas).width() as int)],
                    old(image_canvas).pixel(x, y),
                ),
            ),
{
    let (w, h) = image_canvas.get_size();
    proof {
        use_type_invariant(&*image_canvas);
    }
    match coords.get_bounding_box(w, h) {
        None => {},
        Some((low, high)) => {
            proof {
                let nx = span(low.0 as int, high.0 as int) as int;
                let ny = span(low.1 as int, high.1 as int) as int;
                assert(nx * ny * 8 <= w * h * 8) by (nonlinear_arith)
                    requires
                        0 <= nx <= w,
                        0 <= ny <= h,
                ;
            }
            let pairs = low * high;
            let mut k: usize = 0;
            while k < pairs.len()
                invariant
                    coords.bounded(),
                    k <= pairs.len(),
                    pairs@ == grid(low, high),
                    0 <= low.0 <= high.0 < w,
                    0 <= low.1 <= high.1 < h,
                    w == old(image_canvas).width(),
                    h == old(image_canvas).height(),
                    w * h * 8 <= isize::MAX,
                    image_canvas.width() == old(image_canvas).width(),
                    image_canvas.height() == old(image_canvas).height(),
                    zbuffer@.len() == w * h,
                    old(zbuffer)@.len() == w * h,
                    forall|x: int, y: int|
                        old(image_canvas).in_bounds(x, y) ==> (
                            #[trigger] zbuffer@[cell_index(x, y, w as int)],
                            image_canvas.pixel(x, y),
                        ) == (if in_box(low, high, x, y) && grid_index(low, high, x, y) < k {
                            submit(
                                (
                                    old(zbuffer)@[cell_index(x, y, w as int)],
                                    old(image_canvas).pixel(x, y),
                                ),
                                coords.depth_at((x, y)),
                                shading.color_at(coords, x, y),
                            )
                        } else {
                            (
                                old(zbuffer)@[cell_index(x, y, w as int)],
                                old(image_canvas).pixel(x, y),
                            )
                        }),
                decreases pairs.len() - k,
            {
                let (i, j) = pairs[k];
                proof {
                    lemma_grid_within_box(low, high, k as int);
                    lemma_cell_index_bounds(i as int, j as int, w as int, h as int);
                }
                let p = Point3(i as i64, j as i64, 0);
                let weights = coords.get_barycentric_coords(p);
                let depth = coords.get_depth(weights);
                let cell = i as usize + j as usize * w;
                let ghost canvas_before = *image_canvas;
                let ghost depths_before = zbuffer@;
                if zbuffer[cell] < depth {
                    let color = shading.color(coords, p);
                    zbuffer.set(cell, depth);
                    let _ = image_canvas.set_pixel(i, j, color);
                }
                proof {
                    assert forall|x: int, y: int|
                        old(image_canvas).in_bounds(x, y) implies (
                        #[trigger] zbuffer@[cell_index(x, y, w as int)],
                        image_canvas.pixel(x, y),
                    ) == (if in_box(low, high, x, y) && grid_index(low, high, x, y) < k + 1 {
                        submit(
                            (
                                old(zbuffer)@[cell_index(x, y, w as int)],
                                old(image_canvas).pixel(x, y),
                            ),
                            coords.depth_at((x, y)),
                            shading.color_at(coords, x, y),
                        )
                    } else {
                        (old(zbuffer)@[cell_index(x, y, w as int)], old(image_canvas).pixel(x, y))
                    }) by {
                        lemma_cell_index_bounds(x, y, w as int, h as int);
                        if in_box(low, high, x, y) {
                            lemma_grid_holds_box(low, high, x, y);
                        }
                        if cell_index(x, y, w as int) == cell {
                            lemma_cell_index_unique(x, y, i as int, j as int, w as int);
                        }
                        assert((
                            depths_before[cell_index(x, y, w as int)],
                            canvas_before.pixel(x, y),
                        ) == (if in_box(low, high, x, y) && grid_index(low, high, x, y) < k {
                            submit(
                                (
                                    old(zbuffer)@[cell_index(x, y, w as int)],
                                    old(image_canvas).pixel(x, y),
                                ),
                                coords.depth_at((x, y)),
                                shading.color_at(coords, x, y),
                            )
                        } else {
                            (
                                old(zbuffer)@[cell_index(x, y, w as int)],
                                old(image_canvas).pixel(x, y),
                            )
                        }));
                    }
                }
                k += 1;
            }
            proof {
                assert forall|x: int, y: int| old(image_canvas).in_bounds(x, y) implies (
                    #[trigger] zbuffer@[cell_index(x, y, w as int)],
                    image_canvas.pixel(x, y),
                ) == filled_cell(
                    coords,
                    w as int,
                    h as int,
                    shading.color_at(coords, x, y),
                    x,
                    y,
                    (old(zbuffer)@[cell_index(x, y, w as int)], old(image_canvas).pixel(x, y)),
                ) by {
                    if in_box(low, high, x, y) {
                        lemma_grid_holds_box(low, high, x, y);
                    }
                }
            }
        },
    }
}

/// Submits `color` to every cell in the bounding box of `coords`, at the depth
/// that the triangle's plane has there. The depth is tested whatever the
/// barycentric weights of the cell are: the fill reaches past the edges of the
/// triangle, as far as its bounding box goes, and a triangle without area is
/// filled along its bounding box at the depth that the weights `(-1, 1, 1)`
/// give.
pub fn draw_triangle_threaded_with_zbuffer(
    coords: TriangleCoords3,
    zbuffer: &mut Vec<i64>,
    image_canvas: &mut Canvas,
    color: u8,
)
    requires
        coords.bounded(),
        old(zbuffer)@.len() == old(image_canvas).width() * old(image_canvas).height(),
    ensures
        final(image_canvas).width() == old(image_canvas).width(),
        final(image_canvas).height() == old(image_canvas).height(),
        final(zbuffer)@.len() == old(zbuffer)@.len(),
        forall|x: int, y: int|
            old(image_canvas).in_bounds(x, y) ==> (
                #[trigger] final(zbuffer)@[cell_index(x, y, old(image_canvas).width() as int)],
                final(image_canvas).pixel(x, y),
            ) == filled_cell(
                coords,
                old(image_canvas).width() as int,
                old(image_canvas).height() as int,
                color,
                x,
                y,
                (
                    old(zbuffer)@[cell_index(x, y, old(image_canvas).width() as int)],
                    old(image_canvas).pixel(x, y),
                ),
            ),
{
    fill_with_depth_test(coords, zbuffer, image_canvas, Shading::Flat(color))
}

/// Where a mesh-space position falls on a screen of `width` by `height`
/// pixels, its column and its row kept below the coordinate limit.
pub open spec fn screen_point(p: Point3, width: int, height: int) -> Point3 {
    Point3(
        held_coordinate(p.projected(width, height).0 as int) as i64,
        held_coordinate(p.projected(width, height).1 as int) as i64,
        p.2,
    )
}

/// The triangle that a face covers on a screen of `width` by `height`
/// pixels; none where an index of the face names no vertex.
pub open spec fn screen_triangle_of(
    vertices: Seq<Vertex>,
    face: Vec3Unsigned,
    width: int,
    height: int,
) -> Option<TriangleCoords3> {
    match (
        lookup(vertices, face.0 as int),
        lookup(vertices, face.1 as int),
        lookup(vertices, face.2 as int),
    ) {
        (Some(a), Some(b), Some(c)) => Some(
            TriangleCoords3(
                screen_point(a.xyz, width, height),
                screen_point(b.xyz, width, height),
                screen_point(c.xyz, width, height),
            ),
        ),
        _ => None,
    }
}

/// Whether `point` is where the vertex with the index `index` falls on the
/// screen.
pub open spec fn is_projection(
    vertices: Seq<Vertex>,
    index: usize,
    width: int,
    height: int,
    point: Point3,
) -> bool {
    &&& lookup(vertices, index as int) is Some
    &&& point == screen_point(lookup(vertices, index as int)->0.xyz, width, height)
    &&& point.bounded()
}

/// The triangle that the face `verts` of `model` covers on a screen of
/// `width` by `height` pixels.
pub fn screen_triangle(
    model: &WavefronObject,
    verts: &Vec3Unsigned,
    width: usize,
    height: usize,
) -> (triangle: Option<TriangleCoords3>)
    ensures
        triangle == screen_triangle_of(model.vertices(), *verts, width as int, height as int),
        triangle matches Some(t) ==> t.bounded(),
{
    let indices = verts.unravel_vec();
    let mut v3: Vec<Point3> = Vec::new();
    let mut i: usize = 0;
    while i < indices.len()
        invariant
            i <= indices@.len(),
            indices@ == seq![verts.0, verts.1, verts.2],
            v3@.len() == i,
            forall|k: int|
                0 <= k < i ==> is_projection(
                    model.vertices(),
                    indices@[k],
                    width as int,
                    height as int,
                    #[trigger] v3@[k],
                ),
        decreases indices.len() - i,
    {
        let v = indices[i];
        match model.get_vertex_at_index(&v) {
            None => {
                return None;
            },
            Some(vertex) => {
                let w2s = vertex.xyz.from_world_to_screen(width, height);
                v3.push(Point3(hold_coordinate(w2s.0), hold_coordinate(w2s.1), w2s.2));
            },
        }
        i += 1;
    }
    let pts = TriangleCoords3::from_vec(v3);
    Some(pts)
}

/// What the fills of the first `n` of the `faces`, each with its color, make
/// of the cell at column `x` of row `y`. A face that names a vertex the mesh
/// does not have is passed over.
pub open spec fn shaded_cell(
    vertices: Seq<Vertex>,
    faces: Seq<Vec3Unsigned>,
    colors: Seq<u8>,
    n: int,
    width: int,
    height: int,
    x: int,
    y: int,
    cell: (i64, u8),
) -> (i64, u8)
    decreases n,
{
    if n <= 0 {
        cell
    } else {
        let before = shaded_cell(vertices, faces, colors, n - 1, width, height, x, y, cell);
        match screen_triangle_of(vertices, faces[n - 1], width, height) {
            Some(triangle) => filled_cell(triangle, width, height, colors[n - 1], x, y, before),
            None => before,
        }
    }
}

/// Whether `after` is what the depth-tested fills of all `faces`, with the
/// `colors` in their order, make of the frame `before`, on a depth buffer
/// that starts empty.
pub open spec fn is_shading(
    vertices: Seq<Vertex>,
    faces: Seq<Vec3Unsigned>,
    colors: Seq<u8>,
    before: Canvas,
    after: Canvas,
) -> bool {
    &&& colors.len() == faces.len()
    &&& after.width() == before.width()
    &&& after.height() == before.height()
    &&& forall|x: int, y: int|
        before.in_bounds(x, y) ==> #[trigger] after.pixel(x, y) == shaded_cell(
            vertices,
            faces,
            colors,
            faces.len() as int,
            before.width() as int,
            before.height() as int,
            x,
            y,
            (EMPTY_DEPTH, before.pixel(x, y)),
        ).1
}

/// The fills of the first `n` faces read no color behind the first `n`.
pub proof fn lemma_shaded_cell_reads_prefix(
    vertices: Seq<Vertex>,
    faces: Seq<Vec3Unsigned>,
    first: Seq<u8>,
    second: Seq<u8>,
    n: int,
    width: int,
    height: int,
    x: int,
    y: int,
    cell: (i64, u8),
)
    requires
        forall|k: int| 0 <= k < n ==> first[k] == second[k],
    ensures
        shaded_cell(vertices, faces, first, n, width, height, x, y, cell) == shaded_cell(
            vertices,
            faces,
            second,
            n,
            width,
            height,
            x,
            y,
            cell,
        ),
    decreases n,
{
    if n > 0 {
        lemma_shaded_cell_reads_prefix(
            vertices,
            faces,
            first,
            second,
            n - 1,
            width,
            height,
            x,
            y,
            cell,
        );
    }
}

/// Fills every face of `model` that names all three of its vertices, in the
/// order of the mesh, with a depth test on a depth buffer of its own, each
/// face in a color that chance picks. Whatever the colors are, the frame is
/// what the fills with those colors make of it.
pub fn shade_threaded_with_zbuffer(model: &WavefronObject, image_canvas: &mut Canvas)
    ensures
        exists|colors: Seq<u8>| #[trigger]
            is_shading(
                model.vertices(),
                model.vertex_faces(),
                colors,
                *old(image_canvas),
                *final(image_canvas),
            ),
{
    let (w, h) = image_canvas.get_size();
    proof {
        use_type_invariant(&*image_canvas);
        assert(w * h <= usize::MAX) by (nonlinear_arith)
            requires
                h == 0 || w * h * 8 <= isize::MAX,
                0 <= w,
                0 <= h,
        ;
    }
    let mut zbuffer = new_depth_buffer(w, h);
    let face_vertices = model.get_vert_triplets_from_face_elements();
    let ghost vertices = model.vertices();
    let ghost mut colors: Seq<u8> = Seq::empty();
    let mut i: usize = 0;
    proof {
        assert forall|x: int, y: int| old(image_canvas).in_bounds(x, y) implies (
            #[trigger] zbuffer@[cell_index(x, y, w as int)],
            image_canvas.pixel(x, y),
        ) == (EMPTY_DEPTH, old(image_canvas).pixel(x, y)) by {
            lemma_cell_index_bounds(x, y, w as int, h as int);
        }
    }
    while i < face_vertices.len()
        invariant
            i <= face_vertices@.len(),
            vertices == model.vertices(),
            colors.len() == i,
            w == old(image_canvas).width(),
            h == old(image_canvas).height(),
            image_canvas.width() == old(image_canvas).width(),
            image_canvas.height() == old(image_canvas).height(),
            zbuffer@.len() == w * h,
            forall|x: int, y: int|
                old(image_canvas).in_bounds(x, y) ==> (
                    #[trigger] zbuffer@[cell_index(x, y, w as int)],
                    image_canvas.pixel(x, y),
                ) == shaded_cell(
                    vertices,
                    face_vertices@,
                    colors,
                    i as int,
                    w as int,
                    h as int,
                    x,
                    y,
                    (EMPTY_DEPTH, old(image_canvas).pixel(x, y)),
                ),
        decreases face_vertices.len() - i,
    {
        let verts = face_vertices[i];
        let color = random_color();
        let ghost earlier = colors;
        let ghost canvas_before = *image_canvas;
        let ghost depths_before = zbuffer@;
        proof {
            colors = colors.push(color);
        }
        match screen_triangle(model, &verts, w, h) {
            None => {},
            Some(pts) => {
                draw_triangle_threaded_with_zbuffer(pts, &mut zbuffer, image_canvas, color);
            },
        }
        proof {
            assert forall|x: int, y: int| old(image_canvas).in_bounds(x, y) implies (
                #[trigger] zbuffer@[cell_index(x, y, w as int)],
                image_canvas.pixel(x, y),
            ) == shaded_cell(
                vertices,
                face_vertices@,
                colors,
                i as int + 1,
                w as int,
                h as int,
                x,
                y,
                (EMPTY_DEPTH, old(image_canvas).pixel(x, y)),
            ) by {
                lemma_shaded_cell_reads_prefix(
                    vertices,
                    face_vertices@,
                    earlier,
                    colors,
                    i as int,
                    w as int,
                    h as int,
                    x,
                    y,
                    (EMPTY_DEPTH, old(image_canvas).pixel(x, y)),
                );
                assert((depths_before[cell_index(x, y, w as int)], canvas_before.pixel(x, y))
                    == shaded_cell(
                    vertices,
                    face_vertices@,
                    earlier,
                    i as int,
                    w as int,
                    h as int,
                    x,
                    y,
                    (EMPTY_DEPTH, old(image_canvas).pixel(x, y)),
                ));
            }
        }
        i += 1;
    }
    proof {
        assert forall|x: int, y: int|
            old(image_canvas).in_bounds(x, y) implies #[trigger] image_canvas.pixel(x, y)
            == shaded_cell(
            vertices,
            face_vertices@,
            colors,
            face_vertices@.len() as int,
            w as int,
            h as int,
            x,
            y,
            (EMPTY_DEPTH, old(image_canvas).pixel(x, y)),
        ).1 by {
            let depth = zbuffer@[cell_index(x, y, w as int)];
        }
        assert(is_shading(
            vertices,
            face_vertices@,
            colors,
            *old(image_canvas),
            *image_canvas,
        ));
    }
}

} // verus!
