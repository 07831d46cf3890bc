//! What holds of barycentric weights, bounding boxes and grids of positions.

use crate::arithmetic::span;
use crate::linear_algebra::{
    barycentric, cramer, edge_cross, grid, max3, min3, screen_coordinate, Point2, Point3, UNIT,
};
use vstd::prelude::*;

verus! {

/// Whether `d * p == a * ta + b * tb + c * tc` along both axes, with
/// `d == a + b + c`: the position `p` is the combination of the three corners
/// with the weights `a / d`, `b / d` and `c / d`.
pub open spec fn is_combination(
    ta: (int, int),
    tb: (int, int),
    tc: (int, int),
    p: (int, int),
    a: int,
    b: int,
    c: int,
) -> bool {
    &&& (a + b + c) * p.0 == a * ta.0 + b * tb.0 + c * tc.0
    &&& (a + b + c) * p.1 == a * ta.1 + b * tb.1 + c * tc.1
}

/// Twice the area of the triangle `(ta, tb, tc)`, with a sign that tells its
/// orientation; zero for a triangle without area.
pub open spec fn doubled_area(ta: (int, int), tb: (int, int), tc: (int, int)) -> int {
    (tc.0 - ta.0) * (tb.1 - ta.1) - (tb.0 - ta.0) * (tc.1 - ta.1)
}

/// Whether `p` lies strictly inside the triangle `(ta, tb, tc)`: the triangle
/// has an area, and `p` is a combination of its corners with three positive
/// weights.
pub open spec fn strictly_inside(ta: (int, int), tb: (int, int), tc: (int, int), p: (int, int)) -> bool {
    &&& doubled_area(ta, tb, tc) != 0
    &&& exists|a: int, b: int, c: int|
        a > 0 && b > 0 && c > 0 && #[trigger] is_combination(ta, tb, tc, p, a, b, c)
}

/// Whether `p` lies in the convex hull of `ta`, `tb` and `tc`: it is a
/// combination of them with weights that are not negative.
pub open spec fn in_hull(ta: (int, int), tb: (int, int), tc: (int, int), p: (int, int)) -> bool {
    exists|a: int, b: int, c: int|
        a >= 0 && b >= 0 && c >= 0 && a + b + c > 0 && #[trigger] is_combination(
            ta,
            tb,
            tc,
            p,
            a,
            b,
            c,
        )
}

/// The third component of the edge cross product is the doubled area, and the
/// three components rebuild the position from the corners:
/// `(w - u - v) * ta + v * tb + u * tc == w * p`.
pub proof fn lemma_edge_cross_rebuilds(ta: (int, int), tb: (int, int), tc: (int, int), p: (int, int))
    ensures
        edge_cross(ta, tb, tc, p).2 == doubled_area(ta, tb, tc),
        ({
            let (u, v, w) = edge_cross(ta, tb, tc, p);
            is_combination(ta, tb, tc, p, w - u - v, v, u)
        }),
{
    let (u, v, w) = edge_cross(ta, tb, tc, p);
    let e1 = tb.0 - ta.0;
    let e2 = tc.0 - ta.0;
    let f1 = tb.1 - ta.1;
    let f2 = tc.1 - ta.1;
    let dx = ta.0 - p.0;
    let dy = ta.1 - p.1;
    assert(u == e1 * dy - dx * f1);
    assert(v == dx * f2 - e2 * dy);
    assert(w == e2 * f1 - e1 * f2);
    assert(v * e1 + u * e2 == -(dx * w)) by (nonlinear_arith)
        requires
            u == e1 * dy - dx * f1,
            v == dx * f2 - e2 * dy,
            w == e2 * f1 - e1 * f2,
    ;
    assert(v * f1 + u * f2 == -(dy * w)) by (nonlinear_arith)
        requires
            u == e1 * dy - dx * f1,
            v == dx * f2 - e2 * dy,
            w == e2 * f1 - e1 * f2,
    ;
    lemma_rebuild_axis(ta.0, tb.0, tc.0, p.0, u, v, w);
    lemma_rebuild_axis(ta.1, tb.1, tc.1, p.1, u, v, w);
}

/// Along one axis: if `v * (b - a) + u * (c - a) == -((a - p) * w)`, then
/// `w * p == (w - u - v) * a + v * b + u * c`.
proof fn lemma_rebuild_axis(a: int, b: int, c: int, p: int, u: int, v: int, w: int)
    requires
        v * (b - a) + u * (c - a) == -((a - p) * w),
    ensures
        ((w - u - v) + v + u) * p == (w - u - v) * a + v * b + u * c,
{
    assert(v * (b - a) == v * b - v * a) by (nonlinear_arith);
    assert(u * (c - a) == u * c - u * a) by (nonlinear_arith);
    assert((a - p) * w == w * a - w * p) by (nonlinear_arith);
    assert((w - u - v) * a == w * a - u * a - v * a) by (nonlinear_arith);
    assert(((w - u - v) + v + u) * p == w * p) by (nonlinear_arith);
}

/// The three barycentric weights always sum to one: the numerators add up to
/// the denominator, which is positive. This holds of the weights of a
/// triangle without area too.
pub proof fn lemma_weights_sum_to_one(ta: (int, int), tb: (int, int), tc: (int, int), p: (int, int))
    ensures
        ({
            let (alpha, beta, gamma, scale) = barycentric(ta, tb, tc, p);
            alpha + beta + gamma == scale && scale > 0
        }),
{
}

/// The weights rebuild the position: `scale * p` is the sum of the corners,
/// each times its weight's numerator, unless the triangle has no area.
pub proof fn lemma_weights_rebuild(ta: (int, int), tb: (int, int), tc: (int, int), p: (int, int))
    requires
        doubled_area(ta, tb, tc) != 0,
    ensures
        ({
            let (alpha, beta, gamma, scale) = barycentric(ta, tb, tc, p);
            is_combination(ta, tb, tc, p, alpha, beta, gamma)
        }),
{
    lemma_edge_cross_rebuilds(ta, tb, tc, p);
    let (u, v, w) = edge_cross(ta, tb, tc, p);
    let (alpha, beta, gamma, scale) = barycentric(ta, tb, tc, p);
    if w < 0 {
        assert(is_combination(ta, tb, tc, p, -(w - u - v), -v, -u)) by (nonlinear_arith)
            requires
                is_combination(ta, tb, tc, p, w - u - v, v, u),
        ;
    }
}

/// For a position strictly inside a triangle, each of the three barycentric
/// weights is greater than zero, and they sum to one.
pub proof fn lemma_inside_weights_positive(
    ta: (int, int),
    tb: (int, int),
    tc: (int, int),
    p: (int, int),
)
    requires
        strictly_inside(ta, tb, tc, p),
    ensures
        ({
            let (alpha, beta, gamma, scale) = barycentric(ta, tb, tc, p);
            alpha > 0 && beta > 0 && gamma > 0 && scale > 0 && alpha + beta + gamma == scale
        }),
{
    let (a, b, c) = choose|a: int, b: int, c: int|
        a > 0 && b > 0 && c > 0 && #[trigger] is_combination(ta, tb, tc, p, a, b, c);
    let d = a + b + c;
    let (u, v, w) = edge_cross(ta, tb, tc, p);
    let e1 = tb.0 - ta.0;
    let e2 = tc.0 - ta.0;
    let f1 = tb.1 - ta.1;
    let f2 = tc.1 - ta.1;
    let dx = ta.0 - p.0;
    let dy = ta.1 - p.1;
    assert(w == doubled_area(ta, tb, tc));
    lemma_combination_offset(ta.0, tb.0, tc.0, p.0, a, b, c);
    lemma_combination_offset(ta.1, tb.1, tc.1, p.1, a, b, c);
    let sx = d * dx;
    let sy = d * dy;
    assert(u * d == e1 * sy - sx * f1) by (nonlinear_arith)
        requires
            u == e1 * dy - dx * f1,
            sx == d * dx,
            sy == d * dy,
    ;
    assert(e1 * sy - sx * f1 == c * w) by (nonlinear_arith)
        requires
            w == e2 * f1 - e1 * f2,
            sx == -(b * e1 + c * e2),
            sy == -(b * f1 + c * f2),
    ;
    assert(v * d == sx * f2 - e2 * sy) by (nonlinear_arith)
        requires
            v == dx * f2 - e2 * dy,
            sx == d * dx,
            sy == d * dy,
    ;
    assert(sx * f2 - e2 * sy == b * w) by (nonlinear_arith)
        requires
            w == e2 * f1 - e1 * f2,
            sx == -(b * e1 + c * e2),
            sy == -(b * f1 + c * f2),
    ;
    assert((w - u - v) * d == a * w) by (nonlinear_arith)
        requires
            u * d == c * w,
            v * d == b * w,
            d == a + b + c,
    ;
    if w > 0 {
        lemma_sign_of_quotient(u, d, c, w);
        lemma_sign_of_quotient(v, d, b, w);
        lemma_sign_of_quotient(w - u - v, d, a, w);
    } else {
        assert((-u) * d == c * (-w)) by (nonlinear_arith)
            requires
                u * d == c * w,
        ;
        assert((-v) * d == b * (-w)) by (nonlinear_arith)
            requires
                v * d == b * w,
        ;
        assert(((u + v) - w) * d == a * (-w)) by (nonlinear_arith)
            requires
                (w - u - v) * d == a * w,
        ;
        lemma_sign_of_quotient(-u, d, c, -w);
        lemma_sign_of_quotient(-v, d, b, -w);
        lemma_sign_of_quotient((u + v) - w, d, a, -w);
    }
}

/// Along one axis: a combination of `x`, `y` and `z` with the weights `a`,
/// `b` and `c` lies off `x` by the weighted offsets of `y` and `z`.
proof fn lemma_combination_offset(x: int, y: int, z: int, p: int, a: int, b: int, c: int)
    requires
        (a + b + c) * p == a * x + b * y + c * z,
    ensures
        (a + b + c) * (x - p) == -(b * (y - x) + c * (z - x)),
{
    let d = a + b + c;
    assert(d * (x - p) == d * x - d * p) by (nonlinear_arith);
    assert(d * x == a * x + b * x + c * x) by (nonlinear_arith)
        requires
            d == a + b + c,
    ;
    assert(b * (y - x) == b * y - b * x) by (nonlinear_arith);
    assert(c * (z - x) == c * z - c * x) by (nonlinear_arith);
}

/// If `n * d == c * w` with `d`, `c` and `w` positive, then `n` is positive.
pub proof fn lemma_sign_of_quotient(n: int, d: int, c: int, w: int)
    requires
        n * d == c * w,
        d > 0,
        c > 0,
        w > 0,
    ensures
        n > 0,
{
    assert(n > 0) by (nonlinear_arith)
        requires
            n * d == c * w,
            d > 0,
            c > 0,
            w > 0,
    ;
}

/// For a position outside the convex hull of a triangle's corners, at least
/// one barycentric weight is less than zero. The weights `(-1, 1, 1)` of a
/// triangle without area are of that kind.
pub proof fn lemma_outside_weight_negative(
    ta: (int, int),
    tb: (int, int),
    tc: (int, int),
    p: (int, int),
)
    requires
        !in_hull(ta, tb, tc, p),
    ensures
        ({
            let (alpha, beta, gamma, scale) = barycentric(ta, tb, tc, p);
            alpha < 0 || beta < 0 || gamma < 0
        }),
{
    let (alpha, beta, gamma, scale) = barycentric(ta, tb, tc, p);
    lemma_edge_cross_rebuilds(ta, tb, tc, p);
    if doubled_area(ta, tb, tc) != 0 {
        lemma_weights_rebuild(ta, tb, tc, p);
        if alpha >= 0 && beta >= 0 && gamma >= 0 {
            assert(is_combination(ta, tb, tc, p, alpha, beta, gamma));
            assert(in_hull(ta, tb, tc, p));
        }
    }
}

/// A position with three positive weights lies within the bounding box of the
/// corners.
pub proof fn lemma_covered_within_box(ta: (int, int), tb: (int, int), tc: (int, int), p: (int, int))
    requires
        ({
            let (alpha, beta, gamma, scale) = barycentric(ta, tb, tc, p);
            alpha > 0 && beta > 0 && gamma > 0
        }),
    ensures
        min3(ta.0, tb.0, tc.0) <= p.0 <= max3(ta.0, tb.0, tc.0),
        min3(ta.1, tb.1, tc.1) <= p.1 <= max3(ta.1, tb.1, tc.1),
{
    let (alpha, beta, gamma, scale) = barycentric(ta, tb, tc, p);
    lemma_edge_cross_rebuilds(ta, tb, tc, p);
    assert(doubled_area(ta, tb, tc) != 0);
    lemma_weights_rebuild(ta, tb, tc, p);
    lemma_combination_between(ta.0, tb.0, tc.0, p.0, alpha, beta, gamma);
    lemma_combination_between(ta.1, tb.1, tc.1, p.1, alpha, beta, gamma);
}

/// A combination of three numbers with positive weights lies between the
/// least and the greatest of them.
pub proof fn lemma_combination_between(x: int, y: int, z: int, p: int, a: int, b: int, c: int)
    requires
        a > 0 && b > 0 && c > 0,
        (a + b + c) * p == a * x + b * y + c * z,
    ensures
        min3(x, y, z) <= p <= max3(x, y, z),
{
    let lo = min3(x, y, z);
    let hi = max3(x, y, z);
    assert(p >= lo) by (nonlinear_arith)
        requires
            a > 0 && b > 0 && c > 0,
            (a + b + c) * p == a * x + b * y + c * z,
            lo <= x && lo <= y && lo <= z,
    {
        assert(a * x >= a * lo);
        assert(b * y >= b * lo);
        assert(c * z >= c * lo);
        assert((a + b + c) * p >= (a + b + c) * lo);
    }
    assert(p <= hi) by (nonlinear_arith)
        requires
            a > 0 && b > 0 && c > 0,
            (a + b + c) * p == a * x + b * y + c * z,
            hi >= x && hi >= y && hi >= z,
    {
        assert(a * x <= a * hi);
        assert(b * y <= b * hi);
        assert(c * z <= c * hi);
        assert((a + b + c) * p <= (a + b + c) * hi);
    }
}

/// The two ways to the barycentric weights agree: Cramer's rule gives the
/// weights that the cross product of the edge relations gives, for every
/// triangle and every position.
pub proof fn lemma_cramer_agrees(ta: (int, int), tb: (int, int), tc: (int, int), p: (int, int))
    ensures
        cramer(ta, tb, tc, p) == barycentric(ta, tb, tc, p),
{
    let (u, v, w) = edge_cross(ta, tb, tc, p);
    let first = (tb.1 - tc.1) * (p.0 - tc.0) + (tc.0 - tb.0) * (p.1 - tc.1);
    let second = (tc.1 - ta.1) * (p.0 - tc.0) + (ta.0 - tc.0) * (p.1 - tc.1);
    let whole = (tb.1 - tc.1) * (ta.0 - tc.0) + (tc.0 - tb.0) * (ta.1 - tc.1);
    lemma_determinant(ta.0, ta.1, tb.0, tb.1, tc.0, tc.1, whole);
    lemma_determinant(p.0, p.1, tb.0, tb.1, tc.0, tc.1, first);
    assert((tc.1 - ta.1) * (p.0 - tc.0) == (tc.0 - p.0) * (ta.1 - tc.1)) by (nonlinear_arith);
    assert((ta.0 - tc.0) * (p.1 - tc.1) == (p.1 - tc.1) * (ta.0 - tc.0)) by (nonlinear_arith);
    lemma_determinant(ta.0, ta.1, p.0, p.1, tc.0, tc.1, second);
    lemma_edge_determinant(ta.0, ta.1, tb.0, tb.1, tc.0, tc.1, p.0, p.1);
}

/// The determinant `(by - cy) * (ax - cx) + (cx - bx) * (ay - cy)`, written
/// out as a sum of products of coordinates.
proof fn lemma_determinant(ax: int, ay: int, bx: int, by: int, cx: int, cy: int, d: int)
    requires
        d == (by - cy) * (ax - cx) + (cx - bx) * (ay - cy),
    ensures
        d == ax * by - ax * cy - bx * ay + bx * cy + cx * ay - cx * by,
{
    assert((by - cy) * (ax - cx) == ax * by - cx * by - ax * cy + cx * cy) by (nonlinear_arith);
    assert((cx - bx) * (ay - cy) == cx * ay - cx * cy - bx * ay + bx * cy) by (nonlinear_arith);
}

/// The three components of the edge cross product, written out as sums of
/// products of coordinates.
proof fn lemma_edge_determinant(
    ax: int,
    ay: int,
    bx: int,
    by: int,
    cx: int,
    cy: int,
    px: int,
    py: int,
)
    ensures
        edge_cross((ax, ay), (bx, by), (cx, cy), (px, py)).0 == -(ax * by - ax * py - bx * ay + bx
            * py + px * ay - px * by),
        edge_cross((ax, ay), (bx, by), (cx, cy), (px, py)).1 == -(ax * py - ax * cy - px * ay + px
            * cy + cx * ay - cx * py),
        edge_cross((ax, ay), (bx, by), (cx, cy), (px, py)).2 == -(ax * by - ax * cy - bx * ay + bx
            * cy + cx * ay - cx * by),
{
    assert((bx - ax) * (ay - py) == bx * ay - ax * ay - bx * py + ax * py) by (nonlinear_arith);
    assert((ax - px) * (by - ay) == ax * by - px * by - ax * ay + px * ay) by (nonlinear_arith);
    assert((ax - px) * (cy - ay) == ax * cy - px * cy - ax * ay + px * ay) by (nonlinear_arith);
    assert((cx - ax) * (ay - py) == cx * ay - ax * ay - cx * py + ax * py) by (nonlinear_arith);
    assert((cx - ax) * (by - ay) == cx * by - ax * by - cx * ay + ax * ay) by (nonlinear_arith);
    assert((bx - ax) * (cy - ay) == bx * cy - ax * cy - bx * ay + ax * ay) by (nonlinear_arith);
}

/// The origin of mesh space falls on the center of the screen: on an axis of
/// `size` pixels its coordinate is `size / 2`, whatever the size.
pub proof fn lemma_origin_projects_to_center(size: int)
    requires
        0 <= size <= usize::MAX,
    ensures
        screen_coordinate(0, size) == size / 2,
{
    let q = size / 2;
    let r = size % 2;
    assert(UNIT * size == q * (2 * UNIT) + UNIT * r) by (nonlinear_arith)
        requires
            size == 2 * q + r,
    ;
    vstd::arithmetic::div_mod::lemma_fundamental_div_mod_converse(
        UNIT * size,
        2 * UNIT,
        q,
        UNIT * r,
    );
    assert((0 + UNIT) * size == UNIT * size);
}

/// A position at the origin of mesh space falls on the center pixel of the
/// screen, at every depth and on a screen of every size, and keeps its depth.
pub proof fn lemma_origin_falls_on_center(z: i64, width: usize, height: usize)
    ensures
        Point3(0, 0, z).projected(width as int, height as int) == Point3(
            (width / 2) as i64,
            (height / 2) as i64,
            z,
        ),
{
    lemma_origin_projects_to_center(width as int);
    lemma_origin_projects_to_center(height as int);
}

/// Whether `(x, y)` lies in the box between the corners `low` and `high`.
pub open spec fn in_box(low: Point2, high: Point2, x: int, y: int) -> bool {
    low.0 <= x <= high.0 && low.1 <= y <= high.1
}

/// The place of the position `(x, y)` in the grid between `low` and `high`.
pub open spec fn grid_index(low: Point2, high: Point2, x: int, y: int) -> int {
    (x - low.0) * span(low.1 as int, high.1 as int) + (y - low.1)
}

/// Every position of a box stands in its grid, at its own place.
pub proof fn lemma_grid_holds_box(low: Point2, high: Point2, x: int, y: int)
    requires
        in_box(low, high, x, y),
    ensures
        0 <= grid_index(low, high, x, y) < grid(low, high).len(),
        grid(low, high)[grid_index(low, high, x, y)] == (x as i32, y as i32),
{
    let nx = span(low.0 as int, high.0 as int) as int;
    let ny = span(low.1 as int, high.1 as int) as int;
    let i = x - low.0;
    let j = y - low.1;
    let k = grid_index(low, high, x, y);
    assert(0 <= i * ny && i * ny + ny <= nx * ny) by (nonlinear_arith)
        requires
            0 <= i < nx,
            0 < ny,
    ;
    vstd::arithmetic::div_mod::lemma_fundamental_div_mod_converse(k, ny, i, j);
}

/// Every entry of a grid is a position of its box, and stands at that
/// position's place.
pub proof fn lemma_grid_within_box(low: Point2, high: Point2, k: int)
    requires
        0 <= k < grid(low, high).len(),
    ensures
        in_box(low, high, grid(low, high)[k].0 as int, grid(low, high)[k].1 as int),
        grid_index(low, high, grid(low, high)[k].0 as int, grid(low, high)[k].1 as int) == k,
{
    let nx = span(low.0 as int, high.0 as int) as int;
    let ny = span(low.1 as int, high.1 as int) as int;
    assert(nx > 0 && ny > 0) by (nonlinear_arith)
        requires
            0 <= k < nx * ny,
            nx >= 0,
            ny >= 0,
    ;
    vstd::arithmetic::div_mod::lemma_fundamental_div_mod(k, ny);
    vstd::arithmetic::div_mod::lemma_mod_bound(k, ny);
    vstd::arithmetic::div_mod::lemma_div_pos_is_pos(k, ny);
    let i = k / ny;
    let j = k % ny;
    assert(i < nx) by (nonlinear_arith)
        requires
            k == ny * i + j,
            0 <= j,
            k < nx * ny,
            ny > 0,
    ;
    assert(ny * i == i * ny) by (nonlinear_arith);
}

/// The place of the cell at column `x` of row `y` in a buffer that holds its
/// rows of `width` cells one after the other.
pub open spec fn cell_index(x: int, y: int, width: int) -> int {
    x + y * width
}

/// A cell of a buffer of `width` by `height` cells has its place within the
/// buffer.
pub proof fn lemma_cell_index_bounds(x: int, y: int, width: int, height: int)
    requires
        0 <= x < width,
        0 <= y < height,
    ensures
        0 <= y * width,
        0 <= cell_index(x, y, width) < width * height,
{
    assert(0 <= y * width && y * width + width <= width * height) by (nonlinear_arith)
        requires
            0 <= y < height,
            0 < width,
    ;
}

/// Two cells of a buffer that share their place are the same cell.
pub proof fn lemma_cell_index_unique(x1: int, y1: int, x2: int, y2: int, width: int)
    requires
        0 <= x1 < width,
        0 <= x2 < width,
        cell_index(x1, y1, width) == cell_index(x2, y2, width),
    ensures
        x1 == x2,
        y1 == y2,
{
    vstd::arithmetic::div_mod::lemma_fundamental_div_mod_converse(
        cell_index(x1, y1, width),
        width,
        y1,
        x1,
    );
    vstd::arithmetic::div_mod::lemma_fundamental_div_mod_converse(
        cell_index(x2, y2, width),
        width,
        y2,
        x2,
    );
}

} // verus!
