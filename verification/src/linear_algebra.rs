//! Points, vectors and triangles, and the arithmetic on them.

use crate::arithmetic::{
    fits, floor_div, integer_sqrt, is_integer_sqrt, lemma_product_bound, magnitude, root, span,
    wide_product,
};
use crate::read_tga::{texel_at, Texture};
use crate::wavefront_parser::Vertex;
use itertools::Itertools;
use vstd::prelude::*;

verus! {

/// How many units make one: mesh-space coordinates, depths, light directions
/// and intensities are counted in millionths.
pub const UNIT: i64 = 1_000_000;

/// The magnitude below which a coordinate in space must stay for the
/// arithmetic of the pipeline to fit the machine's integers.
pub const COORDINATE_LIMIT: i64 = 1073741824;

/// A pixel position, or a difference of two: column first, then row.
#[derive(Clone, Copy, Debug, PartialEq, Eq, Structural)]
pub struct Point2(pub i32, pub i32);

/// All positions `(x, y)` with `from.0 <= x <= to.0` and `from.1 <= y <= to.1`,
/// column by column, each column from its lowest row up.
pub open spec fn grid(from: Point2, to: Point2) -> Seq<(i32, i32)> {
    Seq::new(
        span(from.0 as int, to.0 as int) * span(from.1 as int, to.1 as int),
        |k: int|
            (
                (from.0 + k / (span(from.1 as int, to.1 as int) as int)) as i32,
                (from.1 + k % (span(from.1 as int, to.1 as int) as int)) as i32,
            ),
    )
}

/// `itertools::Itertools::cartesian_product` of the ranges `x0..=x1` and
/// `y0..=y1`, collected with `collect_vec`: every pair of the two ranges, the
/// first component varying slowest. The pairs must fit in one allocation.
#[verifier::external_body]
fn cartesian_pairs(x0: i32, x1: i32, y0: i32, y1: i32) -> (pairs: Vec<(i32, i32)>)
    requires
        span(x0 as int, x1 as int) * span(y0 as int, y1 as int) * 8 <= isize::MAX,
    ensures
        pairs@ == grid(Point2(x0, y0), Point2(x1, y1)),
{
    (x0..=x1).cartesian_product(y0..=y1).collect_vec()
}

/// `num_traits::Signed::abs` on `i32`: the absolute value, which `i32::MIN`
/// does not have.
#[verifier::external_body]
fn signed_abs(p: i32) -> (r: i32)
    requires
        p > i32::MIN,
    ensures
        r == magnitude(p as int),
{
    num_traits::Signed::abs(&p)
}

/// `num_traits::ToPrimitive::to_usize` on `i32`: the same number for a
/// non-negative value, nothing for a negative one.
#[verifier::external_body]
fn checked_index(p: i32) -> (r: Option<usize>)
    ensures
        r == if p >= 0 {
            Some(p as usize)
        } else {
            None
        },
{
    num_traits::ToPrimitive::to_usize(&p)
}

/// The index that a signed coordinate addresses: its absolute value.
pub fn convert_to_screen_coords(p: i32) -> (index: usize)
    ensures
        index == magnitude(p as int),
{
    if p == i32::MIN {
        2147483648usize
    } else {
        match checked_index(signed_abs(p)) {
            Some(index) => index,
            None => 0,
        }
    }
}

impl Point2 {
    /// The point at column `x` of row `y`.
    pub fn new(x: i32, y: i32) -> (point: Self)
        ensures
            point == Point2(x, y),
    {
        Point2(x, y)
    }

    /// Both components, by value.
    pub fn get_pair_as_clones(&self) -> (pair: (i32, i32))
        ensures
            pair == (self.0, self.1),
    {
        (self.0, self.1)
    }

    /// Both components, by reference.
    pub fn unravel(&self) -> (pair: (&i32, &i32))
        ensures
            *pair.0 == self.0,
            *pair.1 == self.1,
    {
        (&self.0, &self.1)
    }

    /// Both components, for writing.
    pub fn unravel_mut(&mut self) -> (pair: (&mut i32, &mut i32))
        ensures
            *pair.0 == old(self).0,
            *pair.1 == old(self).1,
            *final(self) == Point2(*final(pair.0), *final(pair.1)),
    {
        (&mut self.0, &mut self.1)
    }

    /// The point in space with the same column and row and the third
    /// component one.
    pub fn expand(&self) -> (point: Point3)
        ensures
            point == Point3(self.0 as i64, self.1 as i64, 1),
    {
        Point3(self.0 as i64, self.1 as i64, 1)
    }
}

/// The product of two points is a vector that `mul` builds, so no value of
/// the specification stands for it: what `mul` returns is stated on `mul`.
impl vstd::std_specs::ops::MulSpecImpl for Point2 {
    open spec fn obeys_mul_spec() -> bool {
        false
    }

    open spec fn mul_req(self, rhs: Point2) -> bool {
        span(self.0 as int, rhs.0 as int) * span(self.1 as int, rhs.1 as int) * 8 <= isize::MAX
    }

    open spec fn mul_spec(self, rhs: Point2) -> Vec<(i32, i32)> {
        arbitrary()
    }
}

/// `from * to` lists the positions of the box between two corners.
impl std::ops::Mul for Point2 {
    type Output = Vec<(i32, i32)>;

    fn mul(self, rhs: Point2) -> (pairs: Vec<(i32, i32)>)
        ensures
            pairs@ == grid(self, rhs),
    {
        cartesian_pairs(self.0, rhs.0, self.1, rhs.1)
    }
}

impl vstd::std_specs::ops::SubSpecImpl for Point2 {
    open spec fn obeys_sub_spec() -> bool {
        true
    }

    open spec fn sub_req(self, rhs: Point2) -> bool {
        &&& i32::MIN <= self.0 - rhs.0 <= i32::MAX
        &&& i32::MIN <= self.1 - rhs.1 <= i32::MAX
    }

    open spec fn sub_spec(self, rhs: Point2) -> Point2 {
        Point2((self.0 - rhs.0) as i32, (self.1 - rhs.1) as i32)
    }
}

/// `a - b` is the componentwise difference, where it fits.
impl std::ops::Sub for Point2 {
    type Output = Point2;

    fn sub(self, rhs: Point2) -> Point2 {
        let (x, y) = self.get_pair_as_clones();
        let (ox, oy) = rhs.get_pair_as_clones();
        Point2::new(x - ox, y - oy)
    }
}

impl vstd::std_specs::core::IndexSpecImpl<usize> for Point2 {
    open spec fn index_req(&self, index: &usize) -> bool {
        *index < 2
    }
}

/// `p[0]` is the column and `p[1]` the row.
impl std::ops::Index<usize> for Point2 {
    type Output = i32;

    fn index(&self, index: usize) -> (output: &i32)
        ensures
            *output == if index == 0 {
                self.0
            } else {
                self.1
            },
    {
        let (first, second) = self.unravel();
        if index == 0 {
            first
        } else {
            second
        }
    }
}

impl std::ops::IndexMut<usize> for Point2 {
    fn index_mut(&mut self, index: usize) -> (output: &mut i32)
        ensures
            *output == if index == 0 {
                old(self).0
            } else {
                old(self).1
            },
            *final(self) == if index == 0 {
                Point2(*final(output), old(self).1)
            } else {
                Point2(old(self).0, *final(output))
            },
    {
        let (first, second) = self.unravel_mut();
        if index == 0 {
            first
        } else {
            second
        }
    }
}

/// A position or direction in space.
#[derive(Clone, Copy, Debug, PartialEq, Eq, Structural)]
pub struct Point3(pub i64, pub i64, pub i64);

/// A second kind of triple; nothing in the pipeline reads it.
#[derive(Clone, Copy, Debug)]
pub struct Point4(i64, i64, i64);

/// The cross product of two vectors, by the right-hand rule.
pub open spec fn cross(a: (int, int, int), b: (int, int, int)) -> (int, int, int) {
    (a.1 * b.2 - a.2 * b.1, a.2 * b.0 - a.0 * b.2, a.0 * b.1 - a.1 * b.0)
}

/// The dot product of two vectors.
pub open spec fn dot(a: (int, int, int), b: (int, int, int)) -> int {
    a.0 * b.0 + a.1 * b.1 + a.2 * b.2
}

/// The quotient `n * UNIT / d`, rounded down: the ratio of `n` to `d` as a
/// fixed-point number.
pub open spec fn ratio(n: int, d: int) -> int {
    (n * UNIT) / d
}

/// The pixel coordinate of the mesh-space coordinate `world` on an axis of
/// `size` pixels: `(world + 1) * size / 2`, rounded down to a whole pixel, and
/// kept within the numbers that a coordinate can hold.
pub open spec fn screen_coordinate(world: int, size: int) -> int {
    let exact = ((world + UNIT) * size) / (2 * UNIT);
    if exact > i64::MAX {
        i64::MAX as int
    } else if exact < i64::MIN {
        i64::MIN as int
    } else {
        exact
    }
}

fn project_axis(world: i64, size: usize) -> (pixel: i64)
    requires
        -COORDINATE_LIMIT < world < COORDINATE_LIMIT,
    ensures
        pixel == screen_coordinate(world as int, size as int),
{
    let shifted: i128 = world as i128 + UNIT as i128;
    proof {
        lemma_product_bound(
            shifted as int,
            size as int,
            0x8000_0000,
            0x1_0000_0000_0000_0000,
        );
        assert(0x8000_0000int * 0x1_0000_0000_0000_0000int == 0x8000_0000_0000_0000_0000_0000int)
            by (nonlinear_arith);
    }
    let exact = floor_div(shifted * (size as i128), 2 * (UNIT as i128));
    if exact > i64::MAX as i128 {
        i64::MAX
    } else if exact < i64::MIN as i128 {
        i64::MIN
    } else {
        exact as i64
    }
}

/// The coordinate `v`, kept below the coordinate limit in magnitude.
pub open spec fn held_coordinate(v: int) -> int {
    if v >= COORDINATE_LIMIT {
        COORDINATE_LIMIT - 1
    } else if v <= -COORDINATE_LIMIT {
        1 - COORDINATE_LIMIT
    } else {
        v
    }
}

/// The coordinate `v`, kept below the coordinate limit in magnitude.
pub fn hold_coordinate(v: i64) -> (held: i64)
    ensures
        held == held_coordinate(v as int),
        -COORDINATE_LIMIT < held < COORDINATE_LIMIT,
{
    if v >= COORDINATE_LIMIT {
        COORDINATE_LIMIT - 1
    } else if v <= -COORDINATE_LIMIT {
        1 - COORDINATE_LIMIT
    } else {
        v
    }
}

/// The whole number nearest to `n / (2 * UNIT)`; of two that are equally near
/// the one farther from zero.
pub open spec fn rounded_half(n: int) -> int {
    if n >= 0 {
        (n + UNIT) / (2 * UNIT)
    } else {
        -((-n + UNIT) / (2 * UNIT))
    }
}

/// The pixel nearest to the mesh-space coordinate `world` on an axis of
/// `size` pixels: `(world + 1) * size / 2`, rounded to the nearest whole
/// number, away from zero where two are equally near, and kept within the
/// pixel coordinates.
pub open spec fn nearest_pixel(world: int, size: int) -> i32 {
    let exact = rounded_half((world + UNIT) * size);
    if exact > i32::MAX {
        i32::MAX
    } else if exact < i32::MIN {
        i32::MIN
    } else {
        exact as i32
    }
}

/// The pixel nearest to the mesh-space coordinate `world` on an axis of
/// `size` pixels.
pub fn round_to_pixel(world: i64, size: usize) -> (pixel: i32)
    requires
        -COORDINATE_LIMIT < world < COORDINATE_LIMIT,
    ensures
        pixel == nearest_pixel(world as int, size as int),
{
    let shifted: i128 = world as i128 + UNIT as i128;
    proof {
        lemma_product_bound(
            shifted as int,
            size as int,
            0x8000_0000,
            0x1_0000_0000_0000_0000,
        );
        assert(0x8000_0000int * 0x1_0000_0000_0000_0000int == 0x8000_0000_0000_0000_0000_0000int)
            by (nonlinear_arith);
    }
    let scaled = shifted * (size as i128);
    let exact: i128 = if scaled >= 0 {
        (scaled + UNIT as i128) / (2 * (UNIT as i128))
    } else {
        -((-scaled + UNIT as i128) / (2 * (UNIT as i128)))
    };
    if exact > i32::MAX as i128 {
        i32::MAX
    } else if exact < i32::MIN as i128 {
        i32::MIN
    } else {
        exact as i32
    }
}

/// The pixel of the mesh-space coordinate `world` on an axis of `size`
/// pixels when a coordinate left of the screen is folded back onto it: the
/// magnitude of `(world + 1) * size / 2`, rounded down, and kept within the
/// pixel coordinates.
pub open spec fn folded_pixel(world: int, size: int) -> i32 {
    let exact = magnitude((world + UNIT) * size) / (2 * UNIT);
    if exact > i32::MAX {
        i32::MAX
    } else {
        exact as i32
    }
}

/// The pixel of the mesh-space coordinate `world` on an axis of `size`
/// pixels, folded back onto the screen.
pub fn fold_to_pixel(world: i64, size: usize) -> (pixel: i32)
    requires
        -COORDINATE_LIMIT < world < COORDINATE_LIMIT,
    ensures
        pixel == folded_pixel(world as int, size as int),
        pixel >= 0,
{
    let shifted: i128 = world as i128 + UNIT as i128;
    proof {
        lemma_product_bound(
            shifted as int,
            size as int,
            0x8000_0000,
            0x1_0000_0000_0000_0000,
        );
        assert(0x8000_0000int * 0x1_0000_0000_0000_0000int == 0x8000_0000_0000_0000_0000_0000int)
            by (nonlinear_arith);
    }
    let scaled = shifted * (size as i128);
    let positive = if scaled < 0 {
        -scaled
    } else {
        scaled
    };
    let exact = positive / (2 * (UNIT as i128));
    if exact > i32::MAX as i128 {
        i32::MAX
    } else {
        exact as i32
    }
}

impl Point3 {
    /// The three components as integers.
    pub open spec fn triple(&self) -> (int, int, int) {
        (self.0 as int, self.1 as int, self.2 as int)
    }

    /// Whether every component stays below the coordinate limit in magnitude.
    pub open spec fn bounded(&self) -> bool {
        &&& -COORDINATE_LIMIT < self.0 < COORDINATE_LIMIT
        &&& -COORDINATE_LIMIT < self.1 < COORDINATE_LIMIT
        &&& -COORDINATE_LIMIT < self.2 < COORDINATE_LIMIT
    }

    /// The square of the length.
    pub open spec fn norm_squared(&self) -> int {
        dot(self.triple(), self.triple())
    }

    /// The length, rounded down to a whole number.
    pub open spec fn length(&self) -> int {
        root(self.norm_squared())
    }

    /// The vector of length `UNIT` in the same direction, each component
    /// rounded down. The zero vector has no direction.
    pub open spec fn unit_vector(&self) -> Option<Point3> {
        if self.length() == 0 {
            None
        } else {
            Some(
                Point3(
                    ratio(self.0 as int, self.length()) as i64,
                    ratio(self.1 as int, self.length()) as i64,
                    ratio(self.2 as int, self.length()) as i64,
                ),
            )
        }
    }

    /// Whether every component stays below the coordinate limit in magnitude.
    pub fn is_bounded(&self) -> (r: bool)
        ensures
            r == self.bounded(),
    {
        -COORDINATE_LIMIT < self.0 && self.0 < COORDINATE_LIMIT && -COORDINATE_LIMIT < self.1
            && self.1 < COORDINATE_LIMIT && -COORDINATE_LIMIT < self.2 && self.2
            < COORDINATE_LIMIT
    }

    /// The three components, by reference.
    pub fn unravel(&self) -> (parts: (&i64, &i64, &i64))
        ensures
            *parts.0 == self.0,
            *parts.1 == self.1,
            *parts.2 == self.2,
    {
        (&self.0, &self.1, &self.2)
    }

    /// The three components, for writing.
    pub fn unravel_mut(&mut self) -> (parts: (&mut i64, &mut i64, &mut i64))
        ensures
            *parts.0 == old(self).0,
            *parts.1 == old(self).1,
            *parts.2 == old(self).2,
            *final(self) == Point3(*final(parts.0), *final(parts.1), *final(parts.2)),
    {
        (&mut self.0, &mut self.1, &mut self.2)
    }

    /// The length, rounded down to a whole number.
    pub fn get_length(&self) -> (length: u64)
        ensures
            length == self.length(),
            is_integer_sqrt(self.norm_squared(), length as int),
    {
        let x_squared = square(self.0);
        let y_squared = square(self.1);
        let z_squared = square(self.2);
        let sum = x_squared + y_squared + z_squared;
        integer_sqrt(sum)
    }

    /// The vector of length `UNIT` in the same direction; none for the zero
    /// vector, which has no direction.
    pub fn normalize(&self) -> (unit: Option<Point3>)
        ensures
            unit == self.unit_vector(),
            unit is None <==> self.0 == 0 && self.1 == 0 && self.2 == 0,
            unit matches Some(u) ==> -UNIT <= u.0 <= UNIT && -UNIT <= u.1 <= UNIT && -UNIT <= u.2
                <= UNIT,
    {
        let length = self.get_length();
        proof {
            lemma_length_covers(self.0 as int, self.1 as int, self.2 as int, length as int);
        }
        if length == 0 {
            None
        } else {
            let x = scale_to_unit(self.0, length);
            let y = scale_to_unit(self.1, length);
            let z = scale_to_unit(self.2, length);
            Some(Point3(x, y, z))
        }
    }

    /// Where this mesh-space position falls on a screen of `width` by
    /// `height` pixels.
    pub open spec fn projected(&self, width: int, height: int) -> Point3 {
        Point3(
            screen_coordinate(self.0 as int, width) as i64,
            screen_coordinate(self.1 as int, height) as i64,
            self.2,
        )
    }

    /// Maps a mesh-space position onto a screen of `width` by `height`
    /// pixels: the square from -1 to 1 goes to the whole screen, and the third
    /// component passes through.
    pub fn from_world_to_screen(&self, width: usize, height: usize) -> (screen: Point3)
        requires
            self.bounded(),
        ensures
            screen == self.projected(width as int, height as int),
    {
        let (first, second, third) = self.unravel();
        let pr1 = project_axis(*first, width);
        let pr2 = project_axis(*second, height);
        let pr3 = *third;
        Point3(pr1, pr2, pr3)
    }
}

fn square(v: i64) -> (r: u128)
    ensures
        r == v * v,
        r <= 0x4000_0000_0000_0000_0000_0000_0000_0000,
{
    let wide = wide_product(v, v);
    proof {
        lemma_product_bound(v as int, v as int, 0x8000_0000_0000_0000, 0x8000_0000_0000_0000);
        assert(0x8000_0000_0000_0000int * 0x8000_0000_0000_0000int
            == 0x4000_0000_0000_0000_0000_0000_0000_0000int) by (nonlinear_arith);
        assert(v * v >= 0) by (nonlinear_arith);
    }
    wide as u128
}

fn scale_to_unit(v: i64, length: u64) -> (r: i64)
    requires
        length > 0,
        -length <= v <= length,
    ensures
        r == ratio(v as int, length as int),
        -UNIT <= r <= UNIT,
{
    let scaled = wide_product(v, UNIT);
    let q = floor_div(scaled, length as i128);
    proof {
        let l = length as int;
        assert(-(l * UNIT) <= v * UNIT <= l * UNIT) by (nonlinear_arith)
            requires
                -l <= v <= l,
        ;
        vstd::arithmetic::div_mod::lemma_div_is_ordered(-(l * UNIT), v * UNIT, l);
        vstd::arithmetic::div_mod::lemma_div_is_ordered(v * UNIT, l * UNIT, l);
        assert(l * UNIT == UNIT * l) by (nonlinear_arith);
        assert(-(l * UNIT) == (-UNIT) * l) by (nonlinear_arith);
        vstd::arithmetic::div_mod::lemma_div_multiples_vanish(UNIT as int, l);
        vstd::arithmetic::div_mod::lemma_div_multiples_vanish(-UNIT, l);
    }
    q as i64
}

/// No component of a vector is longer than the vector: its magnitude is at
/// most the integer square root of the squared length.
pub proof fn lemma_length_covers(x: int, y: int, z: int, length: int)
    requires
        is_integer_sqrt(dot((x, y, z), (x, y, z)), length),
    ensures
        -length <= x <= length,
        -length <= y <= length,
        -length <= z <= length,
        length == 0 <==> x == 0 && y == 0 && z == 0,
{
    let n = dot((x, y, z), (x, y, z));
    assert(x * x >= 0 && y * y >= 0 && z * z >= 0) by (nonlinear_arith);
    lemma_square_bound(x, length, n);
    lemma_square_bound(y, length, n);
    lemma_square_bound(z, length, n);
    if x == 0 && y == 0 && z == 0 {
        assert(n == 0);
        assert(length == 0) by (nonlinear_arith)
            requires
                0 <= length,
                length * length <= 0,
        ;
    }
}

/// If `x * x <= n < (r + 1) * (r + 1)` with `r >= 0`, then `-r <= x <= r`.
proof fn lemma_square_bound(x: int, r: int, n: int)
    requires
        0 <= r,
        x * x <= n,
        n < (r + 1) * (r + 1),
    ensures
        -r <= x <= r,
{
    if x > r {
        assert((r + 1) * (r + 1) <= x * x) by (nonlinear_arith)
            requires
                0 <= r + 1 <= x,
        ;
    }
    if x < -r {
        assert((r + 1) * (r + 1) <= x * x) by (nonlinear_arith)
            requires
                0 <= r + 1 <= -x,
        ;
    }
}

impl vstd::std_specs::ops::BitXorSpecImpl for Point3 {
    open spec fn obeys_bitxor_spec() -> bool {
        true
    }

    open spec fn bitxor_req(self, rhs: Point3) -> bool {
        let product = cross(self.triple(), rhs.triple());
        fits(product.0) && fits(product.1) && fits(product.2)
    }

    open spec fn bitxor_spec(self, rhs: Point3) -> Point3 {
        let product = cross(self.triple(), rhs.triple());
        Point3(product.0 as i64, product.1 as i64, product.2 as i64)
    }
}

/// `a ^ b` is the cross product, where its components fit.
impl std::ops::BitXor for Point3 {
    type Output = Point3;

    fn bitxor(self, rhs: Point3) -> Point3 {
        let Point3(ax, ay, az) = self;
        let Point3(bx, by, bz) = rhs;
        let i = wide_difference(ay, bz, az, by);
        let j = wide_difference(az, bx, ax, bz);
        let k = wide_difference(ax, by, ay, bx);
        Point3(i, j, k)
    }
}

/// `a * b - c * d`, where it fits.
fn wide_difference(a: i64, b: i64, c: i64, d: i64) -> (r: i64)
    requires
        fits(a * b - c * d),
    ensures
        r == a * b - c * d,
{
    let first = wide_product(a, b);
    let second = wide_product(c, d);
    proof {
        lemma_product_bound(a as int, b as int, 0x8000_0000_0000_0000, 0x8000_0000_0000_0000);
        lemma_product_bound(c as int, d as int, 0x8000_0000_0000_0000, 0x8000_0000_0000_0000);
        assert(0x8000_0000_0000_0000int * 0x8000_0000_0000_0000int
            == 0x4000_0000_0000_0000_0000_0000_0000_0000int) by (nonlinear_arith);
    }
    (first - second) as i64
}

impl vstd::std_specs::ops::MulSpecImpl for Point3 {
    open spec fn obeys_mul_spec() -> bool {
        true
    }

    open spec fn mul_req(self, rhs: Point3) -> bool {
        fits(dot(self.triple(), rhs.triple()))
    }

    open spec fn mul_spec(self, rhs: Point3) -> i64 {
        dot(self.triple(), rhs.triple()) as i64
    }
}

/// `a * b` is the dot product, where it fits.
impl std::ops::Mul for Point3 {
    type Output = i64;

    fn mul(self, rhs: Point3) -> i64 {
        let (x, y, z) = self.unravel();
        let (xo, yo, zo) = rhs.unravel();
        wide_dot(*x, *y, *z, *xo, *yo, *zo)
    }
}

impl vstd::std_specs::ops::BitAndSpecImpl for Point3 {
    open spec fn obeys_bitand_spec() -> bool {
        true
    }

    open spec fn bitand_req(self, rhs: Point3) -> bool {
        fits(dot(self.triple(), rhs.triple()))
    }

    open spec fn bitand_spec(self, rhs: Point3) -> i64 {
        dot(self.triple(), rhs.triple()) as i64
    }
}

/// `a & b` is the dot product too.
impl std::ops::BitAnd for Point3 {
    type Output = i64;

    fn bitand(self, rhs: Point3) -> i64 {
        let (first, second, third) = self.unravel();
        let (po1, po2, po3) = rhs.unravel();
        wide_dot(*first, *second, *third, *po1, *po2, *po3)
    }
}

/// The dot product of `(x, y, z)` and `(xo, yo, zo)`, where it fits.
fn wide_dot(x: i64, y: i64, z: i64, xo: i64, yo: i64, zo: i64) -> (r: i64)
    requires
        fits(dot((x as int, y as int, z as int), (xo as int, yo as int, zo as int))),
    ensures
        r == dot((x as int, y as int, z as int), (xo as int, yo as int, zo as int)),
{
    let first = wide_product(x, xo);
    let second = wide_product(y, yo);
    let third = wide_product(z, zo);
    proof {
        lemma_product_bound(x as int, xo as int, 0x8000_0000_0000_0000, 0x8000_0000_0000_0000);
        lemma_product_bound(y as int, yo as int, 0x8000_0000_0000_0000, 0x8000_0000_0000_0000);
        lemma_product_bound(z as int, zo as int, 0x8000_0000_0000_0000, 0x8000_0000_0000_0000);
        assert(0x8000_0000_0000_0000int * 0x8000_0000_0000_0000int
            == 0x4000_0000_0000_0000_0000_0000_0000_0000int) by (nonlinear_arith);
    }
    ((first + second) + third) as i64
}

impl vstd::std_specs::core::IndexSpecImpl<usize> for Point3 {
    open spec fn index_req(&self, index: &usize) -> bool {
        *index < 3
    }
}

/// `p[0]`, `p[1]` and `p[2]` are the three components.
impl std::ops::Index<usize> for Point3 {
    type Output = i64;

    fn index(&self, index: usize) -> (output: &i64)
        ensures
            *output == if index == 0 {
                self.0
            } else if index == 1 {
                self.1
            } else {
                self.2
            },
    {
        let (first, second, third) = self.unravel();
        if index == 0 {
            first
        } else if index == 1 {
            second
        } else {
            third
        }
    }
}

impl std::ops::IndexMut<usize> for Point3 {
    fn index_mut(&mut self, index: usize) -> (output: &mut i64)
        ensures
            *output == if index == 0 {
                old(self).0
            } else if index == 1 {
                old(self).1
            } else {
                old(self).2
            },
            *final(self) == if index == 0 {
                Point3(*final(output), old(self).1, old(self).2)
            } else if index == 1 {
                Point3(old(self).0, *final(output), old(self).2)
            } else {
                Point3(old(self).0, old(self).1, *final(output))
            },
    {
        let (first, second, third) = self.unravel_mut();
        if index == 0 {
            first
        } else if index == 1 {
            second
        } else {
            third
        }
    }
}

/// Three indices into the lists of a mesh.
#[derive(Clone, Copy, Debug, PartialEq, Eq, Structural)]
pub struct Vec3Unsigned(pub usize, pub usize, pub usize);

/// The ways to pick `num` of the three values `first`, `second` and `third`, each pick
/// in the order of the values, and the picks in the order of their places.
pub open spec fn choices(first: usize, second: usize, third: usize, num: usize) -> Seq<Seq<usize>> {
    if num == 0 {
        seq![Seq::empty()]
    } else if num == 1 {
        seq![seq![first], seq![second], seq![third]]
    } else if num == 2 {
        seq![seq![first, second], seq![first, third], seq![second, third]]
    } else if num == 3 {
        seq![seq![first, second, third]]
    } else {
        Seq::empty()
    }
}

/// What the vectors of a vector hold.
pub open spec fn index_views(l: Vec<Vec<usize>>) -> Seq<Seq<usize>> {
    Seq::new(l@.len(), |i: int| l@[i]@)
}

/// `itertools::Itertools::combinations` over the three values `first`, `second` and
/// `third`, collected with `collect_vec`: all picks of `num` values, by the
/// places of the values, in lexicographic order. The call sets up `num`
/// indices before it looks at the values, so `num` stays within their number.
#[verifier::external_body]
fn combinations_of_three(first: usize, second: usize, third: usize, num: usize) -> (picks: Vec<Vec<usize>>)
    requires
        num <= 3,
    ensures
        index_views(picks) == choices(first, second, third, num),
{
    vec![first, second, third].into_iter().combinations(num).collect_vec()
}

impl Vec3Unsigned {
    /// The triple `(first, second, third)`.
    pub fn new(first: usize, second: usize, third: usize) -> (triple: Self)
        ensures
            triple == Vec3Unsigned(first, second, third),
    {
        Vec3Unsigned(first, second, third)
    }

    /// The ways to pick `num` of the three indices.
    pub fn combinate(&self, num: usize) -> (picks: Vec<Vec<usize>>)
        ensures
            index_views(picks) == choices(self.0, self.1, self.2, num),
    {
        let Vec3Unsigned(first, second, third) = *self;
        if num > 3 {
            let picks: Vec<Vec<usize>> = Vec::new();
            assert(index_views(picks) =~= choices(first, second, third, num));
            picks
        } else {
            combinations_of_three(first, second, third, num)
        }
    }

    /// The three indices.
    pub fn unravel(&self) -> (triple: (usize, usize, usize))
        ensures
            triple == (self.0, self.1, self.2),
    {
        let Vec3Unsigned(first, second, third) = *self;
        (first, second, third)
    }

    /// The three indices as a vector.
    pub fn unravel_vec(&self) -> (indices: Vec<usize>)
        ensures
            indices@ == seq![self.0, self.1, self.2],
    {
        let Vec3Unsigned(first, second, third) = *self;
        let mut indices: Vec<usize> = Vec::new();
        indices.push(first);
        indices.push(second);
        indices.push(third);
        assert(indices@ =~= seq![self.0, self.1, self.2]);
        indices
    }
}

/// The triple `(u, v, w)` for the triangle `(a, b, c)` and the position `p`:
/// the cross product of the edge relations along the columns and along the rows.
pub open spec fn edge_cross(a: (int, int), b: (int, int), c: (int, int), p: (int, int)) -> (
    int,
    int,
    int,
) {
    cross((c.0 - a.0, b.0 - a.0, a.0 - p.0), (c.1 - a.1, b.1 - a.1, a.1 - p.1))
}

/// The barycentric weights that belong to a triple `(u, v, w)`, as three
/// numerators and their common, positive denominator.
///
/// With `w == 0` the triangle has no area and the weights are `(-1, 1, 1)`;
/// otherwise they are `(1 - (u + v) / w, v / w, u / w)`.
pub open spec fn weights_of(uvw: (int, int, int)) -> (int, int, int, int) {
    let (u, v, w) = uvw;
    if w == 0 {
        (-1, 1, 1, 1)
    } else if w > 0 {
        (w - (u + v), v, u, w)
    } else {
        ((u + v) - w, -v, -u, -w)
    }
}

/// The barycentric weights of the position `p` in the triangle `(a, b, c)`.
pub open spec fn barycentric(a: (int, int), b: (int, int), c: (int, int), p: (int, int)) -> (
    int,
    int,
    int,
    int,
) {
    weights_of(edge_cross(a, b, c, p))
}

/// The barycentric weights of the position `p` in the triangle `(a, b, c)` by
/// Cramer's rule: the first two weights are quotients of determinants, and
/// the third is what is left of one. A triangle without area has the weights
/// `(-1, 1, 1)`.
pub open spec fn cramer(a: (int, int), b: (int, int), c: (int, int), p: (int, int)) -> (
    int,
    int,
    int,
    int,
) {
    let first = (b.1 - c.1) * (p.0 - c.0) + (c.0 - b.0) * (p.1 - c.1);
    let second = (c.1 - a.1) * (p.0 - c.0) + (a.0 - c.0) * (p.1 - c.1);
    let whole = (b.1 - c.1) * (a.0 - c.0) + (c.0 - b.0) * (a.1 - c.1);
    if whole == 0 {
        (-1, 1, 1, 1)
    } else if whole > 0 {
        (first, second, whole - first - second, whole)
    } else {
        (-first, -second, first + second - whole, -whole)
    }
}

/// Three barycentric weights, one per vertex of a triangle: the fractions
/// `alpha / scale`, `beta / scale` and `gamma / scale`.
#[derive(Clone, Copy, Debug, PartialEq, Eq, Structural)]
pub struct Barycentric {
    pub alpha: i128,
    pub beta: i128,
    pub gamma: i128,
    pub scale: i128,
}

impl View for Barycentric {
    type V = (int, int, int, int);

    open spec fn view(&self) -> (int, int, int, int) {
        (self.alpha as int, self.beta as int, self.gamma as int, self.scale as int)
    }
}

impl Barycentric {
    /// Whether all three weights are greater than zero.
    pub open spec fn positive(&self) -> bool {
        self.alpha > 0 && self.beta > 0 && self.gamma > 0 && self.scale > 0
    }

    /// Whether all three weights are greater than zero.
    pub fn is_positive(&self) -> (r: bool)
        ensures
            r == self.positive(),
    {
        self.alpha > 0 && self.beta > 0 && self.gamma > 0 && self.scale > 0
    }
}

/// A magnitude that no numerator of a barycentric weight exceeds.
pub const WEIGHT_LIMIT: i128 = 0x8_0000_0000_0000_0000;

/// The largest magnitude of a coordinate that the barycentric arithmetic takes.
pub const COORDINATE_RANGE: i64 = 2147483648;

/// Whether `v` is a coordinate that the barycentric arithmetic takes.
pub open spec fn in_range(v: int) -> bool {
    -COORDINATE_RANGE <= v <= COORDINATE_RANGE
}

/// The barycentric weights of `(px, py)` in the triangle with the corners
/// `(ax, ay)`, `(bx, by)` and `(cx, cy)`.
pub fn barycentric_weights(
    ax: i64,
    ay: i64,
    bx: i64,
    by: i64,
    cx: i64,
    cy: i64,
    px: i64,
    py: i64,
) -> (weights: Barycentric)
    requires
        in_range(ax as int) && in_range(ay as int),
        in_range(bx as int) && in_range(by as int),
        in_range(cx as int) && in_range(cy as int),
        in_range(px as int) && in_range(py as int),
    ensures
        weights@ == barycentric(
            (ax as int, ay as int),
            (bx as int, by as int),
            (cx as int, cy as int),
            (px as int, py as int),
        ),
        weights.scale > 0,
        weights.alpha + weights.beta + weights.gamma == weights.scale,
        -WEIGHT_LIMIT <= weights.alpha <= WEIGHT_LIMIT,
        -WEIGHT_LIMIT <= weights.beta <= WEIGHT_LIMIT,
        -WEIGHT_LIMIT <= weights.gamma <= WEIGHT_LIMIT,
{
    let res11 = cx - ax;
    let res12 = bx - ax;
    let res13 = ax - px;
    let res21 = cy - ay;
    let res22 = by - ay;
    let res23 = ay - py;
    proof {
        let r: int = 0x1_0000_0000;
        assert(r * r == 0x1_0000_0000_0000_0000int) by (nonlinear_arith)
            requires
                r == 0x1_0000_0000,
        ;
        lemma_product_bound(res12 as int, res23 as int, r, r);
        lemma_product_bound(res13 as int, res22 as int, r, r);
        lemma_product_bound(res13 as int, res21 as int, r, r);
        lemma_product_bound(res11 as int, res23 as int, r, r);
        lemma_product_bound(res11 as int, res22 as int, r, r);
        lemma_product_bound(res12 as int, res21 as int, r, r);
    }
    let u = wide_product(res12, res23) - wide_product(res13, res22);
    let v = wide_product(res13, res21) - wide_product(res11, res23);
    let w = wide_product(res11, res22) - wide_product(res12, res21);
    if w == 0 {
        Barycentric { alpha: -1, beta: 1, gamma: 1, scale: 1 }
    } else if w > 0 {
        Barycentric { alpha: w - (u + v), beta: v, gamma: u, scale: w }
    } else {
        Barycentric { alpha: (u + v) - w, beta: -v, gamma: -u, scale: -w }
    }
}

/// The barycentric weights of `(px, py)` in the triangle with the corners
/// `(ax, ay)`, `(bx, by)` and `(cx, cy)`, by Cramer's rule.
pub fn cramer_weights(
    ax: i64,
    ay: i64,
    bx: i64,
    by: i64,
    cx: i64,
    cy: i64,
    px: i64,
    py: i64,
) -> (weights: Barycentric)
    requires
        in_range(ax as int) && in_range(ay as int),
        in_range(bx as int) && in_range(by as int),
        in_range(cx as int) && in_range(cy as int),
        in_range(px as int) && in_range(py as int),
    ensures
        weights@ == cramer(
            (ax as int, ay as int),
            (bx as int, by as int),
            (cx as int, cy as int),
            (px as int, py as int),
        ),
        weights.scale > 0,
        -WEIGHT_LIMIT <= weights.alpha <= WEIGHT_LIMIT,
        -WEIGHT_LIMIT <= weights.beta <= WEIGHT_LIMIT,
        -WEIGHT_LIMIT <= weights.gamma <= WEIGHT_LIMIT,
{
    let bc_y = by - cy;
    let cb_x = cx - bx;
    let ca_y = cy - ay;
    let ac_x = ax - cx;
    let pc_x = px - cx;
    let pc_y = py - cy;
    let ac_y = ay - cy;
    proof {
        let r: int = 0x1_0000_0000;
        assert(r * r == 0x1_0000_0000_0000_0000int) by (nonlinear_arith)
            requires
                r == 0x1_0000_0000,
        ;
        lemma_product_bound(bc_y as int, pc_x as int, r, r);
        lemma_product_bound(cb_x as int, pc_y as int, r, r);
        lemma_product_bound(ca_y as int, pc_x as int, r, r);
        lemma_product_bound(ac_x as int, pc_y as int, r, r);
        lemma_product_bound(bc_y as int, ac_x as int, r, r);
        lemma_product_bound(cb_x as int, ac_y as int, r, r);
    }
    let first = wide_product(bc_y, pc_x) + wide_product(cb_x, pc_y);
    let second = wide_product(ca_y, pc_x) + wide_product(ac_x, pc_y);
    let whole = wide_product(bc_y, ac_x) + wide_product(cb_x, ac_y);
    if whole == 0 {
        Barycentric { alpha: -1, beta: 1, gamma: 1, scale: 1 }
    } else if whole > 0 {
        Barycentric { alpha: first, beta: second, gamma: whole - first - second, scale: whole }
    } else {
        Barycentric {
            alpha: -first,
            beta: -second,
            gamma: first + second - whole,
            scale: -whole,
        }
    }
}

/// The least of three numbers.
pub open spec fn min3(a: int, b: int, c: int) -> int {
    if a <= b && a <= c {
        a
    } else if b <= c {
        b
    } else {
        c
    }
}

/// The greatest of three numbers.
pub open spec fn max3(a: int, b: int, c: int) -> int {
    if a >= b && a >= c {
        a
    } else if b >= c {
        b
    } else {
        c
    }
}

/// The first index of a clamped bounding box along one axis: the least of the
/// three coordinates, and at least zero.
pub open spec fn box_low(a: int, b: int, c: int) -> int {
    if min3(a, b, c) < 0 {
        0
    } else {
        min3(a, b, c)
    }
}

/// The last index of a clamped bounding box along one axis of a buffer of
/// `size` cells: the greatest of the three coordinates, and at most the last
/// cell that a pixel coordinate can address.
pub open spec fn box_high(a: int, b: int, c: int, size: int) -> int {
    let last = if size > i32::MAX {
        i32::MAX as int
    } else {
        size - 1
    };
    if max3(a, b, c) > last {
        last
    } else {
        max3(a, b, c)
    }
}

/// The bounding box of three corners, cut down to a buffer of `width` by
/// `height` cells: its lowest and its highest corner, if any cell is left.
pub open spec fn clamped_box(
    a: (int, int),
    b: (int, int),
    c: (int, int),
    width: int,
    height: int,
) -> Option<(Point2, Point2)> {
    let x0 = box_low(a.0, b.0, c.0);
    let x1 = box_high(a.0, b.0, c.0, width);
    let y0 = box_low(a.1, b.1, c.1);
    let y1 = box_high(a.1, b.1, c.1, height);
    if x0 <= x1 && y0 <= y1 {
        Some((Point2(x0 as i32, y0 as i32), Point2(x1 as i32, y1 as i32)))
    } else {
        None
    }
}

fn least_of(a: i64, b: i64, c: i64) -> (r: i64)
    ensures
        r == min3(a as int, b as int, c as int),
{
    if a <= b && a <= c {
        a
    } else if b <= c {
        b
    } else {
        c
    }
}

fn greatest_of(a: i64, b: i64, c: i64) -> (r: i64)
    ensures
        r == max3(a as int, b as int, c as int),
{
    if a >= b && a >= c {
        a
    } else if b >= c {
        b
    } else {
        c
    }
}

/// The bounding box of three corners, cut down to a buffer of `width` by
/// `height` cells. Whatever the corners are, a box that comes back lies within
/// the buffer.
pub fn bounding_box(
    a: (i64, i64),
    b: (i64, i64),
    c: (i64, i64),
    width: usize,
    height: usize,
) -> (corners: Option<(Point2, Point2)>)
    ensures
        corners == clamped_box(
            (a.0 as int, a.1 as int),
            (b.0 as int, b.1 as int),
            (c.0 as int, c.1 as int),
            width as int,
            height as int,
        ),
        corners matches Some((low, high)) ==> 0 <= low.0 <= high.0 < width && 0 <= low.1 <= high.1
            < height,
{
    let last_x: i64 = if width > 2147483647 {
        2147483647
    } else {
        width as i64 - 1
    };
    let last_y: i64 = if height > 2147483647 {
        2147483647
    } else {
        height as i64 - 1
    };
    let min_x = least_of(a.0, b.0, c.0);
    let max_x = greatest_of(a.0, b.0, c.0);
    let min_y = least_of(a.1, b.1, c.1);
    let max_y = greatest_of(a.1, b.1, c.1);
    let x0 = if min_x < 0 {
        0
    } else {
        min_x
    };
    let x1 = if max_x > last_x {
        last_x
    } else {
        max_x
    };
    let y0 = if min_y < 0 {
        0
    } else {
        min_y
    };
    let y1 = if max_y > last_y {
        last_y
    } else {
        max_y
    };
    if x0 <= x1 && y0 <= y1 {
        Some((Point2(x0 as i32, y0 as i32), Point2(x1 as i32, y1 as i32)))
    } else {
        None
    }
}

/// A triangle on the screen: three pixel positions.
#[derive(Clone, Copy, Debug, PartialEq, Eq, Structural)]
pub struct TriangleCoords(pub Point2, pub Point2, pub Point2);

/// The two components of a pixel position as integers.
pub open spec fn pair_of(p: Point2) -> (int, int) {
    (p.0 as int, p.1 as int)
}

impl TriangleCoords {
    /// The barycentric weights of the position `p` in this triangle.
    pub open spec fn weights(&self, p: (int, int)) -> (int, int, int, int) {
        barycentric(pair_of(self.0), pair_of(self.1), pair_of(self.2), p)
    }

    /// Whether this triangle covers the position `p`: all three of its
    /// weights are greater than zero.
    pub open spec fn covers(&self, p: (int, int)) -> bool {
        let (alpha, beta, gamma, _) = self.weights(p);
        alpha > 0 && beta > 0 && gamma > 0
    }

    /// The triangle with the corners `first`, `second` and `third`.
    pub fn new(first: Point2, second: Point2, third: Point2) -> (triangle: Self)
        ensures
            triangle == TriangleCoords(first, second, third),
    {
        Self(first, second, third)
    }

    /// The triangle of the first three points of `v`.
    pub fn from_vec(v: Vec<Point2>) -> (triangle: Self)
        requires
            v@.len() >= 3,
        ensures
            triangle == TriangleCoords(v@[0], v@[1], v@[2]),
    {
        Self(v[0], v[1], v[2])
    }

    /// The three corners, by reference.
    pub fn unravel_point3(&self) -> (corners: (&Point2, &Point2, &Point2))
        ensures
            *corners.0 == self.0,
            *corners.1 == self.1,
            *corners.2 == self.2,
    {
        (&self.0, &self.1, &self.2)
    }

    /// The six coordinates, corner by corner.
    pub fn unraval(&self) -> (flat: (i32, i32, i32, i32, i32, i32))
        ensures
            flat == (self.0.0, self.0.1, self.1.0, self.1.1, self.2.0, self.2.1),
    {
        let (p11, p12) = self.0.get_pair_as_clones();
        let (p21, p22) = self.1.get_pair_as_clones();
        let (p31, p32) = self.2.get_pair_as_clones();
        (p11, p12, p21, p22, p31, p32)
    }

    /// The three corners as pairs.
    pub fn unraval_vec(&self) -> (pairs: Vec<(i32, i32)>)
        ensures
            pairs@ == seq![(self.0.0, self.0.1), (self.1.0, self.1.1), (self.2.0, self.2.1)],
    {
        let (p11, p12) = self.0.get_pair_as_clones();
        let (p21, p22) = self.1.get_pair_as_clones();
        let (p31, p32) = self.2.get_pair_as_clones();
        let mut pairs: Vec<(i32, i32)> = Vec::new();
        pairs.push((p11, p12));
        pairs.push((p21, p22));
        pairs.push((p31, p32));
        assert(pairs@ =~= seq![(self.0.0, self.0.1), (self.1.0, self.1.1), (self.2.0, self.2.1)]);
        pairs
    }

    /// The three corners as vectors of two coordinates each.
    pub fn unravel_multidim_vec(&self) -> (rows: Vec<Vec<i32>>)
        ensures
            rows@.len() == 3,
            rows@[0]@ == seq![self.0.0, self.0.1],
            rows@[1]@ == seq![self.1.0, self.1.1],
            rows@[2]@ == seq![self.2.0, self.2.1],
    {
        let mut rows: Vec<Vec<i32>> = Vec::new();
        rows.push(coordinate_row(self.0));
        rows.push(coordinate_row(self.1));
        rows.push(coordinate_row(self.2));
        rows
    }

    /// The barycentric weights of `respect_point` in this triangle. A triangle
    /// without area gives the weights `(-1, 1, 1)`, which are not all
    /// positive.
    pub fn get_barycentric_coords(&self, respect_point: Point2) -> (weights: Barycentric)
        ensures
            weights@ == self.weights(pair_of(respect_point)),
            weights.positive() == self.covers(pair_of(respect_point)),
            weights.scale > 0,
    {
        let (ax, ay, bx, by, cx, cy) = self.unraval();
        let (rp1, rp2) = respect_point.get_pair_as_clones();
        barycentric_weights(
            ax as i64,
            ay as i64,
            bx as i64,
            by as i64,
            cx as i64,
            cy as i64,
            rp1 as i64,
            rp2 as i64,
        )
    }

    /// The bounding box of this triangle, cut down to a buffer of `width` by
    /// `height` pixels.
    pub fn get_bounding_box(&self, width: usize, height: usize) -> (corners: Option<
        (Point2, Point2),
    >)
        ensures
            corners == clamped_box(
                pair_of(self.0),
                pair_of(self.1),
                pair_of(self.2),
                width as int,
                height as int,
            ),
            corners matches Some((low, high)) ==> 0 <= low.0 <= high.0 < width && 0 <= low.1
                <= high.1 < height,
    {
        let (ax, ay, bx, by, cx, cy) = self.unraval();
        bounding_box(
            (ax as i64, ay as i64),
            (bx as i64, by as i64),
            (cx as i64, cy as i64),
            width,
            height,
        )
    }
}

fn coordinate_row(p: Point2) -> (row: Vec<i32>)
    ensures
        row@ == seq![p.0, p.1],
{
    let mut row: Vec<i32> = Vec::new();
    row.push(p.0);
    row.push(p.1);
    assert(row@ =~= seq![p.0, p.1]);
    row
}

impl vstd::std_specs::core::IndexSpecImpl<usize> for TriangleCoords {
    open spec fn index_req(&self, index: &usize) -> bool {
        *index < 3
    }
}

/// `t[0]`, `t[1]` and `t[2]` are the three corners.
impl std::ops::Index<usize> for TriangleCoords {
    type Output = Point2;

    fn index(&self, index: usize) -> (output: &Point2)
        ensures
            *output == if index == 0 {
                self.0
            } else if index == 1 {
                self.1
            } else {
                self.2
            },
    {
        let (first, second, third) = self.unravel_point3();
        if index == 0 {
            first
        } else if index == 1 {
            second
        } else {
            third
        }
    }
}

/// The depth of a cell of the depth buffer that nothing was drawn to: it is
/// less than every depth that a triangle has.
pub const EMPTY_DEPTH: i64 = i64::MIN;

/// The depth `d`, kept within the depths that a triangle can have.
pub open spec fn clamp_depth(d: int) -> i64 {
    if d <= i64::MIN {
        (i64::MIN + 1) as i64
    } else if d > i64::MAX {
        i64::MAX
    } else {
        d as i64
    }
}

/// The sum of three values, each times its weight: `weights` holds three
/// numerators and their denominator, and the quotient is rounded down.
pub open spec fn blend(values: (int, int, int), weights: (int, int, int, int)) -> int {
    (values.0 * weights.0 + values.1 * weights.1 + values.2 * weights.2) / weights.3
}

/// The sum of three values, each times its weight, rounded down.
pub fn weighted_sum(first: i64, second: i64, third: i64, weights: Barycentric) -> (sum: i128)
    requires
        -COORDINATE_LIMIT < first < COORDINATE_LIMIT,
        -COORDINATE_LIMIT < second < COORDINATE_LIMIT,
        -COORDINATE_LIMIT < third < COORDINATE_LIMIT,
        weights.scale > 0,
        -WEIGHT_LIMIT <= weights.alpha <= WEIGHT_LIMIT,
        -WEIGHT_LIMIT <= weights.beta <= WEIGHT_LIMIT,
        -WEIGHT_LIMIT <= weights.gamma <= WEIGHT_LIMIT,
    ensures
        sum == blend((first as int, second as int, third as int), weights@),
{
    proof {
        let limit: int = 0x8_0000_0000_0000_0000;
        lemma_product_bound(first as int, weights.alpha as int, 0x4000_0000, limit);
        lemma_product_bound(second as int, weights.beta as int, 0x4000_0000, limit);
        lemma_product_bound(third as int, weights.gamma as int, 0x4000_0000, limit);
        assert(0x4000_0000 * limit == 0x2_0000_0000_0000_0000_0000_0000int) by (nonlinear_arith)
            requires
                limit == 0x8_0000_0000_0000_0000,
        ;
    }
    let total = (first as i128) * weights.alpha + (second as i128) * weights.beta + (
    third as i128) * weights.gamma;
    floor_div(total, weights.scale)
}

/// A triangle in screen space: three corners, each with the column and the
/// row of a pixel and a depth.
#[derive(Clone, Copy, Debug, PartialEq, Eq, Structural)]
pub struct TriangleCoords3(pub Point3, pub Point3, pub Point3);

/// The column and the row of a position in space, as integers.
pub open spec fn plane_of(p: Point3) -> (int, int) {
    (p.0 as int, p.1 as int)
}

impl TriangleCoords3 {
    /// Whether every corner stays below the coordinate limit.
    pub open spec fn bounded(&self) -> bool {
        self.0.bounded() && self.1.bounded() && self.2.bounded()
    }

    /// The barycentric weights of the position `p` in this triangle.
    pub open spec fn weights(&self, p: (int, int)) -> (int, int, int, int) {
        barycentric(plane_of(self.0), plane_of(self.1), plane_of(self.2), p)
    }

    /// The depth of this triangle's plane at the position `p`: the depths of
    /// the corners, each times its weight at `p`.
    pub open spec fn depth_at(&self, p: (int, int)) -> i64 {
        clamp_depth(blend((self.0.2 as int, self.1.2 as int, self.2.2 as int), self.weights(p)))
    }

    /// Whether every corner stays below the coordinate limit.
    pub fn is_bounded(&self) -> (r: bool)
        ensures
            r == self.bounded(),
    {
        self.0.is_bounded() && self.1.is_bounded() && self.2.is_bounded()
    }

    /// The triangle with the corners `first`, `second` and `third`.
    pub fn new(first: Point3, second: Point3, third: Point3) -> (triangle: Self)
        ensures
            triangle == TriangleCoords3(first, second, third),
    {
        Self(first, second, third)
    }

    /// The triangle of the first three points of `v`.
    pub fn from_vec(v: Vec<Point3>) -> (triangle: Self)
        requires
            v@.len() >= 3,
        ensures
            triangle == TriangleCoords3(v@[0], v@[1], v@[2]),
    {
        Self(v[0], v[1], v[2])
    }

    /// The three corners, by reference.
    pub fn unravel_point3(&self) -> (corners: (&Point3, &Point3, &Point3))
        ensures
            *corners.0 == self.0,
            *corners.1 == self.1,
            *corners.2 == self.2,
    {
        (&self.0, &self.1, &self.2)
    }

    /// The three corners as triples.
    pub fn unraval_vec(&self) -> (triples: Vec<(i64, i64, i64)>)
        ensures
            triples@ == seq![
                (self.0.0, self.0.1, self.0.2),
                (self.1.0, self.1.1, self.1.2),
                (self.2.0, self.2.1, self.2.2),
            ],
    {
        let mut triples: Vec<(i64, i64, i64)> = Vec::new();
        triples.push((self.0.0, self.0.1, self.0.2));
        triples.push((self.1.0, self.1.1, self.1.2));
        triples.push((self.2.0, self.2.1, self.2.2));
        assert(triples@ =~= seq![
            (self.0.0, self.0.1, self.0.2),
            (self.1.0, self.1.1, self.1.2),
            (self.2.0, self.2.1, self.2.2),
        ]);
        triples
    }

    /// The column and the row of each corner, as three vectors in one.
    pub fn unravel_multidim_vec(&self) -> (rows: Vec<Vec<i64>>)
        ensures
            rows@.len() == 3,
            rows@[0]@ == seq![self.0.0, self.0.1],
            rows@[1]@ == seq![self.1.0, self.1.1],
            rows@[2]@ == seq![self.2.0, self.2.1],
    {
        let mut rows: Vec<Vec<i64>> = Vec::new();
        rows.push(plane_row(self.0));
        rows.push(plane_row(self.1));
        rows.push(plane_row(self.2));
        rows
    }

    /// The column and the row of each corner, as three vectors.
    pub fn unravel_triplet_vec(&self) -> (rows: (Vec<i64>, Vec<i64>, Vec<i64>))
        ensures
            rows.0@ == seq![self.0.0, self.0.1],
            rows.1@ == seq![self.1.0, self.1.1],
            rows.2@ == seq![self.2.0, self.2.1],
    {
        (plane_row(self.0), plane_row(self.1), plane_row(self.2))
    }

    /// The barycentric weights of the column and row of `p` in this triangle.
    /// A triangle without area gives the weights `(-1, 1, 1)`.
    pub fn get_barycentric_coords(&self, p: Point3) -> (weights: Barycentric)
        requires
            self.bounded(),
            in_range(p.0 as int),
            in_range(p.1 as int),
        ensures
            weights@ == self.weights(plane_of(p)),
            weights.scale > 0,
            weights.alpha + weights.beta + weights.gamma == weights.scale,
            -WEIGHT_LIMIT <= weights.alpha <= WEIGHT_LIMIT,
            -WEIGHT_LIMIT <= weights.beta <= WEIGHT_LIMIT,
            -WEIGHT_LIMIT <= weights.gamma <= WEIGHT_LIMIT,
    {
        let (a, b, c) = self.unravel_triplet_vec();
        barycentric_weights(a[0], a[1], b[0], b[1], c[0], c[1], p.0, p.1)
    }

    /// The barycentric weights of the column and row of `p` in this triangle,
    /// by Cramer's rule. They are the weights that `get_barycentric_coords`
    /// gives.
    pub fn decompose_barycentric(&self, p: Point3) -> (weights: Barycentric)
        requires
            self.bounded(),
            in_range(p.0 as int),
            in_range(p.1 as int),
        ensures
            weights@ == cramer(plane_of(self.0), plane_of(self.1), plane_of(self.2), plane_of(p)),
            weights.scale > 0,
            -WEIGHT_LIMIT <= weights.alpha <= WEIGHT_LIMIT,
            -WEIGHT_LIMIT <= weights.beta <= WEIGHT_LIMIT,
            -WEIGHT_LIMIT <= weights.gamma <= WEIGHT_LIMIT,
    {
        let (a, b, c) = self.unravel_triplet_vec();
        let (px, py, _) = p.unravel();
        let (ax, ay) = (a[0], a[1]);
        let (bx, by) = (b[0], b[1]);
        let (cx, cy) = (c[0], c[1]);
        cramer_weights(ax, ay, bx, by, cx, cy, *px, *py)
    }

    /// The depth of this triangle's plane where the weights are `weights`.
    pub fn get_depth(&self, weights: Barycentric) -> (depth: i64)
        requires
            self.bounded(),
            weights.scale > 0,
            -WEIGHT_LIMIT <= weights.alpha <= WEIGHT_LIMIT,
            -WEIGHT_LIMIT <= weights.beta <= WEIGHT_LIMIT,
            -WEIGHT_LIMIT <= weights.gamma <= WEIGHT_LIMIT,
        ensures
            depth == clamp_depth(
                blend((self.0.2 as int, self.1.2 as int, self.2.2 as int), weights@),
            ),
            depth > EMPTY_DEPTH,
    {
        let exact = weighted_sum(self.0.2, self.1.2, self.2.2, weights);
        if exact <= i64::MIN as i128 {
            i64::MIN + 1
        } else if exact > i64::MAX as i128 {
            i64::MAX
        } else {
            exact as i64
        }
    }

    /// The bounding box of this triangle's columns and rows, cut down to a
    /// buffer of `width` by `height` pixels.
    pub fn get_bounding_box(&self, width: usize, height: usize) -> (corners: Option<
        (Point2, Point2),
    >)
        ensures
            corners == clamped_box(
                plane_of(self.0),
                plane_of(self.1),
                plane_of(self.2),
                width as int,
                height as int,
            ),
            corners matches Some((low, high)) ==> 0 <= low.0 <= high.0 < width && 0 <= low.1
                <= high.1 < height,
    {
        bounding_box(
            (self.0.0, self.0.1),
            (self.1.0, self.1.1),
            (self.2.0, self.2.1),
            width,
            height,
        )
    }
}

fn plane_row(p: Point3) -> (row: Vec<i64>)
    ensures
        row@ == seq![p.0, p.1],
{
    let mut row: Vec<i64> = Vec::new();
    row.push(p.0);
    row.push(p.1);
    assert(row@ =~= seq![p.0, p.1]);
    row
}

impl vstd::std_specs::core::IndexSpecImpl<usize> for TriangleCoords3 {
    open spec fn index_req(&self, index: &usize) -> bool {
        *index < 3
    }
}

/// `t[0]`, `t[1]` and `t[2]` are the three corners.
impl std::ops::Index<usize> for TriangleCoords3 {
    type Output = Point3;

    fn index(&self, index: usize) -> (output: &Point3)
        ensures
            *output == if index == 0 {
                self.0
            } else if index == 1 {
                self.1
            } else {
                self.2
            },
    {
        let (first, second, third) = self.unravel_point3();
        if index == 0 {
            first
        } else if index == 1 {
            second
        } else {
            third
        }
    }
}

/// The normal of the face with the corners `a`, `b` and `c`: the cross
/// product of the edge from `a` to `c` and the edge from `a` to `b`.
pub open spec fn face_normal(a: Point3, b: Point3, c: Point3) -> Point3 {
    let product = edge_product(a, b, c);
    Point3(product.0 as i64, product.1 as i64, product.2 as i64)
}

/// The cross product of the edge from `a` to `c` and the edge from `a` to
/// `b`.
pub open spec fn edge_product(a: Point3, b: Point3, c: Point3) -> (int, int, int) {
    cross((c.0 - a.0, c.1 - a.1, c.2 - a.2), (b.0 - a.0, b.1 - a.1, b.2 - a.2))
}

/// The cross product of two vectors whose components are at most `limit` in
/// magnitude has components of at most `2 * limit * limit`.
pub proof fn lemma_cross_bound(a: (int, int, int), b: (int, int, int), limit: int)
    requires
        -limit <= a.0 <= limit && -limit <= a.1 <= limit && -limit <= a.2 <= limit,
        -limit <= b.0 <= limit && -limit <= b.1 <= limit && -limit <= b.2 <= limit,
    ensures
        -(2 * (limit * limit)) <= cross(a, b).0 <= 2 * (limit * limit),
        -(2 * (limit * limit)) <= cross(a, b).1 <= 2 * (limit * limit),
        -(2 * (limit * limit)) <= cross(a, b).2 <= 2 * (limit * limit),
{
    lemma_product_bound(a.1, b.2, limit, limit);
    lemma_product_bound(a.2, b.1, limit, limit);
    lemma_product_bound(a.2, b.0, limit, limit);
    lemma_product_bound(a.0, b.2, limit, limit);
    lemma_product_bound(a.0, b.1, limit, limit);
    lemma_product_bound(a.1, b.0, limit, limit);
    let square = limit * limit;
    let first = a.1 * b.2;
    let second = a.2 * b.1;
    let third = a.2 * b.0;
    let fourth = a.0 * b.2;
    let fifth = a.0 * b.1;
    let sixth = a.1 * b.0;
    assert(-square <= first <= square);
    assert(-square <= second <= square);
    assert(-square <= third <= square);
    assert(-square <= fourth <= square);
    assert(-square <= fifth <= square);
    assert(-square <= sixth <= square);
    assert(cross(a, b) == (first - second, third - fourth, fifth - sixth));
}

/// The normal of the face whose corners are the first three vertices of `v`.
pub fn calculate_normal(v: Vec<Vertex>) -> (normal: Point3)
    requires
        v@.len() >= 3,
        v@[0].xyz.bounded(),
        v@[1].xyz.bounded(),
        v@[2].xyz.bounded(),
    ensures
        normal == face_normal(v@[0].xyz, v@[1].xyz, v@[2].xyz),
        normal.triple() == edge_product(v@[0].xyz, v@[1].xyz, v@[2].xyz),
{
    let first = v[2] - v[0];
    let second = v[1] - v[0];
    proof {
        let limit: int = 0x7fff_fffe;
        lemma_cross_bound(first.triple(), second.triple(), limit);
        assert(limit * limit == 0x3fff_fffe_0000_0004) by (nonlinear_arith)
            requires
                limit == 0x7fff_fffe,
        ;
    }
    first ^ second
}

/// How strongly a face with the normal `n` is lit from the direction
/// `light_dir`: the dot product of the unit vector along the normal and the
/// light direction, in millionths. A normal of length zero gives zero.
pub open spec fn intensity_of(n: Point3, light_dir: Point3) -> int {
    match n.unit_vector() {
        None => 0,
        Some(unit) => dot(unit.triple(), light_dir.triple()) / (UNIT as int),
    }
}

/// How strongly a face with the normal `n` is lit from the direction
/// `light_dir`.
pub fn calculate_intensity(n: Point3, light_dir: Point3) -> (intensity: i64)
    requires
        light_dir.bounded(),
    ensures
        intensity == intensity_of(n, light_dir),
{
    match n.normalize() {
        None => 0,
        Some(normalized) => {
            proof {
                lemma_product_bound(
                    normalized.0 as int,
                    light_dir.0 as int,
                    UNIT as int,
                    COORDINATE_LIMIT as int,
                );
                lemma_product_bound(
                    normalized.1 as int,
                    light_dir.1 as int,
                    UNIT as int,
                    COORDINATE_LIMIT as int,
                );
                lemma_product_bound(
                    normalized.2 as int,
                    light_dir.2 as int,
                    UNIT as int,
                    COORDINATE_LIMIT as int,
                );
                assert(UNIT * COORDINATE_LIMIT == 1073741824000000) by (nonlinear_arith)
                    requires
                        UNIT == 1000000,
                        COORDINATE_LIMIT == 1073741824,
                ;
            }
            let inner_product = normalized * light_dir;
            let q = floor_div(inner_product as i128, UNIT as i128);
            proof {
                vstd::arithmetic::div_mod::lemma_div_is_ordered(
                    -3221225472000000,
                    inner_product as int,
                    UNIT as int,
                );
                vstd::arithmetic::div_mod::lemma_div_is_ordered(
                    inner_product as int,
                    3221225472000000,
                    UNIT as int,
                );
            }
            q as i64
        },
    }
}

/// How strongly the face whose corners are the first three vertices of `v` is
/// lit from the direction `light_dir`.
pub fn calculate_normal_and_intensity(v: Vec<Vertex>, light_dir: Point3) -> (intensity: i64)
    requires
        v@.len() >= 3,
        v@[0].xyz.bounded(),
        v@[1].xyz.bounded(),
        v@[2].xyz.bounded(),
        light_dir.bounded(),
    ensures
        intensity == intensity_of(face_normal(v@[0].xyz, v@[1].xyz, v@[2].xyz), light_dir),
{
    let n = calculate_normal(v);
    calculate_intensity(n, light_dir)
}

/// The color of a face that is lit with the positive `intensity`:
/// `255 * intensity`, rounded to the nearest whole number, of which the
/// lowest eight bits are kept.
pub open spec fn shade_of(intensity: int) -> u8 {
    let rounded = (255 * intensity + UNIT / 2) / (UNIT as int);
    let held = if rounded > i32::MAX {
        i32::MAX as int
    } else {
        rounded
    };
    (held % 256) as u8
}

/// The color of a face that is lit with the positive `intensity`.
pub fn shade_color(intensity: i64) -> (color: u8)
    requires
        intensity > 0,
    ensures
        color == shade_of(intensity as int),
{
    let scaled: i128 = 255 * (intensity as i128) + (UNIT as i128) / 2;
    let rounded = scaled / (UNIT as i128);
    let held: i128 = if rounded > i32::MAX as i128 {
        i32::MAX as i128
    } else {
        rounded
    };
    (held % 256) as u8
}

/// The color that three texels blend to under the weights `weights`: their
/// weighted sum, rounded down, and kept within the values of a pixel.
pub open spec fn blended_color(texels: (int, int, int), weights: (int, int, int, int)) -> u8 {
    let exact = blend(texels, weights);
    if exact < 0 {
        0
    } else if exact > 255 {
        255
    } else {
        exact as u8
    }
}

/// The texture coordinates of the three corners of a triangle, each the
/// column and the row of a texel.
#[derive(Clone, Copy, Debug, PartialEq, Eq, Structural)]
pub struct UVTriplet(pub Point2, pub Point2, pub Point2);

impl UVTriplet {
    /// The three texels that the corners name in a texture.
    pub open spec fn texels(&self, data: Seq<u8>, width: int) -> (int, int, int) {
        (
            texel_at(data, width, self.0.0 as int, self.0.1 as int) as int,
            texel_at(data, width, self.1.0 as int, self.1.1 as int) as int,
            texel_at(data, width, self.2.0 as int, self.2.1 as int) as int,
        )
    }

    /// The color of the position `p` in the triangle `coords`: the texels of
    /// the three corners, each times the weight of its corner at `p`.
    pub open spec fn color_at(
        &self,
        coords: TriangleCoords3,
        p: (int, int),
        data: Seq<u8>,
        width: int,
    ) -> u8 {
        blended_color(
            self.texels(data, width),
            cramer(plane_of(coords.0), plane_of(coords.1), plane_of(coords.2), p),
        )
    }

    /// The texture coordinates `first`, `second` and `third`.
    pub fn new(first: Point2, second: Point2, third: Point2) -> (triplet: Self)
        ensures
            triplet == UVTriplet(first, second, third),
    {
        Self(first, second, third)
    }

    /// The first three texture coordinates of `v`.
    pub fn from_vec(v: Vec<Point2>) -> (triplet: Self)
        requires
            v@.len() >= 3,
        ensures
            triplet == UVTriplet(v@[0], v@[1], v@[2]),
    {
        Self(v[0], v[1], v[2])
    }

    /// The color of the column and row of `p` in the triangle `coords`,
    /// blended from the texels of the three corners.
    pub fn get_color(&self, p: Point3, coords: TriangleCoords3, texture: &Texture) -> (color: u8)
        requires
            coords.bounded(),
            in_range(p.0 as int),
            in_range(p.1 as int),
        ensures
            color == self.color_at(coords, plane_of(p), texture.data@, texture.width as int),
    {
        let UVTriplet(first, second, third) = *self;
        let weights = coords.decompose_barycentric(p);
        let (p11, p12) = first.unravel();
        let (p21, p22) = second.unravel();
        let (p31, p32) = third.unravel();
        let auv = texture.texel(*p11, *p12) as i64;
        let buv = texture.texel(*p21, *p22) as i64;
        let cuv = texture.texel(*p31, *p32) as i64;
        let exact = weighted_sum(auv, buv, cuv, weights);
        if exact < 0 {
            0
        } else if exact > 255 {
            255
        } else {
            exact as u8
        }
    }
}

} // verus!
