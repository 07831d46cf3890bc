//! The frame buffer: a grid of 8-bit pixels addressed by column and row.

use crate::arithmetic::magnitude;
use crate::linear_algebra::convert_to_screen_coords;
use vstd::prelude::*;

verus! {

/// The rows of a frame buffer, top row first.
pub type CanvasType = Vec<Vec<u8>>;

/// Why a pixel could not be addressed.
#[derive(Debug, Clone, Copy, PartialEq, Eq, Structural)]
pub enum ImageError {
    /// The column lies outside the grid.
    ErrorGettingPixel,
    /// The row lies outside the grid.
    ErrorGettingRow,
}

/// What a pixel write returns.
pub type ResultSet = Result<(), ImageError>;

/// A rectangular grid of 8-bit pixels with its origin at `(0, 0)`.
pub struct Canvas(CanvasType);

/// The grid that holds `value` in every cell.
pub open spec fn uniform_grid(width: nat, height: nat, value: u8) -> Seq<Seq<u8>> {
    Seq::new(height, |y: int| Seq::new(width, |x: int| value))
}

/// Whether every row of `rows` has the length of the first one.
pub open spec fn rectangular(rows: Seq<Seq<u8>>) -> bool {
    forall|y: int| 0 <= y < rows.len() ==> (#[trigger] rows[y]).len() == rows[0].len()
}

/// A number is at most the quotient of `limit` by `b` if and only if its
/// product with `b` is at most `limit`.
proof fn lemma_quotient_bounds(a: int, b: int, limit: int)
    requires
        0 <= a,
        0 < b,
        0 <= limit,
    ensures
        a <= limit / b <==> a * b <= limit,
{
    vstd::arithmetic::div_mod::lemma_fundamental_div_mod(limit, b);
    vstd::arithmetic::div_mod::lemma_mod_bound(limit, b);
    let q = limit / b;
    if a <= q {
        assert(a * b <= q * b) by (nonlinear_arith)
            requires
                0 <= a <= q,
                0 < b,
        ;
        assert(b * q == q * b) by (nonlinear_arith);
    } else {
        assert(a * b >= (q + 1) * b) by (nonlinear_arith)
            requires
                a >= q + 1,
                0 < b,
        ;
        assert((q + 1) * b == b * q + b) by (nonlinear_arith);
    }
}

impl View for Canvas {
    type V = Seq<Seq<u8>>;

    closed spec fn view(&self) -> Seq<Seq<u8>> {
        Seq::new(self.0@.len(), |y: int| self.0@[y]@)
    }
}

/// A clone of a grid holds the same pixels.
impl Clone for Canvas {
    fn clone(&self) -> (copy: Self)
        ensures
            copy@ == self@,
    {
        proof {
            use_type_invariant(self);
        }
        let map = self.get_map();
        assert(Seq::new(map@.len(), |y: int| map@[y]@) =~= self@);
        Canvas(map)
    }
}

impl Canvas {
    /// Holds of every grid: all rows are equally long, and the grid is small
    /// enough for the list of its positions to fit in memory.
    #[verifier::type_invariant]
    pub open spec fn well_formed(&self) -> bool {
        &&& rectangular(self@)
        &&& self.height() == 0 || self.width() * self.height() * 8 <= isize::MAX
    }

    /// The number of rows.
    pub open spec fn height(&self) -> nat {
        self@.len()
    }

    /// The number of columns; a grid without rows has none.
    pub open spec fn width(&self) -> nat {
        if self@.len() == 0 {
            0
        } else {
            self@[0].len()
        }
    }

    /// Whether column `x` of row `y` is a cell of the grid.
    pub open spec fn in_bounds(&self, x: int, y: int) -> bool {
        0 <= x < self.width() && 0 <= y < self.height()
    }

    /// The value at column `x` of row `y`.
    pub open spec fn pixel(&self, x: int, y: int) -> u8 {
        self@[y][x]
    }

    /// The rows of the grid after `value` is written at column `x` of row `y`.
    pub open spec fn written(&self, x: int, y: int, value: u8) -> Seq<Seq<u8>> {
        self@.update(y, self@[y].update(x, value))
    }

    /// Whether a grid of `height` rows and `width` columns is small enough
    /// for the list of its positions to fit in memory.
    pub fn can_hold(width: usize, height: usize) -> (r: bool)
        ensures
            r == (width * height * 8 <= isize::MAX),
    {
        let limit = (isize::MAX as usize) / 8;
        if height == 0 || width == 0 {
            assert(width * height == 0) by (nonlinear_arith)
                requires
                    width == 0 || height == 0,
            ;
            true
        } else {
            proof {
                lemma_quotient_bounds(width as int, height as int, limit as int);
            }
            width <= limit / height
        }
    }

    /// A grid of `height` rows and `width` columns with `init_value` everywhere.
    ///
    /// The grid must be small enough for the list of its positions to fit in
    /// memory.
    pub fn new(width: usize, height: usize, init_value: u8) -> (canvas: Self)
        requires
            width * height * 8 <= isize::MAX,
        ensures
            canvas@ == uniform_grid(width as nat, height as nat, init_value),
    {
        let mut rows: Vec<Vec<u8>> = Vec::new();
        let mut y: usize = 0;
        while y < height
            invariant
                y <= height,
                rows@.len() == y,
                forall|j: int|
                    0 <= j < y ==> (#[trigger] rows@[j])@ == Seq::new(
                        width as nat,
                        |x: int| init_value,
                    ),
            decreases height - y,
        {
            let mut row: Vec<u8> = Vec::new();
            let mut x: usize = 0;
            while x < width
                invariant
                    x <= width,
                    row@ == Seq::new(x as nat, |i: int| init_value),
                decreases width - x,
            {
                row.push(init_value);
                x += 1;
                assert(row@ =~= Seq::new(x as nat, |i: int| init_value));
            }
            rows.push(row);
            y += 1;
        }
        let canvas = Canvas(rows);
        assert(canvas@ =~= uniform_grid(width as nat, height as nat, init_value));
        canvas
    }

    /// Writes `value` at column `|xi32|` of row `|yi32|`.
    ///
    /// A row outside the grid is reported first, then a column outside it;
    /// either way the grid stays as it was.
    pub fn set_pixel(&mut self, xi32: i32, yi32: i32, value: u8) -> (result: ResultSet)
        ensures
            final(self).width() == old(self).width(),
            final(self).height() == old(self).height(),
            match result {
                Ok(_) => {
                    &&& old(self).in_bounds(magnitude(xi32 as int), magnitude(yi32 as int))
                    &&& final(self)@ == old(self).written(
                        magnitude(xi32 as int),
                        magnitude(yi32 as int),
                        value,
                    )
                },
                Err(ImageError::ErrorGettingRow) => {
                    &&& magnitude(yi32 as int) >= old(self).height()
                    &&& final(self)@ == old(self)@
                },
                Err(ImageError::ErrorGettingPixel) => {
                    &&& magnitude(yi32 as int) < old(self).height()
                    &&& magnitude(xi32 as int) >= old(self).width()
                    &&& final(self)@ == old(self)@
                },
            },
            forall|x: int, y: int|
                old(self).in_bounds(x, y) ==> #[trigger] final(self).pixel(x, y) == (if result.is_ok()
                    && x == magnitude(xi32 as int) && y == magnitude(yi32 as int) {
                    value
                } else {
                    old(self).pixel(x, y)
                }),
    {
        proof {
            use_type_invariant(&*self);
        }
        let xi = convert_to_screen_coords(xi32);
        let yi = convert_to_screen_coords(yi32);
        if yi >= self.0.len() {
            return Err(ImageError::ErrorGettingRow);
        }
        assert(self@[yi as int].len() == self@[0].len());
        if xi >= self.0[yi].len() {
            return Err(ImageError::ErrorGettingPixel);
        }
        let ghost before = self@;
        let mut rows: Vec<Vec<u8>> = Vec::new();
        std::mem::swap(&mut self.0, &mut rows);
        assert(forall|j: int| 0 <= j < rows@.len() ==> (#[trigger] rows@[j])@ == before[j]);
        rows[yi].set(xi, value);
        assert forall|j: int| 0 <= j < rows@.len() implies (#[trigger] rows@[j])@.len()
            == rows@[0]@.len() by {
            assert(before[j].len() == before[0].len());
        }
        assert(rectangular(Seq::new(rows@.len(), |j: int| rows@[j]@)));
        self.0 = rows;
        assert(self@ =~= before.update(yi as int, before[yi as int].update(xi as int, value)));
        Ok(())
    }

    /// The value at column `x` of row `y`.
    pub fn get_pixel_impl(&self, x: usize, y: usize) -> (value: u8)
        requires
            self.in_bounds(x as int, y as int),
        ensures
            value == self.pixel(x as int, y as int),
    {
        proof {
            use_type_invariant(self);
            assert(self@[y as int].len() == self@[0].len());
        }
        self.0[y][x]
    }

    /// The size of the grid as `(width, height)`.
    pub fn get_size(&self) -> (size: (usize, usize))
        ensures
            size.0 == self.width(),
            size.1 == self.height(),
    {
        let h = self.0.len();
        if h == 0 {
            (0, 0)
        } else {
            (self.0[0].len(), h)
        }
    }

    /// A copy of all rows: later writes to the grid do not show in it.
    pub fn get_map(&self) -> (map: CanvasType)
        ensures
            map@.len() == self.height(),
            forall|y: int| 0 <= y < map@.len() ==> (#[trigger] map@[y])@ == self@[y],
    {
        let mut map: Vec<Vec<u8>> = Vec::new();
        let mut y: usize = 0;
        while y < self.0.len()
            invariant
                y <= self.0.len(),
                map@.len() == y,
                forall|j: int| 0 <= j < y ==> (#[trigger] map@[j])@ == self@[j],
            decreases self.0.len() - y,
        {
            let mut row: Vec<u8> = Vec::new();
            let mut x: usize = 0;
            while x < self.0[y].len()
                invariant
                    y < self.0.len(),
                    x <= self.0[y as int].len(),
                    row@ == self.0[y as int]@.subrange(0, x as int),
                decreases self.0[y as int].len() - x,
            {
                row.push(self.0[y][x]);
                x += 1;
                assert(row@ =~= self.0[y as int]@.subrange(0, x as int));
            }
            assert(row@ =~= self@[y as int]);
            map.push(row);
            y += 1;
        }
        map
    }
}

} // verus!
