//! How a finished frame is laid out in a window.

use vstd::prelude::*;

verus! {

/// Where the pixel at column `column` of row `row` of a frame of `width` by
/// `height` pixels is shown in a window of the same size: the frame is shown
/// turned by half a turn, so that the pixel stands as far from the right and
/// the lower edge as it stands from the left and the upper edge in the frame.
pub fn window_point(width: usize, height: usize, row: usize, column: usize) -> (point: (i32, i32))
    requires
        column <= width <= i32::MAX,
        row <= height <= i32::MAX,
    ensures
        point.0 == width - column,
        point.1 == height - row,
{
    (width as i32 - column as i32, height as i32 - row as i32)
}

} // verus!
