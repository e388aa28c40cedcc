//! Where the cells lie on the panel: the square field of cells starts at a
//! fixed offset, and each cell is a square of `CELL_SIZE` pixels with a
//! filled inner square.

use vstd::prelude::*;

verus! {

/// Left edge of the field, in pixels.
pub const X_OFFSET: u32 = 30;

/// Top edge of the field, in pixels.
pub const Y_OFFSET: u32 = 264;

/// Width and height of the field, in pixels.
pub const REAL_FIELD_SIZE: u32 = 1344;

/// Width and height of one cell, in pixels.
pub const CELL_SIZE: u32 = 32;

/// Gap between a cell's edge and its filled inner square, in pixels.
pub const CELL_MARGIN: u32 = 3;

/// Width and height of a cell's filled inner square, in pixels.
pub const CELL_FILL: u32 = 26;

/// A rectangle on the panel, in pixels.
#[derive(Clone, Copy, PartialEq, Eq, Debug, Structural)]
pub struct Rect {
    pub left: u32,
    pub top: u32,
    pub width: u32,
    pub height: u32,
}

/// Whether the pixel `(x, y)` lies on the field. Both far edges count.
pub open spec fn on_field(x: int, y: int) -> bool {
    &&& X_OFFSET <= x <= X_OFFSET + REAL_FIELD_SIZE
    &&& Y_OFFSET <= y <= Y_OFFSET + REAL_FIELD_SIZE
}

/// Whether the square of the cell `(x, y)` has `u32` pixel coordinates
/// throughout.
pub open spec fn drawable(x: int, y: int) -> bool {
    &&& x * CELL_SIZE + X_OFFSET + CELL_SIZE <= u32::MAX
    &&& y * CELL_SIZE + Y_OFFSET + CELL_SIZE <= u32::MAX
}

/// Tests `drawable`, for callers that must check before they ask for a
/// cell's rectangle.
pub fn is_drawable(x: u32, y: u32) -> (r: bool)
    ensures
        r == drawable(x as int, y as int),
{
    x <= (u32::MAX - X_OFFSET - CELL_SIZE) / CELL_SIZE && y <= (u32::MAX - Y_OFFSET - CELL_SIZE)
        / CELL_SIZE
}

/// The cell that the pixel `(x, y)` of the field falls into.
pub open spec fn cell_under(x: int, y: int) -> (int, int) {
    ((x - X_OFFSET) / (CELL_SIZE as int), (y - Y_OFFSET) / (CELL_SIZE as int))
}

/// The cell under the pixel `(x, y)`, or `None` off the field. A pixel on
/// the far edge itself gives the coordinate one past the last cell, which the
/// grid wraps.
pub fn get_cell_from_absolute(x: u32, y: u32) -> (r: Option<(u32, u32)>)
    ensures
        on_field(x as int, y as int) <==> r is Some,
        r matches Some(c) ==> (c.0 as int, c.1 as int) == cell_under(x as int, y as int),
{
    if x >= X_OFFSET && X_OFFSET + REAL_FIELD_SIZE >= x && y >= Y_OFFSET && Y_OFFSET
        + REAL_FIELD_SIZE >= y {
        Some(((x - X_OFFSET) / CELL_SIZE, (y - Y_OFFSET) / CELL_SIZE))
    } else {
        None
    }
}

/// The square of the panel that the cell `(x, y)` covers.
pub fn cell_rect(x: u32, y: u32) -> (r: Rect)
    requires
        drawable(x as int, y as int),
    ensures
        r.left == x * CELL_SIZE + X_OFFSET,
        r.top == y * CELL_SIZE + Y_OFFSET,
        r.width == CELL_SIZE,
        r.height == CELL_SIZE,
{
    Rect {
        left: x * CELL_SIZE + X_OFFSET,
        top: y * CELL_SIZE + Y_OFFSET,
        width: CELL_SIZE,
        height: CELL_SIZE,
    }
}

/// The inner square of the cell `(x, y)`, which is filled in the cell's colour.
pub fn cell_fill_rect(x: u32, y: u32) -> (r: Rect)
    requires
        drawable(x as int, y as int),
    ensures
        r.left == x * CELL_SIZE + X_OFFSET + CELL_MARGIN,
        r.top == y * CELL_SIZE + Y_OFFSET + CELL_MARGIN,
        r.width == CELL_FILL,
        r.height == CELL_FILL,
{
    Rect {
        left: x * CELL_SIZE + X_OFFSET + CELL_MARGIN,
        top: y * CELL_SIZE + Y_OFFSET + CELL_MARGIN,
        width: CELL_FILL,
        height: CELL_FILL,
    }
}

} // verus!
