//! Points, sizes and coloured pixels.

use vstd::prelude::*;

verus! {

/// A position on a display, in pixels from its top left corner. Positions
/// outside the display, left of it or above it too, are ordinary values.
#[derive(Clone, Copy, PartialEq, Eq, Debug, Structural)]
pub struct Point {
    /// Distance from the left edge.
    pub x: i32,
    /// Distance from the top edge.
    pub y: i32,
}

impl Point {
    /// The point at `(x, y)`.
    pub fn new(x: i32, y: i32) -> (p: Point)
        ensures
            p == (Point { x, y }),
    {
        Point { x, y }
    }

    /// The top left corner.
    pub fn zero() -> (p: Point)
        ensures
            p == (Point { x: 0, y: 0 }),
    {
        Point { x: 0, y: 0 }
    }
}

/// The extent of a display or of a part of it, in pixels.
#[derive(Clone, Copy, PartialEq, Eq, Debug, Structural)]
pub struct Size {
    /// Pixels in one row.
    pub width: u32,
    /// Rows.
    pub height: u32,
}

impl Size {
    /// The size of `width` by `height` pixels.
    pub fn new(width: u32, height: u32) -> (s: Size)
        ensures
            s == (Size { width, height }),
    {
        Size { width, height }
    }
}

/// One pixel to draw: where, and in which colour.
#[derive(Debug)]
pub struct Pixel<C>(pub Point, pub C);

} // verus!
