//! An axis-aligned rectangle on a pixel grid.

use vstd::prelude::*;

verus! {

/// A rectangle given by its inclusive-minimum and maximum grid coordinates.
#[derive(Debug, Default, PartialEq, Eq, Structural, Copy, Clone)]
pub struct Rectangle {
    /// Smallest x coordinate inside the rectangle.
    pub x_min: u32,
    /// Largest x coordinate inside the rectangle.
    pub x_max: u32,
    /// Smallest y coordinate inside the rectangle.
    pub y_min: u32,
    /// Largest y coordinate inside the rectangle.
    pub y_max: u32,
}

} // verus!
