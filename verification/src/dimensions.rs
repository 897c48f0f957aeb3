//! A width/height pair used by every spatial entity for bounds checks.

use vstd::prelude::*;

verus! {

/// Generic dimensions: a width and a height, in grid cells.
///
/// A value is immutable once built; resizing replaces it wholesale.
#[derive(Clone, Copy, Debug, PartialEq, Eq, Structural)]
pub struct Dimensions {
    pub width: u16,
    pub height: u16,
}

impl Dimensions {
    /// Create a new set of dimensions.
    pub fn new(width: u16, height: u16) -> (d: Dimensions)
        ensures
            d.width == width,
            d.height == height,
    {
        Dimensions { width, height }
    }

    /// Get the width.
    pub fn width(&self) -> (w: u16)
        ensures
            w == self.width,
    {
        self.width
    }

    /// Get the height.
    pub fn height(&self) -> (h: u16)
        ensures
            h == self.height,
    {
        self.height
    }
}

} // verus!
