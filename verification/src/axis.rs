//! The orientation of a seam.

use vstd::prelude::*;

verus! {

/// The direction in which a seam crosses the image.
///
/// A `Vertical` seam runs from the top row to the bottom row and holds one
/// column index per row; removing it makes the image one pixel narrower.
/// A `Horizontal` seam runs from the left column to the right column and
/// holds one row index per column; removing it makes the image one pixel
/// lower.
#[derive(Clone, Copy, Debug, PartialEq, Eq, Structural)]
pub enum Axis {
    Vertical,
    Horizontal,
}

impl Axis {
    /// The other orientation.
    pub open spec fn flipped(self) -> Axis {
        match self {
            Axis::Vertical => Axis::Horizontal,
            Axis::Horizontal => Axis::Vertical,
        }
    }
}

} // verus!
