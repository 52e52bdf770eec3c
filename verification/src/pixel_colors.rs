//! The four channels of one pixel.

use vstd::prelude::*;

verus! {

/// One RGBA pixel with eight bits per channel.
#[derive(Clone, Copy, Debug, PartialEq, Eq, Structural)]
pub struct PixelColors {
    pub red: u8,
    pub green: u8,
    pub blue: u8,
    pub alpha: u8,
}

/// Position of the red channel in a four-channel sample.
pub const RED_INDEX: usize = 0;

/// Position of the green channel in a four-channel sample.
pub const GREEN_INDEX: usize = 1;

/// Position of the blue channel in a four-channel sample.
pub const BLUE_INDEX: usize = 2;

/// Position of the alpha channel in a four-channel sample.
pub const ALPHA_INDEX: usize = 3;

impl PixelColors {
    /// The pixel whose channels are the four given samples, in the order
    /// red, green, blue, alpha.
    pub open spec fn from_channels(rgba: Seq<u8>) -> PixelColors {
        PixelColors { red: rgba[0], green: rgba[1], blue: rgba[2], alpha: rgba[3] }
    }

    /// Reads a pixel from its four samples, in the order red, green, blue,
    /// alpha.
    pub fn new(rgba: &[u8; 4]) -> (colors: PixelColors)
        ensures
            colors == PixelColors::from_channels(rgba@),
    {
        PixelColors {
            red: rgba[RED_INDEX],
            green: rgba[GREEN_INDEX],
            blue: rgba[BLUE_INDEX],
            alpha: rgba[ALPHA_INDEX],
        }
    }
}

} // verus!
