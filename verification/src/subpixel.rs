//! Quarter-pixel glyph offsets.

use crate::fixed::{floor, fraction_of};
use vstd::prelude::*;

verus! {

/// A horizontal or vertical glyph offset, quantized to quarters of a pixel.
#[derive(Clone, Copy, Debug, PartialEq, Eq, PartialOrd, Ord, Hash, Structural)]
pub enum SubpixelOffset {
    Zero,
    Quarter,
    Half,
    ThreeQuarters,
}

impl SubpixelOffset {
    /// The offset in quarters of a pixel.
    pub open spec fn quarters(self) -> int {
        match self {
            SubpixelOffset::Zero => 0,
            SubpixelOffset::Quarter => 1,
            SubpixelOffset::Half => 2,
            SubpixelOffset::ThreeQuarters => 3,
        }
    }

    /// The quarter that a position falls nearest to, going by its part above the
    /// whole pixel below it: up to an eighth and from seven eighths on `Zero`,
    /// then `Quarter` up to three eighths, `Half` up to five eighths and
    /// `ThreeQuarters` up to seven eighths.
    pub open spec fn quantized(pos: i64) -> SubpixelOffset {
        let part = fraction_of(pos as int);
        if part < 8192 {
            SubpixelOffset::Zero
        } else if part < 24576 {
            SubpixelOffset::Quarter
        } else if part < 40960 {
            SubpixelOffset::Half
        } else if part < 57344 {
            SubpixelOffset::ThreeQuarters
        } else {
            SubpixelOffset::Zero
        }
    }

    /// Quantizes the position `pos`, a fixed-point number of pixels, to a quarter.
    pub fn quantize(pos: i64) -> (offset: SubpixelOffset)
        ensures
            offset == SubpixelOffset::quantized(pos),
    {
        let part: i64 = pos - floor(pos);
        let eighths: i64 = part / 8192;
        if eighths == 1 || eighths == 2 {
            SubpixelOffset::Quarter
        } else if eighths == 3 || eighths == 4 {
            SubpixelOffset::Half
        } else if eighths == 5 || eighths == 6 {
            SubpixelOffset::ThreeQuarters
        } else {
            SubpixelOffset::Zero
        }
    }

    /// The offset as a count of quarter pixels, from 0 to 3.
    pub fn to_quarters(self) -> (count: u8)
        ensures
            count == self.quarters(),
    {
        match self {
            SubpixelOffset::Zero => 0,
            SubpixelOffset::Quarter => 1,
            SubpixelOffset::Half => 2,
            SubpixelOffset::ThreeQuarters => 3,
        }
    }
}

impl Default for SubpixelOffset {
    fn default() -> (offset: SubpixelOffset)
        ensures
            offset == SubpixelOffset::Zero,
    {
        SubpixelOffset::Zero
    }
}

} // verus!
