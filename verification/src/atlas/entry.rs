//! Bitmaps, pixel rectangles and the entries an atlas stores.

use vstd::prelude::*;

verus! {

/// What the pixels of a rasterized bitmap mean.
#[derive(Clone, Copy, Debug, PartialEq, Eq, Hash, Structural)]
pub enum Content {
    /// One coverage value per pixel.
    Mask,
    /// One coverage value per colour channel.
    SubpixelMask,
    /// Full colour.
    Color,
}

/// The size and placement of a rasterized bitmap, as the rasterizer reports them.
#[derive(Clone, Copy, Debug, PartialEq, Eq, Structural)]
pub struct Bitmap {
    pub width: u32,
    pub height: u32,
    /// Horizontal offset of the bitmap's left edge from the drawing origin.
    pub left: i32,
    /// Vertical offset of the bitmap's top edge from the drawing origin.
    pub top: i32,
    pub content: Content,
}

/// A half-open rectangle of texture pixels: columns `x0..x1`, lines `y0..y1`.
#[derive(Clone, Copy, Debug, PartialEq, Eq, Structural)]
pub struct PixelRect {
    pub x0: u32,
    pub y0: u32,
    pub x1: u32,
    pub y1: u32,
}

impl PixelRect {
    /// Whether the pixel at column `x`, line `y` lies in the rectangle.
    pub open spec fn contains(self, x: int, y: int) -> bool {
        self.x0 <= x < self.x1 && self.y0 <= y < self.y1
    }

    /// The two rectangles share a pixel.
    pub open spec fn overlaps(self, other: PixelRect) -> bool {
        &&& self.x0 < self.x1 && self.y0 < self.y1
        &&& other.x0 < other.x1 && other.y0 < other.y1
        &&& self.x0 < other.x1 && other.x0 < self.x1
        &&& self.y0 < other.y1 && other.y0 < self.y1
    }
}

/// Two rectangles overlap exactly when some pixel lies in both.
pub proof fn lemma_overlap_is_a_shared_pixel(a: PixelRect, b: PixelRect)
    ensures
        a.overlaps(b) <==> exists|x: int, y: int| a.contains(x, y) && b.contains(x, y),
{
    if a.overlaps(b) {
        let x = if a.x0 >= b.x0 {
            a.x0 as int
        } else {
            b.x0 as int
        };
        let y = if a.y0 >= b.y0 {
            a.y0 as int
        } else {
            b.y0 as int
        };
        assert(a.contains(x, y) && b.contains(x, y));
    }
}

/// A bitmap's place in the atlas, together with what the rasterizer said of it.
#[derive(Clone, Copy, Debug, PartialEq, Eq, Structural)]
pub struct AtlasEntry {
    pub rect: PixelRect,
    pub left: i32,
    pub top: i32,
    pub content: Content,
}

/// Why the atlas could not hand out a rectangle.
#[derive(Clone, Copy, Debug, PartialEq, Eq, Structural)]
pub enum AtlasError {
    /// No shelf has room and a new shelf would pass the lower edge of the texture.
    OutOfSpace,
    /// The rasterizer produced no bitmap.
    RasterizationFailed,
}

/// A horizontal shelf of the atlas.
#[derive(Debug)]
pub struct Row {
    /// First texture line of the shelf.
    pub y: u32,
    /// Number of texture lines of the shelf.
    pub height: u32,
    /// Number of columns handed out so far.
    pub width: u32,
    /// The entries of the shelf, from left to right.
    pub entries: Vec<AtlasEntry>,
}

} // verus!
