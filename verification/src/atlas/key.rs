//! The keys under which the atlas remembers bitmaps.

use crate::atlas::index::PackedKey;
use crate::digest::ContentHash;
use crate::subpixel::SubpixelOffset;
use vstd::prelude::*;

verus! {

/// What a cached bitmap was rasterized from.
#[derive(Clone, Copy, Debug, PartialEq, Eq, Hash, Structural)]
pub enum AtlasKey {
    /// A vector asset or image, named by the hash of its source and the size in
    /// pixels it was rasterized at.
    Content { hash: ContentHash, width: u32, height: u32 },
    /// A glyph of a font at a pixel size, shifted by a subpixel offset on each axis.
    Glyph {
        font_id: u64,
        glyph_id: u32,
        font_size: u32,
        subpx_x: SubpixelOffset,
        subpx_y: SubpixelOffset,
    },
}

impl AtlasKey {
    /// The key as the index stores it: a tag, then the fields packed into words.
    pub open spec fn packed_spec(self) -> PackedKey {
        match self {
            AtlasKey::Content { hash, width, height } => (
                0u8,
                hash.w0,
                hash.w1,
                hash.w2,
                hash.w3,
                (width * 0x1_0000_0000 + height) as u64,
            ),
            AtlasKey::Glyph { font_id, glyph_id, font_size, subpx_x, subpx_y } => (
                1u8,
                font_id,
                (glyph_id * 0x1_0000_0000 + font_size) as u64,
                (subpx_x.quarters() * 4 + subpx_y.quarters()) as u64,
                0u64,
                0u64,
            ),
        }
    }

    /// Packs the key for the index.
    pub fn packed(&self) -> (packed: PackedKey)
        ensures
            packed == self.packed_spec(),
    {
        match *self {
            AtlasKey::Content { hash, width, height } => {
                let size: u64 = (width as u64) * 0x1_0000_0000 + (height as u64);
                (0u8, hash.w0, hash.w1, hash.w2, hash.w3, size)
            },
            AtlasKey::Glyph { font_id, glyph_id, font_size, subpx_x, subpx_y } => {
                let glyph: u64 = (glyph_id as u64) * 0x1_0000_0000 + (font_size as u64);
                let offset: u64 = (subpx_x.to_quarters() as u64) * 4 + (
                subpx_y.to_quarters() as u64);
                (1u8, font_id, glyph, offset, 0u64, 0u64)
            },
        }
    }
}

/// Two keys that pack to the same words are the same key.
pub proof fn lemma_packed_injective(a: AtlasKey, b: AtlasKey)
    requires
        a.packed_spec() == b.packed_spec(),
    ensures
        a == b,
{
}

} // verus!
