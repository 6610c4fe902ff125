//! The renderer: what outlives a frame.

use crate::atlas::cache::AtlasCache;
use crate::atlas::model::AtlasView;
use crate::fixed::{wide_floor, ONE};
use crate::geometry::Size;
use vstd::prelude::*;

verus! {

/// The width and the height in pixels of each atlas of a renderer.
pub const ATLAS_SIZE: u32 = 2000;

/// The whole part of a fixed-point number, cut towards zero and to what 32 bits
/// with sign hold.
pub open spec fn whole_part(v: int) -> i32 {
    let units = if v >= 0 {
        v / 65536
    } else {
        -((-v) / 65536)
    };
    if units < i32::MIN {
        i32::MIN
    } else if units > i32::MAX {
        i32::MAX
    } else {
        units as i32
    }
}

fn whole(v: i64) -> (units: i32)
    ensures
        units == whole_part(v as int),
{
    let units: i128 = if v >= 0 {
        wide_floor(v as i128)
    } else {
        -wide_floor(-(v as i128))
    };
    if units < -0x8000_0000 {
        -0x8000_0000
    } else if units > 0x7fff_ffff {
        0x7fff_ffff
    } else {
        units as i32
    }
}

/// The state of a renderer between frames: the size of the surface, the display
/// scale, and the two atlases, one for vector icons and one for glyphs.
pub struct WgpuRenderer {
    pub size: Size,
    pub scale: i64,
    pub svg_store: AtlasCache,
    pub text: AtlasCache,
}

impl WgpuRenderer {
    /// Both atlases are well formed.
    pub open spec fn wf(&self) -> bool {
        self.svg_store.wf() && self.text.wf()
    }

    /// A renderer for a surface of no size yet, at scale one, with empty atlases.
    pub fn new() -> (renderer: WgpuRenderer)
        ensures
            renderer.wf(),
            renderer.size == (Size { width: 0, height: 0 }),
            renderer.scale == 65536,
            renderer.svg_store@ == AtlasView::empty(2000, 2000),
            renderer.text@ == AtlasView::empty(2000, 2000),
    {
        WgpuRenderer {
            size: Size { width: 0, height: 0 },
            scale: ONE,
            svg_store: AtlasCache::new(ATLAS_SIZE, ATLAS_SIZE),
            text: AtlasCache::new(ATLAS_SIZE, ATLAS_SIZE),
        }
    }

    /// Sets the size of the surface and returns the size of the viewport in whole
    /// pixels.
    pub fn set_size(&mut self, size: Size) -> (viewport: (i32, i32))
        ensures
            final(self).size == size,
            final(self).scale == old(self).scale,
            final(self).svg_store == old(self).svg_store,
            final(self).text == old(self).text,
            viewport == (whole_part(size.width as int), whole_part(size.height as int)),
    {
        self.size = size;
        (whole(size.width), whole(size.height))
    }

    /// Sets the display scale.
    pub fn set_scale(&mut self, scale: i64)
        ensures
            final(self).scale == scale,
            final(self).size == old(self).size,
            final(self).svg_store == old(self).svg_store,
            final(self).text == old(self).text,
    {
        self.scale = scale;
    }
}

} // verus!
