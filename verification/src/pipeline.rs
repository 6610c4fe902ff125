//! The records that the shaders read.

use crate::fixed::ONE;
use crate::geometry::{Color, Point, Rect};
use vstd::prelude::*;

verus! {

/// The linear part of an affine map, in fixed-point numbers.
#[derive(Clone, Copy, Debug, PartialEq, Eq, Structural)]
pub struct Linear {
    pub a: i64,
    pub b: i64,
    pub c: i64,
    pub d: i64,
}

/// The transform and clip state that a run of vertices is drawn under.
#[derive(Clone, Copy, Debug, PartialEq, Eq, Structural)]
pub struct Primitive {
    pub clip_rect: Rect,
    pub transform_1: Linear,
    pub blur_rect: Rect,
    pub transform_2: Point,
    pub translate: Point,
    pub scale: Point,
    /// One where `clip_rect` is to be applied, zero where it is not.
    pub clip: i64,
    pub blur_radius: i64,
}

impl Primitive {
    /// No translation, unit scale, identity transform, no clip and no blur.
    pub open spec fn plain() -> Primitive {
        Primitive {
            clip_rect: Rect::zero(),
            transform_1: Linear { a: 65536, b: 0, c: 0, d: 65536 },
            blur_rect: Rect::zero(),
            transform_2: Point { x: 0, y: 0 },
            translate: Point { x: 0, y: 0 },
            scale: Point { x: 65536, y: 65536 },
            clip: 0,
            blur_radius: 0,
        }
    }

    /// The record of a state with the given translation and clip rectangle.
    pub open spec fn of_state(translate: Point, clip_rect: Rect) -> Primitive {
        Primitive { translate, clip: 65536, clip_rect, ..Primitive::plain() }
    }
}

impl Default for Primitive {
    fn default() -> (primitive: Primitive)
        ensures
            primitive == Primitive::plain(),
    {
        Primitive {
            translate: Point { x: 0, y: 0 },
            scale: Point { x: ONE, y: ONE },
            clip: 0,
            clip_rect: Rect { x0: 0, y0: 0, x1: 0, y1: 0 },
            transform_1: Linear { a: ONE, b: 0, c: 0, d: ONE },
            transform_2: Point { x: 0, y: 0 },
            blur_rect: Rect { x0: 0, y0: 0, x1: 0, y1: 0 },
            blur_radius: 0,
        }
    }
}

/// A vertex as the general-purpose shader reads it.
#[derive(Clone, Copy, Debug, PartialEq, Eq, Structural)]
pub struct GpuVertex {
    pub pos: Point,
    pub translate: Point,
    pub color: Color,
    pub tex: i64,
    pub tex_pos: Point,
    pub primitive_id: u32,
}

impl GpuVertex {
    /// The vertex at the origin, transparent black, untextured, of primitive zero.
    pub open spec fn zeroed() -> GpuVertex {
        GpuVertex {
            pos: Point { x: 0, y: 0 },
            translate: Point { x: 0, y: 0 },
            color: Color { r: 0, g: 0, b: 0, a: 0 },
            tex: 0,
            tex_pos: Point { x: 0, y: 0 },
            primitive_id: 0,
        }
    }
}

impl Default for GpuVertex {
    fn default() -> (vertex: GpuVertex)
        ensures
            vertex == GpuVertex::zeroed(),
    {
        GpuVertex {
            pos: Point { x: 0, y: 0 },
            translate: Point { x: 0, y: 0 },
            color: Color { r: 0, g: 0, b: 0, a: 0 },
            tex: 0,
            tex_pos: Point { x: 0, y: 0 },
            primitive_id: 0,
        }
    }
}

} // verus!
