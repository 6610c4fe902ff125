//! The core of a 2D vector-graphics rendering backend, with its behaviour stated
//! in contracts and proved.
//!
//! A frame is recorded through a [`context::WgpuRenderContext`]: drawing calls are
//! turned into primitives, each with the clip rectangle in effect and a depth
//! that grows with every call, and sorted into the buckets of a
//! [`layer::Layer`]. The transform and clip state follows the
//! save/restore discipline of [`state::TransformClipStack`]. Bitmaps of glyphs
//! and icons are packed into the shelves of an [`atlas::cache::AtlasCache`],
//! which hands out one rectangle per key and never moves it. At the end of the
//! frame [`compositor::plan`] gives the passes in which the buckets are drawn.
//!
//! Nothing here touches a GPU, a font or a file: the caller rasterizes,
//! tessellates and submits. Coordinates are fixed-point numbers, see [`fixed`].

pub mod atlas;
pub mod buffer;
pub mod compositor;
pub mod context;
pub mod depth;
pub mod digest;
pub mod error;
pub mod fixed;
pub mod geometry;
pub mod layer;
pub mod pipeline;
pub mod renderer;
pub mod replay;
pub mod state;
pub mod subpixel;
pub mod svg;
pub mod tessellate;
pub mod text;
pub mod transform;
