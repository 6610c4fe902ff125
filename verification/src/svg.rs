//! Vector icons and images: keys by content, and their quads.

use crate::atlas::cache::AtlasCache;
use crate::atlas::entry::{AtlasEntry, AtlasError, Bitmap, Content};
use crate::atlas::key::AtlasKey;
use crate::atlas::model::AtlasView;
use crate::context::{ContextView, WgpuRenderContext};
use crate::digest::{sha256, ContentHash};
use crate::fixed::{ceil_units, checked_times, fits, round, round_of, times, wide_floor};
use crate::geometry::{Color, Rect};
use crate::layer::Tex;
use crate::text::saturated_u32;
use vstd::prelude::*;
use vstd::string::StringSliceAdditionalSpecFns;

verus! {

/// A vector icon, known by the hash of its source text.
#[derive(Clone, Copy, Debug, PartialEq, Eq, Hash, Structural)]
pub struct Svg {
    pub hash: ContentHash,
}

impl Svg {
    /// The icon with the given source text.
    pub fn from_source(source: &str) -> (svg: Svg)
        ensures
            svg.hash == ContentHash::of_bytes(sha256(source.spec_bytes())),
    {
        Svg { hash: ContentHash::of_source(source) }
    }
}

/// An image, known by the hash of its pixels and its size in pixels.
#[derive(Clone, Copy, Debug, PartialEq, Eq, Hash, Structural)]
pub struct WgpuImage {
    pub hash: ContentHash,
    pub width: u32,
    pub height: u32,
}

impl WgpuImage {
    /// The size of the image in pixels: width, height.
    pub fn size(&self) -> (size: (u32, u32))
        ensures
            size == (self.width, self.height),
    {
        (self.width, self.height)
    }
}

/// The number of whole pixels that cover the length `v`: none for a negative
/// length, and no more than 32 bits hold.
pub open spec fn pixels_covering(v: int) -> u32 {
    saturated_u32(ceil_units(v))
}

/// The bitmap of a rasterized icon or image: full colour, without bearing.
pub open spec fn plain_bitmap(width: u32, height: u32) -> Bitmap {
    Bitmap { width, height, left: 0, top: 0, content: Content::Color }
}

/// What is settled about an icon before the atlas is asked: its key, and the
/// rectangle it is drawn into.
#[derive(Clone, Copy, Debug, PartialEq, Eq, Structural)]
pub struct SvgPlan {
    pub key: AtlasKey,
    pub rect: Rect,
}

/// The plan for the icon `svg` drawn into `rect` under the state `context` and
/// the display scale `scale`. The icon is rasterized at the scaled size of the
/// rectangle, each side rounded up to whole pixels; it is drawn into the
/// rectangle moved by the translation in effect, each coordinate rounded to a
/// whole pixel. `None` where a number cannot be held.
pub open spec fn svg_plan(context: ContextView, svg: Svg, rect: Rect, scale: i64) -> Option<SvgPlan> {
    let width = rect.x1 - rect.x0;
    let height = rect.y1 - rect.y0;
    let x0 = rect.x0 + context.stack.current.e;
    let y0 = rect.y0 + context.stack.current.f;
    let x1 = rect.x1 + context.stack.current.e;
    let y1 = rect.y1 + context.stack.current.f;
    if fits(width) && fits(height) && fits(times(width, scale as int)) && fits(
        times(height, scale as int),
    ) && fits(x0) && fits(y0) && fits(x1) && fits(y1) && fits(round_of(x0)) && fits(round_of(y0))
        && fits(round_of(x1)) && fits(round_of(y1)) {
        Some(
            SvgPlan {
                key: AtlasKey::Content {
                    hash: svg.hash,
                    width: pixels_covering(times(width, scale as int)),
                    height: pixels_covering(times(height, scale as int)),
                },
                rect: Rect {
                    x0: round_of(x0) as i64,
                    y0: round_of(y0) as i64,
                    x1: round_of(x1) as i64,
                    y1: round_of(y1) as i64,
                },
            },
        )
    } else {
        None
    }
}

/// The size in pixels that a key asks for; zero for a glyph key.
pub open spec fn asked_size(key: AtlasKey) -> (u32, u32) {
    match key {
        AtlasKey::Content { hash, width, height } => (width, height),
        _ => (0, 0),
    }
}

/// The rasterizer's answer as the atlas reads it: a bitmap of the size asked for.
pub open spec fn rendered_bitmap(key: AtlasKey, rendered: Result<(), AtlasError>) -> Result<
    Bitmap,
    AtlasError,
> {
    match rendered {
        Ok(()) => Ok(plain_bitmap(asked_size(key).0, asked_size(key).1)),
        Err(error) => Err(error),
    }
}

/// The recorder and the atlas after an icon was drawn, and the atlas's answer,
/// where the rasterizer, had it been needed, came back with `rendered`. An icon
/// without a plan is passed over. Where the atlas has an entry for a planned
/// icon, its quad is recorded at the depth of the newest primitive, in
/// `override_color` or, where none is given, the icon's own colours.
pub open spec fn svg_drawn(
    context: ContextView,
    atlas: AtlasView,
    svg: Svg,
    rect: Rect,
    override_color: Option<Color>,
    scale: i64,
    rendered: Result<(), AtlasError>,
) -> (ContextView, AtlasView, Option<Result<AtlasEntry, AtlasError>>) {
    match svg_plan(context, svg, rect, scale) {
        None => (context, atlas, None),
        Some(plan) => {
            let (after, answer) = atlas.resolve(plan.key, rendered_bitmap(plan.key, rendered));
            match answer {
                Err(error) => (context, after, Some(answer)),
                Ok(entry) => (
                    context.with_icon(
                        Tex {
                            rect: plan.rect,
                            tex_rect: entry.rect,
                            color: match override_color {
                                Some(color) => color,
                                None => Color { r: 0, g: 0, b: 0, a: 0 },
                            },
                            depth: context.depth,
                            clip: context.clip_rect(),
                        },
                    ),
                    after,
                    Some(answer),
                ),
            }
        },
    }
}

fn cover_pixels(v: i64) -> (pixels: u32)
    ensures
        pixels == pixels_covering(v as int),
{
    let down: i128 = wide_floor(-(v as i128));
    let up: i128 = -down;
    if up < 0 {
        0
    } else if up > 0xffff_ffff {
        0xffff_ffff
    } else {
        up as u32
    }
}

impl AtlasCache {
    /// The entry of an image, placing it where the atlas does not hold it yet.
    pub fn get_img(&mut self, img: &WgpuImage) -> (answer: Result<AtlasEntry, AtlasError>)
        requires
            old(self).wf(),
        ensures
            final(self).wf(),
            final(self)@.wf(),
            (final(self)@, answer) == old(self)@.resolve(
                AtlasKey::Content { hash: img.hash, width: img.width, height: img.height },
                Ok(plain_bitmap(img.width, img.height)),
            ),
    {
        let key = AtlasKey::Content { hash: img.hash, width: img.width, height: img.height };
        self.resolve(
            &key,
            Ok(Bitmap { width: img.width, height: img.height, left: 0, top: 0, content: Content::Color }),
        )
    }

    /// The entry of an icon at `width` by `height` pixels, rasterizing it with
    /// `render` where the atlas does not hold it at that size yet.
    pub fn get_svg<F: FnOnce(u32, u32) -> Result<(), AtlasError>>(
        &mut self,
        svg: &Svg,
        width: u32,
        height: u32,
        render: F,
    ) -> (answer: Result<AtlasEntry, AtlasError>)
        requires
            old(self).wf(),
            old(self)@.lookup(AtlasKey::Content { hash: svg.hash, width, height }) is None
                ==> render.requires((width, height)),
        ensures
            final(self).wf(),
            final(self)@.wf(),
            exists|rendered: Result<(), AtlasError>|
                {
                    &&& (final(self)@, answer) == #[trigger] old(self)@.resolve(
                        AtlasKey::Content { hash: svg.hash, width, height },
                        rendered_bitmap(AtlasKey::Content { hash: svg.hash, width, height }, rendered),
                    )
                    &&& (old(self)@.lookup(AtlasKey::Content { hash: svg.hash, width, height })
                        is None ==> render.ensures((width, height), rendered))
                },
    {
        let key = AtlasKey::Content { hash: svg.hash, width, height };
        match self.lookup(&key) {
            Some(entry) => {
                proof {
                    self.lemma_view_is_wf();
                }
                assert((self@, Ok::<AtlasEntry, AtlasError>(entry)) == old(self)@.resolve(
                    key,
                    rendered_bitmap(key, Ok(())),
                ));
                Ok(entry)
            },
            None => {
                let rendered = render(width, height);
                let bitmap = match rendered {
                    Ok(()) => Ok(
                        Bitmap { width, height, left: 0, top: 0, content: Content::Color },
                    ),
                    Err(error) => Err(error),
                };
                let answer = self.resolve(&key, bitmap);
                assert((self@, answer) == old(self)@.resolve(key, rendered_bitmap(key, rendered)));
                answer
            },
        }
    }
}

impl WgpuRenderContext {
    /// Plans an icon drawn into `rect`.
    pub fn plan_svg(&self, svg: &Svg, rect: Rect, scale: i64) -> (plan: Option<SvgPlan>)
        ensures
            plan == svg_plan(self@, *svg, rect, scale),
    {
        let t = self.current_transform();
        let width = rect.width()?;
        let height = rect.height()?;
        let scaled_width = checked_times(width, scale)?;
        let scaled_height = checked_times(height, scale)?;
        let x0 = rect.x0.checked_add(t.e)?;
        let y0 = rect.y0.checked_add(t.f)?;
        let x1 = rect.x1.checked_add(t.e)?;
        let y1 = rect.y1.checked_add(t.f)?;
        let x0 = round(x0)?;
        let y0 = round(y0)?;
        let x1 = round(x1)?;
        let y1 = round(y1)?;
        Some(
            SvgPlan {
                key: AtlasKey::Content {
                    hash: svg.hash,
                    width: cover_pixels(scaled_width),
                    height: cover_pixels(scaled_height),
                },
                rect: Rect { x0, y0, x1, y1 },
            },
        )
    }

    /// Draws the icon `svg` into `rect`, asking `atlas` for its bitmap and
    /// `render` for a new one where the atlas has none at that size. Returns the
    /// atlas's answer, or `None` for an icon that is passed over.
    pub fn draw_svg<F: FnOnce(u32, u32) -> Result<(), AtlasError>>(
        &mut self,
        atlas: &mut AtlasCache,
        svg: &Svg,
        rect: Rect,
        override_color: Option<Color>,
        scale: i64,
        render: F,
    ) -> (answer: Option<Result<AtlasEntry, AtlasError>>)
        requires
            old(self)@.wf(),
            old(atlas).wf(),
            svg_plan(old(self)@, *svg, rect, scale) matches Some(plan) ==> old(atlas)@.lookup(
                plan.key,
            ) is Some || render.requires(asked_size(plan.key)),
        ensures
            final(self)@.wf(),
            final(atlas).wf(),
            exists|rendered: Result<(), AtlasError>|
                {
                    &&& (final(self)@, final(atlas)@, answer) == #[trigger] svg_drawn(
                        old(self)@,
                        old(atlas)@,
                        *svg,
                        rect,
                        override_color,
                        scale,
                        rendered,
                    )
                    &&& (svg_plan(old(self)@, *svg, rect, scale) matches Some(plan) ==> (old(
                        atlas,
                    )@.lookup(plan.key) is None ==> render.ensures(asked_size(plan.key), rendered)))
                },
    {
        let depth = self.depth();
        let clip = self.current_clip();
        let plan = match self.plan_svg(svg, rect, scale) {
            Some(plan) => plan,
            None => {
                assert((self@, atlas@, None::<Result<AtlasEntry, AtlasError>>) == svg_drawn(
                    old(self)@,
                    old(atlas)@,
                    *svg,
                    rect,
                    override_color,
                    scale,
                    Ok(()),
                ));
                return None;
            },
        };
        let (width, height) = match plan.key {
            AtlasKey::Content { hash, width, height } => (width, height),
            _ => (0, 0),
        };
        let answer = atlas.get_svg(svg, width, height, render);
        let ghost rendered = choose|rendered: Result<(), AtlasError>|
            {
                &&& (atlas@, answer) == #[trigger] old(atlas)@.resolve(
                    plan.key,
                    rendered_bitmap(plan.key, rendered),
                )
                &&& (old(atlas)@.lookup(plan.key) is None ==> render.ensures(
                    (width, height),
                    rendered,
                ))
            };
        if let Ok(entry) = answer {
            let color = match override_color {
                Some(color) => color,
                None => Color { r: 0, g: 0, b: 0, a: 0 },
            };
            self.record_icon(Tex { rect: plan.rect, tex_rect: entry.rect, color, depth, clip });
        }
        assert((self@, atlas@, Some(answer)) == svg_drawn(
            old(self)@,
            old(atlas)@,
            *svg,
            rect,
            override_color,
            scale,
            rendered,
        ));
        Some(answer)
    }
}

} // verus!
