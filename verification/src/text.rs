//! Glyphs: from a position in a layout to a textured quad.

use crate::atlas::cache::AtlasCache;
use crate::atlas::entry::{AtlasEntry, AtlasError, Bitmap, Content};
use crate::atlas::key::AtlasKey;
use crate::atlas::model::AtlasView;
use crate::context::{ContextView, WgpuRenderContext};
use crate::fixed::{
    checked_times, fits, floor, floor_of, narrow, round, round_of, times, wide_floor, EIGHTH,
};
use crate::geometry::{Color, Point, Rect};
use crate::layer::Tex;
use crate::subpixel::SubpixelOffset;
use vstd::prelude::*;

verus! {

/// The atlas of glyphs is an atlas like any other.
pub type Cache = AtlasCache;

/// A glyph of a laid-out text: which glyph of which font at which size, where it
/// stands relative to the text's origin, and the colour of its run.
#[derive(Clone, Copy, Debug, PartialEq, Eq, Structural)]
pub struct PositionedGlyph {
    /// The glyph's number in its font; zero stands for a missing glyph.
    pub id: u32,
    pub x: i64,
    pub y: i64,
    pub font_id: u64,
    /// The font size in pixels before scaling, as a fixed-point number.
    pub font_size: i64,
    pub color: Color,
}

/// What is settled about a glyph before the atlas is asked: its key, the whole
/// pixel column it starts at, its scaled baseline, and the scaled clip rectangle.
#[derive(Clone, Copy, Debug, PartialEq, Eq, Structural)]
pub struct GlyphPlan {
    pub key: AtlasKey,
    pub x: i64,
    pub y: i64,
    pub clip: Rect,
}

/// A whole number of units cut to what 32 bits without sign hold.
pub open spec fn saturated_u32(units: int) -> u32 {
    if units < 0 {
        0
    } else if units > u32::MAX {
        u32::MAX
    } else {
        units as u32
    }
}

/// The rectangle with every coordinate multiplied by `scale`, where all four can
/// be held.
pub open spec fn scaled_rect(rect: Rect, scale: i64) -> Option<Rect> {
    let x0 = times(rect.x0 as int, scale as int);
    let y0 = times(rect.y0 as int, scale as int);
    let x1 = times(rect.x1 as int, scale as int);
    let y1 = times(rect.y1 as int, scale as int);
    if fits(x0) && fits(y0) && fits(x1) && fits(y1) {
        Some(Rect { x0: x0 as i64, y0: y0 as i64, x1: x1 as i64, y1: y1 as i64 })
    } else {
        None
    }
}

/// The plan for `glyph` of a text drawn at `origin` under the state `context` and
/// the display scale `scale`. The glyph's column is its position moved by the
/// origin and the translation in effect; the line is its position moved by the
/// origin's line, which is rounded to a whole pixel together with the
/// translation. Both are scaled; the column is then rounded down after an eighth
/// is added, and what it loses decides the subpixel offset of the key. The font
/// size of the key is the scaled size rounded to whole pixels. `None` for the
/// missing glyph and where a number cannot be held.
pub open spec fn glyph_plan(
    context: ContextView,
    glyph: PositionedGlyph,
    origin: Point,
    scale: i64,
) -> Option<GlyphPlan> {
    let x = glyph.x + origin.x + context.stack.current.e;
    let line = round_of(origin.y + context.stack.current.f);
    let y = glyph.y + line;
    let xs = times(x, scale as int);
    let ys = times(y, scale as int);
    let size = times(glyph.font_size as int, scale as int);
    if glyph.id != 0 && fits(x) && fits(origin.y + context.stack.current.f) && fits(line) && fits(
        y,
    ) && fits(xs) && fits(ys) && fits(size) && fits(xs + 8192) && fits(round_of(size))
        && scaled_rect(context.clip_rect(), scale) is Some {
        Some(
            GlyphPlan {
                key: AtlasKey::Glyph {
                    font_id: glyph.font_id,
                    glyph_id: glyph.id,
                    font_size: saturated_u32(round_of(size) / 65536),
                    subpx_x: SubpixelOffset::quantized(xs as i64),
                    subpx_y: SubpixelOffset::Zero,
                },
                x: floor_of(xs + 8192) as i64,
                y: ys as i64,
                clip: scaled_rect(context.clip_rect(), scale).unwrap(),
            },
        )
    } else {
        None
    }
}

/// The quad for a planned glyph whose bitmap lies at `entry`: as large as the
/// bitmap, set off by the bitmap's bearing, on a whole pixel line. A colour
/// bitmap is drawn as it is, any other in `color`. `None` where a coordinate
/// cannot be held.
pub open spec fn glyph_tex(plan: GlyphPlan, entry: AtlasEntry, color: Color, depth: u32) -> Option<Tex> {
    let left = entry.left * 65536;
    let width = (entry.rect.x1 - entry.rect.x0) * 65536;
    let height = (entry.rect.y1 - entry.rect.y0) * 65536;
    let y = round_of(plan.y - entry.top * 65536);
    if fits(plan.y - entry.top * 65536) && fits(y) && fits(left + plan.x) && fits(
        left + width + plan.x,
    ) && fits(y + height) {
        Some(
            Tex {
                rect: Rect {
                    x0: (left + plan.x) as i64,
                    y0: y as i64,
                    x1: (left + width + plan.x) as i64,
                    y1: (y + height) as i64,
                },
                tex_rect: entry.rect,
                color: if entry.content is Color {
                    Color { r: 0, g: 0, b: 0, a: 0 }
                } else {
                    color
                },
                depth,
                clip: plan.clip,
            },
        )
    } else {
        None
    }
}

/// The recorder and the atlas after one glyph was drawn, and the atlas's answer,
/// where the rasterizer, had it been needed, came back with `rendered`. A glyph
/// without a plan is passed over. A planned glyph is looked up in the atlas and
/// rasterized where it is new; where the atlas has an entry for it and its quad
/// can be held, the quad is recorded at the depth of the newest primitive.
pub open spec fn glyph_drawn(
    context: ContextView,
    atlas: AtlasView,
    glyph: PositionedGlyph,
    origin: Point,
    scale: i64,
    rendered: Result<Bitmap, AtlasError>,
) -> (ContextView, AtlasView, Option<Result<AtlasEntry, AtlasError>>) {
    match glyph_plan(context, glyph, origin, scale) {
        None => (context, atlas, None),
        Some(plan) => {
            let (after, answer) = atlas.resolve(plan.key, rendered);
            match answer {
                Err(error) => (context, after, Some(answer)),
                Ok(entry) => match glyph_tex(plan, entry, glyph.color, context.depth) {
                    None => (context, after, Some(answer)),
                    Some(tex) => (
                        context.with_glyph(tex, entry.content is Color),
                        after,
                        Some(answer),
                    ),
                },
            }
        },
    }
}

/// The recorder and the atlas after the first `n` glyphs of a text were drawn in
/// order, where the rasterizer's answer for glyph `i`, had it been needed, was
/// `answers[i]`.
pub open spec fn text_drawn(
    context: ContextView,
    atlas: AtlasView,
    glyphs: Seq<PositionedGlyph>,
    origin: Point,
    scale: i64,
    answers: Seq<Result<Bitmap, AtlasError>>,
    n: nat,
) -> (ContextView, AtlasView)
    decreases n,
{
    if n == 0 {
        (context, atlas)
    } else {
        let before = text_drawn(context, atlas, glyphs, origin, scale, answers, (n - 1) as nat);
        let drawn = glyph_drawn(before.0, before.1, glyphs[n - 1], origin, scale, answers[n - 1]);
        (drawn.0, drawn.1)
    }
}

/// The key that glyph `i` of the text needed the rasterizer for, if it needed
/// it: the glyph has a plan and the atlas, as the glyphs before it left it, has
/// nothing under the plan's key.
pub open spec fn key_to_rasterize(
    context: ContextView,
    atlas: AtlasView,
    glyphs: Seq<PositionedGlyph>,
    origin: Point,
    scale: i64,
    answers: Seq<Result<Bitmap, AtlasError>>,
    i: int,
) -> Option<AtlasKey> {
    let before = text_drawn(context, atlas, glyphs, origin, scale, answers, i as nat);
    match glyph_plan(before.0, glyphs[i], origin, scale) {
        Some(plan) => if before.1.lookup(plan.key) is None {
            Some(plan.key)
        } else {
            None
        },
        None => None,
    }
}

/// What the first `n` glyphs leave behind depends on the first `n` answers only.
proof fn lemma_text_drawn_prefix(
    context: ContextView,
    atlas: AtlasView,
    glyphs: Seq<PositionedGlyph>,
    origin: Point,
    scale: i64,
    a: Seq<Result<Bitmap, AtlasError>>,
    b: Seq<Result<Bitmap, AtlasError>>,
    n: nat,
)
    requires
        n <= a.len(),
        n <= b.len(),
        forall|i: int| 0 <= i < n ==> a[i] == b[i],
    ensures
        text_drawn(context, atlas, glyphs, origin, scale, a, n) == text_drawn(
            context,
            atlas,
            glyphs,
            origin,
            scale,
            b,
            n,
        ),
    decreases n,
{
    if n > 0 {
        lemma_text_drawn_prefix(context, atlas, glyphs, origin, scale, a, b, (n - 1) as nat);
    }
}

fn scale_rect(rect: &Rect, scale: i64) -> (scaled: Option<Rect>)
    ensures
        scaled == scaled_rect(*rect, scale),
{
    let x0 = checked_times(rect.x0, scale);
    let y0 = checked_times(rect.y0, scale);
    let x1 = checked_times(rect.x1, scale);
    let y1 = checked_times(rect.y1, scale);
    match (x0, y0, x1, y1) {
        (Some(x0), Some(y0), Some(x1), Some(y1)) => Some(Rect { x0, y0, x1, y1 }),
        _ => None,
    }
}

fn saturate_u32(units: i128) -> (cut: u32)
    ensures
        cut == saturated_u32(units as int),
{
    if units < 0 {
        0
    } else if units > 0xffff_ffff {
        0xffff_ffff
    } else {
        units as u32
    }
}

impl WgpuRenderContext {
    /// Plans a glyph of a text drawn at `origin`.
    pub fn plan_glyph(&self, glyph: &PositionedGlyph, origin: Point, scale: i64) -> (plan: Option<
        GlyphPlan,
    >)
        ensures
            plan == glyph_plan(self@, *glyph, origin, scale),
    {
        if glyph.id == 0 {
            return None;
        }
        let t = self.current_transform();
        let clip = self.current_clip();
        let x = narrow((glyph.x as i128) + (origin.x as i128) + (t.e as i128))?;
        let base = origin.y.checked_add(t.f)?;
        let line = round(base)?;
        let y = glyph.y.checked_add(line)?;
        let xs = checked_times(x, scale)?;
        let ys = checked_times(y, scale)?;
        let size = checked_times(glyph.font_size, scale)?;
        let shifted = xs.checked_add(EIGHTH)?;
        let rounded = round(size)?;
        let clip = scale_rect(&clip, scale)?;
        let pixels = saturate_u32(wide_floor(rounded as i128));
        Some(
            GlyphPlan {
                key: AtlasKey::Glyph {
                    font_id: glyph.font_id,
                    glyph_id: glyph.id,
                    font_size: pixels,
                    subpx_x: SubpixelOffset::quantize(xs),
                    subpx_y: SubpixelOffset::Zero,
                },
                x: floor(shifted),
                y: ys,
                clip,
            },
        )
    }

    /// The quad for a planned glyph whose bitmap lies at `entry`.
    pub fn glyph_quad(plan: &GlyphPlan, entry: &AtlasEntry, color: Color, depth: u32) -> (tex: Option<
        Tex,
    >)
        ensures
            tex == glyph_tex(*plan, *entry, color, depth),
    {
        let left: i128 = (entry.left as i128) * 65536;
        let width: i128 = ((entry.rect.x1 as i128) - (entry.rect.x0 as i128)) * 65536;
        let height: i128 = ((entry.rect.y1 as i128) - (entry.rect.y0 as i128)) * 65536;
        let raised = narrow((plan.y as i128) - (entry.top as i128) * 65536)?;
        let y = round(raised)?;
        let x0 = narrow(left + (plan.x as i128))?;
        let x1 = narrow(left + width + (plan.x as i128))?;
        let y1 = narrow((y as i128) + height)?;
        let color = match entry.content {
            Content::Color => Color { r: 0, g: 0, b: 0, a: 0 },
            _ => color,
        };
        Some(Tex { rect: Rect { x0, y0: y, x1, y1 }, tex_rect: entry.rect, color, depth, clip: plan.clip })
    }

    /// Draws one glyph of a text at `origin`, asking `atlas` for its bitmap and
    /// `render` for a new one where the atlas has none. Returns the atlas's
    /// answer, or `None` for a glyph that is passed over.
    pub fn draw_glyph<F: Fn(AtlasKey) -> Result<Bitmap, AtlasError>>(
        &mut self,
        atlas: &mut AtlasCache,
        glyph: &PositionedGlyph,
        origin: Point,
        scale: i64,
        render: &F,
    ) -> (answer: Option<Result<AtlasEntry, AtlasError>>)
        requires
            old(self)@.wf(),
            old(atlas).wf(),
            glyph_plan(old(self)@, *glyph, origin, scale) matches Some(plan) ==> old(atlas)@.lookup(
                plan.key,
            ) is Some || render.requires((plan.key,)),
        ensures
            final(self)@.wf(),
            final(atlas).wf(),
            exists|rendered: Result<Bitmap, AtlasError>|
                {
                    &&& (final(self)@, final(atlas)@, answer) == #[trigger] glyph_drawn(
                        old(self)@,
                        old(atlas)@,
                        *glyph,
                        origin,
                        scale,
                        rendered,
                    )
                    &&& (glyph_plan(old(self)@, *glyph, origin, scale) matches Some(plan) ==> (old(
                        atlas,
                    )@.lookup(plan.key) is None ==> render.ensures((plan.key,), rendered)))
                },
    {
        let plan = match self.plan_glyph(glyph, origin, scale) {
            Some(plan) => plan,
            None => {
                assert((self@, atlas@, None::<Result<AtlasEntry, AtlasError>>) == glyph_drawn(
                    old(self)@,
                    old(atlas)@,
                    *glyph,
                    origin,
                    scale,
                    Err(AtlasError::RasterizationFailed),
                ));
                return None;
            },
        };
        let (answer, Ghost(rendered)) = match atlas.lookup(&plan.key) {
            Some(entry) => (Ok(entry), Ghost(Err::<Bitmap, AtlasError>(AtlasError::RasterizationFailed))),
            None => {
                let rendered = render(plan.key);
                (atlas.resolve(&plan.key, rendered), Ghost(rendered))
            },
        };
        if let Ok(entry) = answer {
            if let Some(tex) = WgpuRenderContext::glyph_quad(&plan, &entry, glyph.color, self.depth()) {
                let colored = match entry.content {
                    Content::Color => true,
                    _ => false,
                };
                self.record_glyph(tex, colored);
            }
        }
        assert((self@, atlas@, Some(answer)) == glyph_drawn(
            old(self)@,
            old(atlas)@,
            *glyph,
            origin,
            scale,
            rendered,
        ));
        Some(answer)
    }

    /// Draws the glyphs of a laid-out text at `origin`, in order, all at the depth
    /// of the newest primitive. A glyph that the atlas cannot take is left out
    /// and the rest is drawn.
    pub fn draw_text<F: Fn(AtlasKey) -> Result<Bitmap, AtlasError>>(
        &mut self,
        atlas: &mut AtlasCache,
        glyphs: &Vec<PositionedGlyph>,
        origin: Point,
        scale: i64,
        render: &F,
    )
        requires
            old(self)@.wf(),
            old(atlas).wf(),
            forall|key: AtlasKey| render.requires((key,)),
        ensures
            final(self)@.wf(),
            final(atlas).wf(),
            exists|answers: Seq<Result<Bitmap, AtlasError>>|
                {
                    &&& answers.len() == glyphs@.len()
                    &&& (final(self)@, final(atlas)@) == #[trigger] text_drawn(
                        old(self)@,
                        old(atlas)@,
                        glyphs@,
                        origin,
                        scale,
                        answers,
                        glyphs@.len(),
                    )
                    &&& forall|i: int|
                        0 <= i < glyphs@.len() ==> (#[trigger] key_to_rasterize(
                            old(self)@,
                            old(atlas)@,
                            glyphs@,
                            origin,
                            scale,
                            answers,
                            i,
                        ) matches Some(key) ==> render.ensures((key,), answers[i]))
                },
    {
        let ghost mut answers: Seq<Result<Bitmap, AtlasError>> = Seq::empty();
        let mut i: usize = 0;
        while i < glyphs.len()
            invariant
                i <= glyphs@.len(),
                self@.wf(),
                atlas.wf(),
                forall|key: AtlasKey| render.requires((key,)),
                answers.len() == i,
                (self@, atlas@) == text_drawn(
                    old(self)@,
                    old(atlas)@,
                    glyphs@,
                    origin,
                    scale,
                    answers,
                    i as nat,
                ),
                forall|k: int|
                    0 <= k < i ==> (#[trigger] key_to_rasterize(
                        old(self)@,
                        old(atlas)@,
                        glyphs@,
                        origin,
                        scale,
                        answers,
                        k,
                    ) matches Some(key) ==> render.ensures((key,), answers[k])),
            decreases glyphs@.len() - i,
        {
            let ghost context_before = self@;
            let ghost atlas_before = atlas@;
            let ghost answers_before = answers;
            let glyph = &glyphs[i];
            let answer = self.draw_glyph(atlas, glyph, origin, scale, render);
            proof {
                let rendered = choose|rendered: Result<Bitmap, AtlasError>|
                    {
                        &&& (self@, atlas@, answer) == #[trigger] glyph_drawn(
                            context_before,
                            atlas_before,
                            *glyph,
                            origin,
                            scale,
                            rendered,
                        )
                        &&& (glyph_plan(context_before, *glyph, origin, scale) matches Some(plan)
                            ==> (atlas_before.lookup(plan.key) is None ==> render.ensures(
                            (plan.key,),
                            rendered,
                        )))
                    };
                answers = answers_before.push(rendered);
                lemma_text_drawn_prefix(
                    old(self)@,
                    old(atlas)@,
                    glyphs@,
                    origin,
                    scale,
                    answers_before,
                    answers,
                    i as nat,
                );
                assert forall|k: int| 0 <= k < i + 1 implies (#[trigger] key_to_rasterize(
                    old(self)@,
                    old(atlas)@,
                    glyphs@,
                    origin,
                    scale,
                    answers,
                    k,
                ) matches Some(key) ==> render.ensures((key,), answers[k])) by {
                    lemma_text_drawn_prefix(
                        old(self)@,
                        old(atlas)@,
                        glyphs@,
                        origin,
                        scale,
                        answers_before,
                        answers,
                        k as nat,
                    );
                    if k < i {
                        assert(key_to_rasterize(
                            old(self)@,
                            old(atlas)@,
                            glyphs@,
                            origin,
                            scale,
                            answers_before,
                            k,
                        ) == key_to_rasterize(
                            old(self)@,
                            old(atlas)@,
                            glyphs@,
                            origin,
                            scale,
                            answers,
                            k,
                        ));
                    }
                }
            }
            i += 1;
        }
    }
}

} // verus!
