//! The frame recorder: drawing calls become primitives in the layer.

use crate::compositor::{plan, Pass};
use crate::error::RenderError;
use crate::fixed::{checked_times, fits, half, half_of, narrowed, times, ONE};
use crate::geometry::{Color, Point, Rect, Shape};
use crate::layer::{BlurQuad, Layer, LayerView, Quad, Tex, Vertex};
use crate::pipeline::Primitive;
use crate::state::{StackView, TransformClipStack};
use crate::transform::Affine;
use vstd::prelude::*;

verus! {

/// What a shape is painted with.
#[derive(Clone, Copy, Debug, PartialEq, Eq, Structural)]
pub enum Brush {
    Solid(Color),
}

impl Brush {
    /// The colour of the brush.
    pub open spec fn color(self) -> Color {
        match self {
            Brush::Solid(color) => color,
        }
    }

    /// The brush to paint with: a brush is its own.
    pub fn make_brush(&self) -> (brush: Brush)
        ensures
            brush == *self,
    {
        *self
    }
}

/// A vertex as the stroke tessellator hands it out: a point on the path and the
/// direction in which the stroke's edge lies from there.
#[derive(Clone, Copy, Debug, PartialEq, Eq, Structural)]
pub struct StrokeVertex {
    pub position: Point,
    pub normal: Point,
}

/// The recorder as a value.
#[verifier::ext_equal]
pub struct ContextView {
    pub stack: StackView,
    pub layer: LayerView,
    pub primitives: Seq<Primitive>,
    /// The depth given to the newest fill, stroke or blur; zero before the first.
    pub depth: u32,
}

/// One coordinate of a stroke vertex: the point on the path, moved by half the
/// stroke width along the normal and by the translation in effect.
pub open spec fn stroke_coordinate(position: i64, normal: i64, width: i64, shift: i64) -> int {
    position + half_of(times(normal as int, width as int)) + shift
}

impl ContextView {
    /// The recorder at the start of a frame.
    pub open spec fn initial() -> ContextView {
        ContextView {
            stack: StackView::initial(),
            layer: LayerView::empty(),
            primitives: seq![Primitive::of_state(Point { x: 0, y: 0 }, Rect::zero())],
            depth: 0,
        }
    }

    /// Nothing in the layer lies deeper than the depth counter.
    pub open spec fn depths_bounded(self) -> bool {
        &&& forall|i: int|
            0 <= i < self.layer.quads.len() ==> (#[trigger] self.layer.quads[i]).depth <= self.depth
        &&& forall|i: int|
            0 <= i < self.layer.transparent_quads.len() ==> (
            #[trigger] self.layer.transparent_quads[i]).depth <= self.depth
        &&& forall|i: int|
            0 <= i < self.layer.blurred_quads.len() ==> (#[trigger] self.layer.blurred_quads[i]).depth
                <= self.depth
        &&& forall|i: int|
            0 <= i < self.layer.triangles.vertices.len() ==> (
            #[trigger] self.layer.triangles.vertices[i]).depth <= self.depth
        &&& forall|i: int|
            0 <= i < self.layer.transparent_triangles.vertices.len() ==> (
            #[trigger] self.layer.transparent_triangles.vertices[i]).depth <= self.depth
        &&& forall|i: int|
            0 <= i < self.layer.texts.len() ==> (#[trigger] self.layer.texts[i]).depth <= self.depth
        &&& forall|i: int|
            0 <= i < self.layer.color_texts.len() ==> (#[trigger] self.layer.color_texts[i]).depth
                <= self.depth
        &&& forall|i: int|
            0 <= i < self.layer.svgs.len() ==> (#[trigger] self.layer.svgs[i]).depth <= self.depth
    }

    /// The stack and the meshes are well formed, and nothing in the layer lies
    /// deeper than the depth counter.
    pub open spec fn wf(self) -> bool {
        self.stack.wf() && self.layer.wf() && self.depths_bounded()
    }

    /// The clip rectangle that primitives are recorded with: the one in effect, or
    /// the zero rectangle where there is none.
    pub open spec fn clip_rect(self) -> Rect {
        match self.stack.active_clip() {
            Some(rect) => rect,
            None => Rect::zero(),
        }
    }

    /// The record of the transform and clip state in effect.
    pub open spec fn snapshot(self) -> Primitive {
        Primitive::of_state(
            Point { x: self.stack.current.e, y: self.stack.current.f },
            self.clip_rect(),
        )
    }

    /// The recorder after the state in effect was noted down.
    pub open spec fn noted(self) -> ContextView {
        ContextView { primitives: self.primitives.push(self.snapshot()), ..self }
    }

    /// The recorder after one glyph was recorded, among the colour glyphs where
    /// `colored`, else among those drawn from coverage.
    pub open spec fn with_glyph(self, tex: Tex, colored: bool) -> ContextView {
        ContextView {
            layer: if colored {
                self.layer.with_color_text(seq![tex])
            } else {
                self.layer.with_text(seq![tex])
            },
            ..self
        }
    }

    /// The recorder after a vector icon was recorded.
    pub open spec fn with_icon(self, tex: Tex) -> ContextView {
        ContextView { layer: self.layer.with_svg(tex), ..self }
    }

    /// The recorder after `finish`: the layer is empty again and depths start
    /// from zero; the transform and clip state stay.
    pub open spec fn finished(self) -> ContextView {
        ContextView { layer: LayerView::empty(), depth: 0, ..self }
    }

    /// The recorder after `save`.
    pub open spec fn saved(self) -> ContextView {
        ContextView { stack: self.stack.saved(), ..self }
    }

    /// The recorder after `restore`, where there is a frame to go back to.
    pub open spec fn restored(self) -> Option<ContextView> {
        match self.stack.restored() {
            Some(stack) => Some(ContextView { stack, ..self }.noted()),
            None => None,
        }
    }

    /// The recorder after `transform(t)`, where the composition can be held.
    pub open spec fn transformed(self, t: Affine) -> Option<ContextView> {
        if self.stack.current.composed(t) is Some {
            Some(ContextView { stack: self.stack.transformed(t), ..self }.noted())
        } else {
            None
        }
    }

    /// The recorder after a clip to `shape`. A shape that is no rectangle changes
    /// nothing; a rectangle that cannot be moved by the translation in effect
    /// cannot be clipped to.
    pub open spec fn clipped(self, shape: Shape, nested: bool) -> Option<ContextView> {
        match shape.rect_of() {
            None => Some(self),
            Some(rect) => if rect.translated(self.stack.current.e, self.stack.current.f) is Some {
                Some(ContextView { stack: self.stack.clipped(rect, nested), ..self }.noted())
            } else {
                None
            },
        }
    }

    /// Whether the point `p` of a tessellated fill can be moved by the
    /// translation in effect.
    pub open spec fn moves(self, p: Point) -> bool {
        fits(p.x + self.stack.current.e) && fits(p.y + self.stack.current.f)
    }

    /// The mesh vertex for the point `p` of a tessellated fill at depth `depth`:
    /// the point moved by the translation in effect, under the clip rectangle in
    /// effect.
    pub open spec fn fill_vertex(self, p: Point, color: Color, depth: u32) -> Vertex {
        Vertex {
            pos: Point {
                x: (p.x + self.stack.current.e) as i64,
                y: (p.y + self.stack.current.f) as i64,
            },
            color,
            depth,
            clip: self.clip_rect(),
        }
    }

    /// The mesh vertices for a tessellated fill.
    pub open spec fn fill_vertices(self, outline: Seq<Point>, color: Color, depth: u32) -> Seq<
        Vertex,
    > {
        Seq::new(outline.len(), |i: int| self.fill_vertex(outline[i], color, depth))
    }

    /// The recorder after `fill(shape, brush)`, where `outline` and `indices` are
    /// the tessellation of the shape's inside. The depth counter goes up by one.
    /// A rectangle is moved by the translation in effect and recorded as a quad
    /// of the new depth under the clip rectangle in effect; its tessellation is
    /// not looked at. Any other shape is recorded as geometry: every point of its
    /// tessellation is moved by the translation in effect, and the triangles go
    /// to the mesh that the brush's opacity calls for. `None` where the counter or
    /// a coordinate would leave its range or the mesh does not accept the
    /// geometry.
    pub open spec fn filled(
        self,
        shape: Shape,
        brush: Brush,
        outline: Seq<Point>,
        indices: Seq<u32>,
    ) -> Option<ContextView> {
        if self.depth == u32::MAX {
            None
        } else {
            let depth = (self.depth + 1) as u32;
            let color = brush.color();
            match shape.rect_of() {
                Some(rect) => match rect.translated(self.stack.current.e, self.stack.current.f) {
                    None => None,
                    Some(moved) => Some(
                        ContextView {
                            depth,
                            layer: self.layer.with_quad(
                                Quad { rect: moved, color, depth, clip: self.clip_rect() },
                            ),
                            ..self
                        },
                    ),
                },
                None => {
                    let vertices = self.fill_vertices(outline, color, depth);
                    if (forall|i: int| 0 <= i < outline.len() ==> self.moves(#[trigger] outline[i]))
                        && self.layer.mesh_for(color.is_opaque()).accepts(vertices, indices) {
                        Some(
                            ContextView {
                                depth,
                                layer: self.layer.with_geometry(
                                    color.is_opaque(),
                                    vertices,
                                    indices,
                                ),
                                ..self
                            },
                        )
                    } else {
                        None
                    }
                },
            }
        }
    }

    /// The recorder after `blurred_rect(rect, radius, brush)`. The depth counter
    /// goes up by one. The rectangle is moved by the translation in effect; the
    /// quad recorded reaches three radii beyond it on every side and blurs
    /// against the moved rectangle itself.
    pub open spec fn blurred(self, rect: Rect, radius: i64, brush: Brush) -> Option<ContextView> {
        if self.depth == u32::MAX || !fits(3 * radius) {
            None
        } else {
            let depth = (self.depth + 1) as u32;
            match rect.translated(self.stack.current.e, self.stack.current.f) {
                None => None,
                Some(moved) => match moved.inflated(3 * radius, 3 * radius) {
                    None => None,
                    Some(outer) => Some(
                        ContextView {
                            depth,
                            layer: self.layer.with_blurred_quad(
                                BlurQuad {
                                    rect: outer,
                                    blur_rect: moved,
                                    blur_radius: radius,
                                    color: brush.color(),
                                    depth,
                                    clip: self.clip_rect(),
                                },
                            ),
                            ..self
                        },
                    ),
                },
            }
        }
    }

    /// Whether the stroke vertex at `v` can be placed.
    pub open spec fn places(self, v: StrokeVertex, width: i64) -> bool {
        &&& fits(times(v.normal.x as int, width as int))
        &&& fits(times(v.normal.y as int, width as int))
        &&& fits(stroke_coordinate(v.position.x, v.normal.x, width, self.stack.current.e))
        &&& fits(stroke_coordinate(v.position.y, v.normal.y, width, self.stack.current.f))
    }

    /// The mesh vertex for the stroke vertex `v` at depth `depth`.
    pub open spec fn stroke_vertex(self, v: StrokeVertex, width: i64, color: Color, depth: u32) -> Vertex {
        Vertex {
            pos: Point {
                x: stroke_coordinate(v.position.x, v.normal.x, width, self.stack.current.e) as i64,
                y: stroke_coordinate(v.position.y, v.normal.y, width, self.stack.current.f) as i64,
            },
            color,
            depth,
            clip: self.clip_rect(),
        }
    }

    /// The mesh vertices for a tessellated stroke.
    pub open spec fn stroke_vertices(
        self,
        outline: Seq<StrokeVertex>,
        width: i64,
        color: Color,
        depth: u32,
    ) -> Seq<Vertex> {
        Seq::new(outline.len(), |i: int| self.stroke_vertex(outline[i], width, color, depth))
    }

    /// The recorder after `stroke` with a tessellated outline. The depth counter
    /// goes up by one and the geometry, placed vertex by vertex, is recorded in
    /// the mesh that the brush's opacity calls for. `None` where the counter would
    /// leave its range, a vertex cannot be placed or the mesh does not accept
    /// the geometry.
    pub open spec fn stroked(
        self,
        brush: Brush,
        width: i64,
        outline: Seq<StrokeVertex>,
        indices: Seq<u32>,
    ) -> Option<ContextView> {
        if self.depth == u32::MAX {
            None
        } else if !(forall|i: int| 0 <= i < outline.len() ==> self.places(#[trigger] outline[i], width)) {
            None
        } else {
            let depth = (self.depth + 1) as u32;
            let color = brush.color();
            let vertices = self.stroke_vertices(outline, width, color, depth);
            if self.layer.mesh_for(color.is_opaque()).accepts(vertices, indices) {
                Some(
                    ContextView {
                        depth,
                        layer: self.layer.with_geometry(color.is_opaque(), vertices, indices),
                        ..self
                    },
                )
            } else {
                None
            }
        }
    }
}

/// A finished frame: the recorded layer, the passes to draw it in, and the greatest
/// depth that a primitive of the frame has.
#[derive(Debug)]
pub struct Submission {
    pub passes: Vec<Pass>,
    pub layer: Layer,
    pub max_depth: u32,
}

/// The recorder of one frame: the transform and clip state, the layer, and the
/// depth counter.
pub struct WgpuRenderContext {
    stack: TransformClipStack,
    layer: Layer,
    primitives: Vec<Primitive>,
    depth: u32,
}

impl View for WgpuRenderContext {
    type V = ContextView;

    closed spec fn view(&self) -> ContextView {
        ContextView {
            stack: self.stack@,
            layer: self.layer@,
            primitives: self.primitives@,
            depth: self.depth,
        }
    }
}

impl WgpuRenderContext {
    /// A recorder at the start of a frame.
    pub fn new() -> (context: WgpuRenderContext)
        ensures
            context@ == ContextView::initial(),
            context@.wf(),
    {
        let mut context = WgpuRenderContext {
            stack: TransformClipStack::new(),
            layer: Layer::new(),
            primitives: Vec::new(),
            depth: 0,
        };
        context.add_primitive();
        assert(context@ =~= ContextView::initial());
        context
    }

    /// A brush of one colour.
    pub fn solid_brush(&self, color: Color) -> (brush: Brush)
        ensures
            brush == Brush::Solid(color),
    {
        Brush::Solid(color)
    }

    /// The transform in effect.
    pub fn current_transform(&self) -> (t: Affine)
        ensures
            t == self@.stack.current,
    {
        self.stack.current_transform()
    }

    /// The clip rectangle in effect, if any.
    pub fn get_current_clip(&self) -> (clip: Option<Rect>)
        ensures
            clip == self@.stack.active_clip(),
    {
        self.stack.get_current_clip()
    }

    /// The clip rectangle that primitives are recorded with.
    pub fn current_clip(&self) -> (clip: Rect)
        ensures
            clip == self@.clip_rect(),
    {
        self.stack.current_clip()
    }

    /// The depth given to the newest fill, stroke or blur.
    pub fn depth(&self) -> (depth: u32)
        ensures
            depth == self@.depth,
    {
        self.depth
    }

    /// The layer recorded so far.
    pub fn layer(&self) -> (layer: &Layer)
        ensures
            layer@ == self@.layer,
    {
        &self.layer
    }

    /// The states noted down so far.
    pub fn primitives(&self) -> (primitives: &Vec<Primitive>)
        ensures
            primitives@ == self@.primitives,
    {
        &self.primitives
    }

    pub(crate) fn record_glyph(&mut self, tex: Tex, colored: bool)
        requires
            old(self)@.wf(),
            tex.depth <= old(self)@.depth,
        ensures
            final(self)@ == old(self)@.with_glyph(tex, colored),
            final(self)@.wf(),
    {
        let mut one: Vec<Tex> = Vec::new();
        one.push(tex);
        assert(one@ =~= seq![tex]);
        if colored {
            self.layer.add_color_text(one);
        } else {
            self.layer.add_text(one);
        }
        assert(self@ =~= old(self)@.with_glyph(tex, colored));
    }

    pub(crate) fn record_icon(&mut self, tex: Tex)
        requires
            old(self)@.wf(),
            tex.depth <= old(self)@.depth,
        ensures
            final(self)@ == old(self)@.with_icon(tex),
            final(self)@.wf(),
    {
        self.layer.add_svg(tex);
        assert(self@ =~= old(self)@.with_icon(tex));
    }

    fn add_primitive(&mut self)
        ensures
            final(self)@ == old(self)@.noted(),
    {
        let t = self.stack.current_transform();
        let clip_rect = self.stack.current_clip();
        let base = Primitive::default();
        self.primitives.push(
            Primitive {
                clip_rect,
                transform_1: base.transform_1,
                blur_rect: base.blur_rect,
                transform_2: base.transform_2,
                translate: Point { x: t.e, y: t.f },
                scale: base.scale,
                clip: ONE,
                blur_radius: base.blur_radius,
            },
        );
        assert(self@ =~= old(self)@.noted());
    }

    /// Saves the transform in effect. Never fails.
    pub fn save(&mut self) -> (done: Result<(), RenderError>)
        requires
            old(self)@.wf(),
        ensures
            final(self)@ == old(self)@.saved(),
            final(self)@.wf(),
            done == Ok::<(), RenderError>(()),
    {
        self.stack.save();
        assert(self@ =~= old(self)@.saved());
        Ok(())
    }

    /// Goes back to the newest saved state and notes the state down. Without a
    /// saved state the call fails and changes nothing.
    pub fn restore(&mut self) -> (done: Result<(), RenderError>)
        requires
            old(self)@.wf(),
        ensures
            final(self)@.wf(),
            match old(self)@.restored() {
                Some(after) => final(self)@ == after && done == Ok::<(), RenderError>(()),
                None => final(self)@ == old(self)@ && done == Err::<(), RenderError>(
                    RenderError::StackUnbalance,
                ),
            },
    {
        match self.stack.restore() {
            Ok(()) => {
                self.add_primitive();
                assert(self@ =~= old(self)@.restored().unwrap());
                Ok(())
            },
            Err(error) => Err(error),
        }
    }

    /// Composes the transform in effect with `t` and notes the state down. Where
    /// the composition cannot be held the call fails and changes nothing.
    pub fn transform(&mut self, t: &Affine) -> (done: Result<(), RenderError>)
        requires
            old(self)@.wf(),
        ensures
            final(self)@.wf(),
            match old(self)@.transformed(*t) {
                Some(after) => final(self)@ == after && done == Ok::<(), RenderError>(()),
                None => final(self)@ == old(self)@ && done == Err::<(), RenderError>(
                    RenderError::InvalidInput,
                ),
            },
    {
        match self.stack.transform(t) {
            Ok(()) => {
                self.add_primitive();
                assert(self@ =~= old(self)@.transformed(*t).unwrap());
                Ok(())
            },
            Err(error) => Err(error),
        }
    }

    fn clip_to(&mut self, shape: &Shape, nested: bool) -> (done: Result<(), RenderError>)
        requires
            old(self)@.wf(),
        ensures
            final(self)@.wf(),
            match old(self)@.clipped(*shape, nested) {
                Some(after) => final(self)@ == after && done == Ok::<(), RenderError>(()),
                None => final(self)@ == old(self)@ && done == Err::<(), RenderError>(
                    RenderError::InvalidInput,
                ),
            },
    {
        let done = if nested {
            self.stack.clip_nested(shape)
        } else {
            self.stack.clip_override(shape)
        };
        match done {
            Ok(()) => {
                if shape.as_rect().is_some() {
                    self.add_primitive();
                }
                assert(self@ =~= old(self)@.clipped(*shape, nested).unwrap());
                Ok(())
            },
            Err(error) => Err(error),
        }
    }

    /// Clips to `shape` where it is a rectangle, replacing the clip rectangle in
    /// effect, and notes the state down.
    pub fn clip_override(&mut self, shape: &Shape) -> (done: Result<(), RenderError>)
        requires
            old(self)@.wf(),
        ensures
            final(self)@.wf(),
            match old(self)@.clipped(*shape, false) {
                Some(after) => final(self)@ == after && done == Ok::<(), RenderError>(()),
                None => final(self)@ == old(self)@ && done == Err::<(), RenderError>(
                    RenderError::InvalidInput,
                ),
            },
    {
        self.clip_to(shape, false)
    }

    /// Clips to `shape` where it is a rectangle, cut to the clip rectangle in
    /// effect, and notes the state down.
    pub fn clip_nested(&mut self, shape: &Shape) -> (done: Result<(), RenderError>)
        requires
            old(self)@.wf(),
        ensures
            final(self)@.wf(),
            match old(self)@.clipped(*shape, true) {
                Some(after) => final(self)@ == after && done == Ok::<(), RenderError>(()),
                None => final(self)@ == old(self)@ && done == Err::<(), RenderError>(
                    RenderError::InvalidInput,
                ),
            },
    {
        self.clip_to(shape, true)
    }

    /// Clips to `shape`, nested in the clip rectangle in effect.
    pub fn clip(&mut self, shape: &Shape) -> (done: Result<(), RenderError>)
        requires
            old(self)@.wf(),
        ensures
            final(self)@.wf(),
            match old(self)@.clipped(*shape, true) {
                Some(after) => final(self)@ == after && done == Ok::<(), RenderError>(()),
                None => final(self)@ == old(self)@ && done == Err::<(), RenderError>(
                    RenderError::InvalidInput,
                ),
            },
    {
        self.clip_nested(shape)
    }

    fn move_outline(&self, outline: &Vec<Point>, color: Color, depth: u32) -> (moved: Option<
        Vec<Vertex>,
    >)
        ensures
            match moved {
                Some(vertices) => (forall|i: int|
                    0 <= i < outline@.len() ==> self@.moves(#[trigger] outline@[i])) && vertices@
                    == self@.fill_vertices(outline@, color, depth),
                None => !(forall|i: int|
                    0 <= i < outline@.len() ==> self@.moves(#[trigger] outline@[i])),
            },
    {
        let t = self.stack.current_transform();
        let clip = self.stack.current_clip();
        let mut vertices: Vec<Vertex> = Vec::new();
        let mut i: usize = 0;
        while i < outline.len()
            invariant
                i <= outline@.len(),
                t == self@.stack.current,
                clip == self@.clip_rect(),
                vertices@.len() == i,
                forall|k: int| 0 <= k < i ==> self@.moves(#[trigger] outline@[k]),
                forall|k: int|
                    0 <= k < i ==> vertices@[k] == self@.fill_vertex(outline@[k], color, depth),
            decreases outline@.len() - i,
        {
            let p = outline[i];
            match (p.x.checked_add(t.e), p.y.checked_add(t.f)) {
                (Some(x), Some(y)) => {
                    vertices.push(Vertex { pos: Point { x, y }, color, depth, clip });
                },
                _ => {
                    assert(!self@.moves(outline@[i as int]));
                    return None;
                },
            }
            i += 1;
        }
        assert(vertices@ =~= self@.fill_vertices(outline@, color, depth));
        Some(vertices)
    }

    /// Fills `shape` with `brush`. A rectangle is drawn as a quad. Of any other
    /// shape the tessellation of its inside is taken: the points, and the
    /// triangles over them.
    pub fn fill(
        &mut self,
        shape: &Shape,
        brush: &Brush,
        outline: &Vec<Point>,
        indices: &Vec<u32>,
    ) -> (done: Result<(), RenderError>)
        requires
            old(self)@.wf(),
        ensures
            final(self)@.wf(),
            match old(self)@.filled(*shape, *brush, outline@, indices@) {
                Some(after) => final(self)@ == after && done == Ok::<(), RenderError>(()),
                None => final(self)@ == old(self)@ && done == Err::<(), RenderError>(
                    RenderError::InvalidInput,
                ),
            },
    {
        let t = self.stack.current_transform();
        let clip = self.stack.current_clip();
        if self.depth == u32::MAX {
            return Err(RenderError::InvalidInput);
        }
        let depth = self.depth + 1;
        let Brush::Solid(color) = brush.make_brush();
        match shape.as_rect() {
            Some(rect) => match rect.translate(t.e, t.f) {
                Some(moved) => {
                    self.depth = depth;
                    self.layer.add_quad(moved, color, depth, clip);
                },
                None => {
                    return Err(RenderError::InvalidInput);
                },
            },
            None => {
                let vertices = match self.move_outline(outline, color, depth) {
                    Some(vertices) => vertices,
                    None => {
                        return Err(RenderError::InvalidInput);
                    },
                };
                match self.layer.add_geometry(color.a == 255, &vertices, indices) {
                    Ok(()) => {
                        self.depth = depth;
                    },
                    Err(error) => {
                        return Err(error);
                    },
                }
            },
        }
        assert(self@ =~= old(self)@.filled(*shape, *brush, outline@, indices@).unwrap());
        Ok(())
    }

    /// Draws `rect` with an edge blurred over `blur_radius`.
    pub fn blurred_rect(&mut self, rect: Rect, blur_radius: i64, brush: &Brush) -> (done: Result<
        (),
        RenderError,
    >)
        requires
            old(self)@.wf(),
        ensures
            final(self)@.wf(),
            match old(self)@.blurred(rect, blur_radius, *brush) {
                Some(after) => final(self)@ == after && done == Ok::<(), RenderError>(()),
                None => final(self)@ == old(self)@ && done == Err::<(), RenderError>(
                    RenderError::InvalidInput,
                ),
            },
    {
        if self.depth == u32::MAX {
            return Err(RenderError::InvalidInput);
        }
        let depth = self.depth + 1;
        let t = self.stack.current_transform();
        let clip_rect = self.stack.current_clip();
        let spread = match blur_radius.checked_mul(3) {
            Some(spread) => spread,
            None => {
                return Err(RenderError::InvalidInput);
            },
        };
        let moved = match rect.translate(t.e, t.f) {
            Some(moved) => moved,
            None => {
                return Err(RenderError::InvalidInput);
            },
        };
        let outer = match moved.inflate(spread, spread) {
            Some(outer) => outer,
            None => {
                return Err(RenderError::InvalidInput);
            },
        };
        let Brush::Solid(color) = brush.make_brush();
        self.depth = depth;
        self.layer.add_blurred_quad(outer, moved, blur_radius, color, depth, clip_rect);
        assert(self@ =~= old(self)@.blurred(rect, blur_radius, *brush).unwrap());
        Ok(())
    }

    fn place_coordinate(position: i64, normal: i64, width: i64, shift: i64) -> (placed: Option<i64>)
        ensures
            placed == if fits(times(normal as int, width as int)) {
                narrowed(stroke_coordinate(position, normal, width, shift))
            } else {
                None
            },
    {
        match checked_times(normal, width) {
            Some(reach) => {
                let sum: i128 = (position as i128) + (half(reach) as i128) + (shift as i128);
                crate::fixed::narrow(sum)
            },
            None => None,
        }
    }

    fn place_outline(&self, outline: &Vec<StrokeVertex>, width: i64, color: Color, depth: u32) -> (placed:
        Option<Vec<Vertex>>)
        ensures
            match placed {
                Some(vertices) => (forall|i: int|
                    0 <= i < outline@.len() ==> self@.places(#[trigger] outline@[i], width))
                    && vertices@ == self@.stroke_vertices(outline@, width, color, depth),
                None => !(forall|i: int|
                    0 <= i < outline@.len() ==> self@.places(#[trigger] outline@[i], width)),
            },
    {
        let t = self.stack.current_transform();
        let clip = self.stack.current_clip();
        let mut vertices: Vec<Vertex> = Vec::new();
        let mut i: usize = 0;
        while i < outline.len()
            invariant
                i <= outline@.len(),
                t == self@.stack.current,
                clip == self@.clip_rect(),
                vertices@.len() == i,
                forall|k: int| 0 <= k < i ==> self@.places(#[trigger] outline@[k], width),
                forall|k: int|
                    0 <= k < i ==> vertices@[k] == self@.stroke_vertex(
                        outline@[k],
                        width,
                        color,
                        depth,
                    ),
            decreases outline@.len() - i,
        {
            let v = outline[i];
            let x = WgpuRenderContext::place_coordinate(v.position.x, v.normal.x, width, t.e);
            let y = WgpuRenderContext::place_coordinate(v.position.y, v.normal.y, width, t.f);
            match (x, y) {
                (Some(x), Some(y)) => {
                    vertices.push(Vertex { pos: Point { x, y }, color, depth, clip });
                },
                _ => {
                    assert(!self@.places(outline@[i as int], width));
                    return None;
                },
            }
            i += 1;
        }
        assert(vertices@ =~= self@.stroke_vertices(outline@, width, color, depth));
        Some(vertices)
    }

    /// Strokes a shape with `brush`, given the tessellation of its outline: the
    /// points on the path with their normals, and the triangles over them.
    pub fn stroke(
        &mut self,
        brush: &Brush,
        width: i64,
        outline: &Vec<StrokeVertex>,
        indices: &Vec<u32>,
    ) -> (done: Result<(), RenderError>)
        requires
            old(self)@.wf(),
        ensures
            final(self)@.wf(),
            match old(self)@.stroked(*brush, width, outline@, indices@) {
                Some(after) => final(self)@ == after && done == Ok::<(), RenderError>(()),
                None => final(self)@ == old(self)@ && done == Err::<(), RenderError>(
                    RenderError::InvalidInput,
                ),
            },
    {
        if self.depth == u32::MAX {
            return Err(RenderError::InvalidInput);
        }
        let depth = self.depth + 1;
        let Brush::Solid(color) = brush.make_brush();
        let vertices = match self.place_outline(outline, width, color, depth) {
            Some(vertices) => vertices,
            None => {
                return Err(RenderError::InvalidInput);
            },
        };
        match self.layer.add_geometry(color.a == 255, &vertices, indices) {
            Ok(()) => {
                self.depth = depth;
                assert(self@ =~= old(self)@.stroked(*brush, width, outline@, indices@).unwrap());
                Ok(())
            },
            Err(error) => Err(error),
        }
    }

    /// Ends the frame: hands out the recorded layer with the passes to draw it
    /// in, and leaves the recorder with an empty layer.
    pub fn finish(&mut self) -> (frame: Submission)
        requires
            old(self)@.wf(),
        ensures
            final(self)@ == old(self)@.finished(),
            final(self)@.wf(),
            frame.layer@ == old(self)@.layer,
            frame.max_depth == old(self)@.depth,
            frame.passes@.len() == 5,
            forall|i: int|
                0 <= i < 5 ==> (#[trigger] frame.passes@[i])@ == old(self)@.layer.passes()[i],
    {
        let mut layer = Layer::new();
        core::mem::swap(&mut self.layer, &mut layer);
        let passes = plan(&layer);
        let max_depth = self.depth;
        self.depth = 0;
        assert(self@ =~= old(self)@.finished());
        Submission { passes, layer, max_depth }
    }
}

} // verus!
