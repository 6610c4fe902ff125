//! The per-frame buckets of draw primitives.

use crate::atlas::entry::PixelRect;
use crate::error::RenderError;
use crate::geometry::{Color, Point, Rect};
use vstd::prelude::*;

verus! {

/// A filled rectangle.
#[derive(Clone, Copy, Debug, PartialEq, Eq, Structural)]
pub struct Quad {
    pub rect: Rect,
    pub color: Color,
    pub depth: u32,
    pub clip: Rect,
}

/// A rectangle with a blurred edge: the blur fades from `blur_rect` out to `rect`.
#[derive(Clone, Copy, Debug, PartialEq, Eq, Structural)]
pub struct BlurQuad {
    pub rect: Rect,
    pub blur_rect: Rect,
    pub blur_radius: i64,
    pub color: Color,
    pub depth: u32,
    pub clip: Rect,
}

/// A rectangle textured from an atlas: `tex_rect` is the source in atlas pixels.
#[derive(Clone, Copy, Debug, PartialEq, Eq, Structural)]
pub struct Tex {
    pub rect: Rect,
    pub tex_rect: PixelRect,
    pub color: Color,
    pub depth: u32,
    pub clip: Rect,
}

/// A vertex of a triangle mesh.
#[derive(Clone, Copy, Debug, PartialEq, Eq, Structural)]
pub struct Vertex {
    pub pos: Point,
    pub color: Color,
    pub depth: u32,
    pub clip: Rect,
}

/// A triangle mesh: vertices, and indices into them, three for each triangle.
#[derive(Debug)]
pub struct Mesh {
    pub vertices: Vec<Vertex>,
    pub indices: Vec<u32>,
}

/// A mesh as a value.
#[verifier::ext_equal]
pub struct MeshView {
    pub vertices: Seq<Vertex>,
    pub indices: Seq<u32>,
}

impl View for Mesh {
    type V = MeshView;

    open spec fn view(&self) -> MeshView {
        MeshView { vertices: self.vertices@, indices: self.indices@ }
    }
}

impl MeshView {
    /// The mesh without vertices.
    pub open spec fn empty() -> MeshView {
        MeshView { vertices: Seq::empty(), indices: Seq::empty() }
    }

    /// Every index names a vertex of the mesh.
    pub open spec fn wf(self) -> bool {
        forall|i: int| 0 <= i < self.indices.len() ==> (#[trigger] self.indices[i]) < self.vertices.len()
    }

    /// `indices` can be appended together with `vertices`: each names one of them,
    /// and after the move behind the vertices already there it still fits.
    pub open spec fn accepts(self, vertices: Seq<Vertex>, indices: Seq<u32>) -> bool {
        &&& self.vertices.len() + vertices.len() <= u32::MAX
        &&& forall|i: int| 0 <= i < indices.len() ==> (#[trigger] indices[i]) < vertices.len()
    }

    /// The mesh with `vertices` appended and `indices` appended after each was
    /// moved up by the number of vertices that were there before.
    pub open spec fn appended(self, vertices: Seq<Vertex>, indices: Seq<u32>) -> MeshView {
        MeshView {
            vertices: self.vertices + vertices,
            indices: self.indices + Seq::new(
                indices.len(),
                |i: int| (indices[i] + self.vertices.len()) as u32,
            ),
        }
    }
}

impl Mesh {
    /// A mesh without vertices.
    pub fn new() -> (mesh: Mesh)
        ensures
            mesh@ == MeshView::empty(),
    {
        let mesh = Mesh { vertices: Vec::new(), indices: Vec::new() };
        assert(mesh@ =~= MeshView::empty());
        mesh
    }

    /// Whether every index names one of `count` vertices.
    fn indices_within(indices: &Vec<u32>, count: usize) -> (within: bool)
        ensures
            within == forall|i: int|
                0 <= i < indices@.len() ==> (#[trigger] indices@[i]) < count,
    {
        let mut i: usize = 0;
        while i < indices.len()
            invariant
                i <= indices@.len(),
                forall|k: int| 0 <= k < i ==> (#[trigger] indices@[k]) < count,
            decreases indices@.len() - i,
        {
            if indices[i] as usize >= count {
                return false;
            }
            i += 1;
        }
        true
    }

    /// Appends a piece of geometry whose indices count from its own first vertex.
    /// A piece with an index that names none of its vertices, or that would bring
    /// the mesh past the range of an index, is refused and the mesh left as it was.
    pub fn append(&mut self, vertices: &Vec<Vertex>, indices: &Vec<u32>) -> (done: Result<
        (),
        RenderError,
    >)
        requires
            old(self)@.wf(),
        ensures
            final(self)@.wf(),
            old(self)@.accepts(vertices@, indices@) ==> done == Ok::<(), RenderError>(())
                && final(self)@ == old(self)@.appended(vertices@, indices@),
            !old(self)@.accepts(vertices@, indices@) ==> done == Err::<(), RenderError>(
                RenderError::InvalidInput,
            ) && final(self)@ == old(self)@,
    {
        let base = self.vertices.len();
        if base > 0xffff_ffff || vertices.len() > 0xffff_ffff - base {
            return Err(RenderError::InvalidInput);
        }
        if !Mesh::indices_within(indices, vertices.len()) {
            return Err(RenderError::InvalidInput);
        }
        let mut i: usize = 0;
        while i < vertices.len()
            invariant
                i <= vertices@.len(),
                self.vertices@ == old(self).vertices@ + vertices@.take(i as int),
                self.indices == old(self).indices,
            decreases vertices@.len() - i,
        {
            self.vertices.push(vertices[i]);
            i += 1;
            assert(self.vertices@ =~= old(self).vertices@ + vertices@.take(i as int));
        }
        assert(vertices@.take(vertices@.len() as int) =~= vertices@);
        let ghost moved = Seq::new(indices@.len(), |k: int| (indices@[k] + base) as u32);
        let mut j: usize = 0;
        while j < indices.len()
            invariant
                j <= indices@.len(),
                base == old(self).vertices@.len(),
                base + vertices@.len() <= u32::MAX,
                forall|k: int| 0 <= k < indices@.len() ==> (#[trigger] indices@[k]) < vertices@.len(),
                moved == Seq::new(indices@.len(), |k: int| (indices@[k] + base) as u32),
                self.vertices@ == old(self).vertices@ + vertices@,
                self.indices@ == old(self).indices@ + moved.take(j as int),
            decreases indices@.len() - j,
        {
            let index: u32 = indices[j] + (base as u32);
            self.indices.push(index);
            j += 1;
            assert(self.indices@ =~= old(self).indices@ + moved.take(j as int));
        }
        assert(moved.take(indices@.len() as int) =~= moved);
        assert(self@ =~= old(self)@.appended(vertices@, indices@));
        Ok(())
    }

    /// Drops all vertices and indices.
    pub fn clear(&mut self)
        ensures
            final(self)@ == MeshView::empty(),
    {
        self.vertices.clear();
        self.indices.clear();
        assert(self@ =~= MeshView::empty());
    }
}

/// The buckets of one frame. Within a bucket the primitives stand in the order
/// they were recorded.
#[derive(Debug)]
pub struct Layer {
    pub quads: Vec<Quad>,
    pub transparent_quads: Vec<Quad>,
    pub blurred_quads: Vec<BlurQuad>,
    pub triangles: Mesh,
    pub transparent_triangles: Mesh,
    pub texts: Vec<Tex>,
    pub color_texts: Vec<Tex>,
    pub svgs: Vec<Tex>,
}

/// The buckets as a value.
#[verifier::ext_equal]
pub struct LayerView {
    pub quads: Seq<Quad>,
    pub transparent_quads: Seq<Quad>,
    pub blurred_quads: Seq<BlurQuad>,
    pub triangles: MeshView,
    pub transparent_triangles: MeshView,
    pub texts: Seq<Tex>,
    pub color_texts: Seq<Tex>,
    pub svgs: Seq<Tex>,
}

impl View for Layer {
    type V = LayerView;

    open spec fn view(&self) -> LayerView {
        LayerView {
            quads: self.quads@,
            transparent_quads: self.transparent_quads@,
            blurred_quads: self.blurred_quads@,
            triangles: self.triangles@,
            transparent_triangles: self.transparent_triangles@,
            texts: self.texts@,
            color_texts: self.color_texts@,
            svgs: self.svgs@,
        }
    }
}

impl LayerView {
    /// The layer with every bucket empty.
    pub open spec fn empty() -> LayerView {
        LayerView {
            quads: Seq::empty(),
            transparent_quads: Seq::empty(),
            blurred_quads: Seq::empty(),
            triangles: MeshView::empty(),
            transparent_triangles: MeshView::empty(),
            texts: Seq::empty(),
            color_texts: Seq::empty(),
            svgs: Seq::empty(),
        }
    }

    /// Both meshes are well formed.
    pub open spec fn wf(self) -> bool {
        self.triangles.wf() && self.transparent_triangles.wf()
    }

    /// The layer after a quad was recorded: an opaque quad goes to the opaque
    /// bucket, any other to the transparent one.
    pub open spec fn with_quad(self, quad: Quad) -> LayerView {
        if quad.color.is_opaque() {
            LayerView { quads: self.quads.push(quad), ..self }
        } else {
            LayerView { transparent_quads: self.transparent_quads.push(quad), ..self }
        }
    }

    /// The layer after a blurred quad was recorded.
    pub open spec fn with_blurred_quad(self, quad: BlurQuad) -> LayerView {
        LayerView { blurred_quads: self.blurred_quads.push(quad), ..self }
    }

    /// The layer after glyphs drawn from coverage were recorded.
    pub open spec fn with_text(self, text: Seq<Tex>) -> LayerView {
        LayerView { texts: self.texts + text, ..self }
    }

    /// The layer after glyphs drawn in their own colours were recorded.
    pub open spec fn with_color_text(self, text: Seq<Tex>) -> LayerView {
        LayerView { color_texts: self.color_texts + text, ..self }
    }

    /// The layer after a vector icon was recorded.
    pub open spec fn with_svg(self, svg: Tex) -> LayerView {
        LayerView { svgs: self.svgs.push(svg), ..self }
    }

    /// The layer after a piece of geometry was recorded: opaque geometry goes to
    /// the opaque mesh, any other to the transparent one.
    pub open spec fn with_geometry(self, opaque: bool, vertices: Seq<Vertex>, indices: Seq<u32>) -> LayerView {
        if opaque {
            LayerView { triangles: self.triangles.appended(vertices, indices), ..self }
        } else {
            LayerView {
                transparent_triangles: self.transparent_triangles.appended(vertices, indices),
                ..self
            }
        }
    }

    /// The mesh that geometry of the given opacity goes to.
    pub open spec fn mesh_for(self, opaque: bool) -> MeshView {
        if opaque {
            self.triangles
        } else {
            self.transparent_triangles
        }
    }
}

impl Layer {
    /// A layer with every bucket empty.
    pub fn new() -> (layer: Layer)
        ensures
            layer@ == LayerView::empty(),
            layer@.wf(),
    {
        let layer = Layer {
            quads: Vec::new(),
            blurred_quads: Vec::new(),
            triangles: Mesh::new(),
            transparent_quads: Vec::new(),
            transparent_triangles: Mesh::new(),
            texts: Vec::new(),
            color_texts: Vec::new(),
            svgs: Vec::new(),
        };
        assert(layer@ =~= LayerView::empty());
        layer
    }

    /// Records a filled rectangle in the bucket that its opacity calls for.
    pub fn add_quad(&mut self, rect: Rect, color: Color, depth: u32, clip: Rect)
        ensures
            final(self)@ == old(self)@.with_quad(Quad { rect, color, depth, clip }),
    {
        let quad = Quad { rect, color, depth, clip };
        if color.a < 255 {
            self.transparent_quads.push(quad);
        } else {
            self.quads.push(quad);
        }
        assert(self@ =~= old(self)@.with_quad(quad));
    }

    /// Records a blurred rectangle.
    pub fn add_blurred_quad(
        &mut self,
        rect: Rect,
        blur_rect: Rect,
        blur_radius: i64,
        color: Color,
        depth: u32,
        clip: Rect,
    )
        ensures
            final(self)@ == old(self)@.with_blurred_quad(
                BlurQuad { rect, blur_rect, blur_radius, color, depth, clip },
            ),
    {
        let quad = BlurQuad { rect, blur_rect, blur_radius, color, depth, clip };
        self.blurred_quads.push(quad);
        assert(self@ =~= old(self)@.with_blurred_quad(quad));
    }

    /// Records glyphs that are drawn from coverage.
    pub fn add_text(&mut self, text: Vec<Tex>)
        ensures
            final(self)@ == old(self)@.with_text(text@),
    {
        let mut rest = text;
        self.texts.append(&mut rest);
        assert(self@ =~= old(self)@.with_text(text@));
    }

    /// Records glyphs that are drawn in their own colours.
    pub fn add_color_text(&mut self, text: Vec<Tex>)
        ensures
            final(self)@ == old(self)@.with_color_text(text@),
    {
        let mut rest = text;
        self.color_texts.append(&mut rest);
        assert(self@ =~= old(self)@.with_color_text(text@));
    }

    /// Records a vector icon.
    pub fn add_svg(&mut self, svg: Tex)
        ensures
            final(self)@ == old(self)@.with_svg(svg),
    {
        self.svgs.push(svg);
        assert(self@ =~= old(self)@.with_svg(svg));
    }

    /// Records a piece of geometry in the mesh that its opacity calls for. A piece
    /// that the mesh does not accept is refused and the layer left as it was.
    pub fn add_geometry(&mut self, opaque: bool, vertices: &Vec<Vertex>, indices: &Vec<u32>) -> (done:
        Result<(), RenderError>)
        requires
            old(self)@.wf(),
        ensures
            final(self)@.wf(),
            old(self)@.mesh_for(opaque).accepts(vertices@, indices@) ==> done == Ok::<
                (),
                RenderError,
            >(()) && final(self)@ == old(self)@.with_geometry(opaque, vertices@, indices@),
            !old(self)@.mesh_for(opaque).accepts(vertices@, indices@) ==> done == Err::<
                (),
                RenderError,
            >(RenderError::InvalidInput) && final(self)@ == old(self)@,
    {
        let done = if opaque {
            self.triangles.append(vertices, indices)
        } else {
            self.transparent_triangles.append(vertices, indices)
        };
        assert(final(self)@ =~= if done is Ok {
            old(self)@.with_geometry(opaque, vertices@, indices@)
        } else {
            old(self)@
        });
        done
    }

    /// Empties every bucket.
    pub fn reset(&mut self)
        ensures
            final(self)@ == LayerView::empty(),
            final(self)@.wf(),
    {
        self.quads.clear();
        self.blurred_quads.clear();
        self.triangles.clear();
        self.transparent_quads.clear();
        self.transparent_triangles.clear();
        self.texts.clear();
        self.color_texts.clear();
        self.svgs.clear();
        assert(self@ =~= LayerView::empty());
    }
}

} // verus!
