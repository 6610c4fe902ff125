//! The fixed order of passes in which a recorded layer is drawn.

use crate::layer::{Layer, LayerView};
use vstd::prelude::*;

verus! {

/// How a pass combines what it draws with what is there.
#[derive(Clone, Copy, Debug, PartialEq, Eq, Structural)]
pub enum Blend {
    /// What is drawn replaces what is there.
    Off,
    /// Per-channel coverage: the fragment's second output weighs its first.
    Coverage,
    /// Source over destination by the source's opacity.
    Alpha,
}

/// A bucket of the layer.
#[derive(Clone, Copy, Debug, PartialEq, Eq, Structural)]
pub enum Bucket {
    Quads,
    Triangles,
    Texts,
    Svgs,
    ColorTexts,
    TransparentQuads,
    BlurredQuads,
    TransparentTriangles,
}

/// The passes of a frame, in the order they are issued.
#[derive(Clone, Copy, Debug, PartialEq, Eq, Structural)]
pub enum PassKind {
    /// Opaque quads and meshes.
    Opaque,
    /// Glyphs drawn from coverage.
    Coverage,
    /// Vector icons and colour glyphs.
    Textured,
    /// Transparent quads, blurred quads and transparent meshes.
    Transparent,
    /// Nothing is drawn; the pipeline is put back into the state a frame
    /// starts in.
    Reset,
}

/// One draw call: a bucket, and the number of instances (of a mesh: the number of
/// indices) to draw from it.
#[derive(Clone, Copy, Debug, PartialEq, Eq, Structural)]
pub struct Draw {
    pub bucket: Bucket,
    pub count: usize,
}

/// A pass: the state it runs under and its draw calls in order. The depth test
/// is on in every pass.
#[derive(Debug)]
pub struct Pass {
    pub kind: PassKind,
    pub blend: Blend,
    pub depth_write: bool,
    pub draws: Vec<Draw>,
}

/// A pass as a value.
#[verifier::ext_equal]
pub struct PassView {
    pub kind: PassKind,
    pub blend: Blend,
    pub depth_write: bool,
    pub draws: Seq<Draw>,
}

impl View for Pass {
    type V = PassView;

    open spec fn view(&self) -> PassView {
        PassView {
            kind: self.kind,
            blend: self.blend,
            depth_write: self.depth_write,
            draws: self.draws@,
        }
    }
}

impl PassKind {
    /// The blending of the pass.
    pub open spec fn blend(self) -> Blend {
        match self {
            PassKind::Opaque => Blend::Off,
            PassKind::Coverage => Blend::Coverage,
            PassKind::Textured => Blend::Alpha,
            PassKind::Transparent => Blend::Alpha,
            PassKind::Reset => Blend::Off,
        }
    }

    /// Whether depth is written: in the opaque pass, and again after the frame.
    pub open spec fn depth_write(self) -> bool {
        self is Opaque || self is Reset
    }

    /// The buckets of the pass, in the order they are drawn.
    pub open spec fn buckets(self) -> Seq<Bucket> {
        match self {
            PassKind::Opaque => seq![Bucket::Quads, Bucket::Triangles],
            PassKind::Coverage => seq![Bucket::Texts],
            PassKind::Textured => seq![Bucket::Svgs, Bucket::ColorTexts],
            PassKind::Transparent => seq![
                Bucket::TransparentQuads,
                Bucket::BlurredQuads,
                Bucket::TransparentTriangles,
            ],
            PassKind::Reset => Seq::empty(),
        }
    }
}

impl Bucket {
    /// The pass that draws the bucket.
    pub open spec fn pass(self) -> PassKind {
        match self {
            Bucket::Quads => PassKind::Opaque,
            Bucket::Triangles => PassKind::Opaque,
            Bucket::Texts => PassKind::Coverage,
            Bucket::Svgs => PassKind::Textured,
            Bucket::ColorTexts => PassKind::Textured,
            Bucket::TransparentQuads => PassKind::Transparent,
            Bucket::BlurredQuads => PassKind::Transparent,
            Bucket::TransparentTriangles => PassKind::Transparent,
        }
    }
}

impl LayerView {
    /// Whether the bucket holds anything to draw.
    pub open spec fn is_drawn(self, bucket: Bucket) -> bool {
        match bucket {
            Bucket::Quads => self.quads.len() > 0,
            Bucket::Triangles => self.triangles.vertices.len() > 0,
            Bucket::Texts => self.texts.len() > 0,
            Bucket::Svgs => self.svgs.len() > 0,
            Bucket::ColorTexts => self.color_texts.len() > 0,
            Bucket::TransparentQuads => self.transparent_quads.len() > 0,
            Bucket::BlurredQuads => self.blurred_quads.len() > 0,
            Bucket::TransparentTriangles => self.transparent_triangles.vertices.len() > 0,
        }
    }

    /// The number of instances, or of a mesh the number of indices, of the bucket.
    pub open spec fn count_of(self, bucket: Bucket) -> nat {
        match bucket {
            Bucket::Quads => self.quads.len(),
            Bucket::Triangles => self.triangles.indices.len(),
            Bucket::Texts => self.texts.len(),
            Bucket::Svgs => self.svgs.len(),
            Bucket::ColorTexts => self.color_texts.len(),
            Bucket::TransparentQuads => self.transparent_quads.len(),
            Bucket::BlurredQuads => self.blurred_quads.len(),
            Bucket::TransparentTriangles => self.transparent_triangles.indices.len(),
        }
    }

    /// The draw calls for the first `n` of `buckets`: one for each that holds
    /// anything, in order.
    pub open spec fn draws_of(self, buckets: Seq<Bucket>, n: nat) -> Seq<Draw>
        decreases n,
    {
        if n == 0 {
            Seq::empty()
        } else {
            let before = self.draws_of(buckets, (n - 1) as nat);
            let bucket = buckets[n - 1];
            if self.is_drawn(bucket) {
                before.push(Draw { bucket, count: self.count_of(bucket) as usize })
            } else {
                before
            }
        }
    }

    /// The pass of the given kind for this layer.
    pub open spec fn pass_of(self, kind: PassKind) -> PassView {
        PassView {
            kind,
            blend: kind.blend(),
            depth_write: kind.depth_write(),
            draws: self.draws_of(kind.buckets(), kind.buckets().len()),
        }
    }

    /// The passes of a frame: opaque geometry with depth writes and no blending,
    /// then glyph coverage, then icons and colour glyphs, then transparent
    /// geometry, and at last the reset.
    pub open spec fn passes(self) -> Seq<PassView> {
        seq![
            self.pass_of(PassKind::Opaque),
            self.pass_of(PassKind::Coverage),
            self.pass_of(PassKind::Textured),
            self.pass_of(PassKind::Transparent),
            self.pass_of(PassKind::Reset),
        ]
    }
}

fn count_in(layer: &Layer, bucket: Bucket) -> (found: (bool, usize))
    ensures
        found.0 == layer@.is_drawn(bucket),
        found.1 == layer@.count_of(bucket),
{
    match bucket {
        Bucket::Quads => (layer.quads.len() > 0, layer.quads.len()),
        Bucket::Triangles => (layer.triangles.vertices.len() > 0, layer.triangles.indices.len()),
        Bucket::Texts => (layer.texts.len() > 0, layer.texts.len()),
        Bucket::Svgs => (layer.svgs.len() > 0, layer.svgs.len()),
        Bucket::ColorTexts => (layer.color_texts.len() > 0, layer.color_texts.len()),
        Bucket::TransparentQuads => (
            layer.transparent_quads.len() > 0,
            layer.transparent_quads.len(),
        ),
        Bucket::BlurredQuads => (layer.blurred_quads.len() > 0, layer.blurred_quads.len()),
        Bucket::TransparentTriangles => (
            layer.transparent_triangles.vertices.len() > 0,
            layer.transparent_triangles.indices.len(),
        ),
    }
}

fn buckets_of(kind: PassKind) -> (buckets: Vec<Bucket>)
    ensures
        buckets@ == kind.buckets(),
{
    let buckets = match kind {
        PassKind::Opaque => vec![Bucket::Quads, Bucket::Triangles],
        PassKind::Coverage => vec![Bucket::Texts],
        PassKind::Textured => vec![Bucket::Svgs, Bucket::ColorTexts],
        PassKind::Transparent => vec![
            Bucket::TransparentQuads,
            Bucket::BlurredQuads,
            Bucket::TransparentTriangles,
        ],
        PassKind::Reset => Vec::new(),
    };
    assert(buckets@ =~= kind.buckets());
    buckets
}

fn pass_for(layer: &Layer, kind: PassKind) -> (pass: Pass)
    ensures
        pass@ == layer@.pass_of(kind),
{
    let buckets = buckets_of(kind);
    let mut draws: Vec<Draw> = Vec::new();
    let mut i: usize = 0;
    while i < buckets.len()
        invariant
            i <= buckets@.len(),
            draws@ == layer@.draws_of(buckets@, i as nat),
        decreases buckets@.len() - i,
    {
        let bucket = buckets[i];
        let (drawn, count) = count_in(layer, bucket);
        if drawn {
            draws.push(Draw { bucket, count });
        }
        i += 1;
    }
    let (blend, depth_write) = match kind {
        PassKind::Opaque => (Blend::Off, true),
        PassKind::Coverage => (Blend::Coverage, false),
        PassKind::Textured => (Blend::Alpha, false),
        PassKind::Transparent => (Blend::Alpha, false),
        PassKind::Reset => (Blend::Off, true),
    };
    Pass { kind, blend, depth_write, draws }
}

/// The passes in which `layer` is drawn. Buckets that hold nothing are left out;
/// a pass all of whose buckets are empty is issued without draw calls.
pub fn plan(layer: &Layer) -> (passes: Vec<Pass>)
    ensures
        passes@.len() == 5,
        forall|i: int| 0 <= i < 5 ==> (#[trigger] passes@[i])@ == layer@.passes()[i],
{
    let mut passes: Vec<Pass> = Vec::new();
    passes.push(pass_for(layer, PassKind::Opaque));
    passes.push(pass_for(layer, PassKind::Coverage));
    passes.push(pass_for(layer, PassKind::Textured));
    passes.push(pass_for(layer, PassKind::Transparent));
    passes.push(pass_for(layer, PassKind::Reset));
    passes
}

/// Every bucket is drawn in the pass it belongs to, under that pass's blending,
/// exactly when it holds something; no pass draws a bucket of another pass.
pub proof fn lemma_bucket_is_drawn_in_its_pass(layer: LayerView, kind: PassKind, bucket: Bucket)
    ensures
        ({
            let pass = layer.pass_of(kind);
            let drawn = exists|i: int|
                0 <= i < pass.draws.len() && (#[trigger] pass.draws[i]).bucket == bucket;
            drawn <==> bucket.pass() == kind && layer.is_drawn(bucket)
        }),
        forall|i: int|
            0 <= i < layer.pass_of(kind).draws.len() ==> (#[trigger] layer.pass_of(
                kind,
            ).draws[i]).count == layer.count_of(layer.pass_of(kind).draws[i].bucket) as usize,
{
    reveal_with_fuel(LayerView::draws_of, 4);
    let pass = layer.pass_of(kind);
    let buckets = kind.buckets();
    if bucket.pass() == kind && layer.is_drawn(bucket) {
        let at = choose|k: int| 0 <= k < buckets.len() && buckets[k] == bucket;
        let before = layer.draws_of(buckets, at as nat);
        assert(pass.draws[before.len() as int].bucket == bucket);
    }
}

/// The opaque pass comes first and alone among the drawing passes writes depth;
/// blending is off in it and on in every later drawing pass; the last pass draws
/// nothing and leaves blending off and depth writes on.
pub proof fn lemma_pass_states(layer: LayerView)
    ensures
        layer.passes()[0].kind == PassKind::Opaque,
        layer.passes()[0].blend == Blend::Off && layer.passes()[0].depth_write,
        forall|i: int|
            1 <= i < 4 ==> (#[trigger] layer.passes()[i]).blend != Blend::Off
                && !layer.passes()[i].depth_write,
        layer.passes()[1].blend == Blend::Coverage,
        layer.passes()[2].blend == Blend::Alpha,
        layer.passes()[3].blend == Blend::Alpha,
        layer.passes()[4].kind == PassKind::Reset,
        layer.passes()[4].blend == Blend::Off && layer.passes()[4].depth_write,
        layer.passes()[4].draws.len() == 0,
{
    reveal_with_fuel(LayerView::draws_of, 1);
}

} // verus!
