use piet_wgpu::atlas::entry::PixelRect;
use piet_wgpu::compositor::{plan, Blend, Bucket, Draw, PassKind};
use piet_wgpu::context::{Brush, StrokeVertex, WgpuRenderContext};
use piet_wgpu::depth::depth_test;
use piet_wgpu::error::RenderError;
use piet_wgpu::geometry::{Color, PathEl, Point, Rect, Shape};
use piet_wgpu::layer::{BlurQuad, Layer, Mesh, Quad, Tex, Vertex};
use piet_wgpu::pipeline::{GpuVertex, Linear, Primitive};
use piet_wgpu::transform::Affine;

const ONE: i64 = 65536;

fn px(v: i64) -> i64 {
    v * ONE
}

fn rect(x0: i64, y0: i64, x1: i64, y1: i64) -> Rect {
    Rect { x0: px(x0), y0: px(y0), x1: px(x1), y1: px(y1) }
}

fn vertex(x: i64, y: i64) -> Vertex {
    Vertex { pos: Point { x, y }, color: Color::rgb8(0, 0, 0), depth: 1, clip: rect(0, 0, 0, 0) }
}

fn tex(depth: u32) -> Tex {
    Tex {
        rect: rect(0, 0, 1, 1),
        tex_rect: PixelRect { x0: 0, y0: 0, x1: 1, y1: 1 },
        color: Color::rgb8(1, 2, 3),
        depth,
        clip: rect(0, 0, 0, 0),
    }
}

#[test]
fn half_transparent_fill_is_transparent_and_opaque_fill_is_opaque() {
    let mut ctx = WgpuRenderContext::new();
    let half = Brush::Solid(Color::rgba8(10, 20, 30, 128));
    let full = Brush::Solid(Color::rgba8(10, 20, 30, 255));
    ctx.fill(&Shape::Rect(rect(0, 0, 5, 5)), &half, &Vec::new(), &Vec::new()).unwrap();
    ctx.fill(&Shape::Rect(rect(1, 1, 6, 6)), &full, &Vec::new(), &Vec::new()).unwrap();
    let layer = ctx.layer();
    assert_eq!(layer.transparent_quads.len(), 1);
    assert_eq!(layer.quads.len(), 1);
    assert_eq!(layer.transparent_quads[0].rect, rect(0, 0, 5, 5));
    assert_eq!(layer.transparent_quads[0].depth, 1);
    assert_eq!(layer.quads[0].rect, rect(1, 1, 6, 6));
    assert_eq!(layer.quads[0].depth, 2);
}

#[test]
fn almost_opaque_is_transparent() {
    let mut layer = Layer::new();
    layer.add_quad(rect(0, 0, 1, 1), Color::rgba8(0, 0, 0, 254), 1, rect(0, 0, 0, 0));
    layer.add_quad(rect(0, 0, 1, 1), Color::rgba8(0, 0, 0, 0), 2, rect(0, 0, 0, 0));
    assert_eq!(layer.transparent_quads.len(), 2);
    assert!(layer.quads.is_empty());
}

#[test]
fn later_opaque_fill_is_seen_whatever_the_order_of_submission() {
    let mut ctx = WgpuRenderContext::new();
    ctx.fill(&Shape::Rect(rect(0, 0, 10, 10)), &Brush::Solid(Color::rgb8(255, 0, 0)), &Vec::new(), &Vec::new()).unwrap();
    ctx.fill(&Shape::Rect(rect(5, 5, 15, 15)), &Brush::Solid(Color::rgb8(0, 0, 255)), &Vec::new(), &Vec::new()).unwrap();
    let quads = ctx.layer().quads.clone();
    assert_eq!(quads[0].depth, 1);
    assert_eq!(quads[1].depth, 2);
    let reversed = vec![quads[1], quads[0]];
    let (x, y) = (px(7), px(7));
    assert_eq!(depth_test(&quads, x, y), Some(quads[1]));
    assert_eq!(depth_test(&reversed, x, y), Some(quads[1]));
    assert_eq!(depth_test(&quads, px(2), px(2)), Some(quads[0]));
    assert_eq!(depth_test(&reversed, px(2), px(2)), Some(quads[0]));
    assert_eq!(depth_test(&quads, px(12), px(12)), Some(quads[1]));
    assert_eq!(depth_test(&quads, px(20), px(20)), None);
    // The right and lower edges do not belong to a rectangle.
    assert_eq!(depth_test(&quads, px(15), px(15)), None);
}

#[test]
fn depth_counts_every_fill_stroke_and_blur() {
    let mut ctx = WgpuRenderContext::new();
    let brush = Brush::Solid(Color::rgb8(0, 0, 0));
    assert_eq!(ctx.depth(), 0);
    ctx.fill(&Shape::Rect(rect(0, 0, 1, 1)), &brush, &Vec::new(), &Vec::new()).unwrap();
    // A path is drawn as the triangles of its tessellation.
    let corners = vec![Point { x: 0, y: 0 }, Point { x: px(2), y: 0 }, Point { x: 0, y: px(2) }];
    ctx.fill(&Shape::Path(Vec::new()), &brush, &corners, &vec![0, 1, 2]).unwrap();
    assert_eq!(ctx.depth(), 2);
    assert_eq!(ctx.layer().quads.len(), 1);
    assert_eq!(ctx.layer().triangles.vertices.len(), 3);
    ctx.blurred_rect(rect(0, 0, 1, 1), ONE, &brush).unwrap();
    assert_eq!(ctx.depth(), 3);
    ctx.stroke(&brush, ONE, &Vec::new(), &Vec::new()).unwrap();
    assert_eq!(ctx.depth(), 4);
}

#[test]
fn filled_path_goes_to_the_mesh_of_its_opacity() {
    let mut ctx = WgpuRenderContext::new();
    ctx.transform(&Affine::translate(px(10), px(20))).unwrap();
    ctx.clip(&Shape::Rect(rect(0, 0, 50, 50))).unwrap();
    let triangle = Shape::Path(vec![
        PathEl::MoveTo(Point { x: 0, y: 0 }),
        PathEl::LineTo(Point { x: px(4), y: 0 }),
        PathEl::LineTo(Point { x: 0, y: px(4) }),
        PathEl::ClosePath,
    ]);
    let corners = vec![Point { x: 0, y: 0 }, Point { x: px(4), y: 0 }, Point { x: 0, y: px(4) }];
    let opaque = Brush::Solid(Color::rgb8(1, 2, 3));
    let clear = Brush::Solid(Color::rgba8(1, 2, 3, 128));
    assert_eq!(ctx.fill(&triangle, &opaque, &corners, &vec![0, 1, 2]), Ok(()));
    assert_eq!(ctx.fill(&triangle, &clear, &corners, &vec![2, 1, 0]), Ok(()));
    assert_eq!(ctx.fill(&triangle, &opaque, &corners, &vec![0, 2, 1]), Ok(()));
    let layer = ctx.layer();
    assert!(layer.quads.is_empty() && layer.transparent_quads.is_empty());
    assert_eq!(
        layer.triangles.vertices[..3],
        [
            Vertex {
                pos: Point { x: px(10), y: px(20) },
                color: Color::rgb8(1, 2, 3),
                depth: 1,
                clip: rect(10, 20, 60, 70),
            },
            Vertex {
                pos: Point { x: px(14), y: px(20) },
                color: Color::rgb8(1, 2, 3),
                depth: 1,
                clip: rect(10, 20, 60, 70),
            },
            Vertex {
                pos: Point { x: px(10), y: px(24) },
                color: Color::rgb8(1, 2, 3),
                depth: 1,
                clip: rect(10, 20, 60, 70),
            },
        ]
    );
    assert_eq!(layer.triangles.vertices.len(), 6);
    assert_eq!(layer.triangles.vertices[3].depth, 3);
    assert_eq!(layer.triangles.indices, vec![0, 1, 2, 3, 5, 4]);
    assert_eq!(layer.transparent_triangles.vertices.len(), 3);
    assert_eq!(layer.transparent_triangles.vertices[0].depth, 2);
    assert_eq!(layer.transparent_triangles.vertices[0].color, Color::rgba8(1, 2, 3, 128));
    assert_eq!(layer.transparent_triangles.indices, vec![2, 1, 0]);
    assert_eq!(ctx.depth(), 3);
}

#[test]
fn malformed_fill_is_invalid_input_and_changes_nothing() {
    let mut ctx = WgpuRenderContext::new();
    let brush = Brush::Solid(Color::rgb8(1, 2, 3));
    let path = Shape::Path(Vec::new());
    let corners = vec![Point { x: 0, y: 0 }, Point { x: px(4), y: 0 }];
    // An index that names no point.
    assert_eq!(ctx.fill(&path, &brush, &corners, &vec![0, 1, 2]), Err(RenderError::InvalidInput));
    // A point that cannot be moved by the translation.
    ctx.transform(&Affine::translate(px(1), 0)).unwrap();
    let far = vec![Point { x: i64::MAX, y: 0 }];
    assert_eq!(ctx.fill(&path, &brush, &far, &vec![0, 0, 0]), Err(RenderError::InvalidInput));
    assert_eq!(ctx.depth(), 0);
    assert!(ctx.layer().triangles.vertices.is_empty());
    // A rectangle is a quad whatever tessellation comes with it.
    assert_eq!(ctx.fill(&Shape::Rect(rect(0, 0, 1, 1)), &brush, &far, &vec![7]), Ok(()));
    assert_eq!(ctx.layer().quads.len(), 1);
    assert!(ctx.layer().triangles.vertices.is_empty());
}

#[test]
fn blurred_rect_reaches_three_radii_out() {
    let mut ctx = WgpuRenderContext::new();
    ctx.transform(&Affine::translate(px(100), px(200))).unwrap();
    ctx.clip(&Shape::Rect(rect(0, 0, 50, 50))).unwrap();
    let brush = Brush::Solid(Color::rgba8(0, 0, 0, 77));
    assert_eq!(ctx.blurred_rect(rect(10, 10, 20, 30), px(2), &brush), Ok(()));
    assert_eq!(
        ctx.layer().blurred_quads,
        vec![BlurQuad {
            rect: rect(104, 204, 126, 236),
            blur_rect: rect(110, 210, 120, 230),
            blur_radius: px(2),
            color: Color::rgba8(0, 0, 0, 77),
            depth: 1,
            clip: rect(100, 200, 150, 250),
        }]
    );
    assert_eq!(
        ctx.blurred_rect(rect(0, 0, 1, 1), i64::MAX / 2, &brush),
        Err(RenderError::InvalidInput)
    );
    assert_eq!(ctx.depth(), 1);
    assert_eq!(ctx.layer().blurred_quads.len(), 1);
}

#[test]
fn stroke_places_vertices_and_rebases_indices() {
    let mut ctx = WgpuRenderContext::new();
    ctx.transform(&Affine::translate(px(10), px(20))).unwrap();
    let outline = vec![
        StrokeVertex { position: Point { x: 0, y: 0 }, normal: Point { x: ONE, y: 0 } },
        StrokeVertex { position: Point { x: px(4), y: 0 }, normal: Point { x: 0, y: -ONE } },
        StrokeVertex { position: Point { x: px(4), y: px(4) }, normal: Point { x: -ONE, y: ONE } },
    ];
    let opaque = Brush::Solid(Color::rgb8(1, 1, 1));
    assert_eq!(ctx.stroke(&opaque, px(3), &outline, &vec![0, 1, 2]), Ok(()));
    assert_eq!(ctx.stroke(&opaque, px(2), &outline, &vec![2, 1, 0, 0, 1, 2]), Ok(()));
    let mesh = &ctx.layer().triangles;
    assert_eq!(mesh.vertices.len(), 6);
    assert_eq!(mesh.indices, vec![0, 1, 2, 5, 4, 3, 3, 4, 5]);
    // Half of three pixels along the normal, then the translation.
    assert_eq!(mesh.vertices[0].pos, Point { x: px(10) + 3 * ONE / 2, y: px(20) });
    assert_eq!(mesh.vertices[1].pos, Point { x: px(14), y: px(20) - 3 * ONE / 2 });
    assert_eq!(
        mesh.vertices[2].pos,
        Point { x: px(14) - 3 * ONE / 2, y: px(24) + 3 * ONE / 2 }
    );
    assert_eq!(mesh.vertices[0].depth, 1);
    assert_eq!(mesh.vertices[3].depth, 2);
    assert_eq!(mesh.vertices[3].pos, Point { x: px(11), y: px(20) });
    let clear = Brush::Solid(Color::rgba8(1, 1, 1, 200));
    assert_eq!(ctx.stroke(&clear, px(2), &outline, &vec![0, 1, 2]), Ok(()));
    assert_eq!(ctx.layer().transparent_triangles.vertices.len(), 3);
    assert_eq!(ctx.layer().transparent_triangles.indices, vec![0, 1, 2]);
    assert_eq!(ctx.layer().triangles.vertices.len(), 6);
}

#[test]
fn stroke_with_a_stray_index_is_refused() {
    let mut ctx = WgpuRenderContext::new();
    let outline =
        vec![StrokeVertex { position: Point { x: 0, y: 0 }, normal: Point { x: 0, y: 0 } }];
    let brush = Brush::Solid(Color::rgb8(1, 1, 1));
    assert_eq!(ctx.stroke(&brush, ONE, &outline, &vec![0, 0, 1]), Err(RenderError::InvalidInput));
    assert_eq!(ctx.depth(), 0);
    assert!(ctx.layer().triangles.vertices.is_empty());
    assert!(ctx.layer().triangles.indices.is_empty());
    let far = vec![StrokeVertex {
        position: Point { x: i64::MAX, y: 0 },
        normal: Point { x: ONE, y: 0 },
    }];
    assert_eq!(ctx.stroke(&brush, px(2), &far, &vec![0, 0, 0]), Err(RenderError::InvalidInput));
    assert_eq!(ctx.depth(), 0);
}

#[test]
fn mesh_append_moves_indices_up() {
    let mut mesh = Mesh::new();
    assert_eq!(mesh.append(&vec![vertex(0, 0), vertex(1, 0)], &vec![0, 1, 1]), Ok(()));
    assert_eq!(mesh.append(&vec![vertex(2, 0), vertex(3, 0), vertex(4, 0)], &vec![2, 0, 1]), Ok(()));
    assert_eq!(mesh.indices, vec![0, 1, 1, 4, 2, 3]);
    assert_eq!(mesh.vertices.len(), 5);
    assert_eq!(mesh.append(&vec![vertex(5, 0)], &vec![1]), Err(RenderError::InvalidInput));
    assert_eq!(mesh.vertices.len(), 5);
    assert_eq!(mesh.indices.len(), 6);
    mesh.clear();
    assert!(mesh.vertices.is_empty() && mesh.indices.is_empty());
}

#[test]
fn passes_come_in_the_fixed_order() {
    let mut layer = Layer::new();
    layer.add_quad(rect(0, 0, 1, 1), Color::rgb8(0, 0, 0), 1, rect(0, 0, 0, 0));
    layer.add_quad(rect(0, 0, 1, 1), Color::rgb8(0, 0, 0), 2, rect(0, 0, 0, 0));
    layer.add_quad(rect(0, 0, 1, 1), Color::rgba8(0, 0, 0, 9), 3, rect(0, 0, 0, 0));
    layer.add_blurred_quad(
        rect(0, 0, 1, 1),
        rect(0, 0, 1, 1),
        ONE,
        Color::rgb8(0, 0, 0),
        4,
        rect(0, 0, 0, 0),
    );
    layer.add_geometry(true, &vec![vertex(0, 0), vertex(1, 0), vertex(0, 1)], &vec![0, 1, 2]).unwrap();
    layer
        .add_geometry(
            false,
            &vec![vertex(0, 0), vertex(1, 0), vertex(0, 1)],
            &vec![0, 1, 2, 2, 1, 0],
        )
        .unwrap();
    layer.add_text(vec![tex(4), tex(4), tex(4)]);
    layer.add_color_text(vec![tex(4)]);
    layer.add_svg(tex(4));
    layer.add_svg(tex(4));
    let passes = plan(&layer);
    assert_eq!(passes.len(), 5);
    assert_eq!(
        passes.iter().map(|p| (p.kind, p.blend, p.depth_write)).collect::<Vec<_>>(),
        vec![
            (PassKind::Opaque, Blend::Off, true),
            (PassKind::Coverage, Blend::Coverage, false),
            (PassKind::Textured, Blend::Alpha, false),
            (PassKind::Transparent, Blend::Alpha, false),
            (PassKind::Reset, Blend::Off, true),
        ]
    );
    assert!(passes[4].draws.is_empty());
    assert_eq!(
        passes[0].draws,
        vec![Draw { bucket: Bucket::Quads, count: 2 }, Draw { bucket: Bucket::Triangles, count: 3 }]
    );
    assert_eq!(passes[1].draws, vec![Draw { bucket: Bucket::Texts, count: 3 }]);
    assert_eq!(
        passes[2].draws,
        vec![Draw { bucket: Bucket::Svgs, count: 2 }, Draw { bucket: Bucket::ColorTexts, count: 1 }]
    );
    assert_eq!(
        passes[3].draws,
        vec![
            Draw { bucket: Bucket::TransparentQuads, count: 1 },
            Draw { bucket: Bucket::BlurredQuads, count: 1 },
            Draw { bucket: Bucket::TransparentTriangles, count: 6 },
        ]
    );
}

#[test]
fn empty_buckets_are_not_drawn() {
    let mut layer = Layer::new();
    let passes = plan(&layer);
    assert_eq!(passes.len(), 5);
    assert!(passes.iter().all(|p| p.draws.is_empty()));
    layer.add_color_text(vec![tex(1)]);
    let passes = plan(&layer);
    assert!(passes[0].draws.is_empty());
    assert!(passes[1].draws.is_empty());
    assert_eq!(passes[2].draws, vec![Draw { bucket: Bucket::ColorTexts, count: 1 }]);
    assert!(passes[3].draws.is_empty());
}

#[test]
fn reset_empties_every_bucket() {
    let mut layer = Layer::new();
    layer.add_quad(rect(0, 0, 1, 1), Color::rgb8(0, 0, 0), 1, rect(0, 0, 0, 0));
    layer.add_quad(rect(0, 0, 1, 1), Color::rgba8(0, 0, 0, 1), 1, rect(0, 0, 0, 0));
    layer.add_text(vec![tex(1)]);
    layer.add_color_text(vec![tex(1)]);
    layer.add_svg(tex(1));
    layer.add_geometry(true, &vec![vertex(0, 0)], &vec![0]).unwrap();
    layer.reset();
    assert!(layer.quads.is_empty());
    assert!(layer.transparent_quads.is_empty());
    assert!(layer.blurred_quads.is_empty());
    assert!(layer.texts.is_empty());
    assert!(layer.color_texts.is_empty());
    assert!(layer.svgs.is_empty());
    assert!(layer.triangles.vertices.is_empty());
    assert!(layer.triangles.indices.is_empty());
}

#[test]
fn finish_hands_out_the_layer_and_starts_afresh() {
    let mut ctx = WgpuRenderContext::new();
    let brush = Brush::Solid(Color::rgb8(0, 0, 0));
    ctx.transform(&Affine::translate(px(1), px(1))).unwrap();
    ctx.fill(&Shape::Rect(rect(0, 0, 5, 5)), &brush, &Vec::new(), &Vec::new()).unwrap();
    ctx.fill(&Shape::Rect(rect(0, 0, 5, 5)), &brush, &Vec::new(), &Vec::new()).unwrap();
    let frame = ctx.finish();
    assert_eq!(frame.max_depth, 2);
    assert_eq!(frame.layer.quads.len(), 2);
    assert_eq!(frame.passes.len(), 5);
    assert_eq!(frame.passes[0].draws, vec![Draw { bucket: Bucket::Quads, count: 2 }]);
    assert_eq!(ctx.depth(), 0);
    assert!(ctx.layer().quads.is_empty());
    assert_eq!(ctx.current_transform(), Affine::translate(px(1), px(1)));
    ctx.fill(&Shape::Rect(rect(0, 0, 5, 5)), &brush, &Vec::new(), &Vec::new()).unwrap();
    assert_eq!(
        ctx.layer().quads,
        vec![Quad {
            rect: rect(1, 1, 6, 6),
            color: Color::rgb8(0, 0, 0),
            depth: 1,
            clip: rect(0, 0, 0, 0)
        }]
    );
}

#[test]
fn default_records() {
    let p = Primitive::default();
    assert_eq!(p.translate, Point { x: 0, y: 0 });
    assert_eq!(p.scale, Point { x: ONE, y: ONE });
    assert_eq!(p.clip, 0);
    assert_eq!(p.clip_rect, rect(0, 0, 0, 0));
    assert_eq!(p.transform_1, Linear { a: ONE, b: 0, c: 0, d: ONE });
    assert_eq!(p.transform_2, Point { x: 0, y: 0 });
    assert_eq!(p.blur_rect, rect(0, 0, 0, 0));
    assert_eq!(p.blur_radius, 0);
    let v = GpuVertex::default();
    assert_eq!(v.pos, Point { x: 0, y: 0 });
    assert_eq!(v.color, Color::rgba8(0, 0, 0, 0));
    assert_eq!(v.tex, 0);
    assert_eq!(v.primitive_id, 0);
}
