use std::cell::Cell;

use piet_wgpu::atlas::cache::AtlasCache;
use piet_wgpu::atlas::entry::{AtlasEntry, AtlasError, Bitmap, Content, PixelRect};
use piet_wgpu::atlas::key::AtlasKey;
use piet_wgpu::context::WgpuRenderContext;
use piet_wgpu::digest::ContentHash;
use piet_wgpu::geometry::{Color, Point, Rect, Shape, Size};
use piet_wgpu::layer::Tex;
use piet_wgpu::renderer::WgpuRenderer;
use piet_wgpu::subpixel::SubpixelOffset;
use piet_wgpu::svg::{Svg, WgpuImage};
use piet_wgpu::text::{GlyphPlan, PositionedGlyph};
use piet_wgpu::transform::Affine;

const ONE: i64 = 65536;

fn px(v: i64) -> i64 {
    v * ONE
}

fn rect(x0: i64, y0: i64, x1: i64, y1: i64) -> Rect {
    Rect { x0: px(x0), y0: px(y0), x1: px(x1), y1: px(y1) }
}

fn glyph(id: u32, x: i64, y: i64) -> PositionedGlyph {
    PositionedGlyph { id, x, y, font_id: 3, font_size: px(14), color: Color::rgb8(9, 9, 9) }
}

#[test]
fn sha256_of_known_sources() {
    assert_eq!(
        ContentHash::of_source(""),
        ContentHash {
            w0: 0xe3b0c44298fc1c14,
            w1: 0x9afbf4c8996fb924,
            w2: 0x27ae41e4649b934c,
            w3: 0xa495991b7852b855,
        }
    );
    assert_eq!(
        Svg::from_source("abc").hash,
        ContentHash {
            w0: 0xba7816bf8f01cfea,
            w1: 0x414140de5dae2223,
            w2: 0xb00361a396177a9c,
            w3: 0xb410ff61f20015ad,
        }
    );
}

#[test]
fn digests_pack_big_endian_and_only_at_32_bytes() {
    let bytes: Vec<u8> = (1..=32).collect();
    assert_eq!(
        ContentHash::from_bytes(&bytes),
        Some(ContentHash {
            w0: 0x0102030405060708,
            w1: 0x090a0b0c0d0e0f10,
            w2: 0x1112131415161718,
            w3: 0x191a1b1c1d1e1f20,
        })
    );
    assert_eq!(ContentHash::from_bytes(&bytes[..31]), None);
    assert_eq!(ContentHash::from_bytes(&[0u8; 33]), None);
    assert_eq!(
        ContentHash::from_bytes(&[0xff; 32]),
        Some(ContentHash { w0: u64::MAX, w1: u64::MAX, w2: u64::MAX, w3: u64::MAX })
    );
}

#[test]
fn glyph_plan_settles_key_and_column() {
    let ctx = WgpuRenderContext::new();
    let origin = Point { x: px(10), y: px(20) };
    let plan = ctx.plan_glyph(&glyph(42, 3 * ONE + ONE / 4, px(2)), origin, ONE);
    assert_eq!(
        plan,
        Some(GlyphPlan {
            key: AtlasKey::Glyph {
                font_id: 3,
                glyph_id: 42,
                font_size: 14,
                subpx_x: SubpixelOffset::Quarter,
                subpx_y: SubpixelOffset::Zero,
            },
            x: px(13),
            y: px(22),
            clip: rect(0, 0, 0, 0),
        })
    );
    // At twice the scale the position and the size double before rounding.
    let plan = ctx.plan_glyph(&glyph(42, 3 * ONE + ONE / 4, px(2)), origin, 2 * ONE).unwrap();
    assert_eq!(
        plan.key,
        AtlasKey::Glyph {
            font_id: 3,
            glyph_id: 42,
            font_size: 28,
            subpx_x: SubpixelOffset::Half,
            subpx_y: SubpixelOffset::Zero,
        }
    );
    assert_eq!(plan.x, px(26));
    assert_eq!(plan.y, px(44));
    // The missing glyph is passed over.
    assert_eq!(ctx.plan_glyph(&glyph(0, 0, 0), origin, ONE), None);
    // So is one that cannot be placed.
    assert_eq!(ctx.plan_glyph(&glyph(1, i64::MAX, 0), origin, ONE), None);
}

#[test]
fn glyph_line_is_rounded_with_the_translation() {
    let mut ctx = WgpuRenderContext::new();
    ctx.transform(&Affine::translate(ONE / 4, ONE / 4)).unwrap();
    ctx.clip(&Shape::Rect(rect(0, 0, 8, 8))).unwrap();
    let origin = Point { x: px(1), y: px(1) + ONE / 4 };
    let plan = ctx.plan_glyph(&glyph(5, 0, px(3)), origin, 3 * ONE).unwrap();
    // Column: (1 + 0.25) * 3 = 3.75, less an eighth short of 4: starts at 3.
    assert_eq!(plan.x, px(3));
    // Line: round(1.25 + 0.25) = 2, plus 3, times 3.
    assert_eq!(plan.y, px(15));
    assert_eq!(
        plan.clip,
        Rect { x0: 3 * ONE / 4, y0: 3 * ONE / 4, x1: px(24) + 3 * ONE / 4, y1: px(24) + 3 * ONE / 4 }
    );
    match plan.key {
        AtlasKey::Glyph { subpx_x, font_size, .. } => {
            assert_eq!(subpx_x, SubpixelOffset::ThreeQuarters);
            assert_eq!(font_size, 42);
        }
        _ => unreachable!(),
    }
}

#[test]
fn glyph_is_drawn_from_the_atlas() {
    let mut ctx = WgpuRenderContext::new();
    let mut atlas = AtlasCache::new(64, 64);
    let calls = Cell::new(0);
    let render = |_key: AtlasKey| {
        calls.set(calls.get() + 1);
        Ok(Bitmap { width: 8, height: 10, left: 1, top: 9, content: Content::Mask })
    };
    let origin = Point { x: px(10), y: px(20) };
    let g = glyph(42, 3 * ONE + ONE / 4, px(2));
    let first = ctx.draw_glyph(&mut atlas, &g, origin, ONE, &render);
    let entry = AtlasEntry {
        rect: PixelRect { x0: 0, y0: 0, x1: 8, y1: 10 },
        left: 1,
        top: 9,
        content: Content::Mask,
    };
    assert_eq!(first, Some(Ok(entry)));
    let second = ctx.draw_glyph(&mut atlas, &g, origin, ONE, &render);
    assert_eq!(second, Some(Ok(entry)));
    assert_eq!(calls.get(), 1);
    let expected = Tex {
        rect: rect(14, 13, 22, 23),
        tex_rect: PixelRect { x0: 0, y0: 0, x1: 8, y1: 10 },
        color: Color::rgb8(9, 9, 9),
        depth: 0,
        clip: rect(0, 0, 0, 0),
    };
    assert_eq!(ctx.layer().texts, vec![expected, expected]);
    assert!(ctx.layer().color_texts.is_empty());
}

#[test]
fn colour_glyphs_go_to_their_own_bucket_uncoloured() {
    let mut ctx = WgpuRenderContext::new();
    let mut atlas = AtlasCache::new(64, 64);
    let render = |key: AtlasKey| match key {
        AtlasKey::Glyph { glyph_id: 7, .. } => {
            Ok(Bitmap { width: 4, height: 4, left: 0, top: 4, content: Content::Color })
        }
        AtlasKey::Glyph { glyph_id: 8, .. } => Err(AtlasError::RasterizationFailed),
        AtlasKey::Glyph { glyph_id: 9, .. } => {
            Ok(Bitmap { width: 4, height: 65, left: 0, top: 4, content: Content::Mask })
        }
        _ => Ok(Bitmap { width: 4, height: 4, left: 0, top: 4, content: Content::SubpixelMask }),
    };
    let glyphs = vec![
        glyph(1, 0, 0),
        glyph(7, px(4), 0),
        glyph(0, px(8), 0),
        glyph(8, px(8), 0),
        glyph(9, px(8), 0),
        glyph(2, px(12), 0),
    ];
    ctx.draw_text(&mut atlas, &glyphs, Point { x: 0, y: px(10) }, ONE, &render);
    let layer = ctx.layer();
    assert_eq!(layer.texts.len(), 2);
    assert_eq!(layer.color_texts.len(), 1);
    assert_eq!(layer.color_texts[0].color, Color::rgba8(0, 0, 0, 0));
    assert_eq!(layer.color_texts[0].rect, rect(4, 6, 8, 10));
    assert_eq!(layer.color_texts[0].tex_rect, PixelRect { x0: 4, y0: 0, x1: 8, y1: 4 });
    assert_eq!(layer.texts[0].rect, rect(0, 6, 4, 10));
    assert_eq!(layer.texts[0].tex_rect, PixelRect { x0: 0, y0: 0, x1: 4, y1: 4 });
    assert_eq!(layer.texts[1].rect, rect(12, 6, 16, 10));
    assert_eq!(layer.texts[1].tex_rect, PixelRect { x0: 8, y0: 0, x1: 12, y1: 4 });
    assert_eq!(layer.texts[1].color, Color::rgb8(9, 9, 9));
}

#[test]
fn icon_is_rasterized_once_per_size() {
    let mut ctx = WgpuRenderContext::new();
    let mut atlas = AtlasCache::new(100, 100);
    let svg = Svg::from_source("<svg/>");
    let mut sizes: Vec<(u32, u32)> = Vec::new();
    let into = rect(1, 2, 11, 22);
    let a = ctx.draw_svg(&mut atlas, &svg, into, None, ONE, |w, h| {
        sizes.push((w, h));
        Ok(())
    });
    let b = ctx.draw_svg(&mut atlas, &svg, into, Some(Color::rgb8(5, 6, 7)), ONE, |w, h| {
        sizes.push((w, h));
        Ok(())
    });
    let c = ctx.draw_svg(&mut atlas, &svg, into, None, 3 * ONE / 2, |w, h| {
        sizes.push((w, h));
        Ok(())
    });
    assert_eq!(sizes, vec![(10, 20), (15, 30)]);
    let first = a.unwrap().unwrap();
    assert_eq!(first.rect, PixelRect { x0: 0, y0: 0, x1: 10, y1: 20 });
    assert_eq!(first.content, Content::Color);
    assert_eq!(b, Some(Ok(first)));
    assert_eq!(c.unwrap().unwrap().rect, PixelRect { x0: 0, y0: 20, x1: 15, y1: 50 });
    let svgs = &ctx.layer().svgs;
    assert_eq!(svgs.len(), 3);
    assert_eq!(svgs[0].rect, into);
    assert_eq!(svgs[0].color, Color::rgba8(0, 0, 0, 0));
    assert_eq!(svgs[1].color, Color::rgb8(5, 6, 7));
    assert_eq!(svgs[2].tex_rect, PixelRect { x0: 0, y0: 20, x1: 15, y1: 50 });
}

#[test]
fn icon_rect_is_rounded_to_whole_pixels_and_size_up() {
    let mut ctx = WgpuRenderContext::new();
    ctx.transform(&Affine::translate(ONE / 2, -ONE / 2)).unwrap();
    let mut atlas = AtlasCache::new(100, 100);
    let svg = Svg::from_source("<svg/>");
    let into = Rect { x0: px(1), y0: px(2), x1: px(11) + 1, y1: px(22) };
    let plan = ctx.plan_svg(&svg, into, ONE).unwrap();
    assert_eq!(plan.key, AtlasKey::Content { hash: svg.hash, width: 11, height: 20 });
    // 1.5 rounds to 2, 11.5 and a bit to 12; 1.5 and 21.5 round away from zero.
    assert_eq!(plan.rect, rect(2, 2, 12, 22));
    let failed = ctx.draw_svg(&mut atlas, &svg, into, None, ONE, |_, _| {
        Err(AtlasError::RasterizationFailed)
    });
    assert_eq!(failed, Some(Err(AtlasError::RasterizationFailed)));
    assert!(ctx.layer().svgs.is_empty());
    let skipped = ctx.draw_svg(
        &mut atlas,
        &svg,
        Rect { x0: i64::MIN, y0: 0, x1: i64::MAX, y1: 0 },
        None,
        ONE,
        |_, _| Ok(()),
    );
    assert_eq!(skipped, None);
}

#[test]
fn images_are_keyed_by_hash_and_size() {
    let mut atlas = AtlasCache::new(100, 100);
    let hash = ContentHash { w0: 1, w1: 2, w2: 3, w3: 4 };
    let small = WgpuImage { hash, width: 10, height: 10 };
    let large = WgpuImage { hash, width: 20, height: 10 };
    assert_eq!(small.size(), (10, 10));
    let a = atlas.get_img(&small).unwrap();
    let b = atlas.get_img(&large).unwrap();
    assert_eq!(a.rect, PixelRect { x0: 0, y0: 0, x1: 10, y1: 10 });
    assert_eq!(b.rect, PixelRect { x0: 10, y0: 0, x1: 30, y1: 10 });
    assert_eq!(atlas.get_img(&small), Ok(a));
    assert_eq!(
        atlas.get_img(&WgpuImage { hash, width: 1, height: 101 }),
        Err(AtlasError::OutOfSpace)
    );
    assert_eq!(
        AtlasKey::Content { hash, width: 10, height: 7 }.packed(),
        (0, 1, 2, 3, 4, (10u64 << 32) + 7)
    );
}

#[test]
fn renderer_starts_empty_at_scale_one() {
    let mut renderer = WgpuRenderer::new();
    assert_eq!(renderer.scale, ONE);
    assert_eq!(renderer.size, Size { width: 0, height: 0 });
    assert_eq!((renderer.text.width(), renderer.text.height()), (2000, 2000));
    assert_eq!((renderer.svg_store.width(), renderer.svg_store.height()), (2000, 2000));
    let viewport = renderer.set_size(Size { width: px(800) + ONE / 2, height: px(600) - 1 });
    assert_eq!(viewport, (800, 599));
    assert_eq!(renderer.set_size(Size { width: -ONE - 1, height: i64::MAX }), (-1, 32767 << 16 | 0xffff));
    renderer.set_scale(2 * ONE);
    assert_eq!(renderer.scale, 2 * ONE);
}
