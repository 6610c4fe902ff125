use piet_wgpu::atlas::cache::AtlasCache;
use piet_wgpu::atlas::entry::{AtlasEntry, AtlasError, Bitmap, Content, PixelRect};
use piet_wgpu::atlas::key::AtlasKey;
use piet_wgpu::subpixel::SubpixelOffset;

fn glyph(id: u32) -> AtlasKey {
    AtlasKey::Glyph {
        font_id: 7,
        glyph_id: id,
        font_size: 14,
        subpx_x: SubpixelOffset::Zero,
        subpx_y: SubpixelOffset::Zero,
    }
}

fn mask(width: u32, height: u32) -> Bitmap {
    Bitmap { width, height, left: 0, top: 0, content: Content::Mask }
}

#[test]
fn same_height_shares_a_shelf() {
    let mut cache = AtlasCache::new(100, 100);
    let a = cache.resolve(&glyph(1), Ok(mask(10, 20))).unwrap();
    let b = cache.resolve(&glyph(2), Ok(mask(10, 20))).unwrap();
    assert_eq!(a.rect, PixelRect { x0: 0, y0: 0, x1: 10, y1: 20 });
    assert_eq!(b.rect.x0, a.rect.x1);
    assert_eq!(a.rect.y0, 0);
    assert_eq!(b.rect.y0, 0);
    assert_eq!(b.rect, PixelRect { x0: 10, y0: 0, x1: 20, y1: 20 });
}

#[test]
fn other_height_opens_a_shelf() {
    let mut cache = AtlasCache::new(100, 100);
    let a = cache.resolve(&glyph(1), Ok(mask(10, 20))).unwrap();
    let c = cache.resolve(&glyph(3), Ok(mask(10, 30))).unwrap();
    assert_eq!(a.rect.y0, 0);
    assert_eq!(c.rect, PixelRect { x0: 0, y0: 20, x1: 10, y1: 50 });
}

#[test]
fn newest_matching_shelf_is_taken_first() {
    let mut cache = AtlasCache::new(100, 100);
    cache.resolve(&glyph(1), Ok(mask(10, 20))).unwrap();
    cache.resolve(&glyph(2), Ok(mask(10, 30))).unwrap();
    cache.resolve(&glyph(3), Ok(mask(95, 20))).unwrap();
    // Shelves: 20 high at 0, 30 high at 20, 20 high at 50 (95 wide).
    let d = cache.resolve(&glyph(4), Ok(mask(4, 20))).unwrap();
    assert_eq!(d.rect, PixelRect { x0: 95, y0: 50, x1: 99, y1: 70 });
    let e = cache.resolve(&glyph(5), Ok(mask(4, 20))).unwrap();
    assert_eq!(e.rect, PixelRect { x0: 10, y0: 0, x1: 14, y1: 20 });
}

#[test]
fn exactly_the_remaining_width_fits() {
    let mut cache = AtlasCache::new(100, 100);
    cache.resolve(&glyph(1), Ok(mask(60, 10))).unwrap();
    let b = cache.resolve(&glyph(2), Ok(mask(40, 10))).unwrap();
    assert_eq!(b.rect, PixelRect { x0: 60, y0: 0, x1: 100, y1: 10 });
    // The shelf is full now: one more column opens the next shelf.
    let c = cache.resolve(&glyph(3), Ok(mask(1, 10))).unwrap();
    assert_eq!(c.rect, PixelRect { x0: 0, y0: 10, x1: 1, y1: 20 });
    let d = cache.resolve(&glyph(4), Ok(mask(100, 10))).unwrap();
    assert_eq!(d.rect, PixelRect { x0: 0, y0: 20, x1: 100, y1: 30 });
    let e = cache.resolve(&glyph(5), Ok(mask(99, 10))).unwrap();
    assert_eq!(e.rect, PixelRect { x0: 1, y0: 10, x1: 100, y1: 20 });
}

#[test]
fn two_halves_fill_a_shelf() {
    let mut narrow = AtlasCache::new(20, 100);
    let a = narrow.resolve(&glyph(1), Ok(mask(10, 20))).unwrap();
    let b = narrow.resolve(&glyph(2), Ok(mask(10, 20))).unwrap();
    assert_eq!(a.rect, PixelRect { x0: 0, y0: 0, x1: 10, y1: 20 });
    assert_eq!(b.rect, PixelRect { x0: 10, y0: 0, x1: 20, y1: 20 });
    // With no line left below, the second half still joins the shelf.
    let mut small = AtlasCache::new(20, 20);
    small.resolve(&glyph(1), Ok(mask(10, 20))).unwrap();
    let b = small.resolve(&glyph(2), Ok(mask(10, 20)));
    assert_eq!(b.map(|e| e.rect), Ok(PixelRect { x0: 10, y0: 0, x1: 20, y1: 20 }));
    assert_eq!(small.resolve(&glyph(3), Ok(mask(1, 20))), Err(AtlasError::OutOfSpace));
    // A shelf that reaches the lower edge exactly is no failure.
    let mut exact = AtlasCache::new(20, 50);
    exact.resolve(&glyph(1), Ok(mask(20, 30))).unwrap();
    let below = exact.resolve(&glyph(2), Ok(mask(5, 20))).unwrap();
    assert_eq!(below.rect, PixelRect { x0: 0, y0: 30, x1: 5, y1: 50 });
}

#[test]
fn second_lookup_returns_the_same_rect_and_does_not_render() {
    let mut cache = AtlasCache::new(100, 100);
    let mut calls = 0;
    let first = cache.lookup_or_insert(&glyph(1), || {
        calls += 1;
        Ok(mask(10, 20))
    });
    let second = cache.lookup_or_insert(&glyph(1), || {
        calls += 1;
        Ok(mask(33, 44))
    });
    assert_eq!(first, second);
    assert_eq!(first.unwrap().rect, PixelRect { x0: 0, y0: 0, x1: 10, y1: 20 });
    assert_eq!(calls, 1);
    assert_eq!(cache.lookup(&glyph(1)), Some(first.unwrap()));
}

#[test]
fn too_tall_is_out_of_space_and_changes_nothing() {
    let mut cache = AtlasCache::new(100, 100);
    let a = cache.resolve(&glyph(1), Ok(mask(10, 20))).unwrap();
    let tall = cache.resolve(&glyph(2), Ok(mask(10, 101)));
    assert_eq!(tall, Err(AtlasError::OutOfSpace));
    assert_eq!(cache.lookup(&glyph(2)), None);
    assert_eq!(cache.lookup(&glyph(1)), Some(a));
    let next = cache.resolve(&glyph(3), Ok(mask(10, 20))).unwrap();
    assert_eq!(next.rect, PixelRect { x0: 10, y0: 0, x1: 20, y1: 20 });
}

#[test]
fn full_atlas_is_out_of_space() {
    let mut cache = AtlasCache::new(100, 100);
    cache.resolve(&glyph(1), Ok(mask(10, 60))).unwrap();
    assert_eq!(cache.resolve(&glyph(2), Ok(mask(10, 41))), Err(AtlasError::OutOfSpace));
    let fits = cache.resolve(&glyph(3), Ok(mask(10, 40))).unwrap();
    assert_eq!(fits.rect, PixelRect { x0: 0, y0: 60, x1: 10, y1: 100 });
}

#[test]
fn failed_rasterization_is_passed_on() {
    let mut cache = AtlasCache::new(100, 100);
    let failed = cache.lookup_or_insert(&glyph(1), || Err(AtlasError::RasterizationFailed));
    assert_eq!(failed, Err(AtlasError::RasterizationFailed));
    assert_eq!(cache.lookup(&glyph(1)), None);
    let later = cache.lookup_or_insert(&glyph(1), || Ok(mask(5, 5)));
    assert_eq!(later.unwrap().rect, PixelRect { x0: 0, y0: 0, x1: 5, y1: 5 });
}

#[test]
fn entries_keep_what_the_rasterizer_said() {
    let mut cache = AtlasCache::new(64, 64);
    let bitmap = Bitmap { width: 8, height: 9, left: -2, top: 11, content: Content::Color };
    let entry = cache.resolve(&glyph(1), Ok(bitmap)).unwrap();
    assert_eq!(
        entry,
        AtlasEntry {
            rect: PixelRect { x0: 0, y0: 0, x1: 8, y1: 9 },
            left: -2,
            top: 11,
            content: Content::Color,
        }
    );
}

#[test]
fn entries_do_not_overlap() {
    let mut cache = AtlasCache::new(50, 200);
    let sizes = [(10, 20), (30, 20), (15, 20), (10, 30), (45, 20), (3, 30), (20, 5)];
    let mut rects: Vec<PixelRect> = Vec::new();
    for (i, (w, h)) in sizes.iter().enumerate() {
        let entry = cache.resolve(&glyph(i as u32 + 1), Ok(mask(*w, *h))).unwrap();
        rects.push(entry.rect);
    }
    for i in 0..rects.len() {
        for j in 0..i {
            let (a, b) = (rects[i], rects[j]);
            let apart = a.x1 <= b.x0 || b.x1 <= a.x0 || a.y1 <= b.y0 || b.y1 <= a.y0;
            assert!(apart, "{:?} and {:?} overlap", a, b);
        }
    }
}

#[test]
fn keys_differ_in_every_field() {
    let mut cache = AtlasCache::new(100, 100);
    let base = glyph(1);
    let other_offset = AtlasKey::Glyph {
        font_id: 7,
        glyph_id: 1,
        font_size: 14,
        subpx_x: SubpixelOffset::Half,
        subpx_y: SubpixelOffset::Zero,
    };
    let other_size = AtlasKey::Glyph {
        font_id: 7,
        glyph_id: 1,
        font_size: 15,
        subpx_x: SubpixelOffset::Zero,
        subpx_y: SubpixelOffset::Zero,
    };
    let a = cache.resolve(&base, Ok(mask(10, 10))).unwrap();
    let b = cache.resolve(&other_offset, Ok(mask(10, 10))).unwrap();
    let c = cache.resolve(&other_size, Ok(mask(10, 10))).unwrap();
    assert_ne!(a.rect, b.rect);
    assert_ne!(b.rect, c.rect);
    assert_eq!(cache.lookup(&base), Some(a));
    assert_eq!(cache.lookup(&other_offset), Some(b));
    assert_eq!(cache.lookup(&other_size), Some(c));
    assert_eq!(base.packed(), (1, 7, (1u64 << 32) + 14, 0, 0, 0));
    assert_eq!(other_offset.packed(), (1, 7, (1u64 << 32) + 14, 8, 0, 0));
}

/// The shelf rule written out over a plain vector of rows, to hold the cache to.
struct PlainShelves {
    width: u32,
    height: u32,
    rows: Vec<(u32, u32, u32)>,
}

impl PlainShelves {
    fn place(&mut self, w: u32, h: u32) -> Option<PixelRect> {
        for row in self.rows.iter_mut().rev() {
            let (y, height, width) = *row;
            if height == h && width <= self.width && self.width - width >= w {
                row.2 = width + w;
                return Some(PixelRect { x0: width, y0: y, x1: width + w, y1: y + h });
            }
        }
        let y = self.rows.last().map(|(y, height, _)| y + height).unwrap_or(0);
        if (self.height as u64) < y as u64 + h as u64 {
            return None;
        }
        self.rows.push((y, h, w));
        Some(PixelRect { x0: 0, y0: y, x1: w, y1: y + h })
    }
}

#[test]
fn many_insertions_follow_the_shelf_rule() {
    let mut cache = AtlasCache::new(256, 512);
    let mut plain = PlainShelves { width: 256, height: 512, rows: Vec::new() };
    let mut seed: u64 = 0x2545f4914f6cdd1d;
    let mut placed: Vec<(AtlasKey, PixelRect)> = Vec::new();
    for i in 0..600u32 {
        seed = seed.wrapping_mul(6364136223846793005).wrapping_add(1442695040888963407);
        let w = ((seed >> 33) % 70) as u32;
        let h = 4 * (((seed >> 45) % 9) as u32);
        let key = glyph(i + 1);
        let expected = plain.place(w, h);
        let answer = cache.resolve(&key, Ok(mask(w, h)));
        match expected {
            Some(rect) => {
                assert_eq!(answer.map(|e| e.rect), Ok(rect), "insertion {}", i);
                placed.push((key, rect));
            }
            None => assert_eq!(answer, Err(AtlasError::OutOfSpace), "insertion {}", i),
        }
    }
    assert!(placed.len() > 100);
    for (key, rect) in &placed {
        assert_eq!(cache.lookup(key).map(|e| e.rect), Some(*rect));
    }
    for (i, (_, a)) in placed.iter().enumerate() {
        for (_, b) in &placed[..i] {
            let apart = a.x1 <= b.x0 || b.x1 <= a.x0 || a.y1 <= b.y0 || b.y1 <= a.y0;
            assert!(apart, "{:?} and {:?} overlap", a, b);
        }
    }
}

#[test]
fn bitmap_wider_than_the_atlas_gets_a_shelf_of_its_own() {
    let mut cache = AtlasCache::new(100, 100);
    let wide = cache.resolve(&glyph(1), Ok(mask(150, 10))).unwrap();
    assert_eq!(wide.rect, PixelRect { x0: 0, y0: 0, x1: 150, y1: 10 });
    let next = cache.resolve(&glyph(2), Ok(mask(10, 10))).unwrap();
    assert_eq!(next.rect, PixelRect { x0: 0, y0: 10, x1: 10, y1: 20 });
}

#[test]
fn empty_bitmaps_take_no_room() {
    let mut cache = AtlasCache::new(100, 100);
    let a = cache.resolve(&glyph(1), Ok(mask(0, 0))).unwrap();
    let b = cache.resolve(&glyph(2), Ok(mask(0, 0))).unwrap();
    let c = cache.resolve(&glyph(3), Ok(mask(10, 0))).unwrap();
    let d = cache.resolve(&glyph(4), Ok(mask(10, 100))).unwrap();
    assert_eq!(a.rect, PixelRect { x0: 0, y0: 0, x1: 0, y1: 0 });
    assert_eq!(b.rect, PixelRect { x0: 0, y0: 0, x1: 0, y1: 0 });
    assert_eq!(c.rect, PixelRect { x0: 0, y0: 0, x1: 10, y1: 0 });
    assert_eq!(d.rect, PixelRect { x0: 0, y0: 0, x1: 10, y1: 100 });
}
