use piet_wgpu::fixed::{checked_times, floor, half, round};
use piet_wgpu::geometry::{format_color, Color, Rect};
use piet_wgpu::subpixel::SubpixelOffset;
use piet_wgpu::transform::Affine;

const ONE: i64 = 65536;

#[test]
fn identity_is_neutral() {
    let t = Affine { a: 3 * ONE, b: -ONE / 2, c: 7, d: ONE, e: 12345, f: -98765 };
    assert_eq!(Affine::new().compose(&t), Some(t));
    assert_eq!(t.compose(&Affine::new()), Some(t));
    assert_eq!(Affine::new().as_coeffs(), [ONE, 0, 0, ONE, 0, 0]);
}

#[test]
fn composition_applies_the_second_map_first() {
    let scale = Affine { a: 2 * ONE, b: 0, c: 0, d: 3 * ONE, e: 0, f: 0 };
    let shift = Affine::translate(5 * ONE, 7 * ONE);
    assert_eq!(
        scale.compose(&shift),
        Some(Affine { a: 2 * ONE, b: 0, c: 0, d: 3 * ONE, e: 10 * ONE, f: 21 * ONE })
    );
    assert_eq!(
        shift.compose(&scale),
        Some(Affine { a: 2 * ONE, b: 0, c: 0, d: 3 * ONE, e: 5 * ONE, f: 7 * ONE })
    );
    let quarter_turn = Affine { a: 0, b: ONE, c: -ONE, d: 0, e: 0, f: 0 };
    assert_eq!(
        quarter_turn.compose(&quarter_turn),
        Some(Affine { a: -ONE, b: 0, c: 0, d: -ONE, e: 0, f: 0 })
    );
}

#[test]
fn composition_that_cannot_be_held_is_none() {
    let big = Affine { a: i64::MAX, b: 0, c: 0, d: ONE, e: 0, f: 0 };
    assert_eq!(big.compose(&big), None);
    assert_eq!(Affine::translate(i64::MAX, 0).compose(&Affine::translate(1, 0)), None);
    assert_eq!(
        Affine::translate(i64::MIN, 0).compose(&Affine::translate(i64::MAX, 0)),
        Some(Affine::translate(-1, 0))
    );
}

#[test]
fn products_round_down() {
    assert_eq!(checked_times(3 * ONE, ONE / 2), Some(3 * ONE / 2));
    assert_eq!(checked_times(1, 1), Some(0));
    assert_eq!(checked_times(-1, 1), Some(-1));
    assert_eq!(checked_times(ONE, -7), Some(-7));
    assert_eq!(checked_times(i64::MAX, 2 * ONE), None);
    assert_eq!(checked_times(i64::MIN, ONE), Some(i64::MIN));
    assert_eq!(checked_times(i64::MIN, -ONE), None);
}

#[test]
fn rounding_of_fixed_point_numbers() {
    assert_eq!(floor(5 * ONE + 1), 5 * ONE);
    assert_eq!(floor(-1), -ONE);
    assert_eq!(floor(-ONE), -ONE);
    assert_eq!(round(ONE / 2), Some(ONE));
    assert_eq!(round(ONE / 2 - 1), Some(0));
    assert_eq!(round(-ONE / 2), Some(-ONE));
    assert_eq!(round(-ONE / 2 + 1), Some(0));
    assert_eq!(round(i64::MAX), None);
    assert_eq!(half(7), 3);
    assert_eq!(half(-7), -4);
}

#[test]
fn rectangles() {
    let r = Rect { x0: 10, y0: 20, x1: 30, y1: 40 };
    assert_eq!(r.translate(5, -5), Some(Rect { x0: 15, y0: 15, x1: 35, y1: 35 }));
    assert_eq!(r.translate(i64::MAX, 0), None);
    assert_eq!(r.inflate(3, 4), Some(Rect { x0: 7, y0: 16, x1: 33, y1: 44 }));
    assert_eq!(r.inflate(-10, -10), Some(Rect { x0: 20, y0: 30, x1: 20, y1: 30 }));
    assert_eq!(r.inflate(i64::MAX, 0), None);
    assert_eq!(r.width(), Some(20));
    assert_eq!(r.height(), Some(20));
    assert_eq!(Rect { x0: i64::MIN, y0: 0, x1: i64::MAX, y1: 0 }.width(), None);
    let other = Rect { x0: 25, y0: 0, x1: 100, y1: 25 };
    assert_eq!(r.intersect(&other), Rect { x0: 25, y0: 20, x1: 30, y1: 25 });
    let apart = Rect { x0: 50, y0: 50, x1: 60, y1: 60 };
    assert_eq!(r.intersect(&apart), Rect { x0: 50, y0: 50, x1: 50, y1: 50 });
}

#[test]
fn colours() {
    assert_eq!(format_color(&Color::rgba8(1, 2, 3, 4)), [1, 2, 3, 4]);
    assert_eq!(Color::rgb8(9, 8, 7), Color { r: 9, g: 8, b: 7, a: 255 });
}

#[test]
fn subpixel_offsets_follow_the_eighths() {
    let eighth = ONE / 8;
    assert_eq!(SubpixelOffset::quantize(0), SubpixelOffset::Zero);
    assert_eq!(SubpixelOffset::quantize(eighth - 1), SubpixelOffset::Zero);
    assert_eq!(SubpixelOffset::quantize(eighth), SubpixelOffset::Quarter);
    assert_eq!(SubpixelOffset::quantize(3 * eighth - 1), SubpixelOffset::Quarter);
    assert_eq!(SubpixelOffset::quantize(3 * eighth), SubpixelOffset::Half);
    assert_eq!(SubpixelOffset::quantize(5 * eighth - 1), SubpixelOffset::Half);
    assert_eq!(SubpixelOffset::quantize(5 * eighth), SubpixelOffset::ThreeQuarters);
    assert_eq!(SubpixelOffset::quantize(7 * eighth - 1), SubpixelOffset::ThreeQuarters);
    assert_eq!(SubpixelOffset::quantize(7 * eighth), SubpixelOffset::Zero);
    assert_eq!(SubpixelOffset::quantize(ONE - 1), SubpixelOffset::Zero);
    assert_eq!(SubpixelOffset::quantize(12 * ONE + 2 * eighth), SubpixelOffset::Quarter);
    // A negative position counts from the whole pixel below it.
    assert_eq!(SubpixelOffset::quantize(-ONE + 4 * eighth), SubpixelOffset::Half);
    assert_eq!(SubpixelOffset::quantize(-1), SubpixelOffset::Zero);
    assert_eq!(SubpixelOffset::quantize(-2 * eighth), SubpixelOffset::ThreeQuarters);
    assert_eq!(SubpixelOffset::default(), SubpixelOffset::Zero);
    assert_eq!(SubpixelOffset::ThreeQuarters.to_quarters(), 3);
    assert_eq!(SubpixelOffset::Half.to_quarters(), 2);
}
