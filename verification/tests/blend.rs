use arcthumb::blend::{blend, paint_chip, paint_glyphs, ChipCoverage, GlyphPixel};
use arcthumb::canvas::{Canvas, Rgba};
use arcthumb::overlay::ChipPlace;

fn gray(v: u8) -> Rgba {
    Rgba { r: v, g: v, b: v, a: 255 }
}

fn mix(d: u8, s: u8, coverage: f32) -> u8 {
    let c = coverage.clamp(0.0, 1.0);
    (d as f32 * (1.0 - c) + s as f32 * c).round() as u8
}

fn solid(w: u32, h: u32, v: u8) -> Canvas {
    Canvas::from_raw(w, h, vec![v; (4 * w * h) as usize]).unwrap()
}

#[test]
fn blending_matches_single_precision() {
    let coverages = [
        0.0f32, -0.0, -3.5, 1.0, 1.5, f32::INFINITY, f32::NAN, -f32::NAN, 0.5, 0.25, 0.1, 0.9, 0.333_333_34, 0.7,
        0.003_921_569, 0.998, 0.999_999_9, 1e-7, 1e-9, 1e-12, 1e-20, 1e-38, 1e-44, 0.501, 0.4999,
    ];
    for c in coverages {
        for d in (0..=255u8).step_by(3) {
            for s in (0..=255u8).step_by(17) {
                let got = blend(gray(d), gray(s), c.to_bits());
                assert_eq!(got, gray(mix(d, s, c)), "{d} {s} {c}");
            }
        }
    }
    let mut c = 0.0f32;
    while c < 1.0 {
        for (d, s) in [(0, 255), (255, 0), (10, 11), (200, 31), (128, 127)] {
            assert_eq!(blend(gray(d), gray(s), c.to_bits()), gray(mix(d, s, c)), "{d} {s} {c}");
        }
        c += 0.000_37;
    }
}

#[test]
fn blending_works_by_channel_and_stays_opaque() {
    let dst = Rgba { r: 0, g: 100, b: 200, a: 17 };
    let src = Rgba { r: 255, g: 100, b: 0, a: 3 };
    assert_eq!(
        blend(dst, src, 0.5f32.to_bits()),
        Rgba { r: 128, g: 100, b: 100, a: 255 }
    );
    assert_eq!(blend(dst, src, 0.0f32.to_bits()), Rgba { a: 255, ..dst });
    assert_eq!(blend(dst, src, 1.0f32.to_bits()), Rgba { a: 255, ..src });
}

#[test]
fn chips_are_painted_in_their_place() {
    let mut img = solid(4, 3, 50);
    let place = ChipPlace { x: 1, y: 1, x_end: 3, y_end: 3 };
    let bits = |shape: f32, fill: f32| ChipCoverage { shape: shape.to_bits(), fill: fill.to_bits() };
    let coverage = [bits(0.0, 1.0), bits(1.0, 0.0), bits(1.0, 1.0), bits(0.5, 0.5)];
    paint_chip(&mut img, place, gray(0), gray(200), &coverage);
    assert_eq!(img.get_pixel(1, 1).r, 50);
    assert_eq!(img.get_pixel(2, 1), gray(0));
    assert_eq!(img.get_pixel(1, 2), gray(200));
    assert_eq!(img.get_pixel(2, 2), gray(mix(mix(50, 0, 0.5), 200, 0.5)));
    for (x, y) in [(0, 0), (3, 0), (0, 2), (3, 2), (1, 0)] {
        assert_eq!(img.get_pixel(x, y).r, 50);
    }
}

#[test]
fn glyph_pixels_outside_are_left_out() {
    let mut img = solid(2, 2, 255);
    let pixel = |x, y, coverage: f32| GlyphPixel { x, y, coverage: coverage.to_bits() };
    paint_glyphs(
        &mut img,
        gray(0),
        &[
            pixel(-1, 0, 1.0),
            pixel(0, 2, 1.0),
            pixel(i64::MAX, 0, 1.0),
            pixel(0, 0, 0.5),
            pixel(0, 0, 0.5),
            pixel(1, 1, 1.0),
        ],
    );
    assert_eq!(img.get_pixel(0, 0), gray(64));
    assert_eq!(img.get_pixel(1, 1), gray(0));
    assert_eq!(img.get_pixel(1, 0), gray(255));
    assert_eq!(img.get_pixel(0, 1), gray(255));
}

#[test]
fn undefined_coverage_paints_black() {
    let nan = f32::NAN.to_bits();
    let black = gray(0);
    assert_eq!(blend(gray(200), gray(90), nan), black);
    assert_eq!(blend(gray(200), gray(90), nan | 0x8000_0000), black);
    let mut img = solid(2, 1, 50);
    let place = ChipPlace { x: 0, y: 0, x_end: 2, y_end: 1 };
    let zero = 0.0f32.to_bits();
    let coverage = [
        ChipCoverage { shape: nan | 0x8000_0000, fill: zero },
        ChipCoverage { shape: zero, fill: nan },
    ];
    paint_chip(&mut img, place, gray(10), gray(20), &coverage);
    assert_eq!(img.get_pixel(0, 0), black);
    assert_eq!(img.get_pixel(1, 0).r, 50);
    paint_glyphs(&mut img, gray(10), &[GlyphPixel { x: 1, y: 0, coverage: nan }]);
    assert_eq!(img.get_pixel(1, 0), black);
}
