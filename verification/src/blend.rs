//! Laying a colour over a pixel by a fractional coverage.
//!
//! Coverages are single-precision numbers, handed over as their bits.
//! The arithmetic is that of single precision too, done on integers.

use vstd::prelude::*;

use crate::canvas::{Canvas, Rgba};
use crate::overlay::ChipPlace;
use crate::rounding::{round_bits, SINGLE};

verus! {

/// Is this the pattern of a number, and not of an undefined result?
pub open spec fn is_number(bits: u32) -> bool {
    bits % 0x8000_0000 <= 0x7f80_0000
}

/// A coverage as a numerator and the logarithm of its denominator. What
/// is below zero counts as zero, what is above one counts as one.
pub open spec fn coverage_parts(bits: u32) -> (int, nat) {
    let exponent = bits / 0x80_0000 % 0x100;
    let fraction = bits as int % 0x80_0000;
    if bits >= 0x8000_0000 {
        (0, 24)
    } else if exponent >= 127 {
        (0x100_0000, 24)
    } else if exponent == 0 {
        (fraction, 149)
    } else {
        (0x80_0000 + fraction, (150 - exponent) as nat)
    }
}

/// `d * (1 - c) + s * c` for `c == m / scale`, where every operation is
/// rounded to single precision, as a multiple of one over `scale`.
pub open spec fn mixture(d: int, s: int, m: int, scale: int) -> int {
    let rest = crate::rounding::rounded(scale - m, SINGLE as int);
    let old = crate::rounding::rounded(d * rest, SINGLE as int);
    let new = crate::rounding::rounded(s * m, SINGLE as int);
    crate::rounding::rounded(old + new, SINGLE as int)
}

/// A channel of a pixel after a colour's channel was laid over it: the
/// mixture, rounded with halfway cases going up. An undefined coverage
/// gives an undefined mixture, which counts as zero.
pub open spec fn mixed(d: u8, s: u8, bits: u32) -> int {
    if is_number(bits) {
        let (m, k) = coverage_parts(bits);
        let scale = vstd::arithmetic::power2::pow2(k) as int;
        (2 * mixture(d as int, s as int, m, scale) + scale) / (2 * scale)
    } else {
        0
    }
}

/// A pixel after a colour was laid over it, always opaque.
pub open spec fn blended(dst: Rgba, src: Rgba, bits: u32) -> Rgba {
    Rgba {
        r: mixed(dst.r, src.r, bits) as u8,
        g: mixed(dst.g, src.g, bits) as u8,
        b: mixed(dst.b, src.b, bits) as u8,
        a: 255,
    }
}

/// A mixture lies between the two values, but for a rounding error.
proof fn lemma_mixture(d: int, s: int, m: int, scale: int)
    requires
        0 <= d <= 255,
        0 <= s <= 255,
        0 <= m <= scale,
        0x100_0000 <= scale,
    ensures
        0 <= mixture(d, s, m, scale),
        d * (scale - m) + s * m - scale / 0x1000 <= mixture(d, s, m, scale),
        mixture(d, s, m, scale) <= d * (scale - m) + s * m + scale / 0x1000,
{
    let rest = crate::rounding::rounded(scale - m, SINGLE as int);
    let old = crate::rounding::rounded(d * rest, SINGLE as int);
    let new = crate::rounding::rounded(s * m, SINGLE as int);
    crate::rounding::rounding_is_close(scale - m, SINGLE as int);
    assert(0 <= rest <= 2 * scale);
    assert(0 <= d * rest <= 255 * (2 * scale)) by (nonlinear_arith)
        requires
            0 <= d <= 255,
            0 <= rest <= 2 * scale,
    ;
    assert(0 <= s * m <= 255 * scale) by (nonlinear_arith)
        requires
            0 <= s <= 255,
            0 <= m <= scale,
    ;
    crate::rounding::rounding_is_close(d * rest, SINGLE as int);
    crate::rounding::rounding_is_close(s * m, SINGLE as int);
    crate::rounding::rounding_is_close(old + new, SINGLE as int);
    assert(-(255 * scale) <= (d * rest - d * (scale - m)) * 0x100_0000 <= 255 * scale)
        by (nonlinear_arith)
        requires
            0 <= d <= 255,
            0 <= m <= scale,
            (scale - m) * 0xff_ffff <= rest * 0x100_0000 <= (scale - m) * 0x100_0001,
    ;
}

proof fn lemma_coverage_parts(bits: u32)
    ensures
        ({
            let (m, k) = coverage_parts(bits);
            &&& 24 <= k <= 149
            &&& 0 <= m <= 0x100_0000
            &&& k > 24 ==> m < 0x100_0000
            &&& vstd::arithmetic::power2::pow2(k) >= 0x100_0000
            &&& k == 24 ==> vstd::arithmetic::power2::pow2(k) == 0x100_0000
            &&& k > 64 ==> vstd::arithmetic::power2::pow2(k) >= 0x1_0000_0000_0000_0000
        }),
{
    let (m, k) = coverage_parts(bits);
    vstd::arithmetic::power2::lemma2_to64();
    vstd::arithmetic::power2::lemma2_to64_rest();
    if k > 24 {
        vstd::arithmetic::power2::lemma_pow2_strictly_increases(24, k);
    }
    if k > 64 {
        vstd::arithmetic::power2::lemma_pow2_strictly_increases(64, k);
    }
}

/// A channel after blending lies between what it was and what was laid
/// over it. Without coverage it stays, with full coverage it is
/// replaced, and a coverage too small to matter leaves it.
pub proof fn blending_stays_between(d: u8, s: u8, bits: u32)
    requires
        is_number(bits),
    ensures
        d <= s ==> d <= mixed(d, s, bits) <= s,
        s <= d ==> s <= mixed(d, s, bits) <= d,
        coverage_parts(bits).0 == 0 ==> mixed(d, s, bits) == d,
        coverage_parts(bits) == (0x100_0000int, 24nat) ==> mixed(d, s, bits) == s,
        coverage_parts(bits).1 > 64 ==> mixed(d, s, bits) == d,
{
    let (m, k) = coverage_parts(bits);
    let scale = vstd::arithmetic::power2::pow2(k) as int;
    lemma_coverage_parts(bits);
    let x = mixture(d as int, s as int, m, scale);
    lemma_mixture(d as int, s as int, m, scale);
    let lo = if d <= s {
        d as int
    } else {
        s as int
    };
    let hi = if d <= s {
        s as int
    } else {
        d as int
    };
    assert(lo * scale <= d * (scale - m) + s * m <= hi * scale) by (nonlinear_arith)
        requires
            0 <= m <= scale,
            lo <= d <= hi,
            lo <= s <= hi,
    ;
    lemma_rounds_to(x, scale, lo, hi);
    if k > 64 || m == 0 {
        assert(-(scale / 0x1000) <= d * (scale - m) + s * m - d * scale <= scale / 0x1000)
            by (nonlinear_arith)
            requires
                0 <= d <= 255,
                0 <= s <= 255,
                m == 0 || (0 <= m <= 0x100_0000 && scale >= 0x1_0000_0000_0000_0000),
                scale >= 0x100_0000,
        ;
        lemma_rounds_to(x, scale, d as int, d as int);
    }
    if m == scale {
        assert(d * (scale - m) + s * m == s * scale) by (nonlinear_arith)
            requires
                m == scale,
        ;
        lemma_rounds_to(x, scale, s as int, s as int);
    }
}

proof fn lemma_rounds_to(x: int, scale: int, lo: int, hi: int)
    requires
        scale >= 0x100_0000,
        lo * scale - scale / 0x800 <= x <= hi * scale + scale / 0x800,
    ensures
        lo <= (2 * x + scale) / (2 * scale) <= hi,
{
    let n = 2 * x + scale;
    assert(n < 2 * scale * (hi + 1)) by (nonlinear_arith)
        requires
            n == 2 * x + scale,
            x <= hi * scale + scale / 0x800,
            scale >= 0x100_0000,
    ;
    assert(n >= 2 * scale * lo) by (nonlinear_arith)
        requires
            n == 2 * x + scale,
            x >= lo * scale - scale / 0x800,
            scale >= 0x100_0000,
    ;
    let w = 2 * scale;
    assert(lo <= n / w <= hi) by (nonlinear_arith)
        requires
            w > 0,
            w * lo <= n < w * (hi + 1),
    ;
}

fn mix(d: u8, s: u8, bits: u32) -> (channel: u8)
    ensures
        channel == mixed(d, s, bits),
{
    if bits % 0x8000_0000 > 0x7f80_0000 {
        return 0;
    }
    let exponent: u32 = bits / 0x80_0000 % 0x100;
    let fraction: u32 = bits % 0x80_0000;
    let (m, k): (u32, u32) = if bits >= 0x8000_0000 {
        (0, 24)
    } else if exponent >= 127 {
        (0x100_0000, 24)
    } else if exponent == 0 {
        (fraction, 149)
    } else {
        (0x80_0000 + fraction, 150 - exponent)
    };
    proof {
        lemma_coverage_parts(bits);
        blending_stays_between(d, s, bits);
    }
    if k > 64 {
        return d;
    }
    let mut scale: u128 = 1;
    let mut i: u32 = 0;
    proof {
        vstd::arithmetic::power2::lemma2_to64();
        vstd::arithmetic::power2::lemma2_to64_rest();
    }
    while i < k
        invariant
            i <= k <= 64,
            scale == vstd::arithmetic::power2::pow2(i as nat),
            vstd::arithmetic::power2::pow2(64) == 0x1_0000_0000_0000_0000,
        decreases k - i,
    {
        proof {
            vstd::arithmetic::power2::lemma_pow2_unfold((i + 1) as nat);
            if i < 63 {
                vstd::arithmetic::power2::lemma_pow2_strictly_increases((i + 1) as nat, 64);
            }
        }
        scale = scale * 2;
        i += 1;
    }
    proof {
        if k < 64 {
            vstd::arithmetic::power2::lemma_pow2_strictly_increases(k as nat, 64);
        }
        crate::rounding::rounding_error_is_small(scale - m, SINGLE as int);
    }
    let rest: u128 = round_bits(scale - m as u128, SINGLE);
    proof {
        assert(d * rest <= 255 * 0x2_0000_0000_0000_0000) by (nonlinear_arith)
            requires
                d <= 255,
                0 <= rest <= 0x2_0000_0000_0000_0000,
        ;
        assert(s * m <= 255 * 0x100_0000) by (nonlinear_arith)
            requires
                s <= 255,
                0 <= m <= 0x100_0000,
        ;
        crate::rounding::rounding_error_is_small(d * rest, SINGLE as int);
        crate::rounding::rounding_error_is_small(s * m, SINGLE as int);
    }
    let old: u128 = round_bits(d as u128 * rest, SINGLE);
    let new: u128 = round_bits(s as u128 * m as u128, SINGLE);
    proof {
        crate::rounding::rounding_error_is_small(old + new, SINGLE as int);
    }
    let sum: u128 = round_bits(old + new, SINGLE);
    ((2 * sum + scale) / (2 * scale)) as u8
}

/// Lays a colour over a pixel. With an undefined coverage the pixel
/// becomes black.
pub fn blend(dst: Rgba, src: Rgba, coverage: u32) -> (result: Rgba)
    ensures
        result == blended(dst, src, coverage),
{
    Rgba {
        r: mix(dst.r, src.r, coverage),
        g: mix(dst.g, src.g, coverage),
        b: mix(dst.b, src.b, coverage),
        a: 255,
    }
}

/// How much of a pixel the label's chip covers: the whole shape, and its
/// inner part without the outline, each as its bits.
#[derive(Debug, Clone, Copy, PartialEq, Eq, Structural)]
pub struct ChipCoverage {
    pub shape: u32,
    pub fill: u32,
}

/// Is a coverage more than zero, or undefined?
pub open spec fn covers(bits: u32) -> bool {
    0 < bits < 0x8000_0000 || !is_number(bits)
}

/// A pixel after the chip was painted over it: the outline's colour over
/// the whole shape, then the fill over its inner part. Pixels outside
/// the shape stay as they are.
pub open spec fn chip_pixel(dst: Rgba, outline: Rgba, fill: Rgba, coverage: ChipCoverage) -> Rgba {
    if covers(coverage.shape) {
        blended(blended(dst, outline, coverage.shape), fill, coverage.fill)
    } else {
        dst
    }
}

/// Is this pixel in the chip's place?
pub open spec fn in_place(place: ChipPlace, x: int, y: int) -> bool {
    place.x <= x < place.x_end && place.y <= y < place.y_end
}

/// Does the chip's place lie in the picture?
pub open spec fn place_fits(place: ChipPlace, img: Canvas) -> bool {
    &&& place.x <= place.x_end <= img.width
    &&& place.y <= place.y_end <= img.height
}

/// Index of a pixel in the list of the chip's coverages, which goes row
/// by row.
pub open spec fn chip_index(place: ChipPlace, x: int, y: int) -> int {
    (y - place.y) * (place.x_end - place.x) + (x - place.x)
}

proof fn lemma_chip_index(place: ChipPlace, x: int, y: int)
    requires
        in_place(place, x, y),
    ensures
        0 <= chip_index(place, x, y) < (place.y_end - place.y) * (place.x_end - place.x),
{
    let w = place.x_end - place.x;
    let h = place.y_end - place.y;
    let i = x - place.x;
    let j = y - place.y;
    assert(0 <= j * w + i < h * w) by (nonlinear_arith)
        requires
            0 <= i < w,
            0 <= j < h,
    ;
}

/// Paints the label's chip. `coverage` holds the coverage of every pixel
/// in the chip's place, row by row.
pub fn paint_chip(
    img: &mut Canvas,
    place: ChipPlace,
    outline: Rgba,
    fill: Rgba,
    coverage: &[ChipCoverage],
)
    requires
        old(img).wf(),
        place_fits(place, *old(img)),
        coverage@.len() == (place.y_end - place.y) * (place.x_end - place.x),
    ensures
        final(img).wf(),
        final(img).width == old(img).width,
        final(img).height == old(img).height,
        forall|x: int, y: int|
            old(img).inside(x, y) ==> #[trigger] final(img).pixel(x, y) == if in_place(place, x, y) {
                chip_pixel(
                    old(img).pixel(x, y),
                    outline,
                    fill,
                    coverage@[chip_index(place, x, y)],
                )
            } else {
                old(img).pixel(x, y)
            },
{
    let ghost before = *img;
    let mut y: u32 = place.y;
    let mut k: usize = 0;
    proof {
        assert((place.y - place.y) * (place.x_end - place.x) == 0) by (nonlinear_arith);
    }
    while y < place.y_end
        invariant
            img.wf(),
            before.wf(),
            img.width == before.width,
            img.height == before.height,
            place_fits(place, before),
            place.y <= y <= place.y_end,
            k == (y - place.y) * (place.x_end - place.x),
            coverage@.len() == (place.y_end - place.y) * (place.x_end - place.x),
            forall|i: int, j: int|
                before.inside(i, j) ==> #[trigger] img.pixel(i, j) == if in_place(place, i, j) && j
                    < y {
                    chip_pixel(
                        before.pixel(i, j),
                        outline,
                        fill,
                        coverage@[chip_index(place, i, j)],
                    )
                } else {
                    before.pixel(i, j)
                },
        decreases place.y_end - y,
    {
        let mut x: u32 = place.x;
        while x < place.x_end
            invariant
                img.wf(),
                before.wf(),
                img.width == before.width,
                img.height == before.height,
                place_fits(place, before),
                place.y <= y < place.y_end,
                place.x <= x <= place.x_end,
                k == (y - place.y) * (place.x_end - place.x) + (x - place.x),
                coverage@.len() == (place.y_end - place.y) * (place.x_end - place.x),
                forall|i: int, j: int|
                    before.inside(i, j) ==> #[trigger] img.pixel(i, j) == if in_place(place, i, j)
                        && (j < y || (j == y && i < x)) {
                        chip_pixel(
                            before.pixel(i, j),
                            outline,
                            fill,
                            coverage@[chip_index(place, i, j)],
                        )
                    } else {
                        before.pixel(i, j)
                    },
            decreases place.x_end - x,
        {
            proof {
                lemma_chip_index(place, x as int, y as int);
            }
            let c = coverage[k];
            if (0 < c.shape && c.shape < 0x8000_0000) || c.shape % 0x8000_0000 > 0x7f80_0000 {
                let dst = img.get_pixel(x, y);
                let outlined = blend(dst, outline, c.shape);
                img.put_pixel(x, y, blend(outlined, fill, c.fill));
            }
            x += 1;
            k += 1;
        }
        y += 1;
        proof {
            assert((y - place.y) * (place.x_end - place.x) == (y - 1 - place.y) * (place.x_end
                - place.x) + (place.x_end - place.x)) by (nonlinear_arith);
        }
    }
}

/// A pixel of a glyph: its place, which may lie outside of the picture,
/// and the bits of its coverage.
#[derive(Debug, Clone, Copy, PartialEq, Eq, Structural)]
pub struct GlyphPixel {
    pub x: i64,
    pub y: i64,
    pub coverage: u32,
}

/// A pixel after all of these glyph pixels were painted, in order.
pub open spec fn painted(dst: Rgba, color: Rgba, pixels: Seq<GlyphPixel>, x: int, y: int) -> Rgba
    decreases pixels.len(),
{
    if pixels.len() == 0 {
        dst
    } else {
        let before = painted(dst, color, pixels.drop_last(), x, y);
        let last = pixels.last();
        if last.x == x && last.y == y {
            blended(before, color, last.coverage)
        } else {
            before
        }
    }
}

/// Paints the pixels of glyphs. Those outside of the picture are left
/// out.
pub fn paint_glyphs(img: &mut Canvas, color: Rgba, pixels: &[GlyphPixel])
    requires
        old(img).wf(),
    ensures
        final(img).wf(),
        final(img).width == old(img).width,
        final(img).height == old(img).height,
        forall|x: int, y: int|
            old(img).inside(x, y) ==> #[trigger] final(img).pixel(x, y) == painted(
                old(img).pixel(x, y),
                color,
                pixels@,
                x,
                y,
            ),
{
    let ghost before = *img;
    let mut k: usize = 0;
    while k < pixels.len()
        invariant
            k <= pixels.len(),
            img.wf(),
            img.width == before.width,
            img.height == before.height,
            forall|x: int, y: int|
                before.inside(x, y) ==> #[trigger] img.pixel(x, y) == painted(
                    before.pixel(x, y),
                    color,
                    pixels@.take(k as int),
                    x,
                    y,
                ),
        decreases pixels.len() - k,
    {
        let p = pixels[k];
        proof {
            assert(pixels@.take(k + 1).drop_last() =~= pixels@.take(k as int));
            assert(pixels@.take(k + 1).last() == p);
        }
        if p.x >= 0 && p.y >= 0 && p.x < img.width as i64 && p.y < img.height as i64 {
            let x: u32 = p.x as u32;
            let y: u32 = p.y as u32;
            let dst = img.get_pixel(x, y);
            img.put_pixel(x, y, blend(dst, color, p.coverage));
        }
        k += 1;
    }
    proof {
        assert(pixels@.take(k as int) =~= pixels@);
    }
}

/// An opaque picture stays opaque, however many glyph pixels fall on a
/// place.
pub proof fn painting_keeps_pixels_opaque(
    dst: Rgba,
    color: Rgba,
    pixels: Seq<GlyphPixel>,
    x: int,
    y: int,
)
    requires
        dst.a == 255,
    ensures
        painted(dst, color, pixels, x, y).a == 255,
    decreases pixels.len(),
{
    if pixels.len() > 0 {
        painting_keeps_pixels_opaque(dst, color, pixels.drop_last(), x, y);
    }
}

/// The value of a coverage, given by the exponent and the fraction of its
/// bits, decides the mixture: a channel goes from the old value to the
/// new one in proportion, rounded, but for an error of one thousandth.
pub proof fn blending_is_in_proportion(d: u8, s: u8, exponent: u32, fraction: u32)
    requires
        1 <= exponent <= 126,
        fraction < 0x80_0000,
    ensures
        ({
            let bits = (exponent * 0x80_0000 + fraction) as u32;
            let scale = vstd::arithmetic::power2::pow2((150 - exponent) as nat) as int;
            let m = 0x80_0000 + fraction;
            let exact = d * (scale - m) + s * m;
            let channel = mixed(d, s, bits);
            &&& 2000 * (channel * scale) <= 2000 * exact + 1002 * scale
            &&& 2000 * (channel * scale) > 2000 * exact - 1002 * scale
        }),
{
    let bits = (exponent * 0x80_0000 + fraction) as u32;
    assert(bits / 0x80_0000 % 0x100 == exponent);
    assert(bits % 0x80_0000 == fraction);
    let (m, k) = coverage_parts(bits);
    let scale = vstd::arithmetic::power2::pow2(k) as int;
    lemma_coverage_parts(bits);
    let x = mixture(d as int, s as int, m, scale);
    lemma_mixture(d as int, s as int, m, scale);
    let exact = d * (scale - m) + s * m;
    let r = (2 * x + scale) / (2 * scale);
    assert((2 * scale) * r <= 2 * x + scale < (2 * scale) * (r + 1)) by (nonlinear_arith)
        requires
            scale > 0,
            r == (2 * x + scale) / (2 * scale),
    ;
    assert((2 * scale) * r == 2 * (r * scale)) by (nonlinear_arith);
    assert((2 * scale) * (r + 1) == 2 * (r * scale) + 2 * scale) by (nonlinear_arith);
}

/// A coverage of zero, below zero, or too small for a normal number leaves
/// a channel as it is; one of one or more replaces it; an undefined one
/// turns it to zero.
pub proof fn extreme_coverages(d: u8, s: u8, bits: u32)
    ensures
        bits < 0x80_0000 ==> mixed(d, s, bits) == d,
        0x8000_0000 <= bits <= 0xff80_0000 ==> mixed(d, s, bits) == d,
        0x3f80_0000 <= bits <= 0x7f80_0000 ==> mixed(d, s, bits) == s,
        0x7f80_0000 < bits < 0x8000_0000 || bits > 0xff80_0000 ==> mixed(d, s, bits) == 0,
{
    if is_number(bits) {
        blending_stays_between(d, s, bits);
    }
}

/// The channels are mixed each by itself, and the result is opaque.
pub proof fn pixels_are_blended_by_channel(dst: Rgba, src: Rgba, bits: u32)
    ensures
        blended(dst, src, bits).r == mixed(dst.r, src.r, bits),
        blended(dst, src, bits).g == mixed(dst.g, src.g, bits),
        blended(dst, src, bits).b == mixed(dst.b, src.b, bits),
        blended(dst, src, bits).a == 255,
{
    if is_number(bits) {
        blending_stays_between(dst.r, src.r, bits);
        blending_stays_between(dst.g, src.g, bits);
        blending_stays_between(dst.b, src.b, bits);
    }
}

/// Where the chip's shape covers nothing a pixel stays. Elsewhere the
/// outline's colour is laid over it and then the fill.
pub proof fn chips_are_painted_in_layers(
    dst: Rgba,
    outline: Rgba,
    fill: Rgba,
    shape: u32,
    inner: u32,
)
    ensures
        shape == 0 || 0x8000_0000 <= shape <= 0xff80_0000 ==> chip_pixel(
            dst,
            outline,
            fill,
            ChipCoverage { shape, fill: inner },
        ) == dst,
        0 < shape < 0x8000_0000 || shape > 0xff80_0000 ==> chip_pixel(
            dst,
            outline,
            fill,
            ChipCoverage { shape, fill: inner },
        ) == blended(blended(dst, outline, shape), fill, inner),
{
}

/// The place of a chip and its list of coverages: one for each pixel, row
/// by row.
pub proof fn chip_coverages_go_row_by_row(place: ChipPlace, img: Canvas, i: int, j: int)
    ensures
        in_place(place, place.x + i, place.y + j) <==> 0 <= i < place.x_end - place.x && 0 <= j
            < place.y_end - place.y,
        chip_index(place, place.x + i, place.y + j) == j * (place.x_end - place.x) + i,
        place_fits(place, img) <==> place.x <= place.x_end <= img.width && place.y <= place.y_end
            <= img.height,
{
}

/// Glyph pixels are laid over a place one after the other, those that fall
/// on it and no others.
pub proof fn glyphs_are_painted_in_order(
    dst: Rgba,
    color: Rgba,
    pixels: Seq<GlyphPixel>,
    next: GlyphPixel,
    x: int,
    y: int,
)
    ensures
        painted(dst, color, Seq::empty(), x, y) == dst,
        next.x == x && next.y == y ==> painted(dst, color, pixels.push(next), x, y) == blended(
            painted(dst, color, pixels, x, y),
            color,
            next.coverage,
        ),
        next.x != x || next.y != y ==> painted(dst, color, pixels.push(next), x, y) == painted(
            dst,
            color,
            pixels,
            x,
            y,
        ),
{
    assert(pixels.push(next).drop_last() =~= pixels);
}

} // verus!
