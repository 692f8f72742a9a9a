//! Pictures as plain pixels. A decoded picture has eight or sixteen bits
//! for each channel; a thumbnail has eight.

use vstd::prelude::*;

use crate::limits::{MAX_IMAGE_DIMENSION, MAX_THUMBNAIL_SIZE};

verus! {

/// A colour with an opacity.
#[derive(Debug, Clone, Copy, PartialEq, Eq, Structural)]
pub struct Rgba {
    pub r: u8,
    pub g: u8,
    pub b: u8,
    pub a: u8,
}

/// A picture: rows from top to bottom, four bytes per pixel.
#[derive(Debug, PartialEq, Eq)]
pub struct Canvas {
    pub width: u32,
    pub height: u32,
    pub pixels: Vec<u8>,
}

/// Index of the first byte of a pixel.
pub open spec fn offset(width: int, x: int, y: int) -> int {
    4 * (y * width + x)
}

impl Canvas {
    /// The bytes are those of all pixels.
    pub open spec fn wf(self) -> bool {
        self.pixels@.len() == 4 * (self.width * self.height)
    }

    /// Is there a pixel at this place?
    pub open spec fn inside(self, x: int, y: int) -> bool {
        0 <= x < self.width && 0 <= y < self.height
    }

    /// The pixel at a place.
    pub open spec fn pixel(self, x: int, y: int) -> Rgba {
        let k = offset(self.width as int, x, y);
        Rgba {
            r: self.pixels@[k],
            g: self.pixels@[k + 1],
            b: self.pixels@[k + 2],
            a: self.pixels@[k + 3],
        }
    }

    /// The shorter side.
    pub open spec fn shorter_side(self) -> u32 {
        if self.width <= self.height {
            self.width
        } else {
            self.height
        }
    }
}

/// Two pictures with the same size and the same pixels are the same.
pub proof fn pixels_determine_picture(a: Canvas, b: Canvas)
    requires
        a.wf(),
        b.wf(),
        a.width == b.width,
        a.height == b.height,
        forall|x: int, y: int| a.inside(x, y) ==> #[trigger] a.pixel(x, y) == b.pixel(x, y),
    ensures
        a.pixels@ == b.pixels@,
{
    let w = a.width as int;
    assert forall|k: int| 0 <= k < a.pixels@.len() implies a.pixels@[k] == b.pixels@[k] by {
        let n = k / 4;
        assert(w > 0) by (nonlinear_arith)
            requires
                4 * (w * a.height) > 0,
                w >= 0,
        ;
        let y = n / w;
        let x = n % w;
        vstd::arithmetic::div_mod::lemma_fundamental_div_mod(n, w);
        assert(y * w == w * y) by (nonlinear_arith);
        assert(0 <= y < a.height) by (nonlinear_arith)
            requires
                y == n / w,
                0 <= n < w * a.height,
                w > 0,
        ;
        assert(a.inside(x, y));
        assert(a.pixel(x, y) == b.pixel(x, y));
    }
}

proof fn lemma_offset(width: int, height: int, x: int, y: int)
    requires
        0 <= x < width,
        0 <= y < height,
    ensures
        0 <= y * width + x < width * height,
        0 <= offset(width, x, y),
        offset(width, x, y) + 4 <= 4 * (width * height),
{
    assert(y * width + x < width * height) by (nonlinear_arith)
        requires
            0 <= x < width,
            0 <= y < height,
    ;
    assert(y * width >= 0) by (nonlinear_arith)
        requires
            0 <= x < width,
            0 <= y < height,
    ;
}

proof fn lemma_offsets_differ(width: int, x: int, y: int, i: int, j: int)
    requires
        0 <= x < width,
        0 <= i < width,
        x != i || y != j,
    ensures
        offset(width, x, y) + 4 <= offset(width, i, j) || offset(width, i, j) + 4 <= offset(
            width,
            x,
            y,
        ),
{
    if y < j {
        assert(y * width + x < j * width + i) by (nonlinear_arith)
            requires
                0 <= x < width,
                0 <= i < width,
                y < j,
        ;
    } else if j < y {
        assert(j * width + i < y * width + x) by (nonlinear_arith)
            requires
                0 <= x < width,
                0 <= i < width,
                j < y,
        ;
    }
}

impl Canvas {
    /// A picture of this size from its bytes, if there are enough of
    /// them. Further bytes are dropped.
    pub fn from_raw(width: u32, height: u32, pixels: Vec<u8>) -> (canvas: Option<Canvas>)
        ensures
            match canvas {
                Some(canvas) => {
                    &&& canvas.wf()
                    &&& canvas.width == width
                    &&& canvas.height == height
                    &&& 4 * (width * height) <= pixels@.len()
                    &&& canvas.pixels@ == pixels@.take(4 * (width * height))
                },
                None => 4 * (width * height) > pixels@.len(),
            },
    {
        proof {
            assert(width * height <= 0xffff_ffff * 0xffff_ffff) by (nonlinear_arith)
                requires
                    width <= 0xffff_ffff,
                    height <= 0xffff_ffff,
            ;
            assert(width * height >= 0) by (nonlinear_arith);
        }
        let needed: u128 = 4 * (width as u128 * height as u128);
        if needed > pixels.len() as u128 {
            return None;
        }
        let mut pixels = pixels;
        pixels.truncate(needed as usize);
        Some(Canvas { width, height, pixels })
    }

    /// The pixel at a place.
    pub fn get_pixel(&self, x: u32, y: u32) -> (color: Rgba)
        requires
            self.wf(),
            self.inside(x as int, y as int),
        ensures
            color == self.pixel(x as int, y as int),
    {
        proof {
            lemma_offset(self.width as int, self.height as int, x as int, y as int);
            assert(self.pixels.len() == self.pixels@.len());
        }
        let k: usize = 4 * (y as usize * self.width as usize + x as usize);
        Rgba {
            r: self.pixels[k],
            g: self.pixels[k + 1],
            b: self.pixels[k + 2],
            a: self.pixels[k + 3],
        }
    }

    /// Sets the pixel at a place and no other.
    pub fn put_pixel(&mut self, x: u32, y: u32, color: Rgba)
        requires
            old(self).wf(),
            old(self).inside(x as int, y as int),
        ensures
            final(self).wf(),
            final(self).width == old(self).width,
            final(self).height == old(self).height,
            final(self).pixel(x as int, y as int) == color,
            forall|i: int, j: int|
                old(self).inside(i, j) && (i != x || j != y) ==> #[trigger] final(self).pixel(i, j)
                    == old(self).pixel(i, j),
    {
        let ghost width = self.width as int;
        proof {
            lemma_offset(width, self.height as int, x as int, y as int);
            assert(self.pixels.len() == self.pixels@.len());
        }
        let k: usize = 4 * (y as usize * self.width as usize + x as usize);
        self.pixels.set(k, color.r);
        self.pixels.set(k + 1, color.g);
        self.pixels.set(k + 2, color.b);
        self.pixels.set(k + 3, color.a);
        proof {
            assert forall|i: int, j: int|
                old(self).inside(i, j) && (i != x || j != y) implies #[trigger] self.pixel(i, j)
                == old(self).pixel(i, j) by {
                lemma_offsets_differ(width, x as int, y as int, i, j);
                lemma_offset(width, self.height as int, i, j);
            }
        }
    }
}

/// Channel values of a picture, four for each pixel.
#[derive(Debug, PartialEq, Eq)]
pub enum Samples {
    Eight(Vec<u8>),
    Sixteen(Vec<u16>),
}

impl Samples {
    /// Does each value have sixteen bits?
    pub open spec fn deep(self) -> bool {
        self is Sixteen
    }

    /// The values, as wide as the widest are.
    pub open spec fn values(self) -> Seq<u16> {
        match self {
            Samples::Eight(values) => values@.map_values(|v: u8| v as u16),
            Samples::Sixteen(values) => values@,
        }
    }
}

/// A decoded picture: rows from top to bottom. One with fewer channels is
/// widened to four, which its thumbnail does not show; one whose channels
/// are floating-point numbers is brought to sixteen bits.
#[derive(Debug, PartialEq, Eq)]
pub struct Picture {
    pub width: u32,
    pub height: u32,
    pub samples: Samples,
}

/// Pixels of a picture of the given size after it was resampled to fit
/// into a square with this side and brought to eight bits for each
/// channel. `deep` says that its values have sixteen bits.
pub uninterp spec fn resampled(
    width: u32,
    height: u32,
    deep: bool,
    values: Seq<u16>,
    side: u32,
) -> Seq<u8>;

/// A side of a picture after it was fitted into a square: the longer
/// side becomes the square's, with the factor in double precision, and
/// no side vanishes.
pub open spec fn fitted_side(side_of_picture: u32, longest: u32, side: u32) -> int {
    let scaled = crate::rounding::scaled_round(
        side_of_picture as int,
        side as int,
        longest as int,
    );
    if scaled < 1 {
        1
    } else {
        scaled
    }
}

/// `image::DynamicImage::resize` with equal bounds and the bilinear
/// filter, on a picture with four channels of eight or sixteen bits, and
/// then its conversion to eight bits. The result has the largest size
/// with the same aspect ratio that fits into the square, computed in
/// double precision and rounded; its pixels depend on the arguments
/// alone. What they are is not stated.
#[verifier::external_body]
fn resize_rgba(width: u32, height: u32, samples: Samples, side: u32) -> (resized: (
    u32,
    u32,
    Vec<u8>,
))
    requires
        1 <= width <= MAX_IMAGE_DIMENSION,
        1 <= height <= MAX_IMAGE_DIMENSION,
        samples.values().len() == 4 * (width * height),
        1 <= side <= MAX_THUMBNAIL_SIZE,
    ensures
        resized.0 == fitted_side(
            width,
            if width >= height {
                width
            } else {
                height
            },
            side,
        ),
        resized.1 == fitted_side(
            height,
            if width >= height {
                width
            } else {
                height
            },
            side,
        ),
        resized.2@.len() == 4 * (resized.0 * resized.1),
        resized.2@ == resampled(width, height, samples.deep(), samples.values(), side),
{
    let image = match samples {
        Samples::Eight(values) => image::DynamicImage::ImageRgba8(
            image::ImageBuffer::from_raw(width, height, values).unwrap(),
        ),
        Samples::Sixteen(values) => image::DynamicImage::ImageRgba16(
            image::ImageBuffer::from_raw(width, height, values).unwrap(),
        ),
    };
    let resized = image.resize(side, side, image::imageops::FilterType::Triangle).to_rgba8();
    (resized.width(), resized.height(), resized.into_raw())
}

impl Picture {
    /// Can this picture be fitted into a thumbnail? It has an ordinary
    /// size, and the values are those of all pixels.
    pub open spec fn resizable(self) -> bool {
        &&& 1 <= self.width <= MAX_IMAGE_DIMENSION
        &&& 1 <= self.height <= MAX_IMAGE_DIMENSION
        &&& self.samples.values().len() == 4 * (self.width * self.height)
    }

    /// The longer side.
    pub open spec fn longer_side(self) -> u32 {
        if self.width >= self.height {
            self.width
        } else {
            self.height
        }
    }

    /// Tells whether this picture can be fitted into a thumbnail.
    pub fn can_resize(&self) -> (can: bool)
        ensures
            can == self.resizable(),
    {
        if self.width < 1 || self.width > MAX_IMAGE_DIMENSION || self.height < 1 || self.height
            > MAX_IMAGE_DIMENSION {
            return false;
        }
        proof {
            assert(self.width * self.height <= 32_768 * 32_768) by (nonlinear_arith)
                requires
                    self.width <= 32_768,
                    self.height <= 32_768,
            ;
        }
        let count: usize = match &self.samples {
            Samples::Eight(values) => values.len(),
            Samples::Sixteen(values) => values.len(),
        };
        count as u64 == 4 * (self.width as u64 * self.height as u64)
    }

    /// This picture, fitted into a square. The aspect ratio is kept as
    /// far as whole pixels allow.
    pub fn fit_within(self, side: u32) -> (fitted: Canvas)
        requires
            self.resizable(),
            1 <= side <= MAX_THUMBNAIL_SIZE,
        ensures
            fitted.wf(),
            fitted.width == fitted_side(self.width, self.longer_side(), side),
            fitted.height == fitted_side(self.height, self.longer_side(), side),
            fitted.pixels@ == resampled(
                self.width,
                self.height,
                self.samples.deep(),
                self.samples.values(),
                side,
            ),
    {
        let (width, height, pixels) = resize_rgba(self.width, self.height, self.samples, side);
        Canvas { width, height, pixels }
    }
}

impl Canvas {
    /// This picture as a decoded one.
    pub fn into_picture(self) -> (picture: Picture)
        ensures
            picture.width == self.width,
            picture.height == self.height,
            picture.samples == Samples::Eight(self.pixels),
    {
        Picture { width: self.width, height: self.height, samples: Samples::Eight(self.pixels) }
    }
}

/// A fitted picture lies inside the square and is not empty.
pub proof fn fitted_picture_fits(width: u32, height: u32, longest: u32, side: u32)
    requires
        1 <= width <= longest <= MAX_IMAGE_DIMENSION,
        1 <= height <= longest,
        1 <= side <= MAX_THUMBNAIL_SIZE,
    ensures
        1 <= fitted_side(width, longest, side) <= side,
        1 <= fitted_side(height, longest, side) <= side,
{
    assert(width * side <= side * longest) by (nonlinear_arith)
        requires
            width <= longest,
    ;
    assert(height * side <= side * longest) by (nonlinear_arith)
        requires
            height <= longest,
    ;
    crate::rounding::scaling_respects_bounds(width as int, side as int, longest as int, side as int);
    crate::rounding::scaling_respects_bounds(
        height as int,
        side as int,
        longest as int,
        side as int,
    );
}

/// Where the bytes of a pixel stand: row by row from the top, pixel by
/// pixel from the left, in the order red, green, blue, opacity.
pub proof fn pixels_stand_row_by_row(canvas: Canvas, x: int, y: int)
    ensures
        canvas.pixel(x, y).r == canvas.pixels@[4 * (y * canvas.width + x)],
        canvas.pixel(x, y).g == canvas.pixels@[4 * (y * canvas.width + x) + 1],
        canvas.pixel(x, y).b == canvas.pixels@[4 * (y * canvas.width + x) + 2],
        canvas.pixel(x, y).a == canvas.pixels@[4 * (y * canvas.width + x) + 3],
        canvas.inside(x, y) <==> 0 <= x < canvas.width && 0 <= y < canvas.height,
        canvas.wf() <==> canvas.pixels@.len() == 4 * (canvas.width * canvas.height),
        canvas.shorter_side() <= canvas.width,
        canvas.shorter_side() <= canvas.height,
        canvas.shorter_side() == canvas.width || canvas.shorter_side() == canvas.height,
{
}

/// A picture can be fitted into a thumbnail exactly if neither side is
/// empty or beyond the limit and there are four values for each pixel,
/// whatever their depth. The values of a shallow picture keep their
/// numbers.
pub proof fn resizable_pictures(picture: Picture, k: int)
    ensures
        picture.resizable() <==> {
            &&& 1 <= picture.width <= 32_768
            &&& 1 <= picture.height <= 32_768
            &&& match picture.samples {
                Samples::Eight(values) => values@.len() == 4 * (picture.width * picture.height),
                Samples::Sixteen(values) => values@.len() == 4 * (picture.width * picture.height),
            }
        },
        picture.samples.deep() <==> picture.samples is Sixteen,
        picture.samples matches Samples::Eight(values) ==> 0 <= k < values@.len()
            ==> picture.samples.values()[k] == values@[k],
        picture.samples matches Samples::Sixteen(values) ==> picture.samples.values() == values@,
        picture.longer_side() >= picture.width,
        picture.longer_side() >= picture.height,
        picture.longer_side() == picture.width || picture.longer_side() == picture.height,
{
}

/// Fitting scales both sides by the factor that takes the longer side to
/// the square's, up or down, and rounds, but for an error of one
/// thousandth of a pixel; no side vanishes.
pub proof fn fitting_scales_to_the_square(side_of_picture: u32, longest: u32, side: u32)
    requires
        1 <= side_of_picture <= longest <= MAX_IMAGE_DIMENSION,
        1 <= side <= MAX_THUMBNAIL_SIZE,
    ensures
        ({
            let fitted = fitted_side(side_of_picture, longest, side);
            &&& 1 <= fitted <= side
            &&& side_of_picture == longest ==> fitted == side
            &&& fitted > 1 ==> 2000 * (fitted * longest) <= 2000 * (side_of_picture * side) + 1002
                * longest
            &&& 2000 * (fitted * longest) > 2000 * (side_of_picture * side) - 1002 * longest
        }),
{
    let p = side_of_picture as int;
    let l = longest as int;
    let s = side as int;
    fitted_picture_fits(side_of_picture, side_of_picture, longest, side);
    assert(p * s <= 0x8000_0000 * l) by (nonlinear_arith)
        requires
            1 <= p <= l,
            1 <= s <= 2560,
    ;
    crate::rounding::scaling_is_close(p, s, l);
    let r = crate::rounding::scaled_round(p, s, l);
    if r < 1 {
        assert(1 * l >= r * l) by (nonlinear_arith)
            requires
                r < 1,
                l >= 1,
        ;
    }
    if p == l {
        assert(2000 * r <= 2000 * s + 1002) by (nonlinear_arith)
            requires
                l >= 1,
                2000 * (r * l) <= 2000 * (l * s) + 1002 * l,
        ;
        assert(2000 * r > 2000 * s - 1002) by (nonlinear_arith)
            requires
                l >= 1,
                2000 * (r * l) > 2000 * (l * s) - 1002 * l,
        ;
    }
}

} // verus!
