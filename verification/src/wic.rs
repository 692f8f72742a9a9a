//! Decoding images with the system's codecs: which sizes are accepted,
//! how far an image is scaled down while it is decoded, and how large
//! the pixel buffer is.

use vstd::prelude::*;

use crate::canvas::Canvas;
use crate::limits::{MAX_IMAGE_ALLOC, MAX_IMAGE_DIMENSION};
use crate::text::decimal_text;

verus! {

/// Why an image is not decoded.
#[derive(Debug, Clone, Copy, PartialEq, Eq, Structural)]
pub enum DecodeError {
    EmptyInput,
    InvalidDimensions { width: u32, height: u32 },
    DimensionsTooLarge { width: u32, height: u32 },
    AllocationLimit { byte_count: u64 },
    BufferMismatch,
}

/// Two sides as `width x height`, without spaces.
pub open spec fn dimensions_text(width: u32, height: u32) -> Seq<char> {
    crate::text::decimal_digits(width as nat) + "x"@ + crate::text::decimal_digits(height as nat)
}

impl DecodeError {
    /// The error as a text.
    pub open spec fn text(self) -> Seq<char> {
        match self {
            DecodeError::EmptyInput => "WIC input is empty"@,
            DecodeError::InvalidDimensions { width, height } => "WIC returned invalid dimensions: "@
                + dimensions_text(width, height),
            DecodeError::DimensionsTooLarge { width, height } => "WIC dimensions too large: "@
                + dimensions_text(width, height),
            DecodeError::AllocationLimit { byte_count } =>
                "WIC decoded buffer would exceed allocation limit: "@
                + crate::text::decimal_digits(byte_count as nat),
            DecodeError::BufferMismatch => "WIC RGBA buffer size mismatch"@,
        }
    }

    /// The error as a text.
    pub fn message(&self) -> (message: String)
        ensures
            message@ == self.text(),
    {
        match self {
            DecodeError::EmptyInput => "WIC input is empty".to_owned(),
            DecodeError::InvalidDimensions { width, height } => {
                let mut message = "WIC returned invalid dimensions: ".to_owned();
                message.append(dimensions(*width, *height).as_str());
                message
            },
            DecodeError::DimensionsTooLarge { width, height } => {
                let mut message = "WIC dimensions too large: ".to_owned();
                message.append(dimensions(*width, *height).as_str());
                message
            },
            DecodeError::AllocationLimit { byte_count } => {
                let mut message = "WIC decoded buffer would exceed allocation limit: ".to_owned();
                message.append(decimal_text(*byte_count).as_str());
                message
            },
            DecodeError::BufferMismatch => "WIC RGBA buffer size mismatch".to_owned(),
        }
    }
}

fn dimensions(width: u32, height: u32) -> (text: String)
    ensures
        text@ == dimensions_text(width, height),
{
    let mut text = decimal_text(width as u64);
    text.append("x");
    text.append(decimal_text(height as u64).as_str());
    text
}

/// Refuses an empty file.
pub fn check_input(bytes: &[u8]) -> (status: Result<(), DecodeError>)
    ensures
        match status {
            Ok(_) => bytes@.len() > 0,
            Err(error) => bytes@.len() == 0 && error == DecodeError::EmptyInput,
        },
{
    if bytes.len() == 0 {
        return Err(DecodeError::EmptyInput);
    }
    Ok(())
}

/// Refuses sizes that are empty or too large.
pub fn validate_dimensions(width: u32, height: u32) -> (status: Result<(), DecodeError>)
    ensures
        match status {
            Ok(_) => 1 <= width <= MAX_IMAGE_DIMENSION && 1 <= height <= MAX_IMAGE_DIMENSION,
            Err(error) => if width == 0 || height == 0 {
                error == (DecodeError::InvalidDimensions { width, height })
            } else {
                &&& width > MAX_IMAGE_DIMENSION || height > MAX_IMAGE_DIMENSION
                &&& error == (DecodeError::DimensionsTooLarge { width, height })
            },
        },
{
    if width == 0 || height == 0 {
        return Err(DecodeError::InvalidDimensions { width, height });
    }
    if width > MAX_IMAGE_DIMENSION || height > MAX_IMAGE_DIMENSION {
        return Err(DecodeError::DimensionsTooLarge { width, height });
    }
    Ok(())
}

/// Longest side that is asked of a decoder for a target: twice as long,
/// so that the final resampling has enough to work with. Zero means any.
pub open spec fn requested_side(target_px: u32) -> int {
    if 2 * target_px > u32::MAX {
        u32::MAX as int
    } else {
        2 * target_px
    }
}

/// The larger one of two sides.
pub open spec fn longest_side(width: u32, height: u32) -> u32 {
    if width >= height {
        width
    } else {
        height
    }
}

/// Is an image of this size scaled down for the target?
pub open spec fn shrinks(width: u32, height: u32, target_px: u32) -> bool {
    0 < requested_side(target_px) < longest_side(width, height)
}

/// A side of an image that is scaled down: in proportion, cut off to an
/// integer, and at least one pixel.
pub open spec fn shrunk_side(side: u32, longest: u32, target_px: u32) -> int {
    let scaled = side * requested_side(target_px) / longest as int;
    if scaled < 1 {
        1
    } else {
        scaled
    }
}

/// The size that an image is decoded at.
pub open spec fn decoded_size(width: u32, height: u32, target_px: u32) -> (int, int) {
    if shrinks(width, height, target_px) {
        let longest = longest_side(width, height);
        (shrunk_side(width, longest, target_px), shrunk_side(height, longest, target_px))
    } else {
        (width as int, height as int)
    }
}

proof fn lemma_shrunk_side(side: u32, longest: u32, target_px: u32)
    requires
        side <= longest,
        0 < requested_side(target_px) < longest,
    ensures
        1 <= shrunk_side(side, longest, target_px) <= requested_side(target_px),
        side == longest ==> shrunk_side(side, longest, target_px) == requested_side(target_px),
        side >= 1 ==> shrunk_side(side, longest, target_px) <= side,
        0 <= side * requested_side(target_px) / longest as int,
{
    let r = requested_side(target_px);
    let l = longest as int;
    let s = side as int;
    let q = s * r / l;
    assert(0 <= q <= r) by (nonlinear_arith)
        requires
            0 <= s <= l,
            0 < r < l,
            q == s * r / l,
    ;
    assert(q <= s) by (nonlinear_arith)
        requires
            0 <= s <= l,
            0 < r < l,
            q == s * r / l,
    ;
    if s == l {
        assert(l * r / l == r) by (nonlinear_arith)
            requires
                l > 0,
        ;
    }
}

/// The size that an image is decoded at for a target; zero stands for no
/// target.
pub fn thumbnail_dimensions(width: u32, height: u32, target_px: u32) -> (size: (u32, u32))
    ensures
        (size.0 as int, size.1 as int) == decoded_size(width, height, target_px),
{
    let requested: u32 = if target_px > u32::MAX / 2 {
        u32::MAX
    } else {
        target_px * 2
    };
    let longest: u32 = if width >= height {
        width
    } else {
        height
    };
    if requested == 0 || longest <= requested {
        return (width, height);
    }
    proof {
        lemma_shrunk_side(width, longest, target_px);
        lemma_shrunk_side(height, longest, target_px);
        assert(width * requested <= 0xffff_ffff * 0xffff_ffff) by (nonlinear_arith)
            requires
                width <= 0xffff_ffff,
                requested <= 0xffff_ffff,
        ;
        assert(height * requested <= 0xffff_ffff * 0xffff_ffff) by (nonlinear_arith)
            requires
                height <= 0xffff_ffff,
                requested <= 0xffff_ffff,
        ;
    }
    if width >= height {
        let scaled: u64 = (height as u64 * requested as u64) / width as u64;
        let height: u32 = if scaled < 1 {
            1
        } else {
            scaled as u32
        };
        (requested, height)
    } else {
        let scaled: u64 = (width as u64 * requested as u64) / height as u64;
        let width: u32 = if scaled < 1 {
            1
        } else {
            scaled as u32
        };
        (width, requested)
    }
}

/// Decoding never enlarges an image or makes a side vanish, and its
/// longest side is at most twice the target; an image that is scaled
/// down gets exactly that longest side.
pub proof fn decoding_only_shrinks(width: u32, height: u32, target_px: u32)
    requires
        width >= 1,
        height >= 1,
    ensures
        ({
            let (w, h) = decoded_size(width, height, target_px);
            &&& 1 <= w <= width
            &&& 1 <= h <= height
            &&& target_px > 0 ==> w <= 2 * target_px && h <= 2 * target_px
            &&& shrinks(width, height, target_px) ==> w == requested_side(target_px) || h
                == requested_side(target_px)
        }),
{
    if shrinks(width, height, target_px) {
        let longest = longest_side(width, height);
        lemma_shrunk_side(width, longest, target_px);
        lemma_shrunk_side(height, longest, target_px);
    }
}

/// The aspect ratio is kept as far as whole pixels allow: the other side
/// is the exact proportion, cut off to an integer, unless that is zero.
pub proof fn decoding_keeps_aspect_ratio(width: u32, height: u32, target_px: u32)
    requires
        width >= 1,
        height >= 1,
    ensures
        ({
            let (w, h) = decoded_size(width, height, target_px);
            &&& width >= height ==> h * width <= height * w || h == 1
            &&& width >= height ==> height * w < (h + 1) * width
            &&& width < height ==> w * height <= width * h || w == 1
            &&& width < height ==> width * h < (w + 1) * height
        }),
{
    let r = requested_side(target_px);
    let (w, h) = decoded_size(width, height, target_px);
    if shrinks(width, height, target_px) {
        let longest = longest_side(width, height);
        lemma_shrunk_side(width, longest, target_px);
        lemma_shrunk_side(height, longest, target_px);
        if width >= height {
            lemma_floor_division(height * r, width as int);
        } else {
            lemma_floor_division(width * r, height as int);
        }
    } else {
        assert(h * width == height * w) by (nonlinear_arith)
            requires
                w == width,
                h == height,
        ;
        assert((h + 1) * width == h * width + width) by (nonlinear_arith);
        assert((w + 1) * height == w * height + height) by (nonlinear_arith);
        assert(w * height == width * h) by (nonlinear_arith)
            requires
                w == width,
                h == height,
        ;
    }
}

proof fn lemma_floor_division(n: int, d: int)
    requires
        n >= 0,
        d > 0,
    ensures
        (n / d) * d <= n,
        n < (n / d + 1) * d,
        n / d < 1 ==> n < 2 * d,
{
    vstd::arithmetic::div_mod::lemma_fundamental_div_mod(n, d);
    assert((n / d) * d == d * (n / d)) by (nonlinear_arith);
    assert((n / d + 1) * d == (n / d) * d + d) by (nonlinear_arith);
    if n / d < 1 {
        assert((n / d) * d <= 0) by (nonlinear_arith)
            requires
                n / d < 1,
                d > 0,
        ;
    }
}

/// How an image is decoded.
#[derive(Debug, Clone, Copy, PartialEq, Eq, Structural)]
pub struct DecodePlan {
    pub width: u32,
    pub height: u32,
    /// The decoder scales the image down to this size.
    pub scaled: bool,
    /// Bytes per row.
    pub stride: u32,
    /// Bytes in all.
    pub byte_count: usize,
}

/// Decides how an image of this size is decoded for a target. The limits
/// on the size keep the row length in range; the pixels may still take
/// too much memory.
pub fn plan_decode(width: u32, height: u32, target_px: u32) -> (plan: Result<
    DecodePlan,
    DecodeError,
>)
    ensures
        match plan {
            Ok(plan) => {
                &&& 1 <= width <= MAX_IMAGE_DIMENSION && 1 <= height <= MAX_IMAGE_DIMENSION
                &&& (plan.width as int, plan.height as int) == decoded_size(
                    width,
                    height,
                    target_px,
                )
                &&& plan.scaled == (plan.width != width || plan.height != height)
                &&& plan.stride == 4 * plan.width
                &&& plan.byte_count == 4 * (plan.width * plan.height)
                &&& plan.byte_count <= MAX_IMAGE_ALLOC
            },
            Err(DecodeError::InvalidDimensions { width: w, height: h }) => {
                &&& w == width && h == height
                &&& width == 0 || height == 0
            },
            Err(DecodeError::DimensionsTooLarge { width: w, height: h }) => {
                &&& w == width && h == height
                &&& width >= 1 && height >= 1
                &&& width > MAX_IMAGE_DIMENSION || height > MAX_IMAGE_DIMENSION
            },
            Err(DecodeError::AllocationLimit { byte_count }) => {
                let (w, h) = decoded_size(width, height, target_px);
                &&& 1 <= width <= MAX_IMAGE_DIMENSION && 1 <= height <= MAX_IMAGE_DIMENSION
                &&& byte_count == 4 * (w * h)
                &&& byte_count > MAX_IMAGE_ALLOC
            },
            Err(_) => false,
        },
{
    if let Err(error) = validate_dimensions(width, height) {
        return Err(error);
    }
    let (out_width, out_height) = thumbnail_dimensions(width, height, target_px);
    proof {
        decoding_only_shrinks(width, height, target_px);
        assert(out_width * out_height <= 32_768 * 32_768) by (nonlinear_arith)
            requires
                0 <= out_width <= 32_768,
                0 <= out_height <= 32_768,
        ;
        assert((4 * out_width) * out_height == 4 * (out_width * out_height)) by (nonlinear_arith);
    }
    let stride: u32 = out_width * 4;
    let byte_count: u64 = stride as u64 * out_height as u64;
    if byte_count > MAX_IMAGE_ALLOC {
        return Err(DecodeError::AllocationLimit { byte_count });
    }
    Ok(
        DecodePlan {
            width: out_width,
            height: out_height,
            scaled: out_width != width || out_height != height,
            stride,
            byte_count: byte_count as usize,
        },
    )
}

/// Makes a picture of the decoded bytes, of which there must be enough.
pub fn finish_decode(plan: DecodePlan, pixels: Vec<u8>) -> (decoded: Result<Canvas, DecodeError>)
    ensures
        match decoded {
            Ok(canvas) => {
                &&& canvas.wf()
                &&& canvas.width == plan.width
                &&& canvas.height == plan.height
                &&& 4 * (plan.width * plan.height) <= pixels@.len()
                &&& canvas.pixels@ == pixels@.take(4 * (plan.width * plan.height))
            },
            Err(error) => 4 * (plan.width * plan.height) > pixels@.len() && error
                == DecodeError::BufferMismatch,
        },
{
    match Canvas::from_raw(plan.width, plan.height, pixels) {
        Some(canvas) => Ok(canvas),
        None => Err(DecodeError::BufferMismatch),
    }
}

/// An image whose longest side is within twice the target, or that has no
/// target, is decoded as it is. A larger one gets exactly twice the target
/// as its longest side, and the other side in proportion, cut off to an
/// integer, but at least one pixel.
pub proof fn decoded_for_twice_the_target(width: u32, height: u32, target_px: u32)
    ensures
        ({
            let (w, h) = decoded_size(width, height, target_px);
            let shrunk = target_px > 0 && (width > 2 * target_px || height > 2 * target_px);
            &&& !shrunk ==> w == width && h == height
            &&& shrunk && width >= height ==> {
                &&& w == 2 * target_px
                &&& h >= 1
                &&& h == 1 || h * width <= height * (2 * target_px)
                &&& (h + 1) * width > height * (2 * target_px)
            }
            &&& shrunk && width < height ==> {
                &&& h == 2 * target_px
                &&& w >= 1
                &&& w == 1 || w * height <= width * (2 * target_px)
                &&& (w + 1) * height > width * (2 * target_px)
            }
        }),
{
    if shrinks(width, height, target_px) {
        let longest = longest_side(width, height);
        let r = requested_side(target_px);
        lemma_shrunk_side(width, longest, target_px);
        lemma_shrunk_side(height, longest, target_px);
        assert(0 <= width * r && 0 <= height * r) by (nonlinear_arith)
            requires
                r >= 0,
                width >= 0,
                height >= 0,
        ;
        if width >= height {
            lemma_floor_division(height * r, width as int);
        } else {
            lemma_floor_division(width * r, height as int);
        }
    }
}

/// The texts of the errors. Sizes are named in decimal, with an `x`
/// between the sides.
pub proof fn decode_error_texts(width: u32, height: u32, byte_count: u64)
    ensures
        DecodeError::EmptyInput.text() == "WIC input is empty"@,
        DecodeError::BufferMismatch.text() == "WIC RGBA buffer size mismatch"@,
        (DecodeError::InvalidDimensions { width, height }).text()
            == "WIC returned invalid dimensions: "@ + (crate::text::decimal_digits(width as nat)
            + "x"@ + crate::text::decimal_digits(height as nat)),
        (DecodeError::DimensionsTooLarge { width, height }).text() == "WIC dimensions too large: "@
            + (crate::text::decimal_digits(width as nat) + "x"@ + crate::text::decimal_digits(
            height as nat,
        )),
        (DecodeError::AllocationLimit { byte_count }).text()
            == "WIC decoded buffer would exceed allocation limit: "@
            + crate::text::decimal_digits(byte_count as nat),
{
}

} // verus!
