//! Thumbnails of stored images.
//!
//! A thumbnail fits in a square of `max_dimension` pixels: the image's longer
//! side becomes `max_dimension`, the shorter side is scaled by the same
//! factor and rounded to the nearest pixel, halves upwards, but never to less
//! than one pixel. The sizes are computed in integers, so that they are the
//! same everywhere; the pixels are resampled by the `image` crate, which
//! averages, for each pixel of the thumbnail, a block of pixels of the image.

use vstd::prelude::*;
use crate::bitmap::{is_pixel_buffer, Bitmap, BitmapView};
use crate::codec::{decode_stored, stored_image, STORED_FILE_ALLOCATION_LIMIT};
use crate::naming::StoredFormat;

verus! {

/// The most source pixels that may go into one pixel of a thumbnail. The
/// sampler adds up each channel of such a block in 32 bits, and within this
/// bound the sum of that many bytes and the half added for rounding fit.
pub const MAX_BLOCK_PIXELS: u64 = 0x100_0000;

/// The length of a side from which the sampler's arithmetic in `f32` can be
/// off by a whole pixel.
pub const COARSE_SIDE: u32 = 0x20_0000;

/// `numerator / denominator` rounded to the nearest integer, halves upwards.
pub open spec fn rounded_quotient(numerator: nat, denominator: nat) -> nat {
    (2 * numerator + denominator) / (2 * denominator)
}

/// The length of a side of `side` pixels once the image's longer side, of
/// `longer` pixels, has become `max_dimension`.
pub open spec fn scaled_side(side: nat, longer: nat, max_dimension: nat) -> nat {
    let scaled = rounded_quotient(side * max_dimension, longer);
    if scaled == 0 {
        1
    } else {
        scaled
    }
}

/// The width and height of the thumbnail of an image of `width` by `height`
/// pixels.
pub open spec fn thumbnail_size(width: nat, height: nat, max_dimension: nat) -> (nat, nat) {
    if width >= height {
        (max_dimension, scaled_side(height, width, max_dimension))
    } else {
        (scaled_side(width, height, max_dimension), max_dimension)
    }
}

/// A scaled side is at least one pixel and at most `max_dimension`, and it is
/// the exact quotient rounded: unless it was raised to one pixel, it differs
/// from `side * max_dimension / longer` by half a pixel at most.
pub proof fn lemma_scaled_side(side: nat, longer: nat, max_dimension: nat)
    requires
        0 < side <= longer,
        0 < max_dimension,
    ensures
        1 <= scaled_side(side, longer, max_dimension) <= max_dimension,
        side == longer ==> scaled_side(side, longer, max_dimension) == max_dimension,
        rounded_quotient(side * max_dimension, longer) > 0 ==> {
            let scaled = scaled_side(side, longer, max_dimension);
            -longer < 2 * scaled * longer - 2 * side * max_dimension <= longer
        },
{
    let n = side * max_dimension;
    let q = rounded_quotient(n, longer);
    assert(n <= longer * max_dimension) by (nonlinear_arith)
        requires
            n == side * max_dimension,
            side <= longer,
            0 < max_dimension,
    ;
    assert(q * (2 * longer) <= 2 * n + longer < (q + 1) * (2 * longer)) by (nonlinear_arith)
        requires
            q == (2 * n + longer) / (2 * longer),
            longer > 0,
    ;
    assert(q <= max_dimension) by (nonlinear_arith)
        requires
            q * (2 * longer) <= 2 * n + longer,
            n <= longer * max_dimension,
            longer > 0,
    ;
    if side == longer {
        assert(q >= max_dimension) by (nonlinear_arith)
            requires
                2 * n + longer < (q + 1) * (2 * longer),
                n == longer * max_dimension,
                longer > 0,
        ;
    }
    if q > 0 {
        assert(2 * q * longer == q * (2 * longer)) by (nonlinear_arith);
        assert((q + 1) * (2 * longer) == 2 * q * longer + 2 * longer) by (nonlinear_arith);
        assert(2 * side * max_dimension == 2 * n) by (nonlinear_arith)
            requires
                n == side * max_dimension,
        ;
    }
}

/// A thumbnail's longer side is `max_dimension`, and neither side exceeds it
/// or is empty.
pub proof fn lemma_thumbnail_size(width: nat, height: nat, max_dimension: nat)
    requires
        0 < width,
        0 < height,
        0 < max_dimension,
    ensures
        1 <= thumbnail_size(width, height, max_dimension).0 <= max_dimension,
        1 <= thumbnail_size(width, height, max_dimension).1 <= max_dimension,
        width >= height ==> thumbnail_size(width, height, max_dimension).0 == max_dimension,
        height >= width ==> thumbnail_size(width, height, max_dimension).1 == max_dimension,
{
    if width >= height {
        lemma_scaled_side(height, width, max_dimension);
    } else {
        lemma_scaled_side(width, height, max_dimension);
    }
}

fn scale_side(side: u32, longer: u32, max_dimension: u32) -> (scaled: u32)
    requires
        0 < side <= longer,
        0 < max_dimension,
    ensures
        scaled == scaled_side(side as nat, longer as nat, max_dimension as nat),
{
    proof {
        lemma_scaled_side(side as nat, longer as nat, max_dimension as nat);
    }
    assert(side * max_dimension <= 0xffff_ffff * 0xffff_ffff) by (nonlinear_arith)
        requires
            side <= 0xffff_ffff,
            max_dimension <= 0xffff_ffff,
    ;
    let numerator: u128 = (side as u128) * (max_dimension as u128);
    let rounded: u128 = (2 * numerator + (longer as u128)) / (2 * (longer as u128));
    if rounded == 0 {
        1
    } else {
        rounded as u32
    }
}

/// The width and height of the thumbnail of an image of `width` by `height`
/// pixels that fits in a square of `max_dimension` pixels.
pub fn thumbnail_dimensions(width: u32, height: u32, max_dimension: u32) -> (size: (u32, u32))
    requires
        0 < width,
        0 < height,
        0 < max_dimension,
    ensures
        (size.0 as nat, size.1 as nat) == thumbnail_size(
            width as nat,
            height as nat,
            max_dimension as nat,
        ),
        1 <= size.0 <= max_dimension,
        1 <= size.1 <= max_dimension,
        size.0 == max_dimension || size.1 == max_dimension,
{
    proof {
        lemma_thumbnail_size(width as nat, height as nat, max_dimension as nat);
    }
    if width >= height {
        (max_dimension, scale_side(height, width, max_dimension))
    } else {
        (scale_side(width, height, max_dimension), max_dimension)
    }
}

/// The RGBA pixels that the `image` crate's thumbnail sampler computes for an
/// image of `width` by `height` pixels scaled to `new_width` by `new_height`.
pub uninterp spec fn thumbnail_pixels(
    width: u32,
    height: u32,
    pixels: Seq<u8>,
    new_width: u32,
    new_height: u32,
) -> Seq<u8>;

/// The most pixels of a side of `side` pixels that the sampler takes into
/// one pixel of a side of `new_side` pixels.
///
/// A block reaches from one rounded-up multiple of `side / new_side` to the
/// next, so it spans the quotient and up to two pixels more. The sampler
/// computes the multiples in `f32`; from `COARSE_SIDE` pixels on they can be
/// off by a pixel for every `COARSE_SIDE` pixels of the side. A block never
/// spans more than the side.
pub open spec fn block_side(side: nat, new_side: nat) -> nat {
    let span = side / new_side + 2 + side / (COARSE_SIDE as nat);
    if span < side {
        span
    } else {
        side
    }
}

/// Resamples an RGBA image to `new_width` by `new_height` pixels.
///
/// Trusted: calls `image::imageops::thumbnail` on an image buffer that
/// borrows `pixels`. The contract names the pixels computed, as a function of
/// the arguments, and says that there are four bytes of them for each pixel
/// of the new size, which is the size of the buffer the sampler allocates.
/// The sampler panics where that buffer's length exceeds what a vector can
/// hold, and in a checked build where the 32-bit sum over one block of
/// source pixels overflows; the bounds leave both out.
#[verifier::external_body]
fn resample(width: u32, height: u32, pixels: &Vec<u8>, new_width: u32, new_height: u32) -> (sampled:
    Vec<u8>)
    requires
        is_pixel_buffer(pixels@, width as nat, height as nat),
        0 < new_width,
        0 < new_height,
        block_side(width as nat, new_width as nat) * block_side(height as nat, new_height as nat)
            <= MAX_BLOCK_PIXELS,
        new_width * new_height * 4 <= isize::MAX,
    ensures
        sampled@ == thumbnail_pixels(width, height, pixels@, new_width, new_height),
        sampled@.len() == new_width * new_height * 4,
{
    let source = image::ImageBuffer::<image::Rgba<u8>, &[u8]>::from_raw(
        width,
        height,
        pixels.as_slice(),
    ).unwrap();
    image::imageops::thumbnail(&source, new_width, new_height).into_raw()
}

/// Whether a thumbnail of `image` within `max_dimension` can be sampled: the
/// square is not empty, no block of source pixels exceeds
/// `MAX_BLOCK_PIXELS`, and the thumbnail's buffer is no longer than a vector
/// can be.
pub open spec fn can_sample(image: BitmapView, max_dimension: nat) -> bool {
    let size = thumbnail_size(image.width, image.height, max_dimension);
    &&& max_dimension > 0
    &&& block_side(image.width, size.0) * block_side(image.height, size.1) <= MAX_BLOCK_PIXELS
    &&& size.0 * size.1 * 4 <= isize::MAX
}

/// The thumbnail of `image` within `max_dimension`, where it can be sampled.
pub open spec fn thumbnail_of(image: BitmapView, max_dimension: nat) -> Option<BitmapView> {
    if can_sample(image, max_dimension) {
        let size = thumbnail_size(image.width, image.height, max_dimension);
        Some(
            BitmapView {
                width: size.0,
                height: size.1,
                pixels: thumbnail_pixels(
                    image.width as u32,
                    image.height as u32,
                    image.pixels,
                    size.0 as u32,
                    size.1 as u32,
                ),
            },
        )
    } else {
        None
    }
}

/// Where neither side of the image reaches `COARSE_SIDE`, a thumbnail can be
/// sampled as soon as the blocks, taken at the quotient of the sides and two
/// pixels more, are within `MAX_BLOCK_PIXELS` and a square of
/// `max_dimension` pixels fits in a vector.
pub proof fn lemma_small_blocks_can_be_sampled(image: BitmapView, max_dimension: nat)
    requires
        image.valid(),
        0 < max_dimension,
        image.width <= u32::MAX,
        image.height <= u32::MAX,
        max_dimension <= u32::MAX,
        image.width < COARSE_SIDE,
        image.height < COARSE_SIDE,
        ({
            let size = thumbnail_size(image.width, image.height, max_dimension);
            (image.width / size.0 + 2) * (image.height / size.1 + 2) <= MAX_BLOCK_PIXELS
        }),
        max_dimension * max_dimension * 4 <= isize::MAX,
    ensures
        can_sample(image, max_dimension),
{
    let size = thumbnail_size(image.width, image.height, max_dimension);
    lemma_thumbnail_size(image.width, image.height, max_dimension);
    let a = block_side(image.width, size.0);
    let b = block_side(image.height, size.1);
    let p = image.width / size.0 + 2;
    let q = image.height / size.1 + 2;
    assert(image.width / (COARSE_SIDE as nat) == 0);
    assert(image.height / (COARSE_SIDE as nat) == 0);
    assert(a * b <= p * q) by (nonlinear_arith)
        requires
            a <= p,
            b <= q,
    ;
    assert(size.0 * size.1 <= max_dimension * max_dimension) by (nonlinear_arith)
        requires
            size.0 <= max_dimension,
            size.1 <= max_dimension,
    ;
}

fn block_length(side: u32, new_side: u32) -> (length: u64)
    requires
        0 < side,
        0 < new_side,
    ensures
        length == block_side(side as nat, new_side as nat),
        0 < length <= side,
{
    let span: u64 = (side / new_side) as u64 + 2 + (side / COARSE_SIDE) as u64;
    if span < side as u64 {
        span
    } else {
        side as u64
    }
}

/// The thumbnail of `image` that fits in a square of `max_dimension` pixels:
/// the longer side becomes `max_dimension`, the proportions are kept.
///
/// `None` exactly when `max_dimension` is 0, when a block of source pixels
/// that goes into one pixel of the thumbnail could exceed `MAX_BLOCK_PIXELS`,
/// or when the thumbnail's buffer would be longer than a vector can be.
pub fn thumbnail(image: &Bitmap, max_dimension: u32) -> (scaled: Option<Bitmap>)
    ensures
        match scaled {
            Some(t) => thumbnail_of(image@, max_dimension as nat) == Some(t@) && t@.valid()
                && t@.width <= max_dimension && t@.height <= max_dimension && (t@.width
                == max_dimension || t@.height == max_dimension),
            None => thumbnail_of(image@, max_dimension as nat) is None,
        },
{
    if max_dimension == 0 {
        return None;
    }
    let width = image.width();
    let height = image.height();
    let (new_width, new_height) = thumbnail_dimensions(width, height, max_dimension);
    let across = block_length(width, new_width);
    let down = block_length(height, new_height);
    assert(across * down <= 0xffff_ffff * 0xffff_ffff) by (nonlinear_arith)
        requires
            across <= 0xffff_ffff,
            down <= 0xffff_ffff,
    ;
    if across * down > MAX_BLOCK_PIXELS {
        return None;
    }
    assert(new_width * new_height * 4 <= 0xffff_ffff * 0xffff_ffff * 4) by (nonlinear_arith)
        requires
            new_width <= 0xffff_ffff,
            new_height <= 0xffff_ffff,
    ;
    let length: u128 = (new_width as u128) * (new_height as u128) * 4;
    if length > isize::MAX as u128 {
        return None;
    }
    let sampled = resample(width, height, image.pixels(), new_width, new_height);
    match Bitmap::decode(sampled, new_width, new_height) {
        Ok(t) => Some(t),
        Err(_) => None,
    }
}

/// The thumbnail of the image held in a file of the store's directory. The
/// file is decoded under `STORED_FILE_ALLOCATION_LIMIT`.
///
/// `None` where the file cannot be decoded or the thumbnail cannot be
/// sampled.
pub fn load_thumbnail(contents: &Vec<u8>, format: StoredFormat, thumbnail_size: u32) -> (scaled:
    Option<Bitmap>)
    ensures
        match scaled {
            Some(t) => stored_image(contents@, format, Some(STORED_FILE_ALLOCATION_LIMIT))
                matches Some(image) && thumbnail_of(image, thumbnail_size as nat) == Some(t@),
            None => stored_image(contents@, format, Some(STORED_FILE_ALLOCATION_LIMIT))
                matches Some(image) ==> thumbnail_of(image, thumbnail_size as nat) is None,
        },
{
    match decode_stored(contents, format, Some(STORED_FILE_ALLOCATION_LIMIT)) {
        Ok(image) => thumbnail(&image, thumbnail_size),
        Err(_) => None,
    }
}

} // verus!
