//! Encoding and decoding of images through the `image` crate.
//!
//! Stored images are PNG files. PNG is lossless, but nothing here takes the
//! encoder's word for it: `encode_lossless` reads back what it has encoded and
//! hands the bytes out only if they decode to the image they were made from.
//!
//! The decoder can be held to a bound on the memory it allocates. Files found
//! in the store's directory are decoded under `STORED_FILE_ALLOCATION_LIMIT`,
//! since anyone may have put them there. What `encode_lossless` reads back is
//! its own encoding of an image already in memory, and is decoded without a
//! bound, so that an image of any size can be stored.

use vstd::prelude::*;
use crate::bitmap::{is_pixel_buffer, Bitmap, BitmapView};
use crate::naming::StoredFormat;

verus! {

/// Why an image could not be encoded or decoded.
#[derive(Debug, Clone, PartialEq, Eq)]
pub enum CodecError {
    /// The encoder refused the image.
    Encoding { message: String },
    /// The encoded bytes do not decode to the image they were made from.
    NotLossless,
    /// The bytes are not an image in the format named.
    Decoding { message: String },
    /// The decoder's output is not a valid pixel buffer.
    InvalidPixelBuffer,
}

/// The most bytes the decoder may allocate for a file found in the store's
/// directory: 512 MiB, the bound the `image` crate sets by itself.
pub const STORED_FILE_ALLOCATION_LIMIT: u64 = 0x2000_0000;

/// `image::ImageError`, the error type of the `image` crate. Its values are
/// carried from the calls that fail to `error_text`; nothing is known of what
/// they hold.
#[verifier::external_type_specification]
#[verifier::external_body]
pub struct ExImageError(image::ImageError);

/// The PNG file that the `image` crate writes for an RGBA image of `width` by
/// `height` pixels, or `None` where it refuses to write one.
pub uninterp spec fn png_encoding(width: u32, height: u32, pixels: Seq<u8>) -> Option<Seq<u8>>;

/// The width, height and RGBA pixels that the `image` crate reads from
/// `bytes` taken as a file of the format `format`, when it may allocate
/// `max_alloc` bytes at most (`None`: any number); `None` where it cannot
/// read them so.
pub uninterp spec fn image_decoding(
    bytes: Seq<u8>,
    format: StoredFormat,
    max_alloc: Option<u64>,
) -> Option<(u32, u32, Seq<u8>)>;

/// Encodes an RGBA buffer as a PNG file in memory.
///
/// Trusted: calls `DynamicImage::write_to` with `ImageFormat::Png` on an
/// `RgbaImage` made by `ImageBuffer::from_raw`, which is what saving to a
/// `.png` path encodes. The contract only names the outcome: the bytes written
/// or the refusal, as a function of the dimensions and the buffer. The buffer
/// must have the length the dimensions call for: the encoder panics otherwise.
#[verifier::external_body]
fn png_encode(width: u32, height: u32, pixels: &Vec<u8>) -> (encoded: Result<
    Vec<u8>,
    image::ImageError,
>)
    requires
        is_pixel_buffer(pixels@, width as nat, height as nat),
    ensures
        match encoded {
            Ok(bytes) => png_encoding(width, height, pixels@) == Some(bytes@),
            Err(_) => png_encoding(width, height, pixels@) is None,
        },
{
    let buffer = image::RgbaImage::from_raw(width, height, pixels.clone()).unwrap();
    let mut out = std::io::Cursor::new(Vec::new());
    image::DynamicImage::ImageRgba8(buffer).write_to(&mut out, image::ImageFormat::Png)?;
    Ok(out.into_inner())
}

/// Decodes an image file held in memory into RGBA pixels.
///
/// Trusted: calls `ImageReader::decode` on a reader made by
/// `ImageReader::with_format` over the bytes, with the crate's default
/// `Limits` but for `max_alloc`, which is the one given, and converts what it
/// returns with `DynamicImage::into_rgba8`. With `max_alloc` at 512 MiB this
/// is `image::load_from_memory_with_format`. The contract only names the
/// outcome as a function of the bytes, the format and the bound.
#[verifier::external_body]
fn image_decode(bytes: &Vec<u8>, format: StoredFormat, max_alloc: Option<u64>) -> (decoded: Result<
    (u32, u32, Vec<u8>),
    image::ImageError,
>)
    ensures
        match decoded {
            Ok((width, height, pixels)) => image_decoding(bytes@, format, max_alloc) == Some(
                (width, height, pixels@),
            ),
            Err(_) => image_decoding(bytes@, format, max_alloc) is None,
        },
{
    let format = match format {
        StoredFormat::Png => image::ImageFormat::Png,
        StoredFormat::Jpeg => image::ImageFormat::Jpeg,
    };
    let mut limits = image::Limits::default();
    limits.max_alloc = max_alloc;
    let mut reader = image::ImageReader::with_format(std::io::Cursor::new(bytes.as_slice()), format);
    reader.limits(limits);
    let rgba = reader.decode()?.into_rgba8();
    Ok((rgba.width(), rgba.height(), rgba.into_raw()))
}

/// The text of an error of the `image` crate.
///
/// Trusted: calls `ImageError`'s `Display` implementation. Nothing is claimed
/// of the text.
#[verifier::external_body]
fn error_text(error: &image::ImageError) -> String {
    format!("{}", error)
}

/// The image that a file holds: what the decoder reads from it within
/// `max_alloc` bytes, if that is a valid pixel buffer.
pub open spec fn stored_image(
    bytes: Seq<u8>,
    format: StoredFormat,
    max_alloc: Option<u64>,
) -> Option<BitmapView> {
    match image_decoding(bytes, format, max_alloc) {
        Some((width, height, pixels)) => if is_pixel_buffer(pixels, width as nat, height as nat) {
            Some(BitmapView { width: width as nat, height: height as nat, pixels })
        } else {
            None
        },
        None => None,
    }
}

/// The bytes under which `image` is stored: its PNG encoding, provided that
/// it reads back as `image` when decoded without a bound on memory.
pub open spec fn lossless_encoding(image: BitmapView) -> Option<Seq<u8>> {
    match png_encoding(image.width as u32, image.height as u32, image.pixels) {
        Some(bytes) => if stored_image(bytes, StoredFormat::Png, None) == Some(image) {
            Some(bytes)
        } else {
            None
        },
        None => None,
    }
}

/// Whatever is stored for an image reads back as that image, pixel for pixel.
pub proof fn lemma_lossless_round_trip(image: BitmapView)
    requires
        image.valid(),
    ensures
        lossless_encoding(image) matches Some(bytes) ==> stored_image(
            bytes,
            StoredFormat::Png,
            None,
        ) == Some(image),
{
}

/// Whether two buffers hold the same bytes.
pub fn same_bytes(left: &Vec<u8>, right: &Vec<u8>) -> (same: bool)
    ensures
        same == (left@ == right@),
{
    if left.len() != right.len() {
        return false;
    }
    let mut i: usize = 0;
    while i < left.len()
        invariant
            i <= left.len() == right.len(),
            forall|j: int| 0 <= j < i ==> left@[j] == right@[j],
        decreases left.len() - i,
    {
        if left[i] != right[i] {
            return false;
        }
        i = i + 1;
    }
    assert(left@ =~= right@);
    true
}

/// Whether two bitmaps are the same image.
pub fn same_image(left: &Bitmap, right: &Bitmap) -> (same: bool)
    ensures
        same == (left@ == right@),
{
    left.width() == right.width() && left.height() == right.height() && same_bytes(
        left.pixels(),
        right.pixels(),
    )
}

/// What was read back is `image` itself.
pub open spec fn reads_back_as(read_back: Option<&Bitmap>, image: &Bitmap) -> bool {
    match read_back {
        Some(b) => b@ == image@,
        None => false,
    }
}

/// Decides whether encoded bytes may be stored for `image`, given what they
/// read back as: they may exactly when they read back as `image` itself.
pub fn accept_encoding(image: &Bitmap, encoded: Vec<u8>, read_back: Option<&Bitmap>) -> (accepted:
    Result<Vec<u8>, CodecError>)
    ensures
        match accepted {
            Ok(bytes) => bytes@ == encoded@ && reads_back_as(read_back, image),
            Err(e) => e is NotLossless && !reads_back_as(read_back, image),
        },
{
    match read_back {
        Some(b) => if same_image(image, b) {
            Ok(encoded)
        } else {
            Err(CodecError::NotLossless)
        },
        None => Err(CodecError::NotLossless),
    }
}

/// Decodes an image file, letting the decoder allocate `max_alloc` bytes at
/// most, or any number where `max_alloc` is `None`.
///
/// Succeeds exactly when the decoder reads the bytes as an image of the
/// format named and what it reads is a valid pixel buffer.
pub fn decode_stored(bytes: &Vec<u8>, format: StoredFormat, max_alloc: Option<u64>) -> (decoded:
    Result<Bitmap, CodecError>)
    ensures
        match decoded {
            Ok(bitmap) => stored_image(bytes@, format, max_alloc) == Some(bitmap@),
            Err(e) => stored_image(bytes@, format, max_alloc) is None && (e is Decoding
                <==> image_decoding(bytes@, format, max_alloc) is None) && (e is InvalidPixelBuffer
                <==> image_decoding(bytes@, format, max_alloc) is Some),
        },
{
    match image_decode(bytes, format, max_alloc) {
        Ok((width, height, pixels)) => match Bitmap::decode(pixels, width, height) {
            Ok(bitmap) => Ok(bitmap),
            Err(_) => Err(CodecError::InvalidPixelBuffer),
        },
        Err(error) => Err(CodecError::Decoding { message: error_text(&error) }),
    }
}

/// Encodes `image` as the PNG file under which it is stored.
///
/// The bytes are handed out only if they decode to `image` again, pixel for
/// pixel: on success they are the encoder's output, and `decode_stored`
/// without a bound on memory reads `image` from them. The encoder's refusal
/// is reported as `Encoding`, bytes that do not read back as `image` as
/// `NotLossless`.
pub fn encode_lossless(image: &Bitmap) -> (encoded: Result<Vec<u8>, CodecError>)
    ensures
        match encoded {
            Ok(bytes) => lossless_encoding(image@) == Some(bytes@) && stored_image(
                bytes@,
                StoredFormat::Png,
                None,
            ) == Some(image@),
            Err(e) => {
                let written = png_encoding(
                    image@.width as u32,
                    image@.height as u32,
                    image@.pixels,
                );
                &&& lossless_encoding(image@) is None
                &&& e is Encoding <==> written is None
                &&& e is NotLossless <==> written is Some
            },
        },
{
    let written = png_encode(image.width(), image.height(), image.pixels());
    match written {
        Ok(bytes) => {
            let read_back = decode_stored(&bytes, StoredFormat::Png, None);
            match read_back {
                Ok(bitmap) => accept_encoding(image, bytes, Some(&bitmap)),
                Err(_) => accept_encoding(image, bytes, None),
            }
        },
        Err(error) => Err(CodecError::Encoding { message: error_text(&error) }),
    }
}

} // verus!
