//! Decoded raster images.

use vstd::prelude::*;

verus! {

/// What a bitmap is: its dimensions in pixels and its RGBA bytes, row by row.
pub struct BitmapView {
    pub width: nat,
    pub height: nat,
    pub pixels: Seq<u8>,
}

impl BitmapView {
    /// Both dimensions are positive, and the buffer holds exactly four bytes
    /// for each pixel: red, green, blue and alpha.
    pub open spec fn valid(self) -> bool {
        &&& self.width > 0
        &&& self.height > 0
        &&& self.pixels.len() == self.width * self.height * 4
    }
}

/// `pixels` is a raw RGBA buffer for an image of `width` by `height` pixels.
pub open spec fn is_pixel_buffer(pixels: Seq<u8>, width: nat, height: nat) -> bool {
    (BitmapView { width, height, pixels }).valid()
}

/// Why a buffer could not be taken as an image.
#[derive(Debug, Clone, Copy, PartialEq, Eq, Structural)]
pub enum DecodeError {
    /// A dimension is zero, or the buffer's length is not
    /// `width * height * 4`.
    InvalidPixelBuffer,
}

/// A decoded image: width, height and 8-bit RGBA pixels.
///
/// Every `Bitmap` is valid: its dimensions are positive and its buffer is
/// exactly `width * height * 4` bytes long.
#[derive(Debug, PartialEq, Eq)]
pub struct Bitmap {
    width: u32,
    height: u32,
    pixels: Vec<u8>,
}

impl View for Bitmap {
    type V = BitmapView;

    closed spec fn view(&self) -> BitmapView {
        BitmapView { width: self.width as nat, height: self.height as nat, pixels: self.pixels@ }
    }
}

impl Clone for Bitmap {
    fn clone(&self) -> (copy: Self)
        ensures
            copy@ == self@,
    {
        proof {
            use_type_invariant(self);
        }
        Bitmap { width: self.width, height: self.height, pixels: self.pixels.clone() }
    }
}

impl Bitmap {
    #[verifier::type_invariant]
    spec fn holds_valid_image(self) -> bool {
        self@.valid()
    }

    /// Takes a raw RGBA buffer as an image of `width` by `height` pixels.
    ///
    /// Succeeds exactly when both dimensions are positive and the buffer is
    /// `width * height * 4` bytes long; the bitmap then holds the buffer as
    /// it was given.
    pub fn decode(raw_pixels: Vec<u8>, width: u32, height: u32) -> (decoded: Result<
        Bitmap,
        DecodeError,
    >)
        ensures
            decoded is Ok <==> is_pixel_buffer(raw_pixels@, width as nat, height as nat),
            decoded matches Ok(bitmap) ==> bitmap@ == (BitmapView {
                width: width as nat,
                height: height as nat,
                pixels: raw_pixels@,
            }),
            decoded matches Err(e) ==> e == DecodeError::InvalidPixelBuffer,
    {
        if width == 0 || height == 0 {
            return Err(DecodeError::InvalidPixelBuffer);
        }
        assert(width * height <= 0xffff_ffff * 0xffff_ffff) by (nonlinear_arith)
            requires
                width <= 0xffff_ffff,
                height <= 0xffff_ffff,
        ;
        let pixel_count: u64 = (width as u64) * (height as u64);
        let length: u64 = raw_pixels.len() as u64;
        if length % 4 != 0 || length / 4 != pixel_count {
            return Err(DecodeError::InvalidPixelBuffer);
        }
        Ok(Bitmap { width, height, pixels: raw_pixels })
    }

    /// Takes what the clipboard holds as an image. The clipboard reports the
    /// dimensions as `usize`; an image whose dimensions do not fit in 32 bits
    /// is refused like any other malformed buffer.
    pub fn from_clipboard(width: usize, height: usize, bytes: Vec<u8>) -> (decoded: Result<
        Bitmap,
        DecodeError,
    >)
        ensures
            decoded is Ok <==> width <= u32::MAX && height <= u32::MAX && is_pixel_buffer(
                bytes@,
                width as nat,
                height as nat,
            ),
            decoded matches Ok(bitmap) ==> bitmap@ == (BitmapView {
                width: width as nat,
                height: height as nat,
                pixels: bytes@,
            }),
            decoded matches Err(e) ==> e == DecodeError::InvalidPixelBuffer,
    {
        if width > 0xffff_ffff || height > 0xffff_ffff {
            return Err(DecodeError::InvalidPixelBuffer);
        }
        Bitmap::decode(bytes, width as u32, height as u32)
    }

    /// The width in pixels.
    pub fn width(&self) -> (width: u32)
        ensures
            width == self@.width,
            self@.valid(),
    {
        proof {
            use_type_invariant(self);
        }
        self.width
    }

    /// The height in pixels.
    pub fn height(&self) -> (height: u32)
        ensures
            height == self@.height,
            self@.valid(),
    {
        proof {
            use_type_invariant(self);
        }
        self.height
    }

    /// The RGBA bytes, row by row.
    pub fn pixels(&self) -> (pixels: &Vec<u8>)
        ensures
            pixels@ == self@.pixels,
            self@.valid(),
    {
        proof {
            use_type_invariant(self);
        }
        &self.pixels
    }

    /// Gives the buffer back.
    pub fn into_raw(self) -> (pixels: Vec<u8>)
        ensures
            pixels@ == self@.pixels,
            self@.valid(),
    {
        proof {
            use_type_invariant(&self);
        }
        self.pixels
    }
}

} // verus!
