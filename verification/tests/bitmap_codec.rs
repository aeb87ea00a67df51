use image_pathifier::bitmap::{Bitmap, DecodeError};
use image_pathifier::codec::{
    accept_encoding, decode_stored, encode_lossless, same_bytes, same_image, CodecError,
    STORED_FILE_ALLOCATION_LIMIT,
};
use image_pathifier::naming::StoredFormat;

fn gradient(width: u32, height: u32) -> Vec<u8> {
    let mut pixels = Vec::new();
    for y in 0..height {
        for x in 0..width {
            pixels.push((x * 7 + y * 13) as u8);
            pixels.push((x * 31 + y) as u8);
            pixels.push((x ^ y) as u8);
            pixels.push((255 - x - y) as u8);
        }
    }
    pixels
}

#[test]
fn buffer_of_matching_length_is_taken_as_it_is() {
    let pixels = gradient(3, 2);
    let bitmap = Bitmap::decode(pixels.clone(), 3, 2).unwrap();
    assert_eq!(bitmap.width(), 3);
    assert_eq!(bitmap.height(), 2);
    assert_eq!(bitmap.pixels(), &pixels);
    assert_eq!(bitmap.into_raw(), pixels);
}

#[test]
fn buffer_of_other_length_is_refused() {
    assert_eq!(Bitmap::decode(vec![0; 23], 3, 2), Err(DecodeError::InvalidPixelBuffer));
    assert_eq!(Bitmap::decode(vec![0; 25], 3, 2), Err(DecodeError::InvalidPixelBuffer));
    assert_eq!(Bitmap::decode(vec![0; 28], 3, 2), Err(DecodeError::InvalidPixelBuffer));
    assert_eq!(Bitmap::decode(vec![], 3, 2), Err(DecodeError::InvalidPixelBuffer));
    assert_eq!(Bitmap::decode(vec![0; 6], 3, 2), Err(DecodeError::InvalidPixelBuffer));
}

#[test]
fn empty_images_are_refused() {
    assert_eq!(Bitmap::decode(vec![], 0, 0), Err(DecodeError::InvalidPixelBuffer));
    assert_eq!(Bitmap::decode(vec![], 0, 5), Err(DecodeError::InvalidPixelBuffer));
    assert_eq!(Bitmap::decode(vec![], 5, 0), Err(DecodeError::InvalidPixelBuffer));
}

#[test]
fn dimensions_whose_product_wraps_are_refused() {
    // 65536 * 65536 * 4 is 0 modulo 2^32 and modulo 2^34.
    assert_eq!(Bitmap::decode(vec![], 65536, 65536), Err(DecodeError::InvalidPixelBuffer));
    assert_eq!(
        Bitmap::decode(vec![0; 4], u32::MAX, u32::MAX),
        Err(DecodeError::InvalidPixelBuffer)
    );
}

#[test]
fn clipboard_image_is_taken_like_any_buffer() {
    let pixels = gradient(4, 4);
    let bitmap = Bitmap::from_clipboard(4, 4, pixels.clone()).unwrap();
    assert_eq!((bitmap.width(), bitmap.height()), (4, 4));
    assert_eq!(bitmap.pixels(), &pixels);
    assert_eq!(Bitmap::from_clipboard(4, 3, pixels), Err(DecodeError::InvalidPixelBuffer));
    assert_eq!(Bitmap::from_clipboard(0, 0, vec![]), Err(DecodeError::InvalidPixelBuffer));
}

#[test]
fn clipboard_dimensions_beyond_32_bits_are_refused() {
    if usize::BITS > 32 {
        let wide = (u32::MAX as usize) + 1;
        assert_eq!(Bitmap::from_clipboard(wide, 1, vec![0; 4]), Err(DecodeError::InvalidPixelBuffer));
        assert_eq!(Bitmap::from_clipboard(1, wide, vec![0; 4]), Err(DecodeError::InvalidPixelBuffer));
    }
}

#[test]
fn clone_is_the_same_image() {
    let bitmap = Bitmap::decode(gradient(5, 3), 5, 3).unwrap();
    let copy = bitmap.clone();
    assert_eq!(copy, bitmap);
    assert!(same_image(&copy, &bitmap));
}

#[test]
fn encoding_reads_back_pixel_for_pixel() {
    for (width, height) in [(1u32, 1u32), (2, 3), (16, 9), (64, 64), (1, 200), (257, 3)] {
        let pixels = gradient(width, height);
        let bitmap = Bitmap::decode(pixels.clone(), width, height).unwrap();
        let encoded = encode_lossless(&bitmap).unwrap();
        let read_back = decode_stored(&encoded, StoredFormat::Png, None).unwrap();
        assert_eq!(read_back.width(), width);
        assert_eq!(read_back.height(), height);
        assert_eq!(read_back.pixels(), &pixels);
        assert_eq!(read_back, bitmap);
    }
}

#[test]
fn encoding_is_a_png_file() {
    let pixels = gradient(8, 8);
    let bitmap = Bitmap::decode(pixels.clone(), 8, 8).unwrap();
    let encoded = encode_lossless(&bitmap).unwrap();
    assert_eq!(&encoded[..8], &[0x89, b'P', b'N', b'G', 0x0d, 0x0a, 0x1a, 0x0a]);
    assert_ne!(encoded, pixels);
}

#[test]
fn encoding_is_what_the_image_crate_reads() {
    let pixels = gradient(10, 7);
    let bitmap = Bitmap::decode(pixels.clone(), 10, 7).unwrap();
    let encoded = encode_lossless(&bitmap).unwrap();
    let read = image::load_from_memory(&encoded).unwrap();
    assert_eq!(read.color(), image::ColorType::Rgba8);
    assert_eq!((read.width(), read.height()), (10, 7));
    assert_eq!(read.into_rgba8().into_raw(), pixels);
}

#[test]
fn encoding_is_the_same_each_time() {
    let bitmap = Bitmap::decode(gradient(12, 12), 12, 12).unwrap();
    assert_eq!(encode_lossless(&bitmap).unwrap(), encode_lossless(&bitmap).unwrap());
}

#[test]
fn fully_transparent_pixels_keep_their_colour() {
    let pixels = vec![10, 20, 30, 0, 200, 100, 50, 0];
    let bitmap = Bitmap::decode(pixels.clone(), 2, 1).unwrap();
    let encoded = encode_lossless(&bitmap).unwrap();
    assert_eq!(decode_stored(&encoded, StoredFormat::Png, None).unwrap().into_raw(), pixels);
}

#[test]
fn garbage_is_not_decoded() {
    match decode_stored(&vec![1, 2, 3, 4, 5], StoredFormat::Png, None) {
        Err(CodecError::Decoding { message }) => assert!(!message.is_empty()),
        other => panic!("unexpected {:?}", other),
    }
    match decode_stored(&vec![], StoredFormat::Jpeg, None) {
        Err(CodecError::Decoding { .. }) => {}
        other => panic!("unexpected {:?}", other),
    }
}

#[test]
fn png_is_not_decoded_as_jpeg() {
    let bitmap = Bitmap::decode(gradient(4, 4), 4, 4).unwrap();
    let encoded = encode_lossless(&bitmap).unwrap();
    assert!(matches!(
        decode_stored(&encoded, StoredFormat::Jpeg, None),
        Err(CodecError::Decoding { .. })
    ));
}

#[test]
fn truncated_png_is_not_decoded() {
    let bitmap = Bitmap::decode(gradient(32, 32), 32, 32).unwrap();
    let mut encoded = encode_lossless(&bitmap).unwrap();
    encoded.truncate(encoded.len() / 2);
    assert!(matches!(
        decode_stored(&encoded, StoredFormat::Png, None),
        Err(CodecError::Decoding { .. })
    ));
}

#[test]
fn decoder_is_held_to_its_bound() {
    let bitmap = Bitmap::decode(gradient(64, 64), 64, 64).unwrap();
    let encoded = encode_lossless(&bitmap).unwrap();
    assert_eq!(STORED_FILE_ALLOCATION_LIMIT, 512 * 1024 * 1024);
    assert_eq!(
        decode_stored(&encoded, StoredFormat::Png, Some(STORED_FILE_ALLOCATION_LIMIT)).unwrap(),
        bitmap
    );
    assert!(matches!(
        decode_stored(&encoded, StoredFormat::Png, Some(64 * 64)),
        Err(CodecError::Decoding { .. })
    ));
    assert!(matches!(
        decode_stored(&encoded, StoredFormat::Png, Some(0)),
        Err(CodecError::Decoding { .. })
    ));
    assert_eq!(decode_stored(&encoded, StoredFormat::Png, None).unwrap(), bitmap);
}

#[test]
fn jpeg_files_are_decoded_to_rgba() {
    let rgb = image::RgbImage::from_pixel(8, 6, image::Rgb([200, 30, 30]));
    let mut file = std::io::Cursor::new(Vec::new());
    image::DynamicImage::ImageRgb8(rgb).write_to(&mut file, image::ImageFormat::Jpeg).unwrap();
    let decoded = decode_stored(&file.into_inner(), StoredFormat::Jpeg, None).unwrap();
    assert_eq!((decoded.width(), decoded.height()), (8, 6));
    assert_eq!(decoded.pixels().len(), 8 * 6 * 4);
    for pixel in decoded.pixels().chunks(4) {
        assert!(pixel[0] > 150 && pixel[1] < 90 && pixel[2] < 90);
        assert_eq!(pixel[3], 255);
    }
}

#[test]
fn grey_png_is_decoded_to_rgba() {
    let grey = image::GrayImage::from_pixel(3, 3, image::Luma([77]));
    let mut file = std::io::Cursor::new(Vec::new());
    image::DynamicImage::ImageLuma8(grey).write_to(&mut file, image::ImageFormat::Png).unwrap();
    let decoded = decode_stored(&file.into_inner(), StoredFormat::Png, None).unwrap();
    assert_eq!(decoded.into_raw(), [77u8, 77, 77, 255].repeat(9));
}

#[test]
fn encoding_is_accepted_only_if_it_reads_back_as_the_image() {
    let image = Bitmap::decode(gradient(2, 2), 2, 2).unwrap();
    let same = image.clone();
    let other = Bitmap::decode(vec![0; 16], 2, 2).unwrap();
    let resized = Bitmap::decode(gradient(2, 2), 1, 4).unwrap();
    let encoded = vec![9u8, 8, 7];
    assert_eq!(accept_encoding(&image, encoded.clone(), Some(&same)), Ok(encoded.clone()));
    assert_eq!(accept_encoding(&image, encoded.clone(), Some(&other)), Err(CodecError::NotLossless));
    assert_eq!(accept_encoding(&image, encoded.clone(), Some(&resized)), Err(CodecError::NotLossless));
    assert_eq!(accept_encoding(&image, encoded, None), Err(CodecError::NotLossless));
}

#[test]
fn bytes_and_images_are_compared_by_content() {
    assert!(same_bytes(&vec![], &vec![]));
    assert!(same_bytes(&vec![1, 2, 3], &vec![1, 2, 3]));
    assert!(!same_bytes(&vec![1, 2, 3], &vec![1, 2, 4]));
    assert!(!same_bytes(&vec![1, 2, 3], &vec![1, 2]));
    assert!(!same_bytes(&vec![], &vec![0]));
    let a = Bitmap::decode(vec![1; 8], 2, 1).unwrap();
    let b = Bitmap::decode(vec![1; 8], 1, 2).unwrap();
    let c = Bitmap::decode(vec![1, 1, 1, 1, 1, 1, 1, 2], 2, 1).unwrap();
    assert!(same_image(&a, &a.clone()));
    assert!(!same_image(&a, &b));
    assert!(!same_image(&a, &c));
}
