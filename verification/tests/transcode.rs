use avif_batch::error::ConvertError;
use avif_batch::extension::ImageKind;
use avif_batch::transcode::{
    convert_to_avif, encode_request, pack_pixels, Pixel, Raster, QUALITY, SPEED,
};
use image::{DynamicImage, ImageFormat, Rgb, RgbImage, Rgba, RgbaImage};
use std::io::Cursor;

fn encoded(image: DynamicImage, format: ImageFormat) -> Vec<u8> {
    let mut bytes: Vec<u8> = Vec::new();
    image.write_to(&mut Cursor::new(&mut bytes), format).unwrap();
    bytes
}

/// The width and height that an AVIF file declares for its image.
fn declared_size(bytes: &[u8]) -> (u32, u32) {
    let at = bytes.windows(4).position(|window| window == b"ispe").expect("an image size box");
    let width = u32::from_be_bytes([bytes[at + 8], bytes[at + 9], bytes[at + 10], bytes[at + 11]]);
    let height = u32::from_be_bytes([bytes[at + 12], bytes[at + 13], bytes[at + 14], bytes[at + 15]]);
    (width, height)
}

fn is_avif(bytes: &[u8]) -> bool {
    bytes.len() > 12 && &bytes[4..8] == b"ftyp" && &bytes[8..12] == b"avif"
}

#[test]
fn operating_point() {
    assert_eq!(QUALITY, 80);
    assert_eq!(SPEED, 6);
}

#[test]
fn pixels_of_a_tightly_packed_raster() {
    let raster = Raster { width: 2, height: 1, samples: vec![1, 2, 3, 4, 5, 6, 7, 8] };
    let expected = vec![Pixel { r: 1, g: 2, b: 3, a: 4 }, Pixel { r: 5, g: 6, b: 7, a: 8 }];
    assert_eq!(pack_pixels(&raster), Some(expected));
}

#[test]
fn pixels_of_an_empty_raster() {
    let raster = Raster { width: 0, height: 5, samples: Vec::new() };
    assert_eq!(pack_pixels(&raster), Some(Vec::new()));
}

#[test]
fn pixels_need_four_samples_each() {
    for samples in [vec![], vec![1, 2, 3, 4], vec![1, 2, 3, 4, 5, 6, 7], vec![0; 9], vec![0; 12]] {
        let raster = Raster { width: 2, height: 1, samples };
        assert_eq!(pack_pixels(&raster), None);
    }
    let padded_rows = Raster { width: 1, height: 2, samples: vec![0; 16] };
    assert_eq!(pack_pixels(&padded_rows), None);
    let huge = Raster { width: u32::MAX, height: u32::MAX, samples: vec![0; 4] };
    assert_eq!(pack_pixels(&huge), None);
}

#[test]
fn converts_a_png() {
    let mut image = RgbaImage::new(5, 3);
    image.put_pixel(1, 1, Rgba([200, 100, 50, 128]));
    let source = encoded(DynamicImage::ImageRgba8(image), ImageFormat::Png);
    let converted = convert_to_avif(&source, ImageKind::Png).unwrap();
    assert!(is_avif(&converted));
    assert_ne!(converted, source);
    assert_eq!(declared_size(&converted), (5, 3));
}

#[test]
fn converted_image_keeps_the_size_of_the_source() {
    for (width, height) in [(1u32, 1u32), (1, 7), (16, 2), (33, 17)] {
        let image = RgbImage::from_pixel(width, height, Rgb([90, 80, 70]));
        let source = encoded(DynamicImage::ImageRgb8(image), ImageFormat::Png);
        let converted = convert_to_avif(&source, ImageKind::Png).unwrap();
        assert_eq!(declared_size(&converted), (width, height));
    }
}

#[test]
fn converts_a_jpeg() {
    let image = RgbImage::from_pixel(8, 8, Rgb([10, 200, 30]));
    let source = encoded(DynamicImage::ImageRgb8(image), ImageFormat::Jpeg);
    assert!(is_avif(&convert_to_avif(&source, ImageKind::Jpeg).unwrap()));
}

#[test]
fn converts_a_tiff() {
    let image = RgbImage::from_pixel(3, 4, Rgb([1, 2, 3]));
    let source = encoded(DynamicImage::ImageRgb8(image), ImageFormat::Tiff);
    assert!(is_avif(&convert_to_avif(&source, ImageKind::Tiff).unwrap()));
}

#[test]
fn corrupt_input_fails_to_decode() {
    assert_eq!(convert_to_avif(&[], ImageKind::Jpeg), Err(ConvertError::DecodeFailure));
    assert_eq!(convert_to_avif(b"not an image", ImageKind::Png), Err(ConvertError::DecodeFailure));
    let image = RgbImage::from_pixel(8, 8, Rgb([10, 200, 30]));
    let mut source = encoded(DynamicImage::ImageRgb8(image), ImageFormat::Png);
    source.truncate(source.len() / 2);
    assert_eq!(convert_to_avif(&source, ImageKind::Png), Err(ConvertError::DecodeFailure));
}

#[test]
fn the_extension_decides_the_decoder() {
    let image = RgbImage::from_pixel(4, 4, Rgb([10, 200, 30]));
    let source = encoded(DynamicImage::ImageRgb8(image), ImageFormat::Png);
    assert_eq!(convert_to_avif(&source, ImageKind::Jpeg), Err(ConvertError::DecodeFailure));
    assert_eq!(convert_to_avif(&source, ImageKind::Tiff), Err(ConvertError::DecodeFailure));
    assert!(convert_to_avif(&source, ImageKind::Png).is_ok());
}

#[test]
fn request_keeps_the_image_and_sets_the_operating_point() {
    let raster = Raster { width: 1, height: 2, samples: vec![1, 2, 3, 4, 5, 6, 7, 8] };
    let request = encode_request(&raster).unwrap();
    assert_eq!(request.pixels, vec![Pixel { r: 1, g: 2, b: 3, a: 4 }, Pixel { r: 5, g: 6, b: 7, a: 8 }]);
    assert_eq!(request.width, 1);
    assert_eq!(request.height, 2);
    assert_eq!(request.quality, 80);
    assert_eq!(request.speed, 6);
}

#[test]
fn request_needs_a_tightly_packed_image_with_pixels() {
    let loose = Raster { width: 2, height: 1, samples: vec![0; 9] };
    assert_eq!(encode_request(&loose).unwrap_err(), ConvertError::DecodeFailure);
    let empty = Raster { width: 0, height: 3, samples: Vec::new() };
    assert_eq!(encode_request(&empty).unwrap_err(), ConvertError::EncodeFailure);
    let flat = Raster { width: 3, height: 0, samples: Vec::new() };
    assert_eq!(encode_request(&flat).unwrap_err(), ConvertError::EncodeFailure);
    let loose_and_empty = Raster { width: 0, height: 0, samples: vec![0; 4] };
    assert_eq!(encode_request(&loose_and_empty).unwrap_err(), ConvertError::DecodeFailure);
}
