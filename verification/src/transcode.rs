//! From the bytes of a source image to the bytes of an AVIF file.

use crate::error::ConvertError;
use crate::extension::ImageKind;
use image::{ImageFormat, ImageReader};
use ravif::{Encoder, Img, RGBA8};
use std::io::Cursor;
use vstd::prelude::*;

verus! {

/// Quality of the encoding, on the encoder's scale from 1 to 100.
pub const QUALITY: u8 = 80;

/// Speed of the encoding, on the encoder's scale from 1 (slow) to 10 (fast).
pub const SPEED: u8 = 6;

/// One pixel: red, green, blue and alpha, a byte each.
#[derive(Clone, Copy, Debug, PartialEq, Eq, Structural)]
pub struct Pixel {
    pub r: u8,
    pub g: u8,
    pub b: u8,
    pub a: u8,
}

/// A decoded image: its size in pixels, and its samples row by row from the
/// top, four bytes to a pixel.
#[derive(Debug)]
pub struct Raster {
    pub width: u32,
    pub height: u32,
    pub samples: Vec<u8>,
}

impl View for Raster {
    type V = (u32, u32, Seq<u8>);

    open spec fn view(&self) -> (u32, u32, Seq<u8>) {
        (self.width, self.height, self.samples@)
    }
}

/// What the image crate decodes from the bytes of a file of the given kind,
/// converted to eight-bit RGBA: width, height and samples, or `None` where
/// it reports an error.
pub uninterp spec fn decoded_image(bytes: Seq<u8>, kind: ImageKind) -> Option<(u32, u32, Seq<u8>)>;

/// Decodes an image with the image crate's `ImageReader::decode` and
/// converts it with `DynamicImage::to_rgba8`.
///
/// Trusted: the result is what the crate returns for these bytes read as
/// the given format; nothing is claimed of how many samples there are.
#[verifier::external_body]
fn decode_rgba(bytes: &[u8], kind: ImageKind) -> (r: Option<Raster>)
    ensures
        match r {
            Some(raster) => decoded_image(bytes@, kind) == Some(raster@),
            None => decoded_image(bytes@, kind) is None,
        },
{
    let format = match kind {
        ImageKind::Jpeg => ImageFormat::Jpeg,
        ImageKind::Png => ImageFormat::Png,
        ImageKind::Tiff => ImageFormat::Tiff,
    };
    match ImageReader::with_format(Cursor::new(bytes), format).decode() {
        Ok(image) => {
            let rgba = image.to_rgba8();
            Some(Raster { width: rgba.width(), height: rgba.height(), samples: rgba.into_raw() })
        },
        Err(_) => None,
    }
}

/// The samples fill the image exactly: rows of four bytes to a pixel with
/// nothing between or after them.
pub open spec fn tightly_packed(width: u32, height: u32, samples: Seq<u8>) -> bool {
    samples.len() == 4 * (width * height)
}

/// The pixels that a sequence of samples holds, four bytes to each.
pub open spec fn pixels_of(samples: Seq<u8>) -> Seq<Pixel> {
    Seq::new(
        samples.len() / 4,
        |i: int|
            Pixel {
                r: samples[4 * i],
                g: samples[4 * i + 1],
                b: samples[4 * i + 2],
                a: samples[4 * i + 3],
            },
    )
}

/// Groups the samples of an image into pixels, after checking that they
/// fill the image exactly.
pub fn pack_pixels(raster: &Raster) -> (r: Option<Vec<Pixel>>)
    ensures
        match r {
            Some(pixels) => tightly_packed(raster.width, raster.height, raster.samples@)
                && pixels@ == pixels_of(raster.samples@) && pixels@.len() == raster.width
                * raster.height,
            None => !tightly_packed(raster.width, raster.height, raster.samples@),
        },
{
    let len = raster.samples.len();
    assert(raster.width * raster.height <= 0xffff_ffff * 0xffff_ffff) by (nonlinear_arith)
        requires
            raster.width <= 0xffff_ffff,
            raster.height <= 0xffff_ffff,
    ;
    let area: u64 = raster.width as u64 * raster.height as u64;
    if len % 4 != 0 || (len / 4) as u64 != area {
        return None;
    }
    let count = len / 4;
    let mut pixels: Vec<Pixel> = Vec::new();
    let mut i: usize = 0;
    while i < count
        invariant
            i <= count,
            count * 4 == len,
            len == raster.samples@.len(),
            pixels@.len() == i,
            forall|j: int| 0 <= j < i ==> #[trigger] pixels@[j] == pixels_of(raster.samples@)[j],
        decreases count - i,
    {
        let pixel = Pixel {
            r: raster.samples[4 * i],
            g: raster.samples[4 * i + 1],
            b: raster.samples[4 * i + 2],
            a: raster.samples[4 * i + 3],
        };
        pixels.push(pixel);
        i += 1;
    }
    assert(pixels@ =~= pixels_of(raster.samples@));
    Some(pixels)
}

/// What the encoder is asked for: the pixels of an image, its size, and the
/// quality and speed of the encoding.
#[derive(Debug)]
pub struct EncodeRequest {
    pub pixels: Vec<Pixel>,
    pub width: u32,
    pub height: u32,
    pub quality: u8,
    pub speed: u8,
}

/// Prepares the encoding of a decoded image: groups its samples into
/// pixels, keeps its size, and sets quality 80 and speed 6.
///
/// An image whose samples do not fill it exactly is a decoding failure. An
/// image without pixels is an encoding failure: there is nothing to encode.
pub fn encode_request(raster: &Raster) -> (r: Result<EncodeRequest, ConvertError>)
    ensures
        match r {
            Ok(request) => tightly_packed(raster.width, raster.height, raster.samples@)
                && raster.width > 0 && raster.height > 0 && request.pixels@ == pixels_of(
                raster.samples@,
            ) && request.pixels@.len() == raster.width * raster.height && request.width
                == raster.width && request.height == raster.height && request.quality == QUALITY
                && request.speed == SPEED,
            Err(error) => if !tightly_packed(raster.width, raster.height, raster.samples@) {
                error == ConvertError::DecodeFailure
            } else {
                error == ConvertError::EncodeFailure && (raster.width == 0 || raster.height == 0)
            },
        },
{
    let pixels = match pack_pixels(raster) {
        Some(pixels) => pixels,
        None => {
            return Err(ConvertError::DecodeFailure);
        },
    };
    if raster.width == 0 || raster.height == 0 {
        return Err(ConvertError::EncodeFailure);
    }
    Ok(
        EncodeRequest {
            pixels,
            width: raster.width,
            height: raster.height,
            quality: QUALITY,
            speed: SPEED,
        },
    )
}

/// Whether the bytes begin as an AVIF file does: with a file-type box, the
/// letters `ftyp` in the fifth to eighth byte, of the brand `avif`, in the
/// four bytes after them.
pub open spec fn avif_header(file: Seq<u8>) -> bool {
    &&& file.len() > 12
    &&& file[4] == 0x66 && file[5] == 0x74 && file[6] == 0x79 && file[7] == 0x70
    &&& file[8] == 0x61 && file[9] == 0x76 && file[10] == 0x69 && file[11] == 0x66
}

/// Encodes an image as an AVIF file with ravif's `Encoder::encode_rgba`,
/// at the quality and speed of the request.
///
/// Trusted: the call returns for an image of at least one pixel whose
/// buffer holds a pixel for every place, and a file that it returns begins
/// with the file-type box of brand `avif`. The rest of the file depends on
/// the machine as well as on the request, so no more is claimed of it.
#[verifier::external_body]
fn encode_avif(request: &EncodeRequest) -> (r: Option<Vec<u8>>)
    requires
        request.width >= 1,
        request.height >= 1,
        request.pixels@.len() == request.width * request.height,
        1 <= request.quality <= 100,
        1 <= request.speed <= 10,
    ensures
        r matches Some(file) ==> avif_header(file@),
{
    let rgba: Vec<RGBA8> = request.pixels.iter().map(|p| RGBA8::new(p.r, p.g, p.b, p.a)).collect();
    let encoder = Encoder::new().with_quality(request.quality.into()).with_speed(request.speed);
    let image = Img::new(&rgba[..], request.width as usize, request.height as usize);
    match encoder.encode_rgba(image) {
        Ok(encoded) => Some(encoded.avif_file),
        Err(_) => None,
    }
}

/// What the conversion of a source is bound to give, as far as the decoder
/// decides it: a decoding failure for bytes that do not decode or whose
/// samples do not fill the image, an encoding failure for an image without
/// pixels, and nothing where the encoder has the last word.
pub open spec fn conversion_verdict(bytes: Seq<u8>, kind: ImageKind) -> Option<ConvertError> {
    match decoded_image(bytes, kind) {
        None => Some(ConvertError::DecodeFailure),
        Some((width, height, samples)) => if !tightly_packed(width, height, samples) {
            Some(ConvertError::DecodeFailure)
        } else if width == 0 || height == 0 {
            Some(ConvertError::EncodeFailure)
        } else {
            None
        },
    }
}

/// Converts the bytes of a source image of the given kind to the bytes of
/// an AVIF file.
///
/// Fails with the verdict where there is one. Otherwise the encoder decides:
/// the result is its file, which begins as an AVIF file does, or an encoding
/// failure.
pub fn convert_to_avif(bytes: &[u8], kind: ImageKind) -> (r: Result<Vec<u8>, ConvertError>)
    ensures
        match conversion_verdict(bytes@, kind) {
            Some(error) => r is Err && r->Err_0 == error,
            None => match r {
                Ok(file) => avif_header(file@),
                Err(error) => error == ConvertError::EncodeFailure,
            },
        },
{
    let raster = match decode_rgba(bytes, kind) {
        Some(raster) => raster,
        None => {
            return Err(ConvertError::DecodeFailure);
        },
    };
    let request = match encode_request(&raster) {
        Ok(request) => request,
        Err(error) => {
            return Err(error);
        },
    };
    match encode_avif(&request) {
        Some(file) => Ok(file),
        None => Err(ConvertError::EncodeFailure),
    }
}

} // verus!
