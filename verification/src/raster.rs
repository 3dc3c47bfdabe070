//! The trusted boundary to the raster codec (the `image` crate).
//!
//! A decoded image travels as an opaque `image::DynamicImage`; `raster_view`
//! names its dimensions, channel count and samples, and each wrapper states
//! over that view what the codec's source shows of the one call it makes.

use vstd::prelude::*;

verus! {

#[verifier::external_type_specification]
#[verifier::external_body]
pub struct ExDynamicImage(image::DynamicImage);

/// What a raster image holds: its dimensions, its channel count, and its
/// samples in row-major order.
pub struct RasterShape {
    pub width: int,
    pub height: int,
    pub channels: int,
    pub samples: Seq<u8>,
}

/// The pixel content of a decoded raster image.
pub uninterp spec fn raster_view(img: image::DynamicImage) -> RasterShape;

/// What the raster decoder makes of a byte buffer: the decoded pixel
/// content, or nothing where the bytes are not a decodable image. Decoding
/// guesses the format from the bytes alone, so the result is a function of
/// them.
pub uninterp spec fn decoded_of(data: Seq<u8>) -> Option<RasterShape>;

/// What the JPEG encoder emits for a pixel content at a quality, or nothing
/// where the format cannot carry it (a zero dimension, a side above 65535,
/// or a non-8-bit layout). Deterministic in the pixels and the quality.
pub uninterp spec fn jpeg_of(img: RasterShape, quality: u8) -> Option<Seq<u8>>;

/// Relies on `image::ImageReader`: guesses the container format from the
/// bytes and decodes them into pixels; fails on bytes that are not a
/// decodable image.
#[verifier::external_body]
pub(crate) fn decode_raster(data: &[u8]) -> (r: Option<image::DynamicImage>)
    ensures
        r is Some <==> decoded_of(data@) is Some,
        r matches Some(img) ==> Some(raster_view(img)) == decoded_of(data@),
{
    let reader = match image::ImageReader::new(std::io::Cursor::new(data)).with_guessed_format() {
        Ok(rd) => rd,
        Err(_) => return None,
    };
    reader.decode().ok()
}

/// Relies on `image::RgbImage::from_raw`: a buffer of exactly
/// `width * height * 3` samples always forms a three-channel image.
#[verifier::external_body]
pub(crate) fn rgb_raster(w: u32, h: u32, data: Vec<u8>) -> (r: Option<image::DynamicImage>)
    requires
        data@.len() == w * h * 3,
    ensures
        r is Some,
        r matches Some(img) ==> raster_view(img) == (RasterShape {
            width: w as int,
            height: h as int,
            channels: 3,
            samples: data@,
        }),
{
    image::RgbImage::from_raw(w, h, data).map(image::DynamicImage::ImageRgb8)
}

/// Relies on `image::GrayImage::from_raw`: a buffer of exactly
/// `width * height` samples always forms a single-channel image.
#[verifier::external_body]
pub(crate) fn gray_raster(w: u32, h: u32, data: Vec<u8>) -> (r: Option<image::DynamicImage>)
    requires
        data@.len() == w * h,
    ensures
        r is Some,
        r matches Some(img) ==> raster_view(img) == (RasterShape {
            width: w as int,
            height: h as int,
            channels: 1,
            samples: data@,
        }),
{
    image::GrayImage::from_raw(w, h, data).map(image::DynamicImage::ImageLuma8)
}

/// Relies on `DynamicImage::width` and `height`.
#[verifier::external_body]
pub(crate) fn raster_dims(img: &image::DynamicImage) -> (r: (u32, u32))
    ensures
        r.0 as int == raster_view(*img).width,
        r.1 as int == raster_view(*img).height,
{
    (img.width(), img.height())
}

/// Relies on `DynamicImage::to_rgb8`: re-expresses the pixels in three
/// eight-bit channels, keeping the dimensions.
#[verifier::external_body]
pub(crate) fn to_rgb_raster(img: &image::DynamicImage) -> (r: image::DynamicImage)
    ensures
        raster_view(r).width == raster_view(*img).width,
        raster_view(r).height == raster_view(*img).height,
        raster_view(r).channels == 3,
{
    image::DynamicImage::ImageRgb8(img.to_rgb8())
}

/// Relies on `DynamicImage::resize_exact` with the Lanczos3 kernel (an
/// area-quality resampling filter, as the resize policy demands): returns an
/// image of exactly the requested dimensions with the channel layout kept.
#[verifier::external_body]
pub(crate) fn resize_raster(img: &image::DynamicImage, nw: u32, nh: u32) -> (r:
    image::DynamicImage)
    requires
        1 <= nw,
        1 <= nh,
    ensures
        raster_view(r).width == nw as int,
        raster_view(r).height == nh as int,
        raster_view(r).channels == raster_view(*img).channels,
{
    img.resize_exact(nw, nh, image::imageops::FilterType::Lanczos3)
}

/// Relies on `JpegEncoder::new_with_quality` and `encode`: emits the image as
/// JPEG at the given quality, failing only where the format cannot carry the
/// image (a zero dimension, a side above 65535, or a non-8-bit layout).
#[verifier::external_body]
pub(crate) fn encode_jpeg(img: &image::DynamicImage, quality: u8) -> (r: Option<Vec<u8>>)
    requires
        1 <= quality <= 100,
        raster_view(*img).channels == 3,
    ensures
        r is Some <==> jpeg_of(raster_view(*img), quality) is Some,
        r matches Some(v) ==> Some(v@) == jpeg_of(raster_view(*img), quality),
{
    let mut out: Vec<u8> = Vec::new();
    let mut enc = image::codecs::jpeg::JpegEncoder::new_with_quality(&mut out, quality);
    match enc.encode(img.as_bytes(), img.width(), img.height(), img.color().into()) {
        Ok(()) => Some(out),
        Err(_) => None,
    }
}

} // verus!
