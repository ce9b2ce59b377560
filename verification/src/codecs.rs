//! The encoders the library calls, all working on bytes in memory: image's
//! baseline JPEG encoder and its file writers, oxipng's lossless PNG
//! optimizer and libwebp's lossless encoder.
use vstd::prelude::*;
use image::{DynamicImage, GrayImage, ImageFormat, RgbImage, RgbaImage};

verus! {

#[verifier::external_type_specification]
#[verifier::external_body]
pub struct ExImageError(image::ImageError);

#[verifier::external_type_specification]
#[verifier::external_body]
pub struct ExPngError(oxipng::PngError);

/// The optimizer preset: oxipng's default level or its maximum compression.
#[derive(Clone, Copy, Debug, PartialEq, Eq, Structural)]
pub enum PngPreset {
    Standard,
    Max,
}

/// Interlacing written into the optimized PNG.
#[derive(Clone, Copy, Debug, PartialEq, Eq, Structural)]
pub enum PngInterlace {
    NoInterlace,
    Adam7,
}

/// The JPEG file image's encoder writes for 8-bit RGB pixels, `None` when it
/// refuses the dimensions.
pub uninterp spec fn jpeg_output(rgb: Seq<u8>, width: u32, height: u32, quality: u8) -> Option<Seq<u8>>;

/// The bytes oxipng produces for a PNG file and options, `None` on error.
pub uninterp spec fn oxipng_output(png: Seq<u8>, preset: PngPreset, interlace: PngInterlace) -> Option<
    Seq<u8>,
>;

/// Whether `b` begins with the eight-byte PNG signature.
pub open spec fn has_png_signature(b: Seq<u8>) -> bool {
    b.len() >= 8 && b.take(8) == seq![0x89u8, 0x50u8, 0x4Eu8, 0x47u8, 0x0Du8, 0x0Au8, 0x1Au8, 0x0Au8]
}

/// Calls image's `JpegEncoder::new_with_quality(..).encode(.., Rgb8)` into a
/// buffer. The encoder panics unless the buffer holds exactly `width * height`
/// RGB pixels, so that is required. It refuses a width or height of 0 or above
/// 65535 and otherwise succeeds (writing to memory cannot fail); its output
/// starts with the start-of-image marker `FF D8`. The remaining bytes are
/// named by `jpeg_output`.
#[verifier::external_body]
pub(crate) fn encode_jpeg_rgb(rgb: &[u8], width: u32, height: u32, quality: u8) -> (res: Result<
    Vec<u8>,
    image::ImageError,
>)
    requires
        rgb@.len() == width as nat * height as nat * 3,
    ensures
        res is Ok <==> (1 <= width <= 65535 && 1 <= height <= 65535),
        match res {
            Ok(v) => jpeg_output(rgb@, width, height, quality) == Some(v@) && v@.len() >= 2 && v@[0]
                == 0xFFu8 && v@[1] == 0xD8u8,
            Err(_) => jpeg_output(rgb@, width, height, quality) is None,
        },
{
    let mut buffer = Vec::new();
    let mut cursor = std::io::Cursor::new(&mut buffer);
    let mut encoder = image::codecs::jpeg::JpegEncoder::new_with_quality(&mut cursor, quality);
    encoder.encode(rgb, width, height, image::ExtendedColorType::Rgb8)?;
    Ok(buffer)
}

/// Calls oxipng's `optimize_from_memory` with `Options::default()` or
/// `Options::max_compression()` and the given interlacing. Input without the
/// PNG signature is refused (oxipng checks it first); the output is named by
/// `oxipng_output`.
#[verifier::external_body]
pub(crate) fn optimize_png(png: &[u8], preset: PngPreset, interlace: PngInterlace) -> (res: Result<
    Vec<u8>,
    oxipng::PngError,
>)
    ensures
        !has_png_signature(png@) ==> res is Err,
        match res {
            Ok(v) => oxipng_output(png@, preset, interlace) == Some(v@),
            Err(_) => oxipng_output(png@, preset, interlace) is None,
        },
{
    let mut options = match preset {
        PngPreset::Standard => oxipng::Options::default(),
        PngPreset::Max => oxipng::Options::max_compression(),
    };
    options.interlace = Some(match interlace {
        PngInterlace::NoInterlace => oxipng::Interlacing::None,
        PngInterlace::Adam7 => oxipng::Interlacing::Adam7,
    });
    oxipng::optimize_from_memory(png, &options)
}

/// The message image gives for an error (its `Display` text).
#[verifier::external_body]
pub(crate) fn image_error_text(e: &image::ImageError) -> String {
    e.to_string()
}

/// The message oxipng gives for an error (its `Display` text).
#[verifier::external_body]
pub(crate) fn png_error_text(e: &oxipng::PngError) -> String {
    e.to_string()
}

/// How the pixels of an image are laid out: 8-bit RGB, grey or RGBA.
#[derive(Clone, Copy, Debug, PartialEq, Eq, Structural)]
pub enum PixelLayout {
    Rgb8,
    Luma8,
    Rgba8,
}

/// Bytes per pixel of a layout.
pub open spec fn layout_channels(l: PixelLayout) -> nat {
    match l {
        PixelLayout::Rgb8 => 3,
        PixelLayout::Luma8 => 1,
        PixelLayout::Rgba8 => 4,
    }
}

/// The file formats written with image's writer.
#[derive(Clone, Copy, Debug, PartialEq, Eq, Structural)]
pub enum WriteFormat {
    Png,
    Gif,
    Tiff,
    Bmp,
    Tga,
}

/// The file image writes for an image of the given pixels, `None` when its
/// encoder refuses it.
pub uninterp spec fn image_file_output(
    pixels: Seq<u8>,
    width: u32,
    height: u32,
    layout: PixelLayout,
    format: WriteFormat,
) -> Option<Seq<u8>>;

/// Builds image's `DynamicImage` from the pixels (`ImageBuffer::from_raw`
/// accepts them, since they fill the image exactly) and calls its
/// `write_to` into a buffer, which converts the pixels to a layout the
/// format's encoder takes. The bytes written are named by
/// `image_file_output`.
#[verifier::external_body]
pub(crate) fn write_image(pixels: &[u8], width: u32, height: u32, layout: PixelLayout, format: WriteFormat) -> (res:
    Result<Vec<u8>, image::ImageError>)
    requires
        pixels@.len() == width as nat * height as nat * layout_channels(layout),
    ensures
        match res {
            Ok(v) => image_file_output(pixels@, width, height, layout, format) == Some(v@),
            Err(_) => image_file_output(pixels@, width, height, layout, format) is None,
        },
{
    let img = match layout {
        PixelLayout::Rgb8 => DynamicImage::ImageRgb8(RgbImage::from_raw(width, height, pixels.to_vec()).unwrap()),
        PixelLayout::Luma8 => DynamicImage::ImageLuma8(GrayImage::from_raw(width, height, pixels.to_vec()).unwrap()),
        PixelLayout::Rgba8 => DynamicImage::ImageRgba8(RgbaImage::from_raw(width, height, pixels.to_vec()).unwrap()),
    };
    let fmt = match format {
        WriteFormat::Png => ImageFormat::Png,
        WriteFormat::Gif => ImageFormat::Gif,
        WriteFormat::Tiff => ImageFormat::Tiff,
        WriteFormat::Bmp => ImageFormat::Bmp,
        WriteFormat::Tga => ImageFormat::Tga,
    };
    let mut out = Vec::new();
    img.write_to(&mut std::io::Cursor::new(&mut out), fmt)?;
    Ok(out)
}

/// The lossless WebP file libwebp writes for RGBA pixels.
pub uninterp spec fn webp_lossless_output(rgba: Seq<u8>, width: u32, height: u32) -> Seq<u8>;

/// Calls webp's `Encoder::from_rgba(..).encode_lossless()`. The crate
/// panics when the buffer is shorter than `width * height` RGBA pixels and
/// when libwebp refuses the picture, which it does for a side of 0 or above
/// 16383; those inputs are excluded. The bytes are named by
/// `webp_lossless_output`.
#[verifier::external_body]
pub(crate) fn encode_webp_lossless(rgba: &[u8], width: u32, height: u32) -> (res: Vec<u8>)
    requires
        rgba@.len() == width as nat * height as nat * 4,
        1 <= width <= 16383,
        1 <= height <= 16383,
    ensures
        res@ == webp_lossless_output(rgba@, width, height),
{
    webp::Encoder::from_rgba(rgba, width, height).encode_lossless().to_vec()
}

/// The name of the pixel layout image's PNG decoder reports for a file
/// (`original_color_type`), `None` when the header is not read.
pub uninterp spec fn png_header_color(bytes: Seq<u8>) -> Option<Seq<char>>;

/// The same for image's JPEG decoder.
pub uninterp spec fn jpeg_header_color(bytes: Seq<u8>) -> Option<Seq<char>>;

/// The same for image's WebP decoder.
pub uninterp spec fn webp_header_color(bytes: Seq<u8>) -> Option<Seq<char>>;

/// Calls `PngDecoder::new` on the bytes and its `original_color_type`; the
/// layout is returned by the name its `Debug` form prints (the variant's
/// name, e.g. `Rgb8`), which `png_header_color` names.
#[verifier::external_body]
pub(crate) fn png_color_name(bytes: &[u8]) -> (res: Option<String>)
    ensures
        res.deep_view() == png_header_color(bytes@),
{
    let decoder = image::codecs::png::PngDecoder::new(std::io::Cursor::new(bytes)).ok()?;
    Some(format!("{:?}", image::ImageDecoder::original_color_type(&decoder)))
}

/// Calls `JpegDecoder::new` and `original_color_type` likewise; named by
/// `jpeg_header_color`.
#[verifier::external_body]
pub(crate) fn jpeg_color_name(bytes: &[u8]) -> (res: Option<String>)
    ensures
        res.deep_view() == jpeg_header_color(bytes@),
{
    let decoder = image::codecs::jpeg::JpegDecoder::new(std::io::Cursor::new(bytes)).ok()?;
    Some(format!("{:?}", image::ImageDecoder::original_color_type(&decoder)))
}

/// Calls `WebPDecoder::new` and `original_color_type` likewise; named by
/// `webp_header_color`.
#[verifier::external_body]
pub(crate) fn webp_color_name(bytes: &[u8]) -> (res: Option<String>)
    ensures
        res.deep_view() == webp_header_color(bytes@),
{
    let decoder = image::codecs::webp::WebPDecoder::new(std::io::Cursor::new(bytes)).ok()?;
    Some(format!("{:?}", image::ImageDecoder::original_color_type(&decoder)))
}

} // verus!
