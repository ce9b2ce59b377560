//! A decoded image held in memory while it is prepared for encoding: read
//! from a file's bytes by image's decoders, resized and converted with
//! image's operations. Each picture carries, as a ghost value, how it came
//! about, and what is read from it is named over that.
use vstd::prelude::*;
use crate::codecs::{layout_channels, PixelLayout};
use image::{DynamicImage, GrayImage, RgbImage, RgbaImage};

verus! {

#[verifier::external_type_specification]
#[verifier::external_body]
pub struct ExDynamicImage(image::DynamicImage);

/// How a picture is resized, always with the Lanczos3 filter: to the
/// largest size within the bounds that keeps its aspect ratio, or to
/// exactly the given size.
#[derive(Clone, Copy, Debug, PartialEq, Eq, Structural)]
pub enum Resampling {
    FitLanczos3,
    ExactLanczos3,
}

/// Whether image decodes a file's bytes with the decoder of the format an
/// extension names (as `image::open` does for a path with that extension).
pub uninterp spec fn image_decodes(ext: Seq<char>, bytes: Seq<u8>) -> bool;

/// The width and height of the image decoded from a file's bytes (with the
/// decoder its extension names) and then resized within each of the given
/// bounds in turn.
pub uninterp spec fn picture_dims(origin: (Seq<char>, Seq<u8>, Seq<(u32, u32, Resampling)>)) -> (u32, u32);

/// The pixels, in a layout, of the image decoded and resized as `origin`
/// says (image's `to_rgb8`, `to_luma8` or `to_rgba8`).
pub uninterp spec fn picture_pixels(
    origin: (Seq<char>, Seq<u8>, Seq<(u32, u32, Resampling)>),
    layout: PixelLayout,
) -> Seq<u8>;

/// The layout the decoded and resized image has, when it is one of the
/// three the encoders take.
pub uninterp spec fn native_layout(origin: (Seq<char>, Seq<u8>, Seq<(u32, u32, Resampling)>)) -> Option<
    PixelLayout,
>;

/// Pixels of one layout converted to another by image (`to_rgb8`,
/// `to_luma8` or `to_rgba8` of the image they make up).
pub uninterp spec fn converted_pixels(
    pixels: Seq<u8>,
    width: u32,
    height: u32,
    from: PixelLayout,
    to: PixelLayout,
) -> Seq<u8>;

/// A decoded image with the record of how it came about: the extension
/// that chose its decoder, the file's bytes, and the bounds and filter of
/// each resize since. Pictures are made only by `open` and `resize`, which
/// keep the record in step with the image.
pub struct Picture {
    img: DynamicImage,
    origin: Ghost<(Seq<char>, Seq<u8>, Seq<(u32, u32, Resampling)>)>,
}

/// Calls image's `ImageFormat::from_extension` and
/// `ImageReader::with_format(..).decode()` on the bytes, which is what
/// `image::open` does for a path with that extension; `None` exactly when
/// that fails (`image_decodes`).
#[verifier::external_body]
fn decode_image(ext: &str, bytes: &[u8]) -> (r: Option<DynamicImage>)
    ensures
        r is Some <==> image_decodes(ext@, bytes@),
{
    let format = image::ImageFormat::from_extension(ext)?;
    image::ImageReader::with_format(std::io::Cursor::new(bytes), format).decode().ok()
}

/// Whether a size lies within bounds as image's `resize` leaves it: each
/// side at most its bound, or 1 where the bound is 0 (image keeps at least
/// one pixel a side).
pub open spec fn fits_within(size: (u32, u32), width: u32, height: u32) -> bool {
    &&& (size.0 <= width || size.0 == 1)
    &&& (size.1 <= height || size.1 == 1)
}

/// Calls image's `width` and `height` on the picture's image; named by
/// `picture_dims` over the picture's record. After a resize to an exact
/// size the image has that size (image's `resize_exact`); after a resize
/// within bounds it fits them (image's `resize`: the largest size within
/// the bounds, at least one pixel a side).
#[verifier::external_body]
fn image_size(p: &Picture) -> (r: (u32, u32))
    ensures
        r == picture_dims(p.origin()),
        p.origin().2.len() > 0 && p.origin().2.last().2 == Resampling::ExactLanczos3 ==> r == (
            p.origin().2.last().0,
            p.origin().2.last().1,
        ),
        p.origin().2.len() > 0 && p.origin().2.last().2 == Resampling::FitLanczos3 ==> fits_within(
            r,
            p.origin().2.last().0,
            p.origin().2.last().1,
        ),
{
    (p.img.width(), p.img.height())
}

/// Calls image's `resize` (within the bounds, keeping the aspect ratio) or
/// `resize_exact` (to the given size) with the Lanczos3 filter.
#[verifier::external_body]
fn resized_image(p: &Picture, width: u32, height: u32, how: Resampling) -> DynamicImage {
    match how {
        Resampling::FitLanczos3 => p.img.resize(width, height, image::imageops::FilterType::Lanczos3),
        Resampling::ExactLanczos3 => p.img.resize_exact(width, height, image::imageops::FilterType::Lanczos3),
    }
}

/// Calls image's `to_rgb8`, `to_luma8` or `to_rgba8` on the picture's
/// image; named by `picture_pixels`. The buffer holds exactly the image's
/// pixels, whose size the conversion keeps.
#[verifier::external_body]
fn image_pixels(p: &Picture, layout: PixelLayout) -> (r: Vec<u8>)
    ensures
        r@ == picture_pixels(p.origin(), layout),
        r@.len() == picture_dims(p.origin()).0 as nat * picture_dims(p.origin()).1 as nat * layout_channels(
            layout,
        ),
{
    match layout {
        PixelLayout::Rgb8 => p.img.to_rgb8().into_raw(),
        PixelLayout::Luma8 => p.img.to_luma8().into_raw(),
        PixelLayout::Rgba8 => p.img.to_rgba8().into_raw(),
    }
}

/// Calls image's `color` on the picture's image and tells the three layouts
/// the encoders take apart; named by `native_layout`.
#[verifier::external_body]
fn image_layout(p: &Picture) -> (r: Option<PixelLayout>)
    ensures
        r == native_layout(p.origin()),
{
    match p.img.color() {
        image::ColorType::Rgb8 => Some(PixelLayout::Rgb8),
        image::ColorType::L8 => Some(PixelLayout::Luma8),
        image::ColorType::Rgba8 => Some(PixelLayout::Rgba8),
        _ => None,
    }
}

/// Builds image's `DynamicImage` from the pixels (`ImageBuffer::from_raw`
/// accepts them, since they fill the image exactly) and calls `to_rgb8`,
/// `to_luma8` or `to_rgba8` on it; named by `converted_pixels`. The size is
/// kept.
#[verifier::external_body]
pub(crate) fn convert_pixels(pixels: &[u8], width: u32, height: u32, from: PixelLayout, to: PixelLayout) -> (r: Vec<u8>)
    requires
        pixels@.len() == width as nat * height as nat * layout_channels(from),
    ensures
        r@ == converted_pixels(pixels@, width, height, from, to),
        r@.len() == width as nat * height as nat * layout_channels(to),
{
    let img = match from {
        PixelLayout::Rgb8 => DynamicImage::ImageRgb8(RgbImage::from_raw(width, height, pixels.to_vec()).unwrap()),
        PixelLayout::Luma8 => DynamicImage::ImageLuma8(GrayImage::from_raw(width, height, pixels.to_vec()).unwrap()),
        PixelLayout::Rgba8 => DynamicImage::ImageRgba8(RgbaImage::from_raw(width, height, pixels.to_vec()).unwrap()),
    };
    match to {
        PixelLayout::Rgb8 => img.to_rgb8().into_raw(),
        PixelLayout::Luma8 => img.to_luma8().into_raw(),
        PixelLayout::Rgba8 => img.to_rgba8().into_raw(),
    }
}

impl Picture {
    /// How the picture came about: the extension that chose its decoder,
    /// the file's bytes, and each resize since.
    pub closed spec fn origin(&self) -> (Seq<char>, Seq<u8>, Seq<(u32, u32, Resampling)>) {
        self.origin@
    }

    /// The image in a file's bytes, decoded by the decoder of the format
    /// the file's extension names; nothing when it cannot be decoded.
    pub fn open(ext: &str, bytes: &[u8]) -> (r: Option<Picture>)
        ensures
            r is Some <==> image_decodes(ext@, bytes@),
            r matches Some(p) ==> p.origin() == (ext@, bytes@, Seq::<(u32, u32, Resampling)>::empty()),
    {
        match decode_image(ext, bytes) {
            Some(img) => Some(Picture { img, origin: Ghost((ext@, bytes@, Seq::empty())) }),
            None => None,
        }
    }

    /// The picture's width and height; after a resize to an exact size,
    /// that size; after a resize within bounds, a size within them.
    pub fn size(&self) -> (r: (u32, u32))
        ensures
            r == picture_dims(self.origin()),
            self.origin().2.len() > 0 && self.origin().2.last().2 == Resampling::ExactLanczos3 ==> r == (
                self.origin().2.last().0,
                self.origin().2.last().1,
            ),
            self.origin().2.len() > 0 && self.origin().2.last().2 == Resampling::FitLanczos3 ==> fits_within(
                r,
                self.origin().2.last().0,
                self.origin().2.last().1,
            ),
    {
        image_size(self)
    }

    /// The picture scaled with the Lanczos3 filter to the largest size
    /// within the bounds that keeps its aspect ratio.
    pub fn resize(&self, width: u32, height: u32) -> (r: Picture)
        ensures
            r.origin() == (self.origin().0, self.origin().1, self.origin().2.push(
                (width, height, Resampling::FitLanczos3),
            )),
    {
        let img = resized_image(self, width, height, Resampling::FitLanczos3);
        let ghost o = self.origin@;
        Picture { img, origin: Ghost((o.0, o.1, o.2.push((width, height, Resampling::FitLanczos3)))) }
    }

    /// The picture resized with the Lanczos3 filter to exactly the given
    /// size.
    pub fn resize_exact(&self, width: u32, height: u32) -> (r: Picture)
        ensures
            r.origin() == (self.origin().0, self.origin().1, self.origin().2.push(
                (width, height, Resampling::ExactLanczos3),
            )),
    {
        let img = resized_image(self, width, height, Resampling::ExactLanczos3);
        let ghost o = self.origin@;
        Picture { img, origin: Ghost((o.0, o.1, o.2.push((width, height, Resampling::ExactLanczos3)))) }
    }

    /// The picture's pixels in a layout.
    pub fn pixels(&self, layout: PixelLayout) -> (r: Vec<u8>)
        ensures
            r@ == picture_pixels(self.origin(), layout),
            r@.len() == picture_dims(self.origin()).0 as nat * picture_dims(self.origin()).1 as nat
                * layout_channels(layout),
    {
        image_pixels(self, layout)
    }

    /// The picture's own layout, when it is one the encoders take.
    pub fn layout(&self) -> (r: Option<PixelLayout>)
        ensures
            r == native_layout(self.origin()),
    {
        image_layout(self)
    }
}

} // verus!
