//! Compression planning and bookkeeping: which format and encoder a file is
//! written with, where the output goes, how an image is resized, the encoder
//! options taken from the settings, and the tally of a batch run.
use vstd::prelude::*;
use crate::codecs::{encode_jpeg_rgb, encode_webp_lossless, image_error_text, image_file_output, jpeg_output, layout_channels, optimize_png, oxipng_output, png_error_text, webp_lossless_output, write_image, PixelLayout, PngInterlace, PngPreset, WriteFormat};
use crate::picture::{
    converted_pixels, convert_pixels, fits_within, native_layout, picture_dims, picture_pixels, Picture, Resampling,
};
use crate::models::{copy_opt_string, truncate_str, truncated, ColorSpace, ImageSettings, OutputFormat};
use crate::paths::{file_name, file_name_of, path_stem, path_with_file_name, with_file_name_of, stem_of};
use crate::text::{push_all, push_char, str_eq};

verus! {

/// The outcome of compressing one file of a batch.
#[derive(Clone, Debug)]
pub struct FileResult {
    pub file_index: usize,
    pub source_name: String,
    pub original_size: u64,
    pub new_size: u64,
    pub output_filename: Option<String>,
    pub error: Option<String>,
}

impl FileResult {
    /// A field-by-field copy.
    pub fn copied(&self) -> (r: FileResult)
        ensures
            r == *self,
    {
        FileResult {
            file_index: self.file_index,
            source_name: self.source_name.clone(),
            original_size: self.original_size,
            new_size: self.new_size,
            output_filename: copy_opt_string(&self.output_filename),
            error: copy_opt_string(&self.error),
        }
    }
}

/// Messages the compression worker sends to the interface.
#[derive(Debug)]
pub enum CompressionEvent {
    Started(usize),
    Progress { current: usize, total: usize, filename: String, sub_progress: u8 },
    Stage(String),
    FileCompleted(FileResult),
    Completed { success_count: usize, total_saved: u64, results: Vec<FileResult> },
    Cancelled,
}

/// Why a file could not be compressed.
#[derive(Debug)]
pub enum CompressError {
    /// The source extension names no format the writer supports.
    UnsupportedFormat,
    /// `Same` was asked for where a concrete format is needed.
    SameFormat,
    /// An encoder refused the image; its message.
    Encoder(String),
    /// The source file could not be decoded.
    OpenFailed,
}

impl CompressError {
    /// The message shown for the error.
    pub fn message(&self) -> (s: String)
        ensures
            match self {
                CompressError::UnsupportedFormat => s@ == "Unsupported format"@,
                CompressError::SameFormat => s@ == "Cannot use OutputFormat::Same for compression"@,
                CompressError::Encoder(m) => s@ == m@,
                CompressError::OpenFailed => s@ == "Failed to open image"@,
            },
    {
        match self {
            CompressError::UnsupportedFormat => "Unsupported format".to_owned(),
            CompressError::SameFormat => "Cannot use OutputFormat::Same for compression".to_owned(),
            CompressError::Encoder(m) => m.clone(),
            CompressError::OpenFailed => "Failed to open image".to_owned(),
        }
    }
}

/// The format a file is written in: the batch-wide choice when there is one,
/// otherwise the file's own setting.
pub fn resolve_target_format(global_format: Option<OutputFormat>, own: OutputFormat) -> (f: OutputFormat)
    ensures
        f == match global_format {
            Some(g) => g,
            None => own,
        },
{
    match global_format {
        Some(g) => g,
        None => own,
    }
}

/// Where a converted file goes before name clashes are resolved: the output
/// path with the target extension (keeping its stem), or the output path
/// itself when the format stays the same.
pub open spec fn base_output_path(output_path: Seq<char>, target: OutputFormat) -> Seq<char> {
    if target != OutputFormat::Same {
        let stem = match stem_of(output_path) {
            Some(s) => s,
            None => Seq::empty(),
        };
        with_file_name_of(output_path, stem.push('.') + target.ext())
    } else {
        output_path
    }
}

pub fn output_base_path(output_path: &str, target: OutputFormat) -> (p: String)
    ensures
        p@ == base_output_path(output_path@, target),
{
    if target != OutputFormat::Same {
        let mut name = match path_stem(output_path) {
            Some(s) => s,
            None => String::new(),
        };
        push_char(&mut name, '.');
        push_all(&mut name, target.extension());
        path_with_file_name(output_path, &name)
    } else {
        output_path.to_owned()
    }
}

/// The encoders a file can be written with.
#[derive(Clone, Copy, Debug, PartialEq, Eq, Structural)]
pub enum Encoder {
    Jpeg,
    Png,
    Webp,
    Gif,
    Tiff,
    Bmp,
    Tga,
}

/// The encoder for a target format; for `Same`, the one matching the
/// source's lowercase extension, if it is a supported one.
pub open spec fn encoder_for(target: OutputFormat, source_ext: Option<Seq<char>>) -> Option<Encoder> {
    match target {
        OutputFormat::Same => match source_ext {
            Some(e) => if e == "jpg"@ || e == "jpeg"@ {
                Some(Encoder::Jpeg)
            } else if e == "png"@ {
                Some(Encoder::Png)
            } else if e == "webp"@ {
                Some(Encoder::Webp)
            } else if e == "gif"@ {
                Some(Encoder::Gif)
            } else if e == "tiff"@ || e == "tif"@ {
                Some(Encoder::Tiff)
            } else if e == "bmp"@ {
                Some(Encoder::Bmp)
            } else if e == "tga"@ {
                Some(Encoder::Tga)
            } else {
                None
            },
            None => None,
        },
        OutputFormat::Jpeg => Some(Encoder::Jpeg),
        OutputFormat::Png => Some(Encoder::Png),
        OutputFormat::Webp => Some(Encoder::Webp),
        OutputFormat::Gif => Some(Encoder::Gif),
        OutputFormat::Tiff => Some(Encoder::Tiff),
        OutputFormat::Bmp => Some(Encoder::Bmp),
        OutputFormat::Tga => Some(Encoder::Tga),
    }
}

/// The encoder for a file; an unsupported source extension under `Same`
/// is an error.
pub fn choose_encoder(target: OutputFormat, source_ext: Option<&str>) -> (r: Result<Encoder, CompressError>)
    ensures
        match r {
            Ok(e) => encoder_for(target, source_ext.deep_view()) == Some(e),
            Err(err) => encoder_for(target, source_ext.deep_view()) is None && err
                is UnsupportedFormat,
        },
{
    match target {
        OutputFormat::Same => match source_ext {
            Some(e) => if str_eq(e, "jpg") || str_eq(e, "jpeg") {
                Ok(Encoder::Jpeg)
            } else if str_eq(e, "png") {
                Ok(Encoder::Png)
            } else if str_eq(e, "webp") {
                Ok(Encoder::Webp)
            } else if str_eq(e, "gif") {
                Ok(Encoder::Gif)
            } else if str_eq(e, "tiff") || str_eq(e, "tif") {
                Ok(Encoder::Tiff)
            } else if str_eq(e, "bmp") {
                Ok(Encoder::Bmp)
            } else if str_eq(e, "tga") {
                Ok(Encoder::Tga)
            } else {
                Err(CompressError::UnsupportedFormat)
            },
            None => Err(CompressError::UnsupportedFormat),
        },
        OutputFormat::Jpeg => Ok(Encoder::Jpeg),
        OutputFormat::Png => Ok(Encoder::Png),
        OutputFormat::Webp => Ok(Encoder::Webp),
        OutputFormat::Gif => Ok(Encoder::Gif),
        OutputFormat::Tiff => Ok(Encoder::Tiff),
        OutputFormat::Bmp => Ok(Encoder::Bmp),
        OutputFormat::Tga => Ok(Encoder::Tga),
    }
}

/// The encoder for a direct conversion to `format`, where `Same` is refused.
pub fn direct_encoder(format: OutputFormat) -> (r: Result<Encoder, CompressError>)
    ensures
        match r {
            Ok(e) => format != OutputFormat::Same && encoder_for(format, None) == Some(e),
            Err(err) => format == OutputFormat::Same && err is SameFormat,
        },
{
    match format {
        OutputFormat::Same => Err(CompressError::SameFormat),
        _ => choose_encoder(format, None),
    }
}

/// The name reported for a written file: the final component of its path,
/// or the source name when the path has none.
pub fn output_filename(final_path: &str, source_name: &str) -> (s: String)
    ensures
        s@ == match file_name_of(final_path@) {
            Some(n) => n,
            None => source_name@,
        },
{
    match file_name(final_path) {
        Some(n) => n,
        None => source_name.to_owned(),
    }
}

/// The settings a direct conversion uses: the given format, quality and
/// WebP mode on top of RGB output without metadata, resizing or backup.
pub open spec fn direct_settings_of(format: OutputFormat, quality: u8, webp_lossless: bool) -> ImageSettings {
    ImageSettings {
        output_format: format,
        quality,
        color_space: ColorSpace::Rgb,
        remove_exif: true,
        progressive: false,
        png_compression: 6,
        webp_lossless,
        max_width: None,
        max_height: None,
        overwrite: false,
        backup: false,
        output_directory: None,
    }
}

/// The settings a direct conversion uses: the given format, quality and
/// WebP mode on top of RGB output without metadata, resizing or backup.
pub fn direct_settings(format: OutputFormat, quality: u8, webp_lossless: bool) -> (s: ImageSettings)
    ensures
        s.output_format == format,
        s.quality == quality,
        s.webp_lossless == webp_lossless,
        s.color_space == ColorSpace::Rgb,
        s.remove_exif,
        !s.progressive,
        s.png_compression == 6,
        s.max_width is None,
        s.max_height is None,
        !s.overwrite,
        !s.backup,
        s.output_directory is None,
{
    ImageSettings {
        output_format: format,
        quality,
        color_space: ColorSpace::Rgb,
        remove_exif: true,
        progressive: false,
        png_compression: 6,
        webp_lossless,
        max_width: None,
        max_height: None,
        overwrite: false,
        backup: false,
        output_directory: None,
    }
}

/// How an image is resized before encoding.
#[derive(Clone, Copy, Debug, PartialEq, Eq, Structural)]
pub enum ResizePlan {
    /// Left at its size.
    Keep,
    /// Fitted inside the box, keeping its aspect ratio.
    Fit { max_width: u32, max_height: u32 },
    /// Scaled to this width; the height follows the aspect ratio.
    ToWidth(u32),
    /// Scaled to this height; the width follows the aspect ratio.
    ToHeight(u32),
}

/// The resize chosen for a `width × height` image under the limits: only an
/// image exceeding a given limit is resized.
pub open spec fn resize_for(width: u32, height: u32, max_width: Option<u32>, max_height: Option<u32>) -> ResizePlan {
    match (max_width, max_height) {
        (Some(mw), Some(mh)) => if width > mw || height > mh {
            ResizePlan::Fit { max_width: mw, max_height: mh }
        } else {
            ResizePlan::Keep
        },
        (Some(mw), None) => if width > mw {
            ResizePlan::ToWidth(mw)
        } else {
            ResizePlan::Keep
        },
        (None, Some(mh)) => if height > mh {
            ResizePlan::ToHeight(mh)
        } else {
            ResizePlan::Keep
        },
        (None, None) => ResizePlan::Keep,
    }
}

pub fn resize_plan(width: u32, height: u32, settings: &ImageSettings) -> (p: ResizePlan)
    ensures
        p == resize_for(width, height, settings.max_width, settings.max_height),
{
    match (settings.max_width, settings.max_height) {
        (Some(mw), Some(mh)) => if width > mw || height > mh {
            ResizePlan::Fit { max_width: mw, max_height: mh }
        } else {
            ResizePlan::Keep
        },
        (Some(mw), None) => if width > mw {
            ResizePlan::ToWidth(mw)
        } else {
            ResizePlan::Keep
        },
        (None, Some(mh)) => if height > mh {
            ResizePlan::ToHeight(mh)
        } else {
            ResizePlan::Keep
        },
        (None, None) => ResizePlan::Keep,
    }
}

/// A resize never enlarges past a given limit: whenever the plan resizes,
/// some limit was exceeded, and the limits it scales to are the given ones.
pub proof fn law_resize_only_when_exceeding(width: u32, height: u32, max_width: Option<u32>, max_height: Option<u32>)
    ensures
        resize_for(width, height, max_width, max_height) != ResizePlan::Keep ==> (match max_width {
            Some(mw) => width > mw,
            None => false,
        } || match max_height {
            Some(mh) => height > mh,
            None => false,
        }),
        (match max_width {
            Some(mw) => width <= mw,
            None => true,
        } && match max_height {
            Some(mh) => height <= mh,
            None => true,
        }) ==> resize_for(width, height, max_width, max_height) == ResizePlan::Keep,
{
}

/// PNG optimizer options for the settings: maximum compression from level 8
/// up, Adam7 interlacing for progressive output.
pub fn png_plan(settings: &ImageSettings) -> (r: (PngPreset, PngInterlace))
    ensures
        r.0 == if settings.png_compression >= 8 {
            PngPreset::Max
        } else {
            PngPreset::Standard
        },
        r.1 == if settings.progressive {
            PngInterlace::Adam7
        } else {
            PngInterlace::NoInterlace
        },
{
    let preset = if settings.png_compression >= 8 {
        PngPreset::Max
    } else {
        PngPreset::Standard
    };
    let interlace = if settings.progressive {
        PngInterlace::Adam7
    } else {
        PngInterlace::NoInterlace
    };
    (preset, interlace)
}

/// Writes the pixels as PNG and optimizes the file with the options the
/// settings select.
pub fn compress_png(pixels: &[u8], width: u32, height: u32, layout: PixelLayout, settings: &ImageSettings) -> (r:
    Result<Vec<u8>, CompressError>)
    requires
        pixels@.len() == width as nat * height as nat * layout_channels(layout),
    ensures
        r is Ok <==> png_written(pixels@, width, height, layout, settings) is Some,
        match r {
            Ok(v) => png_written(pixels@, width, height, layout, settings) == Some(v@),
            Err(e) => e is Encoder,
        },
{
    let png = match write_image(pixels, width, height, layout, WriteFormat::Png) {
        Ok(v) => v,
        Err(e) => {
            return Err(CompressError::Encoder(image_error_text(&e)));
        },
    };
    let (preset, interlace) = png_plan(settings);
    match optimize_png(&png, preset, interlace) {
        Ok(v) => Ok(v),
        Err(e) => Err(CompressError::Encoder(png_error_text(&e))),
    }
}

/// The optimized PNG file for the pixels: image's PNG file passed through
/// oxipng with the options of the settings.
pub open spec fn png_written(
    pixels: Seq<u8>,
    width: u32,
    height: u32,
    layout: PixelLayout,
    settings: &ImageSettings,
) -> Option<Seq<u8>> {
    match image_file_output(pixels, width, height, layout, WriteFormat::Png) {
        Some(png) => oxipng_output(png, png_plan_spec(settings).0, png_plan_spec(settings).1),
        None => None,
    }
}

fn write_with(pixels: &[u8], width: u32, height: u32, layout: PixelLayout, format: WriteFormat) -> (r: Result<
    Vec<u8>,
    CompressError,
>)
    requires
        pixels@.len() == width as nat * height as nat * layout_channels(layout),
    ensures
        r is Ok <==> image_file_output(pixels@, width, height, layout, format) is Some,
        match r {
            Ok(v) => image_file_output(pixels@, width, height, layout, format) == Some(v@),
            Err(e) => e is Encoder,
        },
{
    match write_image(pixels, width, height, layout, format) {
        Ok(v) => Ok(v),
        Err(e) => Err(CompressError::Encoder(image_error_text(&e))),
    }
}

/// Writes the pixels as GIF.
pub fn compress_gif(pixels: &[u8], width: u32, height: u32, layout: PixelLayout, _settings: &ImageSettings) -> (r:
    Result<Vec<u8>, CompressError>)
    requires
        pixels@.len() == width as nat * height as nat * layout_channels(layout),
    ensures
        r is Ok <==> image_file_output(pixels@, width, height, layout, WriteFormat::Gif) is Some,
        match r {
            Ok(v) => image_file_output(pixels@, width, height, layout, WriteFormat::Gif) == Some(v@),
            Err(e) => e is Encoder,
        },
{
    write_with(pixels, width, height, layout, WriteFormat::Gif)
}

/// Writes the pixels as TIFF.
pub fn compress_tiff(pixels: &[u8], width: u32, height: u32, layout: PixelLayout, _settings: &ImageSettings) -> (r:
    Result<Vec<u8>, CompressError>)
    requires
        pixels@.len() == width as nat * height as nat * layout_channels(layout),
    ensures
        r is Ok <==> image_file_output(pixels@, width, height, layout, WriteFormat::Tiff) is Some,
        match r {
            Ok(v) => image_file_output(pixels@, width, height, layout, WriteFormat::Tiff) == Some(v@),
            Err(e) => e is Encoder,
        },
{
    write_with(pixels, width, height, layout, WriteFormat::Tiff)
}

/// Writes the pixels as BMP.
pub fn compress_bmp(pixels: &[u8], width: u32, height: u32, layout: PixelLayout, _settings: &ImageSettings) -> (r:
    Result<Vec<u8>, CompressError>)
    requires
        pixels@.len() == width as nat * height as nat * layout_channels(layout),
    ensures
        r is Ok <==> image_file_output(pixels@, width, height, layout, WriteFormat::Bmp) is Some,
        match r {
            Ok(v) => image_file_output(pixels@, width, height, layout, WriteFormat::Bmp) == Some(v@),
            Err(e) => e is Encoder,
        },
{
    write_with(pixels, width, height, layout, WriteFormat::Bmp)
}

/// Writes the pixels as TGA.
pub fn compress_tga(pixels: &[u8], width: u32, height: u32, layout: PixelLayout, _settings: &ImageSettings) -> (r:
    Result<Vec<u8>, CompressError>)
    requires
        pixels@.len() == width as nat * height as nat * layout_channels(layout),
    ensures
        r is Ok <==> image_file_output(pixels@, width, height, layout, WriteFormat::Tga) is Some,
        match r {
            Ok(v) => image_file_output(pixels@, width, height, layout, WriteFormat::Tga) == Some(v@),
            Err(e) => e is Encoder,
        },
{
    write_with(pixels, width, height, layout, WriteFormat::Tga)
}

/// Encodes RGBA pixels as lossless WebP.
pub fn compress_webp_lossless(rgba: &[u8], width: u32, height: u32) -> (v: Vec<u8>)
    requires
        rgba@.len() == width as nat * height as nat * 4,
        1 <= width <= 16383,
        1 <= height <= 16383,
    ensures
        v@ == webp_lossless_output(rgba@, width, height),
{
    encode_webp_lossless(rgba, width, height)
}

/// The pixel layout an image is converted to for its colour setting.
pub open spec fn layout_of(c: ColorSpace) -> PixelLayout {
    match c {
        ColorSpace::Rgb => PixelLayout::Rgb8,
        ColorSpace::Grayscale => PixelLayout::Luma8,
        ColorSpace::Rgba => PixelLayout::Rgba8,
    }
}

/// The pixel layout an image is converted to for its colour setting.
pub fn layout_for(c: ColorSpace) -> (l: PixelLayout)
    ensures
        l == layout_of(c),
{
    match c {
        ColorSpace::Rgb => PixelLayout::Rgb8,
        ColorSpace::Grayscale => PixelLayout::Luma8,
        ColorSpace::Rgba => PixelLayout::Rgba8,
    }
}

/// The options `png_plan` returns.
pub open spec fn png_plan_spec(settings: &ImageSettings) -> (PngPreset, PngInterlace) {
    (
        if settings.png_compression >= 8 {
            PngPreset::Max
        } else {
            PngPreset::Standard
        },
        if settings.progressive {
            PngInterlace::Adam7
        } else {
            PngInterlace::NoInterlace
        },
    )
}

/// Encodes 8-bit RGB pixels as JPEG at the settings' quality.
pub fn compress_jpeg(rgb: &[u8], width: u32, height: u32, settings: &ImageSettings) -> (r: Result<
    Vec<u8>,
    CompressError,
>)
    requires
        rgb@.len() == width as nat * height as nat * 3,
    ensures
        r is Ok <==> (1 <= width <= 65535 && 1 <= height <= 65535),
        match r {
            Ok(v) => jpeg_output(rgb@, width, height, settings.quality) == Some(v@) && v@.len() >= 2
                && v@[0] == 0xFFu8 && v@[1] == 0xD8u8,
            Err(e) => e is Encoder,
        },
{
    match encode_jpeg_rgb(rgb, width, height, settings.quality) {
        Ok(v) => Ok(v),
        Err(e) => Err(CompressError::Encoder(image_error_text(&e))),
    }
}

/// How WebP output is encoded.
#[derive(Clone, Copy, Debug, PartialEq, Eq, Structural)]
pub enum WebpMode {
    Lossless,
    /// Lossy at this quality.
    Lossy(u8),
}

pub fn webp_mode(settings: &ImageSettings) -> (m: WebpMode)
    ensures
        m == if settings.webp_lossless {
            WebpMode::Lossless
        } else {
            WebpMode::Lossy(settings.quality)
        },
{
    if settings.webp_lossless {
        WebpMode::Lossless
    } else {
        WebpMode::Lossy(settings.quality)
    }
}

/// `prefix`, the file name cut to 30 columns, and `...`.
pub open spec fn stage_text(prefix: Seq<char>, filename: Seq<char>, byte_len: nat) -> Seq<char> {
    prefix + truncated(filename, byte_len, 30) + seq!['.', '.', '.']
}

/// The stage message shown while a file is being read and converted.
pub fn converting_message(filename: &str) -> (s: String)
    ensures
        s@ == stage_text("Converting "@, filename@, filename.len() as nat),
{
    let mut s = "Converting ".to_owned();
    let t = truncate_str(filename, 30);
    push_all(&mut s, &t);
    push_char(&mut s, '.');
    push_char(&mut s, '.');
    push_char(&mut s, '.');
    proof {
        assert(s@ =~= stage_text("Converting "@, filename@, filename.len() as nat));
    }
    s
}

/// The stage message shown once a file has been written.
pub fn compressing_message(filename: &str) -> (s: String)
    ensures
        s@ == stage_text("Compressing to "@, filename@, filename.len() as nat),
{
    let mut s = "Compressing to ".to_owned();
    let t = truncate_str(filename, 30);
    push_all(&mut s, &t);
    push_char(&mut s, '.');
    push_char(&mut s, '.');
    push_char(&mut s, '.');
    proof {
        assert(s@ =~= stage_text("Compressing to "@, filename@, filename.len() as nat));
    }
    s
}

/// Bytes saved by a file: how much smaller it got, never negative.
pub open spec fn saving(r: FileResult) -> nat {
    if r.original_size >= r.new_size {
        (r.original_size - r.new_size) as nat
    } else {
        0
    }
}

/// Total bytes saved over a sequence of results.
pub open spec fn total_saving(rs: Seq<FileResult>) -> nat
    decreases rs.len(),
{
    if rs.len() == 0 {
        0
    } else {
        total_saving(rs.drop_last()) + saving(rs.last())
    }
}

/// Number of results without an error.
pub open spec fn successes(rs: Seq<FileResult>) -> nat
    decreases rs.len(),
{
    if rs.len() == 0 {
        0
    } else {
        successes(rs.drop_last()) + if rs.last().error is None {
            1nat
        } else {
            0
        }
    }
}

/// Number of results with an error.
pub open spec fn failures(rs: Seq<FileResult>) -> nat
    decreases rs.len(),
{
    if rs.len() == 0 {
        0
    } else {
        failures(rs.drop_last()) + if rs.last().error is Some {
            1nat
        } else {
            0
        }
    }
}

/// Every file of a batch is either a success or a failure.
pub proof fn law_batch_counts(rs: Seq<FileResult>)
    ensures
        successes(rs) + failures(rs) == rs.len(),
    decreases rs.len(),
{
    if rs.len() > 0 {
        law_batch_counts(rs.drop_last());
    }
}

/// The running record of a batch: the result of each file so far and the
/// bytes saved, which is always the sum of the savings of those results.
pub struct BatchTally {
    pub results: Vec<FileResult>,
    pub total_saved: u64,
}

impl BatchTally {
    pub open spec fn wf(self) -> bool {
        self.total_saved == total_saving(self.results@)
    }

    pub fn new() -> (t: BatchTally)
        ensures
            t.wf(),
            t.results@.len() == 0,
            t.total_saved == 0,
    {
        BatchTally { results: Vec::new(), total_saved: 0 }
    }

    /// Records a written file and returns its result.
    pub fn record_success(
        &mut self,
        file_index: usize,
        source_name: &str,
        original_size: u64,
        new_size: u64,
        output_filename: String,
    ) -> (r: FileResult)
        requires
            old(self).wf(),
            old(self).total_saved + (if original_size >= new_size {
                original_size - new_size
            } else {
                0
            }) <= u64::MAX,
        ensures
            final(self).wf(),
            r.file_index == file_index,
            r.source_name@ == source_name@,
            r.original_size == original_size,
            r.new_size == new_size,
            r.output_filename == Some(output_filename),
            r.error is None,
            final(self).results@ == old(self).results@.push(r),
            final(self).total_saved == old(self).total_saved + saving(r),
    {
        let savings = original_size.saturating_sub(new_size);
        let r = FileResult {
            file_index,
            source_name: source_name.to_owned(),
            original_size,
            new_size,
            output_filename: Some(output_filename),
            error: None,
        };
        self.total_saved = self.total_saved + savings;
        self.results.push(r.copied());
        proof {
            assert(self.results@.drop_last() == old(self).results@);
        }
        r
    }

    /// Records a file that could not be written; its size stays as it was.
    pub fn record_failure(&mut self, file_index: usize, source_name: &str, original_size: u64, error: String) -> (r: FileResult)
        requires
            old(self).wf(),
        ensures
            final(self).wf(),
            r.file_index == file_index,
            r.source_name@ == source_name@,
            r.original_size == original_size,
            r.new_size == original_size,
            r.output_filename is None,
            r.error == Some(error),
            final(self).results@ == old(self).results@.push(r),
            final(self).total_saved == old(self).total_saved,
    {
        let r = FileResult {
            file_index,
            source_name: source_name.to_owned(),
            original_size,
            new_size: original_size,
            output_filename: None,
            error: Some(error),
        };
        self.results.push(r.copied());
        proof {
            assert(self.results@.drop_last() == old(self).results@);
        }
        r
    }

    /// Number of files written so far.
    pub fn success_count(&self) -> (n: usize)
        ensures
            n == successes(self.results@),
    {
        let mut n: usize = 0;
        let mut i: usize = 0;
        while i < self.results.len()
            invariant
                i <= self.results.len(),
                n == successes(self.results@.take(i as int)),
                n <= i,
            decreases self.results.len() - i,
        {
            proof {
                assert(self.results@.take(i + 1).drop_last() == self.results@.take(i as int));
            }
            if self.results[i].error.is_none() {
                n = n + 1;
            }
            i = i + 1;
        }
        proof {
            assert(self.results@.take(self.results.len() as int) == self.results@);
        }
        n
    }

    /// The event that ends the batch.
    pub fn finish(self) -> (e: CompressionEvent)
        requires
            self.wf(),
        ensures
            match e {
                CompressionEvent::Completed { success_count, total_saved, results } => success_count
                    == successes(self.results@) && total_saved == total_saving(self.results@)
                    && results@ == self.results@,
                _ => false,
            },
    {
        let success_count = self.success_count();
        CompressionEvent::Completed { success_count, total_saved: self.total_saved, results: self.results }
    }
}

/// What encoding an image gives: the file's bytes; for lossy WebP, the
/// RGBA pixels and the quality the lossy encoder is to take (it takes the
/// quality as a floating-point number); or the refusal of libwebp's
/// lossless encoder, whose sides run from 1 to 16383.
pub enum Encoded {
    Bytes(Vec<u8>),
    LossyWebp { rgba: Vec<u8>, width: u32, height: u32, quality: u8 },
    WebpSizeRefused,
}

/// Whether an encoder refuses the pixels with an error.
pub open spec fn encoding_fails(
    enc: Encoder,
    pixels: Seq<u8>,
    width: u32,
    height: u32,
    layout: PixelLayout,
    settings: &ImageSettings,
) -> bool {
    match enc {
        Encoder::Jpeg => !(1 <= width <= 65535 && 1 <= height <= 65535),
        Encoder::Png => png_written(pixels, width, height, layout, settings) is None,
        Encoder::Webp => false,
        Encoder::Gif => image_file_output(pixels, width, height, layout, WriteFormat::Gif) is None,
        Encoder::Tiff => image_file_output(pixels, width, height, layout, WriteFormat::Tiff) is None,
        Encoder::Bmp => image_file_output(pixels, width, height, layout, WriteFormat::Bmp) is None,
        Encoder::Tga => image_file_output(pixels, width, height, layout, WriteFormat::Tga) is None,
    }
}

/// What an encoder gives for the pixels when it does not fail: JPEG from
/// their RGB form at the file's quality; PNG through oxipng; WebP from
/// their RGBA form, losslessly or lossy as the settings say; the other
/// formats through image's writer.
pub open spec fn encoded_as(
    enc: Encoder,
    pixels: Seq<u8>,
    width: u32,
    height: u32,
    layout: PixelLayout,
    settings: &ImageSettings,
    out: Encoded,
) -> bool {
    match enc {
        Encoder::Jpeg => out matches Encoded::Bytes(v) && jpeg_output(
            converted_pixels(pixels, width, height, layout, PixelLayout::Rgb8),
            width,
            height,
            settings.quality,
        ) == Some(v@),
        Encoder::Png => out matches Encoded::Bytes(v) && png_written(pixels, width, height, layout, settings) == Some(v@),
        Encoder::Webp => {
            let rgba = converted_pixels(pixels, width, height, layout, PixelLayout::Rgba8);
            if settings.webp_lossless {
                if 1 <= width <= 16383 && 1 <= height <= 16383 {
                    out matches Encoded::Bytes(v) && v@ == webp_lossless_output(rgba, width, height)
                } else {
                    out is WebpSizeRefused
                }
            } else {
                out matches Encoded::LossyWebp { rgba: r, width: w, height: h, quality } && r@ == rgba && w == width
                    && h == height && quality == settings.quality
            }
        },
        Encoder::Gif => out matches Encoded::Bytes(v) && image_file_output(pixels, width, height, layout, WriteFormat::Gif)
            == Some(v@),
        Encoder::Tiff => out matches Encoded::Bytes(v) && image_file_output(
            pixels,
            width,
            height,
            layout,
            WriteFormat::Tiff,
        ) == Some(v@),
        Encoder::Bmp => out matches Encoded::Bytes(v) && image_file_output(pixels, width, height, layout, WriteFormat::Bmp)
            == Some(v@),
        Encoder::Tga => out matches Encoded::Bytes(v) && image_file_output(pixels, width, height, layout, WriteFormat::Tga)
            == Some(v@),
    }
}

/// Encodes pixels with an encoder under a file's settings.
pub fn encode_pixels(
    enc: Encoder,
    pixels: &[u8],
    width: u32,
    height: u32,
    layout: PixelLayout,
    settings: &ImageSettings,
) -> (r: Result<Encoded, CompressError>)
    requires
        pixels@.len() == width as nat * height as nat * layout_channels(layout),
    ensures
        r is Ok <==> !encoding_fails(enc, pixels@, width, height, layout, settings),
        match r {
            Ok(out) => encoded_as(enc, pixels@, width, height, layout, settings, out),
            Err(e) => e is Encoder,
        },
{
    match enc {
        Encoder::Jpeg => {
            let rgb = convert_pixels(pixels, width, height, layout, PixelLayout::Rgb8);
            match compress_jpeg(&rgb, width, height, settings) {
                Ok(v) => Ok(Encoded::Bytes(v)),
                Err(e) => Err(e),
            }
        },
        Encoder::Png => match compress_png(pixels, width, height, layout, settings) {
            Ok(v) => Ok(Encoded::Bytes(v)),
            Err(e) => Err(e),
        },
        Encoder::Webp => {
            let rgba = convert_pixels(pixels, width, height, layout, PixelLayout::Rgba8);
            match webp_mode(settings) {
                WebpMode::Lossless => if 1 <= width && width <= 16383 && 1 <= height && height <= 16383 {
                    Ok(Encoded::Bytes(compress_webp_lossless(&rgba, width, height)))
                } else {
                    Ok(Encoded::WebpSizeRefused)
                },
                WebpMode::Lossy(q) => Ok(Encoded::LossyWebp { rgba, width, height, quality: q }),
            }
        },
        Encoder::Gif => match compress_gif(pixels, width, height, layout, settings) {
            Ok(v) => Ok(Encoded::Bytes(v)),
            Err(e) => Err(e),
        },
        Encoder::Tiff => match compress_tiff(pixels, width, height, layout, settings) {
            Ok(v) => Ok(Encoded::Bytes(v)),
            Err(e) => Err(e),
        },
        Encoder::Bmp => match compress_bmp(pixels, width, height, layout, settings) {
            Ok(v) => Ok(Encoded::Bytes(v)),
            Err(e) => Err(e),
        },
        Encoder::Tga => match compress_tga(pixels, width, height, layout, settings) {
            Ok(v) => Ok(Encoded::Bytes(v)),
            Err(e) => Err(e),
        },
    }
}

/// The bounds a `width × height` image is resized within under the
/// settings, nothing when it is kept: both limits for a box; for a single
/// limit that limit and `scaled_side`, the other side scaled by the same
/// ratio (which the caller works out in floating point).
pub open spec fn resize_bounds(width: u32, height: u32, settings: &ImageSettings, scaled_side: u32) -> Option<
    (u32, u32),
> {
    match resize_for(width, height, settings.max_width, settings.max_height) {
        ResizePlan::Keep => None,
        ResizePlan::Fit { max_width, max_height } => Some((max_width, max_height)),
        ResizePlan::ToWidth(w) => Some((w, scaled_side)),
        ResizePlan::ToHeight(h) => Some((scaled_side, h)),
    }
}

/// How a picture came about after the resize the settings ask for.
pub open spec fn processed_origin(
    o: (Seq<char>, Seq<u8>, Seq<(u32, u32, Resampling)>),
    settings: &ImageSettings,
    scaled_side: u32,
) -> (Seq<char>, Seq<u8>, Seq<(u32, u32, Resampling)>) {
    match resize_bounds(picture_dims(o).0, picture_dims(o).1, settings, scaled_side) {
        Some((w, h)) => (o.0, o.1, o.2.push((w, h, Resampling::FitLanczos3))),
        None => o,
    }
}

/// The picture resized as the settings ask, with the Lanczos3 filter.
pub fn process_picture(pic: Picture, settings: &ImageSettings, scaled_side: u32) -> (r: Picture)
    ensures
        r.origin() == processed_origin(pic.origin(), settings, scaled_side),
        match resize_bounds(picture_dims(pic.origin()).0, picture_dims(pic.origin()).1, settings, scaled_side) {
            Some((w, h)) => fits_within(picture_dims(r.origin()), w, h),
            None => picture_dims(r.origin()) == picture_dims(pic.origin()),
        },
{
    let (w, h) = pic.size();
    let r = match resize_plan(w, h, settings) {
        ResizePlan::Keep => pic,
        ResizePlan::Fit { max_width, max_height } => pic.resize(max_width, max_height),
        ResizePlan::ToWidth(mw) => pic.resize(mw, scaled_side),
        ResizePlan::ToHeight(mh) => pic.resize(scaled_side, mh),
    };
    let _ = r.size();
    r
}

/// A picture resized to the limits fits them: with both limits, each side
/// within its limit; with one limit, that side within it; and a picture
/// within its limits keeps its size.
pub proof fn law_processed_size_within_limits(
    width: u32,
    height: u32,
    settings: &ImageSettings,
    scaled_side: u32,
    out: (u32, u32),
)
    requires
        match resize_bounds(width, height, settings, scaled_side) {
            Some((w, h)) => fits_within(out, w, h),
            None => out == (width, height),
        },
    ensures
        settings.max_width matches Some(mw) ==> (out.0 <= mw || out.0 == 1),
        settings.max_height matches Some(mh) ==> (out.1 <= mh || out.1 == 1),
        (settings.max_width matches Some(mw) ==> width <= mw) && (settings.max_height matches Some(mh)
            ==> height <= mh) ==> out == (width, height),
{
}

/// The encoded file for a picture converted straight to `format` at the
/// given quality and WebP mode: the picture's own layout when the encoders
/// take it, else RGBA.
pub fn compress_picture_direct(pic: &Picture, format: OutputFormat, quality: u8, webp_lossless: bool) -> (r: Result<
    Encoded,
    CompressError,
>)
    ensures
        format == OutputFormat::Same ==> (r matches Err(e) && e is SameFormat),
        format != OutputFormat::Same ==> {
            let layout = match native_layout(pic.origin()) {
                Some(l) => l,
                None => PixelLayout::Rgba8,
            };
            let (w, h) = picture_dims(pic.origin());
            let px = picture_pixels(pic.origin(), layout);
            let enc = encoder_for(format, None).unwrap();
            let st = direct_settings_of(format, quality, webp_lossless);
            &&& encoder_for(format, None) is Some
            &&& (r is Ok <==> !encoding_fails(enc, px, w, h, layout, &st))
            &&& match r {
                Ok(out) => encoded_as(enc, px, w, h, layout, &st, out),
                Err(e) => e is Encoder,
            }
        },
{
    let enc = match direct_encoder(format) {
        Ok(e) => e,
        Err(e) => {
            return Err(e);
        },
    };
    let settings = direct_settings(format, quality, webp_lossless);
    let layout = match pic.layout() {
        Some(l) => l,
        None => PixelLayout::Rgba8,
    };
    let (w, h) = pic.size();
    let pixels = pic.pixels(layout);
    proof {
        assert(settings == direct_settings_of(format, quality, webp_lossless));
    }
    encode_pixels(enc, &pixels, w, h, layout, &settings)
}

} // verus!
