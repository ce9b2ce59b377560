//! Animated images: the frames of an animated GIF, WebP or PNG file, each
//! frame prepared as a still image is, and the frames put together again as
//! an animated GIF, WebP or PNG.
use vstd::prelude::*;
use crate::codecs::{image_error_text, image_file_output, layout_channels, write_image, PixelLayout, WriteFormat};
use crate::compression::{base_output_path, layout_for, layout_of, output_base_path, process_picture, processed_origin};
use crate::models::{ImageSettings, OutputFormat};
use crate::picture::{image_decodes, picture_dims, picture_pixels, Picture, Resampling};
use crate::text::str_eq;
use png::{BitDepth, BlendOp, ColorType, DisposeOp};

verus! {

/// One frame as gif's decoder gives it: RGBA pixels, size and delay (in
/// hundredths of a second).
pub struct GifFrame {
    pub rgba: Vec<u8>,
    pub width: u16,
    pub height: u16,
    pub delay: u16,
}

/// Where gif's decoder stops: at the file's header or at a frame.
#[derive(Clone, Copy, Debug, PartialEq, Eq, Structural)]
pub enum GifReadError {
    Header,
    Frame,
}

/// The frames gif's decoder reads from a file's bytes with RGBA output, or
/// where it stops.
pub uninterp spec fn gif_frames(bytes: Seq<u8>) -> Result<Seq<(Seq<u8>, u16, u16, u16)>, GifReadError>;

/// The frames as the library keeps them for the name `gif_frames`.
pub open spec fn gif_frame_views(v: Seq<GifFrame>) -> Seq<(Seq<u8>, u16, u16, u16)> {
    v.map_values(|f: GifFrame| (f.rgba@, f.width, f.height, f.delay))
}

/// Calls gif's `DecodeOptions` with RGBA output, `read_info` and
/// `read_next_frame` until the last frame, handing each frame out as it
/// comes; named by `gif_frames`.
#[verifier::external_body]
fn read_gif_frames(bytes: &[u8]) -> (r: Result<Vec<GifFrame>, GifReadError>)
    ensures
        match r {
            Ok(v) => gif_frames(bytes@) == Ok::<_, GifReadError>(gif_frame_views(v@)),
            Err(e) => gif_frames(bytes@) == Err::<Seq<(Seq<u8>, u16, u16, u16)>, _>(e),
        },
{
    let mut options = gif::DecodeOptions::new();
    options.set_color_output(gif::ColorOutput::RGBA);
    let mut decoder = options.read_info(std::io::Cursor::new(bytes)).map_err(|_| GifReadError::Header)?;
    let mut frames = Vec::new();
    while let Some(f) = decoder.read_next_frame().map_err(|_| GifReadError::Frame)? {
        frames.push(GifFrame { rgba: f.buffer.to_vec(), width: f.width, height: f.height, delay: f.delay });
    }
    Ok(frames)
}

/// One frame as image's animation decoders give it: the RGBA canvas, its
/// size, and the delay as a fraction of milliseconds.
pub struct CanvasFrame {
    pub rgba: Vec<u8>,
    pub width: u32,
    pub height: u32,
    pub delay_numer: u32,
    pub delay_denom: u32,
}

/// The frames as the library keeps them for the animation names.
pub open spec fn canvas_frame_views(v: Seq<CanvasFrame>) -> Seq<(Seq<u8>, u32, u32, u32, u32)> {
    v.map_values(|f: CanvasFrame| (f.rgba@, f.width, f.height, f.delay_numer, f.delay_denom))
}

/// Where the WebP frames are not read: the decoder refuses the file, or
/// collecting its frames fails.
#[derive(Clone, Copy, Debug, PartialEq, Eq, Structural)]
pub enum WebpReadError {
    Decode,
    Collect,
}

/// The frames image's WebP decoder collects from a file's bytes.
pub uninterp spec fn webp_frames(bytes: Seq<u8>) -> Result<Seq<(Seq<u8>, u32, u32, u32, u32)>, WebpReadError>;

/// Calls image's `WebPDecoder::new`, `into_frames` and `collect_frames`,
/// and hands each frame's buffer, size and `delay().numer_denom_ms()` out;
/// named by `webp_frames`. A frame's buffer holds exactly its RGBA pixels.
#[verifier::external_body]
fn read_webp_frames(bytes: &[u8]) -> (r: Result<Vec<CanvasFrame>, WebpReadError>)
    ensures
        match r {
            Ok(v) => webp_frames(bytes@) == Ok::<_, WebpReadError>(canvas_frame_views(v@)),
            Err(e) => webp_frames(bytes@) == Err::<Seq<(Seq<u8>, u32, u32, u32, u32)>, _>(e),
        },
        r matches Ok(v) ==> forall|k: int| 0 <= k < v.len() ==> (#[trigger] v@[k]).rgba@.len() == v@[k].width as nat * v@[k].height as nat * 4,
{
    let decoder = image::codecs::webp::WebPDecoder::new(std::io::Cursor::new(bytes)).map_err(|_| WebpReadError::Decode)?;
    let frames = image::AnimationDecoder::into_frames(decoder).collect_frames().map_err(|_| WebpReadError::Collect)?;
    Ok(frames.into_iter().map(|f| {
        let (delay_numer, delay_denom) = f.delay().numer_denom_ms();
        let b = f.into_buffer();
        CanvasFrame { width: b.width(), height: b.height(), rgba: b.into_raw(), delay_numer, delay_denom }
    }).collect())
}

/// The frames image's PNG decoder collects from an animated PNG's bytes:
/// `None` when the decoder refuses the file, no frames when the file is not
/// animated or collecting them fails.
pub uninterp spec fn apng_frames(bytes: Seq<u8>) -> Option<Seq<(Seq<u8>, u32, u32, u32, u32)>>;

/// Calls image's `PngDecoder::new`, `apng`, `into_frames` and
/// `collect_frames` (no frames when `apng` or the collection fails, as
/// `unwrap_or_default` gives) and hands the frames out; named by
/// `apng_frames`. A frame's buffer holds exactly its RGBA pixels.
#[verifier::external_body]
fn read_apng_frames(bytes: &[u8]) -> (r: Option<Vec<CanvasFrame>>)
    ensures
        match r {
            Some(v) => apng_frames(bytes@) == Some(canvas_frame_views(v@)),
            None => apng_frames(bytes@) is None,
        },
        r matches Some(v) ==> forall|k: int| 0 <= k < v.len() ==> (#[trigger] v@[k]).rgba@.len() == v@[k].width as nat * v@[k].height as nat * 4,
{
    let decoder = image::codecs::png::PngDecoder::new(std::io::Cursor::new(bytes)).ok()?;
    let frames = match decoder.apng() {
        Ok(a) => image::AnimationDecoder::into_frames(a).collect_frames().unwrap_or_default(),
        Err(_) => Vec::new(),
    };
    Some(frames.into_iter().map(|f| {
        let (delay_numer, delay_denom) = f.delay().numer_denom_ms();
        let b = f.into_buffer();
        CanvasFrame { width: b.width(), height: b.height(), rgba: b.into_raw(), delay_numer, delay_denom }
    }).collect())
}

/// Why an animation could not be converted or put together.
#[derive(Debug)]
pub enum AnimError {
    /// Frames are read from GIF, WebP and PNG files only; the extension.
    UnsupportedSource(String),
    GifHeader,
    GifFrame,
    /// A GIF frame's pixels do not fill its size.
    GifFrameBuffer,
    WebpDecode,
    WebpCollect,
    WebpStatic,
    PngDecode,
    PngStatic,
    /// Writing a prepared frame as PNG failed; image's message.
    FrameWrite(String),
    /// A frame could not be decoded again.
    FrameOpen,
    /// There are no frames to put together.
    NoFrames,
    /// Animated WebP frames must all have the first frame's size.
    FrameSizesDiffer,
    /// The target is not an animated format.
    NotAnimationFormat,
    /// The animation encoder refused the frames; its message.
    Assemble(String),
}

impl AnimError {
    /// The message shown for the error.
    pub fn message(&self) -> (s: String)
        ensures
            match self {
                AnimError::UnsupportedSource(e) => s@ == "Frame extraction not supported for ."@ + e@,
                AnimError::GifHeader => s@ == "Failed to decode GIF"@,
                AnimError::GifFrame => s@ == "Failed to read GIF frame"@,
                AnimError::GifFrameBuffer => s@ == "Failed to create RgbaImage from GIF frame"@,
                AnimError::WebpDecode => s@ == "Failed to decode WebP"@,
                AnimError::WebpCollect => s@ == "Failed to collect WebP frames"@,
                AnimError::WebpStatic => s@ == "Failed to decode WebP as static image"@,
                AnimError::PngDecode => s@ == "Failed to decode PNG"@,
                AnimError::PngStatic => s@ == "Failed to decode PNG as static image"@,
                AnimError::FrameWrite(m) => s@ == m@,
                AnimError::FrameOpen => s@ == "Failed to open frame for assembly"@,
                AnimError::NoFrames => s@ == "No frames to assemble"@,
                AnimError::FrameSizesDiffer => s@ == "Animated WebP frames differ in size"@,
                AnimError::NotAnimationFormat => s@ == "convert_animated called with non-animation format"@,
                AnimError::Assemble(m) => s@ == m@,
            },
    {
        match self {
            AnimError::UnsupportedSource(e) => {
                let mut s = "Frame extraction not supported for .".to_owned();
                crate::text::push_all(&mut s, e.as_str());
                s
            },
            AnimError::GifHeader => "Failed to decode GIF".to_owned(),
            AnimError::GifFrame => "Failed to read GIF frame".to_owned(),
            AnimError::GifFrameBuffer => "Failed to create RgbaImage from GIF frame".to_owned(),
            AnimError::WebpDecode => "Failed to decode WebP".to_owned(),
            AnimError::WebpCollect => "Failed to collect WebP frames".to_owned(),
            AnimError::WebpStatic => "Failed to decode WebP as static image".to_owned(),
            AnimError::PngDecode => "Failed to decode PNG".to_owned(),
            AnimError::PngStatic => "Failed to decode PNG as static image".to_owned(),
            AnimError::FrameWrite(m) => m.clone(),
            AnimError::FrameOpen => "Failed to open frame for assembly".to_owned(),
            AnimError::NoFrames => "No frames to assemble".to_owned(),
            AnimError::FrameSizesDiffer => "Animated WebP frames differ in size".to_owned(),
            AnimError::NotAnimationFormat => "convert_animated called with non-animation format".to_owned(),
            AnimError::Assemble(m) => m.clone(),
        }
    }
}

/// The format an animated file is converted to: the batch or file format,
/// with `Same` taken as the source's own animated format (GIF, WebP or PNG,
/// by its lowercase extension).
pub open spec fn animated_target_spec(global_format: Option<OutputFormat>, own: OutputFormat, source_ext: Seq<char>) -> OutputFormat {
    let target = match global_format {
        Some(g) => g,
        None => own,
    };
    if target == OutputFormat::Same {
        if source_ext == "gif"@ {
            OutputFormat::Gif
        } else if source_ext == "webp"@ {
            OutputFormat::Webp
        } else if source_ext == "png"@ {
            OutputFormat::Png
        } else {
            target
        }
    } else {
        target
    }
}

pub fn animated_target(global_format: Option<OutputFormat>, own: OutputFormat, source_ext: &str) -> (f: OutputFormat)
    ensures
        f == animated_target_spec(global_format, own, source_ext@),
{
    proof {
        reveal_strlit("gif");
        reveal_strlit("webp");
        reveal_strlit("png");
    }
    let target = match global_format {
        Some(g) => g,
        None => own,
    };
    if target == OutputFormat::Same {
        if str_eq(source_ext, "gif") {
            OutputFormat::Gif
        } else if str_eq(source_ext, "webp") {
            OutputFormat::Webp
        } else if str_eq(source_ext, "png") {
            OutputFormat::Png
        } else {
            target
        }
    } else {
        target
    }
}

/// The format frames are put together in: PNG, GIF or WebP as chosen,
/// GIF for any other choice.
pub open spec fn assembly_target_spec(global_format: Option<OutputFormat>, own: OutputFormat) -> OutputFormat {
    match match global_format {
        Some(g) => g,
        None => own,
    } {
        OutputFormat::Png => OutputFormat::Png,
        OutputFormat::Webp => OutputFormat::Webp,
        _ => OutputFormat::Gif,
    }
}

pub fn assembly_target(global_format: Option<OutputFormat>, own: OutputFormat) -> (f: OutputFormat)
    ensures
        f == assembly_target_spec(global_format, own),
{
    let target = match global_format {
        Some(g) => g,
        None => own,
    };
    match target {
        OutputFormat::Png => OutputFormat::Png,
        OutputFormat::Webp => OutputFormat::Webp,
        _ => OutputFormat::Gif,
    }
}

/// A frame's delay in milliseconds from a fraction of milliseconds: the
/// whole quotient, 100 when the denominator is 0.
pub open spec fn canvas_delay(numer: u32, denom: u32) -> u32 {
    if denom == 0 {
        100
    } else {
        (numer / denom) as u32
    }
}

/// A frame of an animation, decoded, with its delay in milliseconds.
pub struct SourceFrame {
    pub picture: Picture,
    pub delay_ms: u32,
}

/// The picture record of RGBA pixels taken as a still image: the PNG file
/// image writes for them, decoded again.
pub open spec fn rgba_still(rgba: Seq<u8>, width: u32, height: u32) -> Option<
    (Seq<char>, Seq<u8>, Seq<(u32, u32, Resampling)>),
> {
    match image_file_output(rgba, width, height, PixelLayout::Rgba8, WriteFormat::Png) {
        Some(png) => if image_decodes("png"@, png) {
            Some(("png"@, png, Seq::<(u32, u32, Resampling)>::empty()))
        } else {
            None
        },
        None => None,
    }
}

/// RGBA pixels as a picture, by way of the PNG image writes for them.
fn still_of_rgba(rgba: &Vec<u8>, width: u32, height: u32) -> (r: Option<Picture>)
    requires
        rgba@.len() == width as nat * height as nat * 4,
    ensures
        match r {
            Some(p) => rgba_still(rgba@, width, height) == Some(p.origin()),
            None => rgba_still(rgba@, width, height) is None,
        },
{
    match write_image(rgba.as_slice(), width, height, PixelLayout::Rgba8, WriteFormat::Png) {
        Ok(png) => {
            proof {
                reveal_strlit("png");
            }
            Picture::open("png", &png)
        },
        Err(_) => None,
    }
}

/// The frames of a GIF file as the library takes them: each frame's pixels
/// as a still image, with its delay turned into milliseconds.
pub open spec fn gif_source_frames(fs: Seq<(Seq<u8>, u16, u16, u16)>) -> Option<Seq<((Seq<char>, Seq<u8>, Seq<(u32, u32, Resampling)>), u32)>>
    decreases fs.len(),
{
    if fs.len() == 0 {
        Some(Seq::empty())
    } else {
        let f = fs.last();
        match gif_source_frames(fs.drop_last()) {
            Some(rest) => if f.0.len() == f.1 as nat * f.2 as nat * 4 {
                match rgba_still(f.0, f.1 as u32, f.2 as u32) {
                    Some(o) => Some(rest.push((o, (f.3 * 10) as u32))),
                    None => None,
                }
            } else {
                None
            },
            None => None,
        }
    }
}

/// The frames of an animated WebP or PNG file as the library takes them.
pub open spec fn canvas_source_frames(fs: Seq<(Seq<u8>, u32, u32, u32, u32)>) -> Option<Seq<((Seq<char>, Seq<u8>, Seq<(u32, u32, Resampling)>), u32)>>
    decreases fs.len(),
{
    if fs.len() == 0 {
        Some(Seq::empty())
    } else {
        let f = fs.last();
        match canvas_source_frames(fs.drop_last()) {
            Some(rest) => match rgba_still(f.0, f.1, f.2) {
                Some(o) => Some(rest.push((o, canvas_delay(f.3, f.4)))),
                None => None,
            },
            None => None,
        }
    }
}

/// The frames as records and delays.
pub open spec fn source_frame_views(v: Seq<SourceFrame>) -> Seq<((Seq<char>, Seq<u8>, Seq<(u32, u32, Resampling)>), u32)> {
    v.map_values(|f: SourceFrame| (f.picture.origin(), f.delay_ms))
}

/// The frames of an animated file, from its bytes and lowercase extension:
/// a GIF's frames from gif's decoder; a WebP's or PNG's from image's
/// animation decoders, or, when the file has no frames, the file decoded as
/// a still image with a delay of 100 ms.
pub open spec fn animation_frames_spec(source_ext: Seq<char>, bytes: Seq<u8>) -> Option<Seq<((Seq<char>, Seq<u8>, Seq<(u32, u32, Resampling)>), u32)>> {
    if source_ext == "gif"@ {
        match gif_frames(bytes) {
            Ok(fs) => gif_source_frames(fs),
            Err(_) => None,
        }
    } else if source_ext == "webp"@ || source_ext == "png"@ {
        let fs = if source_ext == "webp"@ {
            match webp_frames(bytes) {
                Ok(fs) => Some(fs),
                Err(_) => None,
            }
        } else {
            apng_frames(bytes)
        };
        match fs {
            Some(fs) => if fs.len() == 0 {
                if image_decodes(source_ext, bytes) {
                    Some(seq![((source_ext, bytes, Seq::<(u32, u32, Resampling)>::empty()), 100u32)])
                } else {
                    None
                }
            } else {
                canvas_source_frames(fs)
            },
            None => None,
        }
    } else {
        None
    }
}

proof fn lemma_gif_frames_none_grows(fs: Seq<(Seq<u8>, u16, u16, u16)>, i: int, j: int)
    requires
        0 <= i <= j <= fs.len(),
        gif_source_frames(fs.take(i)) is None,
    ensures
        gif_source_frames(fs.take(j)) is None,
    decreases j - i,
{
    if i < j {
        lemma_gif_frames_none_grows(fs, i, j - 1);
        assert(fs.take(j).drop_last() =~= fs.take(j - 1));
    }
}

proof fn lemma_canvas_frames_none_grows(fs: Seq<(Seq<u8>, u32, u32, u32, u32)>, i: int, j: int)
    requires
        0 <= i <= j <= fs.len(),
        canvas_source_frames(fs.take(i)) is None,
    ensures
        canvas_source_frames(fs.take(j)) is None,
    decreases j - i,
{
    if i < j {
        lemma_canvas_frames_none_grows(fs, i, j - 1);
        assert(fs.take(j).drop_last() =~= fs.take(j - 1));
    }
}

fn frames_of_gif(fs: Vec<GifFrame>) -> (r: Result<Vec<SourceFrame>, AnimError>)
    ensures
        r is Ok <==> gif_source_frames(gif_frame_views(fs@)) is Some,
        r matches Ok(v) ==> gif_source_frames(gif_frame_views(fs@)) == Some(source_frame_views(v@)),
{
    let ghost views = gif_frame_views(fs@);
    let mut out: Vec<SourceFrame> = Vec::new();
    let mut i: usize = 0;
    proof {
        assert(views.take(0) =~= Seq::<(Seq<u8>, u16, u16, u16)>::empty());
        assert(source_frame_views(out@) =~= Seq::empty());
    }
    while i < fs.len()
        invariant
            i <= fs.len(),
            views == gif_frame_views(fs@),
            gif_source_frames(views.take(i as int)) == Some(source_frame_views(out@)),
        decreases fs.len() - i,
    {
        let f = &fs[i];
        proof {
            assert(views.take(i + 1).drop_last() =~= views.take(i as int));
            assert(views.take(i + 1).last() == views[i as int]);
            assert(views[i as int] == (f.rgba@, f.width, f.height, f.delay));
        }
        proof {
            let (a, b) = (f.width as int, f.height as int);
            assert(0 <= a * b <= 65535 * 65535) by (nonlinear_arith)
                requires
                    0 <= a <= 65535,
                    0 <= b <= 65535,
            ;
        }
        if f.rgba.len() as u64 != f.width as u64 * f.height as u64 * 4 {
            proof {
                lemma_gif_frames_none_grows(views, i + 1, views.len() as int);
                assert(views.take(views.len() as int) =~= views);
            }
            return Err(AnimError::GifFrameBuffer);
        }
        match still_of_rgba(&f.rgba, f.width as u32, f.height as u32) {
            Some(p) => {
                let delay = f.delay as u32 * 10;
                let ghost before = out@;
                out.push(SourceFrame { picture: p, delay_ms: delay });
                proof {
                    assert(source_frame_views(out@) =~= source_frame_views(before).push(
                        (out@.last().picture.origin(), delay),
                    ));
                }
            },
            None => {
                proof {
                    lemma_gif_frames_none_grows(views, i + 1, views.len() as int);
                    assert(views.take(views.len() as int) =~= views);
                }
                return Err(AnimError::FrameOpen);
            },
        }
        i = i + 1;
    }
    proof {
        assert(views.take(views.len() as int) =~= views);
    }
    Ok(out)
}

fn frames_of_canvas(fs: Vec<CanvasFrame>) -> (r: Result<Vec<SourceFrame>, AnimError>)
    requires
        forall|k: int| 0 <= k < fs.len() ==> (#[trigger] fs@[k]).rgba@.len() == fs@[k].width as nat * fs@[k].height as nat * 4,
    ensures
        r is Ok <==> canvas_source_frames(canvas_frame_views(fs@)) is Some,
        r matches Ok(v) ==> canvas_source_frames(canvas_frame_views(fs@)) == Some(source_frame_views(v@)),
{
    let ghost views = canvas_frame_views(fs@);
    let mut out: Vec<SourceFrame> = Vec::new();
    let mut i: usize = 0;
    proof {
        assert(views.take(0) =~= Seq::<(Seq<u8>, u32, u32, u32, u32)>::empty());
        assert(source_frame_views(out@) =~= Seq::empty());
    }
    while i < fs.len()
        invariant
            i <= fs.len(),
            views == canvas_frame_views(fs@),
            forall|k: int| 0 <= k < fs.len() ==> (#[trigger] fs@[k]).rgba@.len() == fs@[k].width as nat * fs@[k].height as nat * 4,
            canvas_source_frames(views.take(i as int)) == Some(source_frame_views(out@)),
        decreases fs.len() - i,
    {
        let f = &fs[i];
        proof {
            assert(views.take(i + 1).drop_last() =~= views.take(i as int));
            assert(views.take(i + 1).last() == views[i as int]);
            assert(views[i as int] == (f.rgba@, f.width, f.height, f.delay_numer, f.delay_denom));
            assert(fs@[i as int].rgba@.len() == f.width as nat * f.height as nat * 4);
        }
        match still_of_rgba(&f.rgba, f.width, f.height) {
            Some(p) => {
                let delay = if f.delay_denom == 0 {
                    100
                } else {
                    f.delay_numer / f.delay_denom
                };
                let ghost before = out@;
                out.push(SourceFrame { picture: p, delay_ms: delay });
                proof {
                    assert(source_frame_views(out@) =~= source_frame_views(before).push(
                        (out@.last().picture.origin(), delay),
                    ));
                }
            },
            None => {
                proof {
                    lemma_canvas_frames_none_grows(views, i + 1, views.len() as int);
                    assert(views.take(views.len() as int) =~= views);
                }
                return Err(AnimError::FrameOpen);
            },
        }
        i = i + 1;
    }
    proof {
        assert(views.take(views.len() as int) =~= views);
    }
    Ok(out)
}

/// The frames of an animated file, from its bytes and lowercase extension
/// (`animation_frames_spec`); an extension other than `gif`, `webp` or
/// `png` is refused.
pub fn animation_frames(source_ext: &str, bytes: &[u8]) -> (r: Result<Vec<SourceFrame>, AnimError>)
    ensures
        r is Ok <==> animation_frames_spec(source_ext@, bytes@) is Some,
        r matches Ok(v) ==> animation_frames_spec(source_ext@, bytes@) == Some(source_frame_views(v@)),
        !(source_ext@ == "gif"@ || source_ext@ == "webp"@ || source_ext@ == "png"@) ==> (r matches Err(
            AnimError::UnsupportedSource(e),
        ) && e@ == source_ext@),
{
    proof {
        reveal_strlit("gif");
        reveal_strlit("webp");
        reveal_strlit("png");
    }
    if str_eq(source_ext, "gif") {
        match read_gif_frames(bytes) {
            Ok(fs) => frames_of_gif(fs),
            Err(GifReadError::Header) => Err(AnimError::GifHeader),
            Err(GifReadError::Frame) => Err(AnimError::GifFrame),
        }
    } else if str_eq(source_ext, "webp") || str_eq(source_ext, "png") {
        let is_webp = str_eq(source_ext, "webp");
        let fs = if is_webp {
            match read_webp_frames(bytes) {
                Ok(fs) => fs,
                Err(WebpReadError::Decode) => {
                    return Err(AnimError::WebpDecode);
                },
                Err(WebpReadError::Collect) => {
                    return Err(AnimError::WebpCollect);
                },
            }
        } else {
            match read_apng_frames(bytes) {
                Some(fs) => fs,
                None => {
                    return Err(AnimError::PngDecode);
                },
            }
        };
        if fs.len() == 0 {
            match Picture::open(source_ext, bytes) {
                Some(p) => {
                    let v = vec![SourceFrame { picture: p, delay_ms: 100 }];
                    proof {
                        assert(source_frame_views(v@) =~= seq![((source_ext@, bytes@, Seq::<(u32, u32, Resampling)>::empty()), 100u32)]);
                    }
                    Ok(v)
                },
                None => if is_webp {
                    Err(AnimError::WebpStatic)
                } else {
                    Err(AnimError::PngStatic)
                },
            }
        } else {
            frames_of_canvas(fs)
        }
    } else {
        Err(AnimError::UnsupportedSource(source_ext.to_owned()))
    }
}

/// A frame made ready for an animation: resized and converted as the
/// settings ask (with `scaled_side` the other side of a one-sided resize),
/// written as PNG and decoded again.
pub open spec fn prepared_frame(
    o: (Seq<char>, Seq<u8>, Seq<(u32, u32, Resampling)>),
    settings: &ImageSettings,
    scaled_side: u32,
) -> Option<(Seq<char>, Seq<u8>, Seq<(u32, u32, Resampling)>)> {
    let p = processed_origin(o, settings, scaled_side);
    let layout = layout_of(settings.color_space);
    let (w, h) = picture_dims(p);
    match image_file_output(picture_pixels(p, layout), w, h, layout, WriteFormat::Png) {
        Some(png) => if image_decodes("png"@, png) {
            Some(("png"@, png, Seq::<(u32, u32, Resampling)>::empty()))
        } else {
            None
        },
        None => None,
    }
}

fn prepare_frame(pic: Picture, settings: &ImageSettings, scaled_side: u32) -> (r: Result<Picture, AnimError>)
    ensures
        r is Ok <==> prepared_frame(pic.origin(), settings, scaled_side) is Some,
        r matches Ok(p) ==> prepared_frame(pic.origin(), settings, scaled_side) == Some(p.origin()),
{
    let processed = process_picture(pic, settings, scaled_side);
    let layout = layout_for(settings.color_space);
    let (w, h) = processed.size();
    let pixels = processed.pixels(layout);
    match write_image(pixels.as_slice(), w, h, layout, WriteFormat::Png) {
        Ok(png) => {
            proof {
                reveal_strlit("png");
            }
            match Picture::open("png", &png) {
                Some(p) => Ok(p),
                None => Err(AnimError::FrameOpen),
            }
        },
        Err(e) => Err(AnimError::FrameWrite(image_error_text(&e))),
    }
}

/// Every frame made ready (`prepared_frame`), or nothing when one fails.
pub open spec fn prepared_frames(
    os: Seq<(Seq<char>, Seq<u8>, Seq<(u32, u32, Resampling)>)>,
    settings: &ImageSettings,
    scaled: Seq<u32>,
) -> Option<Seq<(Seq<char>, Seq<u8>, Seq<(u32, u32, Resampling)>)>>
    decreases os.len(),
{
    if os.len() == 0 {
        Some(Seq::empty())
    } else {
        match prepared_frames(os.drop_last(), settings, scaled) {
            Some(rest) => match prepared_frame(os.last(), settings, scaled[os.len() - 1]) {
                Some(q) => Some(rest.push(q)),
                None => None,
            },
            None => None,
        }
    }
}

/// The records of a list of pictures.
pub open spec fn origins(v: Seq<Picture>) -> Seq<(Seq<char>, Seq<u8>, Seq<(u32, u32, Resampling)>)> {
    v.map_values(|p: Picture| p.origin())
}

proof fn lemma_prepared_none_grows(
    os: Seq<(Seq<char>, Seq<u8>, Seq<(u32, u32, Resampling)>)>,
    settings: &ImageSettings,
    scaled: Seq<u32>,
    i: int,
    j: int,
)
    requires
        0 <= i <= j <= os.len(),
        prepared_frames(os.take(i), settings, scaled) is None,
    ensures
        prepared_frames(os.take(j), settings, scaled) is None,
    decreases j - i,
{
    if i < j {
        lemma_prepared_none_grows(os, settings, scaled, i, j - 1);
        assert(os.take(j).drop_last() =~= os.take(j - 1));
    }
}

/// The frames made ready for an animation, each with its own scaled side.
pub fn prepare_frames(frames: Vec<Picture>, settings: &ImageSettings, scaled: &Vec<u32>) -> (r: Result<
    Vec<Picture>,
    AnimError,
>)
    requires
        scaled.len() == frames.len(),
    ensures
        r is Ok <==> prepared_frames(origins(frames@), settings, scaled@) is Some,
        r matches Ok(v) ==> prepared_frames(origins(frames@), settings, scaled@) == Some(origins(v@)),
{
    let ghost os = origins(frames@);
    let n = frames.len();
    let mut rest = frames;
    let mut out: Vec<Picture> = Vec::new();
    let mut failed: Option<AnimError> = None;
    let mut i: usize = 0;
    proof {
        assert(os.take(0) =~= Seq::<(Seq<char>, Seq<u8>, Seq<(u32, u32, Resampling)>)>::empty());
        assert(origins(out@) =~= Seq::empty());
        assert(origins(rest@) =~= os.skip(0));
    }
    while i < n && failed.is_none()
        invariant
            n == scaled.len(),
            os.len() == n,
            i <= n,
            rest.len() == n - i,
            origins(rest@) == os.skip(i as int),
            failed is None ==> prepared_frames(os.take(i as int), settings, scaled@) == Some(origins(out@)),
            failed is Some ==> prepared_frames(os.take(i as int), settings, scaled@) is None,
        decreases n - i,
    {
        let ghost rest_before = rest@;
        let pic = rest.remove(0);
        proof {
            assert(pic.origin() == origins(rest_before)[0]);
            assert(os.skip(i as int)[0] == os[i as int]);
            assert forall|k: int| 0 <= k < rest@.len() implies origins(rest@)[k] == os.skip(i + 1)[k] by {
                assert(rest@[k] == rest_before[k + 1]);
                assert(origins(rest_before)[k + 1] == os.skip(i as int)[k + 1]);
            }
            assert(origins(rest@) =~= os.skip(i + 1));
            assert(os.take(i + 1).drop_last() =~= os.take(i as int));
            assert(os.take(i + 1).last() == os[i as int]);
            assert(os.take(i + 1).len() == i + 1);
        }
        match prepare_frame(pic, settings, scaled[i]) {
            Ok(q) => {
                let ghost before = out@;
                out.push(q);
                proof {
                    assert(origins(out@) =~= origins(before).push(q.origin()));
                    assert(prepared_frames(os.take(i + 1), settings, scaled@) == Some(origins(out@)));
                }
            },
            Err(e) => {
                proof {
                    assert(prepared_frame(os[i as int], settings, scaled@[i as int]) is None);
                    assert(prepared_frames(os.take(i + 1), settings, scaled@) is None);
                }
                failed = Some(e);
            },
        }
        i = i + 1;
    }
    match failed {
        Some(e) => {
            proof {
                lemma_prepared_none_grows(os, settings, scaled@, i as int, n as int);
                assert(os.take(n as int) =~= os);
            }
            Err(e)
        },
        None => {
            proof {
                assert(os.take(n as int) =~= os);
            }
            Ok(out)
        },
    }
}

/// The pixels of a list of frames.
pub open spec fn frame_views(v: Seq<Vec<u8>>) -> Seq<Seq<u8>> {
    v.map_values(|f: Vec<u8>| f@)
}

/// The animated GIF gif's encoder writes for RGBA frames of one size with
/// the given delays (hundredths of a second), repeating forever.
pub uninterp spec fn gif_animation(frames: Seq<Seq<u8>>, width: u16, height: u16, delays: Seq<u16>) -> Option<Seq<u8>>;

/// Calls gif's `Encoder::new` into a buffer, `set_repeat(Infinite)`, and
/// for each frame `Frame::from_rgba` (which panics unless the pixels fill
/// the size, so such frames are excluded), its delay, and `write_frame`;
/// the trailer is written when the encoder is dropped. Named by
/// `gif_animation`; the error is gif's message.
#[verifier::external_body]
fn encode_gif_animation(frames: &Vec<Vec<u8>>, width: u16, height: u16, delays: &Vec<u16>) -> (r: Result<Vec<u8>, String>)
    requires
        frames.len() == delays.len(),
        forall|k: int| 0 <= k < frames.len() ==> (#[trigger] frames@[k])@.len() == width as nat * height as nat * 4,
    ensures
        match r {
            Ok(v) => gif_animation(frame_views(frames@), width, height, delays@) == Some(v@),
            Err(_) => gif_animation(frame_views(frames@), width, height, delays@) is None,
        },
{
    let mut out = Vec::new();
    {
        let mut enc = gif::Encoder::new(&mut out, width, height, &[]).map_err(|e| e.to_string())?;
        enc.set_repeat(gif::Repeat::Infinite).map_err(|e| e.to_string())?;
        for (rgba, d) in frames.iter().zip(delays.iter()) {
            let mut frame = gif::Frame::from_rgba(width, height, &mut rgba.clone());
            frame.delay = *d;
            enc.write_frame(&frame).map_err(|e| e.to_string())?;
        }
    }
    Ok(out)
}

/// The animated PNG png's encoder writes for RGBA frames with the given
/// delays (thousandths of a second), playing forever.
pub uninterp spec fn apng_animation(frames: Seq<Seq<u8>>, width: u32, height: u32, delays: Seq<u16>) -> Option<Seq<u8>>;

/// Calls png's `Encoder::new` into a buffer with `set_animated(frames, 0)`,
/// RGBA colour at 8 bits and `write_header`, then for each frame
/// `set_frame_delay(delay, 1000)`, `DisposeOp::None`, `BlendOp::Source` and
/// `write_image_data`, and `finish`. Named by `apng_animation`; the error is
/// png's message.
#[verifier::external_body]
fn encode_apng_animation(frames: &Vec<Vec<u8>>, width: u32, height: u32, delays: &Vec<u16>) -> (r: Result<Vec<u8>, String>)
    requires
        frames.len() == delays.len(),
    ensures
        match r {
            Ok(v) => apng_animation(frame_views(frames@), width, height, delays@) == Some(v@),
            Err(_) => apng_animation(frame_views(frames@), width, height, delays@) is None,
        },
{
    let mut out = Vec::new();
    let m = |e: png::EncodingError| e.to_string();
    let mut enc = png::Encoder::new(&mut out, width, height);
    enc.set_animated(frames.len() as u32, 0).map_err(m)?;
    enc.set_color(ColorType::Rgba);
    enc.set_depth(BitDepth::Eight);
    let mut w = enc.write_header().map_err(m)?;
    for (rgba, d) in frames.iter().zip(delays.iter()) {
        w.set_frame_delay(*d, 1000).map_err(m)?;
        w.set_dispose_op(DisposeOp::None).map_err(m)?;
        w.set_blend_op(BlendOp::Source).map_err(m)?;
        w.write_image_data(rgba).map_err(m)?;
    }
    w.finish().map_err(m)?;
    Ok(out)
}

/// Why libwebp's animation encoder gave nothing: its configuration could
/// not be set up, or encoding failed (its error, as Debug prints it).
pub enum WebpAnimError {
    Config,
    Encode(String),
}

/// The animated WebP libwebp's animation encoder writes for RGBA frames of
/// one size at the given timestamps (milliseconds), with the given method
/// and number of passes.
pub uninterp spec fn webp_animation(
    frames: Seq<Seq<u8>>,
    width: u32,
    height: u32,
    timestamps: Seq<i32>,
    method: i32,
    pass: i32,
) -> Option<Seq<u8>>;

/// Calls webp's `WebPConfig::new`, sets its `method` and `pass`, adds each
/// frame to an `AnimEncoder` with `AnimFrame::new` (RGBA, the given size,
/// its timestamp) and calls `try_encode`. libwebp reads a frame's pixels by
/// its size, so every frame must fill it. Named by `webp_animation`.
#[verifier::external_body]
fn encode_webp_animation(
    frames: &Vec<Vec<u8>>,
    width: u32,
    height: u32,
    timestamps: &Vec<i32>,
    method: i32,
    pass: i32,
) -> (r: Result<Vec<u8>, WebpAnimError>)
    requires
        frames.len() == timestamps.len(),
        forall|k: int| 0 <= k < frames.len() ==> (#[trigger] frames@[k])@.len() == width as nat * height as nat * 4,
    ensures
        match r {
            Ok(v) => webp_animation(frame_views(frames@), width, height, timestamps@, method, pass) == Some(v@),
            Err(_) => webp_animation(frame_views(frames@), width, height, timestamps@, method, pass) is None,
        },
{
    let mut config = webp::WebPConfig::new().map_err(|_| WebpAnimError::Config)?;
    config.method = method;
    config.pass = pass;
    let mut enc = webp::AnimEncoder::new(width, height, &config);
    for (rgba, t) in frames.iter().zip(timestamps.iter()) {
        enc.add_frame(webp::AnimFrame::new(rgba, webp::PixelLayout::Rgba, width, height, *t, None));
    }
    let data = enc.try_encode().map_err(|e| WebpAnimError::Encode(format!("{:?}", e)))?;
    Ok(data.to_vec())
}

/// A frame's RGBA pixels.
pub open spec fn frame_rgba(q: (Seq<char>, Seq<u8>, Seq<(u32, u32, Resampling)>)) -> Seq<u8> {
    picture_pixels(q, PixelLayout::Rgba8)
}

/// A frame's RGBA pixels at a GIF's size: as they are when the frame has
/// that size, else after resizing it to exactly that size.
pub open spec fn gif_frame_rgba(q: (Seq<char>, Seq<u8>, Seq<(u32, u32, Resampling)>), width: u16, height: u16) -> Seq<u8> {
    if picture_dims(q) == (width as u32, height as u32) {
        frame_rgba(q)
    } else {
        frame_rgba((q.0, q.1, q.2.push((width as u32, height as u32, Resampling::ExactLanczos3))))
    }
}

/// The delay of frame `k` in milliseconds: the listed one, 100 past the end
/// of the list.
pub open spec fn delay_at(d: Seq<u32>, k: int) -> u32 {
    if 0 <= k < d.len() {
        d[k]
    } else {
        100
    }
}

/// A delay in GIF's hundredths of a second: at least 1.
pub open spec fn gif_delay(ms: u32) -> u16 {
    (if ms / 10 >= 1 {
        ms / 10
    } else {
        1
    }) as u16
}

/// A delay in APNG's thousandths of a second: between 1 and 65535.
pub open spec fn apng_delay(ms: u32) -> u16 {
    (if ms > 65535 {
        65535
    } else if ms == 0 {
        1
    } else {
        ms
    }) as u16
}

/// The timestamp of WebP frame `k`: the sum of the delays before it, each
/// taken as an `i32`.
pub open spec fn webp_timestamp(d: Seq<u32>, k: int) -> int
    decreases k,
{
    if k <= 0 {
        0
    } else {
        webp_timestamp(d, k - 1) + (delay_at(d, k - 1) as i32)
    }
}

/// Whether every frame has the first frame's size (as WebP frames must).
pub open spec fn frames_fill(qs: Seq<(Seq<char>, Seq<u8>, Seq<(u32, u32, Resampling)>)>) -> bool {
    forall|k: int| 0 <= k < qs.len() ==> (#[trigger] frame_rgba(qs[k])).len() == picture_dims(qs[0]).0 as nat
        * picture_dims(qs[0]).1 as nat * 4
}

/// Whether the WebP timestamps of `n` frames (and the one after the last)
/// stay within `i32`.
pub open spec fn timestamps_fit(d: Seq<u32>, n: int) -> bool {
    forall|k: int| 0 <= k <= n ==> i32::MIN <= #[trigger] webp_timestamp(d, k) <= i32::MAX
}

/// The animation the frames make in a format: for GIF, the frames that
/// have a delay, at the first frame's size cut to 16 bits; for PNG, every
/// frame at the first frame's size; for WebP, every frame with its
/// timestamp, libwebp's method 4 and 10 passes.
pub open spec fn assembled(
    fmt: OutputFormat,
    qs: Seq<(Seq<char>, Seq<u8>, Seq<(u32, u32, Resampling)>)>,
    d: Seq<u32>,
) -> Option<Seq<u8>> {
    let (w0, h0) = picture_dims(qs[0]);
    match fmt {
        OutputFormat::Gif => {
            let n = if qs.len() < d.len() {
                qs.len()
            } else {
                d.len()
            };
            gif_animation(
                Seq::new(n, |k: int| gif_frame_rgba(qs[k], w0 as u16, h0 as u16)),
                w0 as u16,
                h0 as u16,
                Seq::new(n, |k: int| gif_delay(d[k])),
            )
        },
        OutputFormat::Png => apng_animation(
            Seq::new(qs.len(), |k: int| frame_rgba(qs[k])),
            w0,
            h0,
            Seq::new(qs.len(), |k: int| apng_delay(delay_at(d, k))),
        ),
        OutputFormat::Webp => webp_animation(
            Seq::new(qs.len(), |k: int| frame_rgba(qs[k])),
            w0,
            h0,
            Seq::new(qs.len(), |k: int| webp_timestamp(d, k) as i32),
            4,
            10,
        ),
        _ => None,
    }
}

/// Whether a format is one frames are put together in.
pub open spec fn is_animation_format(fmt: OutputFormat) -> bool {
    fmt == OutputFormat::Gif || fmt == OutputFormat::Png || fmt == OutputFormat::Webp
}

/// Puts frames together as an animation in `fmt`, with the delays listed
/// for them (in milliseconds).
pub fn assemble_animation(fmt: OutputFormat, frames: &Vec<Picture>, delays: &Vec<u32>) -> (r: Result<Vec<u8>, AnimError>)
    requires
        fmt == OutputFormat::Webp ==> timestamps_fit(delays@, frames.len() as int),
    ensures
        !is_animation_format(fmt) ==> (r matches Err(e) && e is NotAnimationFormat),
        is_animation_format(fmt) && frames.len() == 0 ==> (r matches Err(e) && e is NoFrames),
        is_animation_format(fmt) && frames.len() > 0 ==> {
            let qs = origins(frames@);
            if fmt == OutputFormat::Webp && !frames_fill(qs) {
                r matches Err(e) && e is FrameSizesDiffer
            } else {
                &&& (r is Ok <==> assembled(fmt, qs, delays@) is Some)
                &&& (r matches Ok(v) ==> assembled(fmt, qs, delays@) == Some(v@))
            }
        },
{
    if !(fmt == OutputFormat::Gif || fmt == OutputFormat::Png || fmt == OutputFormat::Webp) {
        return Err(AnimError::NotAnimationFormat);
    }
    if frames.len() == 0 {
        return Err(AnimError::NoFrames);
    }
    let ghost qs = origins(frames@);
    let (w0, h0) = frames[0].size();
    let n = frames.len();
    if fmt == OutputFormat::Gif {
        let w16 = w0 as u16;
        let h16 = h0 as u16;
        let m = if n < delays.len() {
            n
        } else {
            delays.len()
        };
        let mut rgbas: Vec<Vec<u8>> = Vec::new();
        let mut gd: Vec<u16> = Vec::new();
        let mut k: usize = 0;
        while k < m
            invariant
                m <= n,
                m <= delays.len(),
                n == frames.len(),
                qs == origins(frames@),
                k <= m,
                rgbas.len() == k,
                gd.len() == k,
                forall|j: int| 0 <= j < k ==> (#[trigger] rgbas@[j])@ == gif_frame_rgba(qs[j], w16, h16),
                forall|j: int| 0 <= j < k ==> (#[trigger] rgbas@[j])@.len() == w16 as nat * h16 as nat * 4,
                forall|j: int| 0 <= j < k ==> #[trigger] gd@[j] == gif_delay(delays@[j]),
            decreases m - k,
        {
            let f = &frames[k];
            let (w, h) = f.size();
            let rgba = if w == w16 as u32 && h == h16 as u32 {
                let px = f.pixels(PixelLayout::Rgba8);
                proof {
                    assert(picture_dims(f.origin()) == (w16 as u32, h16 as u32));
                    assert(px@.len() == w16 as nat * h16 as nat * 4);
                }
                px
            } else {
                let r = f.resize_exact(w16 as u32, h16 as u32);
                let d = r.size();
                let px = r.pixels(PixelLayout::Rgba8);
                proof {
                    assert(r.origin().2.len() > 0);
                    assert(r.origin().2.last() == (w16 as u32, h16 as u32, Resampling::ExactLanczos3));
                    assert(d == (w16 as u32, h16 as u32));
                    assert(px@.len() == w16 as nat * h16 as nat * 4);
                }
                px
            };
            let q = delays[k] / 10;
            let q = if q >= 1 {
                q
            } else {
                1
            };
            rgbas.push(rgba);
            gd.push(q as u16);
            k = k + 1;
        }
        proof {
            assert(frame_views(rgbas@) =~= Seq::new(m as nat, |j: int| gif_frame_rgba(qs[j], w16, h16)));
            assert(gd@ =~= Seq::new(m as nat, |j: int| gif_delay(delays@[j])));
        }
        match encode_gif_animation(&rgbas, w16, h16, &gd) {
            Ok(v) => Ok(v),
            Err(msg) => Err(AnimError::Assemble(msg)),
        }
    } else {
        let mut rgbas: Vec<Vec<u8>> = Vec::new();
        let mut fill = true;
        let mut k: usize = 0;
        while k < n
            invariant
                n == frames.len(),
                n > 0,
                qs == origins(frames@),
                (w0, h0) == picture_dims(qs[0]),
                k <= n,
                rgbas.len() == k,
                forall|j: int| 0 <= j < k ==> (#[trigger] rgbas@[j])@ == frame_rgba(qs[j]),
                fill <==> forall|j: int| 0 <= j < k ==> (#[trigger] frame_rgba(qs[j])).len() == w0 as nat * h0 as nat * 4,
            decreases n - k,
        {
            let rgba = frames[k].pixels(PixelLayout::Rgba8);
            proof {
                let (a, b) = (w0 as int, h0 as int);
                assert(0 <= a * b <= 0xffff_ffff * 0xffff_ffff) by (nonlinear_arith)
                    requires
                        0 <= a <= 0xffff_ffff,
                        0 <= b <= 0xffff_ffff,
                ;
            }
            proof {
                assert(qs[k as int] == frames@[k as int].origin());
                assert(rgba@ == frame_rgba(qs[k as int]));
            }
            if rgba.len() as u128 != w0 as u128 * h0 as u128 * 4 {
                fill = false;
            }
            proof {
                assert((rgba@.len() == w0 as nat * h0 as nat * 4) == (rgba.len() as u128 == w0 as u128 * h0 as u128 * 4));
            }
            rgbas.push(rgba);
            k = k + 1;
        }
        proof {
            assert(frame_views(rgbas@) =~= Seq::new(n as nat, |j: int| frame_rgba(qs[j])));
        }
        if fmt == OutputFormat::Png {
            let mut pd: Vec<u16> = Vec::new();
            let mut k: usize = 0;
            while k < n
                invariant
                    k <= n,
                    pd.len() == k,
                    forall|j: int| 0 <= j < k ==> #[trigger] pd@[j] == apng_delay(delay_at(delays@, j)),
                decreases n - k,
            {
                let ms = if k < delays.len() {
                    delays[k]
                } else {
                    100
                };
                let v = if ms > 65535 {
                    65535
                } else if ms == 0 {
                    1
                } else {
                    ms
                };
                pd.push(v as u16);
                k = k + 1;
            }
            proof {
                assert(pd@ =~= Seq::new(n as nat, |j: int| apng_delay(delay_at(delays@, j))));
            }
            match encode_apng_animation(&rgbas, w0, h0, &pd) {
                Ok(v) => Ok(v),
                Err(msg) => Err(AnimError::Assemble(msg)),
            }
        } else {
            if !fill {
                return Err(AnimError::FrameSizesDiffer);
            }
            let mut ts: Vec<i32> = Vec::new();
            let mut t: i32 = 0;
            let mut k: usize = 0;
            while k < n
                invariant
                    n == frames.len(),
                    timestamps_fit(delays@, n as int),
                    k <= n,
                    ts.len() == k,
                    t == webp_timestamp(delays@, k as int),
                    forall|j: int| 0 <= j < k ==> #[trigger] ts@[j] == webp_timestamp(delays@, j) as i32,
                decreases n - k,
            {
                ts.push(t);
                let ms = if k < delays.len() {
                    delays[k]
                } else {
                    100
                };
                proof {
                    assert(i32::MIN <= webp_timestamp(delays@, k + 1) <= i32::MAX);
                }
                t = t + ms as i32;
                k = k + 1;
            }
            proof {
                assert(ts@ =~= Seq::new(n as nat, |j: int| webp_timestamp(delays@, j) as i32));
            }
            match encode_webp_animation(&rgbas, w0, h0, &ts, 4, 10) {
                Ok(v) => Ok(v),
                Err(WebpAnimError::Config) => Err(AnimError::Assemble("Failed to init WebP config".to_owned())),
                Err(WebpAnimError::Encode(dbg)) => {
                    let mut msg = "Animated WebP encode failed: ".to_owned();
                    crate::text::push_all(&mut msg, dbg.as_str());
                    Err(AnimError::Assemble(msg))
                },
            }
        }
    }
}

proof fn lemma_prepared_len(
    os: Seq<(Seq<char>, Seq<u8>, Seq<(u32, u32, Resampling)>)>,
    settings: &ImageSettings,
    scaled: Seq<u32>,
)
    ensures
        prepared_frames(os, settings, scaled) matches Some(qs) ==> qs.len() == os.len(),
    decreases os.len(),
{
    if os.len() > 0 {
        lemma_prepared_len(os.drop_last(), settings, scaled);
    }
}

/// The frames of an animation split into their pictures and their delays,
/// in order.
pub fn split_frames(frames: Vec<SourceFrame>) -> (r: (Vec<Picture>, Vec<u32>))
    ensures
        r.0.len() == frames.len(),
        r.1.len() == frames.len(),
        forall|k: int| 0 <= k < frames.len() ==> (#[trigger] r.0@[k]).origin() == frames@[k].picture.origin(),
        forall|k: int| 0 <= k < frames.len() ==> #[trigger] r.1@[k] == frames@[k].delay_ms,
{
    let ghost sv = frames@;
    let n = frames.len();
    let mut rest = frames;
    let mut pics: Vec<Picture> = Vec::new();
    let mut delays: Vec<u32> = Vec::new();
    let mut i: usize = 0;
    while i < n
        invariant
            sv.len() == n,
            i <= n,
            rest.len() == n - i,
            forall|k: int| 0 <= k < rest.len() ==> (#[trigger] rest@[k]).picture.origin() == sv[k + i].picture.origin()
                && rest@[k].delay_ms == sv[k + i].delay_ms,
            pics.len() == i,
            delays.len() == i,
            forall|k: int| 0 <= k < i ==> (#[trigger] pics@[k]).origin() == sv[k].picture.origin(),
            forall|k: int| 0 <= k < i ==> #[trigger] delays@[k] == sv[k].delay_ms,
        decreases n - i,
    {
        let ghost before = rest@;
        let f = rest.remove(0);
        proof {
            assert(f.picture.origin() == sv[i as int].picture.origin()) by {
                assert(before[0] == f);
            }
            assert forall|k: int| 0 <= k < rest.len() implies (#[trigger] rest@[k]).picture.origin() == sv[k + i
                + 1].picture.origin() && rest@[k].delay_ms == sv[k + i + 1].delay_ms by {
                assert(rest@[k] == before[k + 1]);
            }
        }
        delays.push(f.delay_ms);
        pics.push(f.picture);
        i = i + 1;
    }
    (pics, delays)
}

/// What an animation comes to: nothing when a frame cannot be made ready;
/// else, for frames made ready, the outcome `assemble_animation` states,
/// with the file going to the output path under the format's extension.
pub open spec fn animation_holds(
    r: Result<(String, OutputFormat, Vec<u8>), AnimError>,
    output_path: Seq<char>,
    fmt: OutputFormat,
    os: Seq<(Seq<char>, Seq<u8>, Seq<(u32, u32, Resampling)>)>,
    settings: &ImageSettings,
    scaled: Seq<u32>,
    delays: Seq<u32>,
) -> bool {
    if !is_animation_format(fmt) {
        r matches Err(e) && e is NotAnimationFormat
    } else {
        match prepared_frames(os, settings, scaled) {
            None => r is Err,
            Some(qs) => {
                &&& (qs.len() == 0 ==> (r matches Err(e) && e is NoFrames))
                &&& (qs.len() > 0 && fmt == OutputFormat::Webp && !frames_fill(qs) ==> (r matches Err(e)
                    && e is FrameSizesDiffer))
                &&& (qs.len() > 0 && !(fmt == OutputFormat::Webp && !frames_fill(qs)) ==> (r is Ok <==> assembled(
                    fmt,
                    qs,
                    delays,
                ) is Some))
                &&& (r matches Ok((base, f, v)) ==> base@ == base_output_path(output_path, fmt) && f == fmt
                    && assembled(fmt, qs, delays) == Some(v@))
            },
        }
    }
}

fn animate(
    output_path: &str,
    fmt: OutputFormat,
    frames: Vec<Picture>,
    delays: &Vec<u32>,
    settings: &ImageSettings,
    scaled: &Vec<u32>,
) -> (r: Result<(String, OutputFormat, Vec<u8>), AnimError>)
    requires
        scaled.len() == frames.len(),
        fmt == OutputFormat::Webp ==> timestamps_fit(delays@, frames.len() as int),
    ensures
        animation_holds(r, output_path@, fmt, origins(frames@), settings, scaled@, delays@),
{
    if !(fmt == OutputFormat::Gif || fmt == OutputFormat::Png || fmt == OutputFormat::Webp) {
        return Err(AnimError::NotAnimationFormat);
    }
    proof {
        lemma_prepared_len(origins(frames@), settings, scaled@);
    }
    let ready = match prepare_frames(frames, settings, scaled) {
        Ok(v) => v,
        Err(e) => {
            return Err(e);
        },
    };
    let bytes = match assemble_animation(fmt, &ready, delays) {
        Ok(v) => v,
        Err(e) => {
            return Err(e);
        },
    };
    let base = output_base_path(output_path, fmt);
    Ok((base, fmt, bytes))
}

/// Converts an animated file's frames to the animated target format
/// (`animated_target`): each frame made ready as the settings ask (with its
/// own scaled side for a one-sided resize), then the frames put together
/// with their delays. Gives the path the file goes to before name clashes
/// are resolved, the format and the file's bytes.
pub fn convert_animation(
    output_path: &str,
    settings: &ImageSettings,
    global_format: Option<OutputFormat>,
    source_ext: &str,
    frames: Vec<Picture>,
    delays: &Vec<u32>,
    scaled: &Vec<u32>,
) -> (r: Result<(String, OutputFormat, Vec<u8>), AnimError>)
    requires
        scaled.len() == frames.len(),
        animated_target_spec(global_format, settings.output_format, source_ext@) == OutputFormat::Webp
            ==> timestamps_fit(delays@, frames.len() as int),
    ensures
        animation_holds(
            r,
            output_path@,
            animated_target_spec(global_format, settings.output_format, source_ext@),
            origins(frames@),
            settings,
            scaled@,
            delays@,
        ),
{
    let fmt = animated_target(global_format, settings.output_format, source_ext);
    animate(output_path, fmt, frames, delays, settings, scaled)
}

/// Puts frames read from a directory together as one animation in the
/// assembly format (`assembly_target`): each frame made ready as the
/// settings ask, then the frames put together with the listed delays.
pub fn assemble_frames(
    output_path: &str,
    settings: &ImageSettings,
    global_format: Option<OutputFormat>,
    frames: Vec<Picture>,
    delays: &Vec<u32>,
    scaled: &Vec<u32>,
) -> (r: Result<(String, OutputFormat, Vec<u8>), AnimError>)
    requires
        scaled.len() == frames.len(),
        assembly_target_spec(global_format, settings.output_format) == OutputFormat::Webp ==> timestamps_fit(
            delays@,
            frames.len() as int,
        ),
    ensures
        animation_holds(
            r,
            output_path@,
            assembly_target_spec(global_format, settings.output_format),
            origins(frames@),
            settings,
            scaled@,
            delays@,
        ),
{
    let fmt = assembly_target(global_format, settings.output_format);
    animate(output_path, fmt, frames, delays, settings, scaled)
}

/// A frame file read for assembly, decoded by the decoder of its path's
/// extension.
pub fn open_frame(path: &str, bytes: &[u8]) -> (r: Result<Picture, AnimError>)
    ensures
        match crate::paths::extension_of(path@) {
            Some(e) => (r is Ok <==> image_decodes(e, bytes@)) && (r matches Ok(p) ==> p.origin() == (
                e,
                bytes@,
                Seq::<(u32, u32, Resampling)>::empty(),
            )),
            None => r is Err,
        },
        r matches Err(e) ==> e is FrameOpen,
{
    match crate::paths::path_extension(path) {
        Some(ext) => match Picture::open(&ext, bytes) {
            Some(p) => Ok(p),
            None => Err(AnimError::FrameOpen),
        },
        None => Err(AnimError::FrameOpen),
    }
}

/// Whether a directory entry is a frame file: its extension is `png`,
/// `webp` or `gif`, exactly.
pub open spec fn is_frame_file(path: Seq<char>) -> bool {
    match crate::paths::extension_of(path) {
        Some(e) => e == "png"@ || e == "webp"@ || e == "gif"@,
        None => false,
    }
}

pub fn keep_frame_file(path: &str) -> (b: bool)
    ensures
        b == is_frame_file(path@),
{
    proof {
        reveal_strlit("png");
        reveal_strlit("webp");
        reveal_strlit("gif");
    }
    match crate::paths::path_extension(path) {
        Some(e) => str_eq(&e, "png") || str_eq(&e, "webp") || str_eq(&e, "gif"),
        None => false,
    }
}

/// The delays a line of the delays file gives: its number, when the line
/// (trimmed of white space) is one.
pub open spec fn line_delay(line: Seq<char>) -> Seq<u32> {
    match crate::state::parse_u32(crate::text::unicode_trim(line)) {
        Some(v) => seq![v],
        None => Seq::empty(),
    }
}

/// A line ended by a line feed, without the carriage return before it.
pub open spec fn without_cr(line: Seq<char>) -> Seq<char> {
    if line.len() > 0 && line.last() == '\r' {
        line.drop_last()
    } else {
        line
    }
}

/// The delays of the complete lines of `s` and the line still open at its
/// end, as std's `lines` splits text (at `\n`, a `\r` before it dropped).
pub open spec fn delay_scan(s: Seq<char>) -> (Seq<u32>, Seq<char>)
    decreases s.len(),
{
    if s.len() == 0 {
        (Seq::empty(), Seq::empty())
    } else {
        let (d, cur) = delay_scan(s.drop_last());
        if s.last() == '\n' {
            (d + line_delay(without_cr(cur)), Seq::empty())
        } else {
            (d, cur.push(s.last()))
        }
    }
}

/// The delays listed in a delays file: one per line that holds a number.
pub open spec fn parsed_delays(s: Seq<char>) -> Seq<u32> {
    let (d, cur) = delay_scan(s);
    if cur.len() == 0 {
        d
    } else {
        d + line_delay(cur)
    }
}

fn delay_of_line(line: &Vec<char>) -> (r: Vec<u32>)
    ensures
        r@ == line_delay(line@),
{
    let text = crate::text::string_of(line.as_slice());
    let t = crate::text::trim_text(&text);
    match crate::control::parse_u32_str(&t) {
        Some(v) => vec![v],
        None => {
            let r: Vec<u32> = Vec::new();
            proof {
                assert(r@ =~= Seq::<u32>::empty());
            }
            r
        },
    }
}

/// The delays in the text of a delays file.
pub fn parse_delays(text: &str) -> (d: Vec<u32>)
    ensures
        d@ == parsed_delays(text@),
{
    let v = crate::text::chars_of(text);
    let mut out: Vec<u32> = Vec::new();
    let mut cur: Vec<char> = Vec::new();
    let mut i: usize = 0;
    proof {
        assert(v@.take(0) =~= Seq::<char>::empty());
        assert(out@ =~= Seq::<u32>::empty());
        assert(cur@ =~= Seq::<char>::empty());
    }
    while i < v.len()
        invariant
            v@ == text@,
            i <= v.len(),
            (out@, cur@) == delay_scan(v@.take(i as int)),
        decreases v.len() - i,
    {
        proof {
            assert(v@.take(i + 1).drop_last() =~= v@.take(i as int));
            assert(v@.take(i + 1).last() == v@[i as int]);
        }
        if v[i] == '\n' {
            if cur.len() > 0 && cur[cur.len() - 1] == '\r' {
                cur.pop();
            }
            let ld = delay_of_line(&cur);
            let ghost before = out@;
            let mut k: usize = 0;
            while k < ld.len()
                invariant
                    k <= ld.len(),
                    out@ == before + ld@.take(k as int),
                decreases ld.len() - k,
            {
                out.push(ld[k]);
                proof {
                    assert(ld@.take(k + 1) =~= ld@.take(k as int).push(ld@[k as int]));
                }
                k = k + 1;
            }
            proof {
                assert(ld@.take(ld.len() as int) =~= ld@);
            }
            cur = Vec::new();
            proof {
                assert(cur@ =~= Seq::<char>::empty());
            }
        } else {
            cur.push(v[i]);
        }
        i = i + 1;
    }
    proof {
        assert(v@.take(v.len() as int) =~= v@);
    }
    if cur.len() > 0 {
        let ld = delay_of_line(&cur);
        let ghost before = out@;
        let mut k: usize = 0;
        while k < ld.len()
            invariant
                k <= ld.len(),
                out@ == before + ld@.take(k as int),
            decreases ld.len() - k,
        {
            out.push(ld[k]);
            proof {
                assert(ld@.take(k + 1) =~= ld@.take(k as int).push(ld@[k as int]));
            }
            k = k + 1;
        }
        proof {
            assert(ld@.take(ld.len() as int) =~= ld@);
        }
    }
    out
}

/// The delays of `count` frames: those a delays file lists, or 100 ms
/// each when there is no readable file.
pub fn frame_delays(text: Option<&str>, count: usize) -> (d: Vec<u32>)
    ensures
        match text {
            Some(t) => d@ == parsed_delays(t@),
            None => d@ == Seq::new(count as nat, |k: int| 100u32),
        },
{
    match text {
        Some(t) => parse_delays(t),
        None => {
            let mut d: Vec<u32> = Vec::new();
            let mut k: usize = 0;
            while k < count
                invariant
                    k <= count,
                    d@ == Seq::new(k as nat, |j: int| 100u32),
                decreases count - k,
            {
                d.push(100);
                proof {
                    assert(d@ =~= Seq::new((k + 1) as nat, |j: int| 100u32));
                }
                k = k + 1;
            }
            d
        },
    }
}

/// Whether a format is one frames are put together in.
pub fn is_animation_target(fmt: OutputFormat) -> (b: bool)
    ensures
        b == is_animation_format(fmt),
{
    fmt == OutputFormat::Gif || fmt == OutputFormat::Png || fmt == OutputFormat::Webp
}

/// The name reported for a written animation: the final component of its
/// path, or `output` with the format's extension when the path has none.
pub fn animation_output_name(final_path: &str, fmt: OutputFormat) -> (s: String)
    ensures
        s@ == match crate::paths::file_name_of(final_path@) {
            Some(n) => n,
            None => "output."@ + fmt.ext(),
        },
{
    match crate::paths::file_name(final_path) {
        Some(n) => n,
        None => {
            let mut s = "output.".to_owned();
            crate::text::push_all(&mut s, fmt.extension());
            s
        },
    }
}

/// A frame number written with at least three digits.
pub open spec fn padded3(n: nat) -> Seq<char> {
    if n < 10 {
        "00"@ + crate::text::decimal(n)
    } else if n < 100 {
        "0"@ + crate::text::decimal(n)
    } else {
        crate::text::decimal(n)
    }
}

/// The file name of frame number `n` (counting from 1) with an extension:
/// `frame_001.png` and so on.
pub fn frame_file_name(n: u32, ext: &str) -> (s: String)
    ensures
        s@ == "frame_"@ + padded3(n as nat) + "."@ + ext@,
{
    let mut s = "frame_".to_owned();
    if n < 10 {
        crate::text::push_all(&mut s, "00");
    } else if n < 100 {
        crate::text::push_all(&mut s, "0");
    }
    crate::text::push_decimal(&mut s, n as u64);
    crate::text::push_char(&mut s, '.');
    crate::text::push_all(&mut s, ext);
    proof {
        reveal_strlit("00");
        reveal_strlit("0");
        reveal_strlit("frame_");
        reveal_strlit(".");
    }
    s
}

/// The extension extracted frames are written with: the chosen format's,
/// or for `Same` the source's lowercase extension (`png` without one).
pub open spec fn frames_ext_spec(global_format: Option<OutputFormat>, own: OutputFormat, source_ext: Option<Seq<char>>) -> Seq<char> {
    let target = match global_format {
        Some(g) => g,
        None => own,
    };
    if target == OutputFormat::Same {
        match source_ext {
            Some(e) => e,
            None => "png"@,
        }
    } else {
        target.ext()
    }
}

pub fn frames_ext(global_format: Option<OutputFormat>, own: OutputFormat, source_ext: Option<&str>) -> (s: String)
    ensures
        s@ == frames_ext_spec(global_format, own, source_ext.deep_view()),
{
    let target = match global_format {
        Some(g) => g,
        None => own,
    };
    if target == OutputFormat::Same {
        match source_ext {
            Some(e) => e.to_owned(),
            None => "png".to_owned(),
        }
    } else {
        target.extension().to_owned()
    }
}

/// The folder extracted frames go to, beside the source: `stem_frames`,
/// then `stem_frames_2`, `stem_frames_3` and so on while a name is taken.
pub open spec fn frames_dir_candidate(parent: Seq<char>, stem: Seq<char>, counter: nat) -> Seq<char> {
    crate::paths::joined_path(
        parent,
        stem + "_frames"@ + if counter == 0 {
            Seq::<char>::empty()
        } else {
            "_"@ + crate::text::decimal(counter + 1)
        },
    )
}

pub fn frames_dir_name(parent: &str, stem: &str, counter: u64) -> (s: String)
    requires
        counter < u64::MAX,
    ensures
        s@ == frames_dir_candidate(parent@, stem@, counter as nat),
{
    let mut name = stem.to_owned();
    crate::text::push_all(&mut name, "_frames");
    if counter > 0 {
        crate::text::push_char(&mut name, '_');
        crate::text::push_decimal(&mut name, counter + 1);
        proof {
            reveal_strlit("_");
            assert(name@ =~= stem@ + "_frames"@ + ("_"@ + crate::text::decimal((counter + 1) as nat)));
        }
    } else {
        proof {
            assert(name@ =~= stem@ + "_frames"@ + Seq::<char>::empty());
        }
    }
    crate::paths::path_join(parent, &name)
}

/// The text of a delays file: each delay on a line of its own.
pub open spec fn delays_text_spec(d: Seq<u32>) -> Seq<char>
    decreases d.len(),
{
    if d.len() == 0 {
        Seq::empty()
    } else {
        delays_text_spec(d.drop_last()) + crate::text::decimal(d.last() as nat) + seq!['\n']
    }
}

pub fn delays_text(d: &Vec<u32>) -> (s: String)
    ensures
        s@ == delays_text_spec(d@),
{
    let mut s = String::new();
    let mut k: usize = 0;
    proof {
        assert(d@.take(0) =~= Seq::<u32>::empty());
    }
    while k < d.len()
        invariant
            k <= d.len(),
            s@ == delays_text_spec(d@.take(k as int)),
        decreases d.len() - k,
    {
        crate::text::push_decimal(&mut s, d[k] as u64);
        crate::text::push_char(&mut s, '\n');
        proof {
            assert(d@.take(k + 1).drop_last() =~= d@.take(k as int));
            assert(d@.take(k + 1).last() == d@[k as int]);
        }
        k = k + 1;
    }
    proof {
        assert(d@.take(d.len() as int) =~= d@);
    }
    s
}

/// The file a prepared frame is written as, by extension: PNG for `png`
/// and any extension but `webp` and `gif`; lossless WebP of its RGBA form
/// for `webp` (`None` when libwebp refuses its size); GIF for `gif`.
pub open spec fn frame_file_spec(o: (Seq<char>, Seq<u8>, Seq<(u32, u32, Resampling)>), layout: PixelLayout, ext: Seq<char>) -> Option<Option<Seq<u8>>> {
    let (w, h) = picture_dims(o);
    let px = picture_pixels(o, layout);
    if ext == "webp"@ {
        if 1 <= w <= 16383 && 1 <= h <= 16383 {
            Some(Some(crate::codecs::webp_lossless_output(
                crate::picture::converted_pixels(px, w, h, layout, PixelLayout::Rgba8),
                w,
                h,
            )))
        } else {
            None
        }
    } else {
        Some(image_file_output(px, w, h, layout, if ext == "gif"@ { WriteFormat::Gif } else { WriteFormat::Png }))
    }
}

/// Writes a frame, resized and converted as the settings ask, as a file
/// with the extension: `Ok(None)` when libwebp refuses the size of a
/// lossless WebP frame.
pub fn frame_file(pic: Picture, settings: &ImageSettings, scaled_side: u32, ext: &str) -> (r: Result<Option<Vec<u8>>, AnimError>)
    ensures
        ({
            let o = processed_origin(pic.origin(), settings, scaled_side);
            let layout = layout_of(settings.color_space);
            match frame_file_spec(o, layout, ext@) {
                None => r matches Ok(None),
                Some(None) => r matches Err(e) && e is FrameWrite,
                Some(Some(v)) => r matches Ok(Some(b)) && b@ == v,
            }
        }),
{
    let processed = process_picture(pic, settings, scaled_side);
    let layout = layout_for(settings.color_space);
    let (w, h) = processed.size();
    let px = processed.pixels(layout);
    proof {
        reveal_strlit("webp");
        reveal_strlit("gif");
    }
    if str_eq(ext, "webp") {
        if 1 <= w && w <= 16383 && 1 <= h && h <= 16383 {
            let rgba = crate::picture::convert_pixels(px.as_slice(), w, h, layout, PixelLayout::Rgba8);
            Ok(Some(crate::codecs::encode_webp_lossless(rgba.as_slice(), w, h)))
        } else {
            Ok(None)
        }
    } else {
        let fmt = if str_eq(ext, "gif") {
            WriteFormat::Gif
        } else {
            WriteFormat::Png
        };
        match write_image(px.as_slice(), w, h, layout, fmt) {
            Ok(v) => Ok(Some(v)),
            Err(e) => Err(AnimError::FrameWrite(image_error_text(&e))),
        }
    }
}

} // verus!
