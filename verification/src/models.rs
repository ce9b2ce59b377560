//! The data model: output formats, colour spaces, per-file settings, the
//! entries of the file list, and the small text renderings shown for them.
use vstd::prelude::*;
use crate::codecs::{
    jpeg_color_name, jpeg_header_color, png_color_name, png_header_color, webp_color_name,
    webp_header_color,
};
use crate::headers::{
    exif_field_text, exif_readable, exif_text, header_dimensions, image_header_dimensions, read_exif_record, ExifTag,
};
use crate::human::{bytes_to_human, human_bytes};
use crate::paths::{extension_of, file_name, file_name_of, path_extension};
use crate::text::{
    chars_of, decimal, is_prefix_of, push_all, push_char, push_decimal, str_eq, string_of_range,
    to_lowercase, to_uppercase, trim_end_char, ascii_lowercase, is_ascii_text, trim_end_matches_char, unicode_lowercase,
    unicode_uppercase, vec_starts_with,
};

verus! {

/// Colour space an image is converted to before encoding.
#[derive(Clone, Copy, Debug, PartialEq, Eq, Structural)]
pub enum ColorSpace {
    Rgb,
    Grayscale,
    Rgba,
}

impl ColorSpace {
    /// The label shown for the colour space.
    pub open spec fn label(self) -> Seq<char> {
        match self {
            ColorSpace::Rgb => "RGB"@,
            ColorSpace::Grayscale => "Grayscale"@,
            ColorSpace::Rgba => "RGBA"@,
        }
    }

    pub fn as_str(&self) -> (s: &'static str)
        ensures
            s@ == self.label(),
    {
        match self {
            ColorSpace::Rgb => "RGB",
            ColorSpace::Grayscale => "Grayscale",
            ColorSpace::Rgba => "RGBA",
        }
    }
}

/// Target format of a conversion; `Same` keeps the source file's format.
#[derive(Clone, Copy, Debug, PartialEq, Eq, Structural)]
pub enum OutputFormat {
    Same,
    Jpeg,
    Png,
    Webp,
    Gif,
    Tiff,
    Bmp,
    Tga,
}

/// The format a lowercase extension names, if any.
pub open spec fn format_for_lower_ext(e: Seq<char>) -> Option<OutputFormat> {
    if e == "jpg"@ || e == "jpeg"@ {
        Some(OutputFormat::Jpeg)
    } else if e == "png"@ {
        Some(OutputFormat::Png)
    } else if e == "webp"@ {
        Some(OutputFormat::Webp)
    } else if e == "gif"@ {
        Some(OutputFormat::Gif)
    } else if e == "tiff"@ || e == "tif"@ {
        Some(OutputFormat::Tiff)
    } else if e == "bmp"@ {
        Some(OutputFormat::Bmp)
    } else if e == "tga"@ {
        Some(OutputFormat::Tga)
    } else {
        None
    }
}

/// Every concrete format is named by the extension it writes, so a written
/// file is recognised as its format again.
pub proof fn law_extension_round_trip(f: OutputFormat)
    requires
        f != OutputFormat::Same,
    ensures
        format_for_lower_ext(f.ext()) == Some(f),
{
    reveal_strlit("jpg");
    reveal_strlit("jpeg");
    reveal_strlit("png");
    reveal_strlit("webp");
    reveal_strlit("gif");
    reveal_strlit("tiff");
    reveal_strlit("tif");
    reveal_strlit("bmp");
    reveal_strlit("tga");
    let e = f.ext();
    match f {
        OutputFormat::Png => {
            assert(e[0] != "jpg"@[0]);
        },
        OutputFormat::Webp => {
            assert(e[0] != "jpeg"@[0]);
        },
        OutputFormat::Gif => {
            assert(e[0] != "jpg"@[0] && e[0] != "png"@[0]);
        },
        OutputFormat::Tiff => {
            assert(e[0] != "jpeg"@[0] && e[0] != "webp"@[0]);
        },
        OutputFormat::Bmp => {
            assert(e[0] != "jpg"@[0] && e[0] != "png"@[0] && e[0] != "gif"@[0] && e[0] != "tif"@[0]);
        },
        OutputFormat::Tga => {
            assert(e[0] != "jpg"@[0] && e[0] != "png"@[0] && e[0] != "gif"@[0] && e[1] != "tif"@[1]
                && e[0] != "bmp"@[0]);
        },
        _ => {},
    }
}

/// For an extension written in ASCII, the letter case does not matter:
/// lower-casing it again changes nothing, so an extension and its
/// lower-case form name the same format; the empty extension names none.
pub proof fn law_extension_case_blind(e: Seq<char>)
    requires
        is_ascii_text(e),
    ensures
        is_ascii_text(ascii_lowercase(e)),
        ascii_lowercase(ascii_lowercase(e)) == ascii_lowercase(e),
        format_for_lower_ext(ascii_lowercase(ascii_lowercase(e))) == format_for_lower_ext(ascii_lowercase(e)),
        format_for_lower_ext(ascii_lowercase(Seq::<char>::empty())) is None,
{
    assert(ascii_lowercase(ascii_lowercase(e)) =~= ascii_lowercase(e));
    reveal_strlit("jpg");
    reveal_strlit("jpeg");
    reveal_strlit("png");
    reveal_strlit("webp");
    reveal_strlit("gif");
    reveal_strlit("tiff");
    reveal_strlit("tif");
    reveal_strlit("bmp");
    reveal_strlit("tga");
    assert(ascii_lowercase(Seq::<char>::empty()).len() == 0);
}

impl OutputFormat {
    /// The label shown for the format.
    pub open spec fn label(self) -> Seq<char> {
        match self {
            OutputFormat::Same => "Same"@,
            OutputFormat::Jpeg => "JPEG"@,
            OutputFormat::Png => "PNG"@,
            OutputFormat::Webp => "WebP"@,
            OutputFormat::Gif => "GIF"@,
            OutputFormat::Tiff => "TIFF"@,
            OutputFormat::Bmp => "BMP"@,
            OutputFormat::Tga => "TGA"@,
        }
    }

    /// The file extension written for the format (empty for `Same`).
    pub open spec fn ext(self) -> Seq<char> {
        match self {
            OutputFormat::Same => ""@,
            OutputFormat::Jpeg => "jpg"@,
            OutputFormat::Png => "png"@,
            OutputFormat::Webp => "webp"@,
            OutputFormat::Gif => "gif"@,
            OutputFormat::Tiff => "tiff"@,
            OutputFormat::Bmp => "bmp"@,
            OutputFormat::Tga => "tga"@,
        }
    }

    /// Whether the format has a quality setting.
    pub open spec fn has_quality(self) -> bool {
        self == OutputFormat::Jpeg || self == OutputFormat::Webp || self == OutputFormat::Tiff
    }

    pub fn as_str(&self) -> (s: &'static str)
        ensures
            s@ == self.label(),
    {
        match self {
            OutputFormat::Same => "Same",
            OutputFormat::Jpeg => "JPEG",
            OutputFormat::Png => "PNG",
            OutputFormat::Webp => "WebP",
            OutputFormat::Gif => "GIF",
            OutputFormat::Tiff => "TIFF",
            OutputFormat::Bmp => "BMP",
            OutputFormat::Tga => "TGA",
        }
    }

    pub fn extension(&self) -> (s: &'static str)
        ensures
            s@ == self.ext(),
    {
        match self {
            OutputFormat::Same => "",
            OutputFormat::Jpeg => "jpg",
            OutputFormat::Png => "png",
            OutputFormat::Webp => "webp",
            OutputFormat::Gif => "gif",
            OutputFormat::Tiff => "tiff",
            OutputFormat::Bmp => "bmp",
            OutputFormat::Tga => "tga",
        }
    }

    pub fn supports_quality(&self) -> (b: bool)
        ensures
            b == self.has_quality(),
    {
        match self {
            OutputFormat::Jpeg | OutputFormat::Webp | OutputFormat::Tiff => true,
            _ => false,
        }
    }

    /// The format named by an extension that is already lowercase.
    pub fn from_lowercase_extension(e: &str) -> (res: Option<OutputFormat>)
        ensures
            res == format_for_lower_ext(e@),
    {
        if str_eq(e, "jpg") || str_eq(e, "jpeg") {
            Some(OutputFormat::Jpeg)
        } else if str_eq(e, "png") {
            Some(OutputFormat::Png)
        } else if str_eq(e, "webp") {
            Some(OutputFormat::Webp)
        } else if str_eq(e, "gif") {
            Some(OutputFormat::Gif)
        } else if str_eq(e, "tiff") || str_eq(e, "tif") {
            Some(OutputFormat::Tiff)
        } else if str_eq(e, "bmp") {
            Some(OutputFormat::Bmp)
        } else if str_eq(e, "tga") {
            Some(OutputFormat::Tga)
        } else {
            None
        }
    }

    /// The format named by an extension, in any letter case.
    pub fn from_extension(ext: &str) -> (res: Option<OutputFormat>)
        ensures
            res == format_for_lower_ext(unicode_lowercase(ext@)),
            is_ascii_text(ext@) ==> res == format_for_lower_ext(ascii_lowercase(ext@)),
    {
        let lower = to_lowercase(ext);
        OutputFormat::from_lowercase_extension(&lower)
    }
}

/// Per-file conversion settings.
#[derive(Clone, Debug)]
pub struct ImageSettings {
    pub quality: u8,
    pub color_space: ColorSpace,
    pub remove_exif: bool,
    pub output_format: OutputFormat,
    pub output_directory: Option<String>,
    pub progressive: bool,
    pub max_width: Option<u32>,
    pub max_height: Option<u32>,
    pub png_compression: u8,
    pub webp_lossless: bool,
    pub overwrite: bool,
    pub backup: bool,
}

/// A copy of an optional string.
pub fn copy_opt_string(o: &Option<String>) -> (r: Option<String>)
    ensures
        r == *o,
{
    match o {
        Some(s) => Some(s.clone()),
        None => None,
    }
}

impl ImageSettings {
    /// The settings every new file starts with.
    pub open spec fn is_default(self) -> bool {
        &&& self.quality == 85
        &&& self.color_space == ColorSpace::Rgb
        &&& self.remove_exif
        &&& self.output_format == OutputFormat::Same
        &&& self.output_directory is None
        &&& !self.progressive
        &&& self.max_width is None
        &&& self.max_height is None
        &&& self.png_compression == 6
        &&& !self.webp_lossless
        &&& !self.overwrite
        &&& !self.backup
    }

    /// A field-by-field copy.
    pub fn copied(&self) -> (r: ImageSettings)
        ensures
            r == *self,
    {
        ImageSettings {
            quality: self.quality,
            color_space: self.color_space,
            remove_exif: self.remove_exif,
            output_format: self.output_format,
            output_directory: copy_opt_string(&self.output_directory),
            progressive: self.progressive,
            max_width: self.max_width,
            max_height: self.max_height,
            png_compression: self.png_compression,
            webp_lossless: self.webp_lossless,
            overwrite: self.overwrite,
            backup: self.backup,
        }
    }
}

impl Default for ImageSettings {
    fn default() -> (s: Self)
        ensures
            s.is_default(),
    {
        ImageSettings {
            quality: 85,
            color_space: ColorSpace::Rgb,
            remove_exif: true,
            output_format: OutputFormat::Same,
            output_directory: None,
            progressive: false,
            max_width: None,
            max_height: None,
            png_compression: 6,
            webp_lossless: false,
            overwrite: false,
            backup: false,
        }
    }
}

/// Camera metadata shown for JPEG files.
#[derive(Clone, Debug)]
pub struct ExifData {
    pub camera: Option<String>,
    pub lens: Option<String>,
    pub date_taken: Option<String>,
    pub exposure: Option<String>,
    pub iso: Option<String>,
    pub aperture: Option<String>,
    pub focal_length: Option<String>,
    pub flash: Option<String>,
}

impl ExifData {
    /// A field-by-field copy.
    pub fn copied(&self) -> (r: ExifData)
        ensures
            r == *self,
    {
        ExifData {
            camera: copy_opt_string(&self.camera),
            lens: copy_opt_string(&self.lens),
            date_taken: copy_opt_string(&self.date_taken),
            exposure: copy_opt_string(&self.exposure),
            iso: copy_opt_string(&self.iso),
            aperture: copy_opt_string(&self.aperture),
            focal_length: copy_opt_string(&self.focal_length),
            flash: copy_opt_string(&self.flash),
        }
    }
}

impl Default for ExifData {
    fn default() -> (e: Self)
        ensures
            e.camera is None && e.lens is None && e.date_taken is None && e.exposure is None
                && e.iso is None && e.aperture is None && e.focal_length is None && e.flash is None,
    {
        ExifData {
            camera: None,
            lens: None,
            date_taken: None,
            exposure: None,
            iso: None,
            aperture: None,
            focal_length: None,
            flash: None,
        }
    }
}

/// Metadata remembered for a file, valid while its modification time is unchanged.
#[derive(Clone, Debug)]
pub struct CachedImageInfo {
    pub dimensions: Option<(u32, u32)>,
    pub color_type: Option<String>,
    pub file_mtime: u64,
}

impl CachedImageInfo {
    /// A field-by-field copy.
    pub fn copied(&self) -> (r: CachedImageInfo)
        ensures
            r == *self,
    {
        CachedImageInfo {
            dimensions: self.dimensions,
            color_type: copy_opt_string(&self.color_type),
            file_mtime: self.file_mtime,
        }
    }
}

/// One entry of the file list: a directory, the parent link, or an image.
#[derive(Debug)]
pub struct ImageFile {
    pub path: String,
    pub name: String,
    pub is_dir: bool,
    pub is_parent: bool,
    pub size: u64,
    pub dimensions: Option<(u32, u32)>,
    pub color_type: Option<String>,
    pub needs_exif: bool,
    pub settings: ImageSettings,
    pub queued: bool,
    pub selected: bool,
    pub exif_data: Option<ExifData>,
}

/// Whether a lowercase extension is one that carries camera metadata.
pub open spec fn is_exif_extension(e: Seq<char>) -> bool {
    e == "jpg"@ || e == "jpeg"@
}

/// The lowercase extension of a path, if it has one.
pub open spec fn lower_extension(path: Seq<char>) -> Option<Seq<char>> {
    match extension_of(path) {
        Some(e) => Some(unicode_lowercase(e)),
        None => None,
    }
}

/// The list entry std would build for a path (the fields that do not depend
/// on the file's contents).
pub open spec fn lightweight_entry(f: ImageFile, path: Seq<char>, is_dir: bool, file_len: u64) -> bool {
    &&& f.path@ == path
    &&& f.name@ == match file_name_of(path) {
        Some(n) => n,
        None => Seq::empty(),
    }
    &&& f.is_dir == is_dir
    &&& !f.is_parent
    &&& f.size == if is_dir {
        0
    } else {
        file_len
    }
    &&& f.needs_exif == (!is_dir && match lower_extension(path) {
        Some(e) => is_exif_extension(e),
        None => false,
    })
    &&& f.settings.is_default()
    &&& !f.queued
    &&& !f.selected
    &&& f.exif_data is None
}

/// The size of an entry in human units; empty for directories.
pub open spec fn size_text(f: ImageFile) -> Seq<char> {
    if f.is_dir {
        Seq::empty()
    } else {
        human_bytes(f.size as nat)
    }
}

/// `w×h` for known dimensions.
pub open spec fn dimensions_text(d: Option<(u32, u32)>) -> Seq<char> {
    match d {
        Some((w, h)) => decimal(w as nat).push('×') + decimal(h as nat),
        None => Seq::empty(),
    }
}

impl ImageFile {
    /// The `..` entry leading to the parent directory.
    pub fn new_parent() -> (f: ImageFile)
        ensures
            f.path@ == ".."@,
            f.name@ == ".."@,
            f.is_dir,
            f.is_parent,
            f.size == 0,
            f.dimensions is None,
            f.color_type is None,
            !f.needs_exif,
            f.settings.is_default(),
            !f.queued,
            !f.selected,
            f.exif_data is None,
    {
        ImageFile {
            path: "..".to_string(),
            name: "..".to_string(),
            is_dir: true,
            is_parent: true,
            size: 0,
            dimensions: None,
            color_type: None,
            needs_exif: false,
            settings: ImageSettings::default(),
            queued: false,
            selected: false,
            exif_data: None,
        }
    }

    /// An entry built from a path, whether it is a directory, and the file's
    /// length on disk (which a directory entry ignores).
    pub fn new_lightweight(path: String, is_dir: bool, file_len: u64) -> (f: ImageFile)
        ensures
            lightweight_entry(f, path@, is_dir, file_len),
            f.dimensions is None,
            f.color_type is None,
    {
        let name = match file_name(&path) {
            Some(n) => n,
            None => String::new(),
        };
        let size = if is_dir {
            0
        } else {
            file_len
        };
        let needs_exif = if !is_dir {
            match path_extension(&path) {
                Some(ext) => {
                    let lower = to_lowercase(&ext);
                    str_eq(&lower, "jpg") || str_eq(&lower, "jpeg")
                },
                None => false,
            }
        } else {
            false
        };
        ImageFile {
            path,
            name,
            is_dir,
            is_parent: false,
            size,
            dimensions: None,
            color_type: None,
            needs_exif,
            settings: ImageSettings::default(),
            queued: false,
            selected: false,
            exif_data: None,
        }
    }

    /// An entry with the dimensions and colour type read from the file; a
    /// directory keeps neither.
    pub fn new(
        path: String,
        is_dir: bool,
        file_len: u64,
        dimensions: Option<(u32, u32)>,
        color_type: Option<String>,
    ) -> (f: ImageFile)
        ensures
            lightweight_entry(f, path@, is_dir, file_len),
            f.dimensions == if is_dir {
                None
            } else {
                dimensions
            },
            f.color_type == if is_dir {
                None
            } else {
                color_type
            },
    {
        let mut f = ImageFile::new_lightweight(path, is_dir, file_len);
        if !is_dir {
            f.dimensions = dimensions;
            f.color_type = color_type;
        }
        f
    }

    /// The lowercase extension of the entry's path.
    pub fn extension(&self) -> (res: Option<String>)
        ensures
            res.deep_view() == lower_extension(self.path@),
    {
        match path_extension(&self.path) {
            Some(e) => Some(to_lowercase(&e)),
            None => None,
        }
    }

    /// The uppercase extension, or `???` without one.
    pub fn format_name(&self) -> (res: String)
        ensures
            res@ == match lower_extension(self.path@) {
                Some(e) => unicode_uppercase(e),
                None => "???"@,
            },
    {
        match self.extension() {
            Some(e) => to_uppercase(&e),
            None => "???".to_string(),
        }
    }

    /// The size in human units; empty for directories.
    pub fn size_str(&self) -> (res: String)
        ensures
            res@ == size_text(*self),
    {
        if self.is_dir {
            String::new()
        } else {
            bytes_to_human(self.size)
        }
    }

    /// `width×height`, or empty when the dimensions are unknown.
    pub fn dimensions_str(&self) -> (res: String)
        ensures
            res@ == dimensions_text(self.dimensions),
    {
        match self.dimensions {
            Some((w, h)) => {
                let mut s = String::new();
                push_decimal(&mut s, w as u64);
                push_char(&mut s, '×');
                push_decimal(&mut s, h as u64);
                proof {
                    assert(s@ =~= dimensions_text(self.dimensions));
                }
                s
            },
            None => String::new(),
        }
    }
}

/// The pixel layouts an image decoder reports.
#[derive(Clone, Copy, Debug, PartialEq, Eq, Structural)]
pub enum PixelColorType {
    L8,
    La8,
    Rgb8,
    Rgba8,
    L16,
    La16,
    Rgb16,
    Rgba16,
    L2,
    La2,
    Rgb2,
    Rgba2,
    Other,
}

/// The label shown for a pixel layout.
pub open spec fn color_type_label(c: PixelColorType) -> Seq<char> {
    match c {
        PixelColorType::L8 => "L"@,
        PixelColorType::La8 => "La"@,
        PixelColorType::Rgb8 => "RGB"@,
        PixelColorType::Rgba8 => "RGBA"@,
        PixelColorType::L16 => "L16"@,
        PixelColorType::La16 => "La16"@,
        PixelColorType::Rgb16 => "RGB16"@,
        PixelColorType::Rgba16 => "RGBA16"@,
        PixelColorType::L2 => "L32"@,
        PixelColorType::La2 => "La32"@,
        PixelColorType::Rgb2 => "RGB32"@,
        PixelColorType::Rgba2 => "RGBA32"@,
        PixelColorType::Other => "???"@,
    }
}

pub fn color_type_str(color: PixelColorType) -> (s: &'static str)
    ensures
        s@ == color_type_label(color),
{
    match color {
        PixelColorType::L8 => "L",
        PixelColorType::La8 => "La",
        PixelColorType::Rgb8 => "RGB",
        PixelColorType::Rgba8 => "RGBA",
        PixelColorType::L16 => "L16",
        PixelColorType::La16 => "La16",
        PixelColorType::Rgb16 => "RGB16",
        PixelColorType::Rgba16 => "RGBA16",
        PixelColorType::L2 => "L32",
        PixelColorType::La2 => "La32",
        PixelColorType::Rgb2 => "RGB32",
        PixelColorType::Rgba2 => "RGBA32",
        PixelColorType::Other => "???",
    }
}

/// The header decoders that can report a file's colour type quickly.
#[derive(Clone, Copy, Debug, PartialEq, Eq, Structural)]
pub enum ColorProbe {
    Png,
    Jpeg,
    Webp,
}

/// Which decoder reads the colour type for a lowercase extension.
pub open spec fn probe_for(e: Seq<char>) -> Option<ColorProbe> {
    if e == "png"@ {
        Some(ColorProbe::Png)
    } else if e == "jpg"@ || e == "jpeg"@ {
        Some(ColorProbe::Jpeg)
    } else if e == "webp"@ {
        Some(ColorProbe::Webp)
    } else {
        None
    }
}

/// The decoder used to read the colour type of a file with extension `ext`
/// (any letter case); none for other formats.
pub fn color_probe_for_extension(ext: &str) -> (res: Option<ColorProbe>)
    ensures
        res == probe_for(unicode_lowercase(ext@)),
{
    let lower = to_lowercase(ext);
    if str_eq(&lower, "png") {
        Some(ColorProbe::Png)
    } else if str_eq(&lower, "jpg") || str_eq(&lower, "jpeg") {
        Some(ColorProbe::Jpeg)
    } else if str_eq(&lower, "webp") {
        Some(ColorProbe::Webp)
    } else {
        None
    }
}

/// The pixel layout a decoder reports, by the name of the layout.
pub open spec fn pixel_type_named(name: Seq<char>) -> PixelColorType {
    if name == "L8"@ {
        PixelColorType::L8
    } else if name == "La8"@ {
        PixelColorType::La8
    } else if name == "Rgb8"@ {
        PixelColorType::Rgb8
    } else if name == "Rgba8"@ {
        PixelColorType::Rgba8
    } else if name == "L16"@ {
        PixelColorType::L16
    } else if name == "La16"@ {
        PixelColorType::La16
    } else if name == "Rgb16"@ {
        PixelColorType::Rgb16
    } else if name == "Rgba16"@ {
        PixelColorType::Rgba16
    } else if name == "L2"@ {
        PixelColorType::L2
    } else if name == "La2"@ {
        PixelColorType::La2
    } else if name == "Rgb2"@ {
        PixelColorType::Rgb2
    } else if name == "Rgba2"@ {
        PixelColorType::Rgba2
    } else {
        PixelColorType::Other
    }
}

/// The pixel layout of a name a decoder reports.
pub fn pixel_type_of_name(name: &str) -> (c: PixelColorType)
    ensures
        c == pixel_type_named(name@),
{
    if str_eq(name, "L8") {
        PixelColorType::L8
    } else if str_eq(name, "La8") {
        PixelColorType::La8
    } else if str_eq(name, "Rgb8") {
        PixelColorType::Rgb8
    } else if str_eq(name, "Rgba8") {
        PixelColorType::Rgba8
    } else if str_eq(name, "L16") {
        PixelColorType::L16
    } else if str_eq(name, "La16") {
        PixelColorType::La16
    } else if str_eq(name, "Rgb16") {
        PixelColorType::Rgb16
    } else if str_eq(name, "Rgba16") {
        PixelColorType::Rgba16
    } else if str_eq(name, "L2") {
        PixelColorType::L2
    } else if str_eq(name, "La2") {
        PixelColorType::La2
    } else if str_eq(name, "Rgb2") {
        PixelColorType::Rgb2
    } else if str_eq(name, "Rgba2") {
        PixelColorType::Rgba2
    } else {
        PixelColorType::Other
    }
}

/// The layout name the decoder for `probe` reports for a file's bytes.
pub open spec fn header_color(probe: ColorProbe, bytes: Seq<u8>) -> Option<Seq<char>> {
    match probe {
        ColorProbe::Png => png_header_color(bytes),
        ColorProbe::Jpeg => jpeg_header_color(bytes),
        ColorProbe::Webp => webp_header_color(bytes),
    }
}

/// What `fast_color_type` shows for a file with extension `ext`.
pub open spec fn fast_color_label(bytes: Seq<u8>, ext: Seq<char>) -> Option<Seq<char>> {
    match probe_for(unicode_lowercase(ext)) {
        Some(p) => match header_color(p, bytes) {
            Some(n) => Some(color_type_label(pixel_type_named(n))),
            None => None,
        },
        None => None,
    }
}

/// The colour type of a PNG, JPEG or WebP file as its header reports it,
/// from the file's bytes and its extension (in any letter case); nothing
/// for other formats or an unreadable header.
pub fn fast_color_type(bytes: &[u8], ext: &str) -> (res: Option<String>)
    ensures
        res.deep_view() == fast_color_label(bytes@, ext@),
{
    let probe = match color_probe_for_extension(ext) {
        Some(p) => p,
        None => {
            return None;
        },
    };
    let name = match probe {
        ColorProbe::Png => png_color_name(bytes),
        ColorProbe::Jpeg => jpeg_color_name(bytes),
        ColorProbe::Webp => webp_color_name(bytes),
    };
    match name {
        Some(n) => Some(color_type_str(pixel_type_of_name(&n)).to_string()),
        None => None,
    }
}

/// The picture size image reads from a file's header, the decoder chosen by
/// the extension of the file's path; nothing for a path without one.
pub open spec fn header_size(path: Seq<char>, bytes: Seq<u8>) -> Option<(u32, u32)> {
    match extension_of(path) {
        Some(e) => image_header_dimensions(e, bytes),
        None => None,
    }
}

/// The colour type `fast_color_type` reads for a file, by the extension of
/// its path; nothing for a path without one.
pub open spec fn path_color_label(path: Seq<char>, bytes: Seq<u8>) -> Option<Seq<char>> {
    match extension_of(path) {
        Some(e) => fast_color_label(bytes, e),
        None => None,
    }
}

/// The width and height of the image whose file is at `path` and holds
/// `bytes`, as its header gives them.
pub fn image_dimensions(path: &str, bytes: &[u8]) -> (r: Option<(u32, u32)>)
    ensures
        r == header_size(path@, bytes@),
{
    match path_extension(path) {
        Some(ext) => header_dimensions(&ext, bytes),
        None => None,
    }
}

impl CachedImageInfo {
    /// The metadata read from a file's header: its size and colour type,
    /// remembered with the modification time the file was read at.
    pub fn from_header(path: &str, bytes: &[u8], file_mtime: u64) -> (info: CachedImageInfo)
        ensures
            info.dimensions == header_size(path@, bytes@),
            info.color_type.deep_view() == path_color_label(path@, bytes@),
            info.file_mtime == file_mtime,
    {
        let color_type = match path_extension(path) {
            Some(ext) => fast_color_type(bytes, &ext),
            None => None,
        };
        CachedImageInfo { dimensions: image_dimensions(path, bytes), color_type, file_mtime }
    }
}

/// Whether `d` holds the texts the metadata reader shows for the Exif
/// fields of a file's bytes: camera model, lens, date taken, exposure time,
/// ISO, aperture, focal length and flash.
pub open spec fn exif_holds(d: ExifData, bytes: Seq<u8>) -> bool {
    &&& d.camera.deep_view() == exif_text(bytes, ExifTag::Model)
    &&& d.lens.deep_view() == exif_text(bytes, ExifTag::LensModel)
    &&& d.date_taken.deep_view() == exif_text(bytes, ExifTag::DateTimeOriginal)
    &&& d.exposure.deep_view() == exif_text(bytes, ExifTag::ExposureTime)
    &&& d.iso.deep_view() == exif_text(bytes, ExifTag::PhotographicSensitivity)
    &&& d.aperture.deep_view() == exif_text(bytes, ExifTag::FNumber)
    &&& d.focal_length.deep_view() == exif_text(bytes, ExifTag::FocalLength)
    &&& d.flash.deep_view() == exif_text(bytes, ExifTag::Flash)
}

impl ExifData {
    /// The camera metadata in a file's bytes: the texts the metadata reader
    /// shows for the camera model, lens, date taken, exposure time, ISO,
    /// aperture, focal length and flash; nothing when the file holds no
    /// metadata it can read.
    pub fn read_from_bytes(bytes: &[u8]) -> (r: Option<ExifData>)
        ensures
            r is Some <==> exif_readable(bytes@),
            r matches Some(d) ==> exif_holds(d, bytes@),
    {
        match read_exif_record(bytes) {
            Some(rec) => Some(ExifData {
                camera: exif_field_text(&rec, ExifTag::Model),
                lens: exif_field_text(&rec, ExifTag::LensModel),
                date_taken: exif_field_text(&rec, ExifTag::DateTimeOriginal),
                exposure: exif_field_text(&rec, ExifTag::ExposureTime),
                iso: exif_field_text(&rec, ExifTag::PhotographicSensitivity),
                aperture: exif_field_text(&rec, ExifTag::FNumber),
                focal_length: exif_field_text(&rec, ExifTag::FocalLength),
                flash: exif_field_text(&rec, ExifTag::Flash),
            }),
            None => None,
        }
    }
}

/// What `truncate_str` returns: `...` for widths below 4; the string itself
/// when its UTF-8 length fits; otherwise its first `max_len - 3` characters
/// followed by `...`.
pub open spec fn truncated(s: Seq<char>, byte_len: nat, max_len: nat) -> Seq<char> {
    if max_len < 4 {
        seq!['.', '.', '.']
    } else if byte_len > max_len {
        s.take(if s.len() < max_len - 3 {
            s.len() as int
        } else {
            max_len - 3
        }) + seq!['.', '.', '.']
    } else {
        s
    }
}

pub fn truncate_str(s: &str, max_len: usize) -> (res: String)
    ensures
        res@ == truncated(s@, s.len() as nat, max_len as nat),
{
    if max_len < 4 {
        let mut r = String::new();
        push_char(&mut r, '.');
        push_char(&mut r, '.');
        push_char(&mut r, '.');
        proof {
            assert(r@ =~= seq!['.', '.', '.']);
        }
        return r;
    }
    if s.len() > max_len {
        let v = chars_of(s);
        let n = if v.len() < max_len - 3 {
            v.len()
        } else {
            max_len - 3
        };
        let mut r = string_of_range(&v, 0, n);
        push_char(&mut r, '.');
        push_char(&mut r, '.');
        push_char(&mut r, '.');
        proof {
            assert(v@.subrange(0, n as int) == v@.take(n as int));
            assert(r@ =~= truncated(s@, s.len() as nat, max_len as nat));
        }
        r
    } else {
        s.to_string()
    }
}

/// What `path_to_tilde` shows for `path` when the home directory is `home`:
/// with trailing `/` removed from both, a path inside home starts with `~`
/// instead (home itself is `~`); any other path is shown unchanged.
pub open spec fn tilde_form(path: Seq<char>, home: Option<Seq<char>>) -> Seq<char> {
    match home {
        Some(h) => {
            let hs = trim_end_char(h, '/');
            let ps = trim_end_char(path, '/');
            if is_prefix_of(hs, ps) {
                seq!['~'] + ps.skip(hs.len() as int)
            } else {
                path
            }
        },
        None => path,
    }
}

/// A path shown with the home directory abbreviated to `~`; `home` is the
/// value of `HOME`, when it is set.
pub fn path_to_tilde(path: &str, home: Option<&str>) -> (res: String)
    ensures
        res@ == tilde_form(path@, match home {
            Some(h) => Some(h@),
            None => None,
        }),
{
    if let Some(h) = home {
        let home_str = trim_end_matches_char(h, '/');
        let path_str = trim_end_matches_char(path, '/');
        let hv = chars_of(&home_str);
        let pv = chars_of(&path_str);
        if vec_starts_with(&pv, &hv) {
            let mut r = String::new();
            push_char(&mut r, '~');
            let rest = string_of_range(&pv, hv.len(), pv.len());
            push_all(&mut r, &rest);
            proof {
                assert(pv@.subrange(hv.len() as int, pv.len() as int) == pv@.skip(hv.len() as int));
                assert(r@ =~= seq!['~'] + pv@.skip(hv.len() as int));
            }
            return r;
        }
    }
    path.to_string()
}

/// One character of the quality slider.
pub open spec fn slider_char(i: int, pos: int, width: int) -> char {
    if i == pos {
        '█'
    } else if i % (if width / 4 > 1 {
        width / 4
    } else {
        1
    }) == 0 {
        '│'
    } else {
        '▒'
    }
}

/// The width the slider is drawn with: at least 10.
pub open spec fn slider_width(width: nat) -> nat {
    if width > 10 {
        width
    } else {
        10
    }
}

/// `[bar] q%`, the bar marking position `q * width / 100`, with ticks every
/// quarter of the width.
pub open spec fn quality_slider(quality: u8, width: nat) -> Seq<char> {
    let w = slider_width(width);
    let pos = (quality as nat * w) / 100;
    seq!['['] + Seq::new(w, |i: int| slider_char(i, pos as int, w as int)) + seq![']', ' ']
        + decimal(quality as nat) + seq!['%']
}

pub fn create_quality_slider(quality: u8, width: usize) -> (res: String)
    requires
        quality as nat * slider_width(width as nat) <= usize::MAX,
    ensures
        res@ == quality_slider(quality, width as nat),
{
    let slider_width: usize = if width > 10 {
        width
    } else {
        10
    };
    let pos = (quality as usize * slider_width) / 100;
    let tick: usize = if slider_width / 4 > 1 {
        slider_width / 4
    } else {
        1
    };
    let mut bar = String::new();
    push_char(&mut bar, '[');
    let mut i: usize = 0;
    while i < slider_width
        invariant
            i <= slider_width,
            slider_width == crate::models::slider_width(width as nat),
            pos == (quality as nat * slider_width) / 100,
            tick == if slider_width / 4 > 1 {
                slider_width / 4
            } else {
                1
            },
            bar@ == seq!['['] + Seq::new(i as nat, |j: int| slider_char(j, pos as int, slider_width as int)),
        decreases slider_width - i,
    {
        let c = if i == pos {
            '█'
        } else if i % tick == 0 {
            '│'
        } else {
            '▒'
        };
        push_char(&mut bar, c);
        i = i + 1;
        proof {
            assert(bar@ =~= seq!['['] + Seq::new(i as nat, |j: int| slider_char(j, pos as int, slider_width as int)));
        }
    }
    push_char(&mut bar, ']');
    push_char(&mut bar, ' ');
    push_decimal(&mut bar, quality as u64);
    push_char(&mut bar, '%');
    proof {
        assert(bar@ =~= quality_slider(quality, width as nat));
    }
    bar
}

} // verus!
