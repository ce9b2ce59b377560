//! What the outside readers find in a file's bytes held in memory: image's
//! header decoders for the picture size, kamadak-exif for camera metadata.
use vstd::prelude::*;
use exif::Tag;

verus! {

/// The width and height that image's decoder for the format an extension
/// names reads from a file's header; `None` when the extension names no
/// format image decodes or the header is not read.
pub uninterp spec fn image_header_dimensions(ext: Seq<char>, bytes: Seq<u8>) -> Option<(u32, u32)>;

/// Calls image's `ImageFormat::from_extension` and
/// `ImageReader::with_format(..).into_dimensions()` on the bytes, which is
/// what `image_dimensions` does for a path with that extension. The result
/// is named by `image_header_dimensions`.
#[verifier::external_body]
pub(crate) fn header_dimensions(ext: &str, bytes: &[u8]) -> (r: Option<(u32, u32)>)
    ensures
        r == image_header_dimensions(ext@, bytes@),
{
    let format = image::ImageFormat::from_extension(ext)?;
    image::ImageReader::with_format(std::io::Cursor::new(bytes), format).into_dimensions().ok()
}

#[verifier::external_type_specification]
#[verifier::external_body]
pub struct ExExif(exif::Exif);

/// The Exif fields the library shows.
#[derive(Clone, Copy, Debug, PartialEq, Eq, Structural)]
pub enum ExifTag {
    Model,
    LensModel,
    DateTimeOriginal,
    ExposureTime,
    PhotographicSensitivity,
    FNumber,
    FocalLength,
    Flash,
}

/// Whether kamadak-exif finds Exif attributes in a file's bytes.
pub uninterp spec fn exif_readable(bytes: Seq<u8>) -> bool;

/// The text kamadak-exif displays for a field of the primary image in the
/// Exif attributes of a file's bytes; `None` when the field is absent.
pub uninterp spec fn exif_text(bytes: Seq<u8>, tag: ExifTag) -> Option<Seq<char>>;

/// The Exif attributes read from a file's bytes, with the bytes they were
/// read from. Records are made only by `read_exif_record`, which keeps the
/// two together.
pub struct ExifRecord {
    exif: exif::Exif,
    source: Ghost<Seq<u8>>,
}

impl ExifRecord {
    /// The bytes the attributes were read from.
    pub closed spec fn source(&self) -> Seq<u8> {
        self.source@
    }
}

/// Calls kamadak-exif's `Reader::read_from_container` on the bytes; `None`
/// exactly when it finds no Exif attributes (`exif_readable`).
#[verifier::external_body]
fn read_exif_container(bytes: &[u8]) -> (r: Option<exif::Exif>)
    ensures
        r is Some <==> exif_readable(bytes@),
{
    exif::Reader::new().read_from_container(&mut std::io::Cursor::new(bytes)).ok()
}

/// The Exif attributes in a file's bytes, if kamadak-exif finds any.
pub fn read_exif_record(bytes: &[u8]) -> (r: Option<ExifRecord>)
    ensures
        r is Some <==> exif_readable(bytes@),
        r matches Some(e) ==> e.source() == bytes@,
{
    match read_exif_container(bytes) {
        Some(exif) => Some(ExifRecord { exif, source: Ghost(bytes@) }),
        None => None,
    }
}

/// Calls kamadak-exif's `get_field(tag, In::PRIMARY)` and the field's
/// `display_value()` on the attributes of a record; the text is named by
/// `exif_text` over the bytes the record was read from.
#[verifier::external_body]
pub(crate) fn exif_field_text(record: &ExifRecord, tag: ExifTag) -> (r: Option<String>)
    ensures
        r.deep_view() == exif_text(record.source(), tag),
{
    let t = match tag {
        ExifTag::Model => Tag::Model,
        ExifTag::LensModel => Tag::LensModel,
        ExifTag::DateTimeOriginal => Tag::DateTimeOriginal,
        ExifTag::ExposureTime => Tag::ExposureTime,
        ExifTag::PhotographicSensitivity => Tag::PhotographicSensitivity,
        ExifTag::FNumber => Tag::FNumber,
        ExifTag::FocalLength => Tag::FocalLength,
        ExifTag::Flash => Tag::Flash,
    };
    record.exif.get_field(t, exif::In::PRIMARY).map(|f| f.display_value().to_string())
}

} // verus!
