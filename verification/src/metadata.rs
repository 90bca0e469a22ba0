use crate::platform::{parse_u32, parse_u32_text};
use exif::{Context, In, Reader, Tag};
use std::io::Cursor;
use vstd::prelude::*;

verus! {

/// `exif::Exif`: the EXIF fields read from an image file, carried opaquely.
#[verifier::external_type_specification]
#[verifier::external_body]
pub struct ExExif(exif::Exif);

/// `exif::Error`: why EXIF data could not be read.
#[verifier::external_type_specification]
#[verifier::external_body]
pub struct ExExifError(exif::Error);

/// The EXIF tags that the viewer shows.
#[derive(Debug, Clone, Copy, PartialEq, Eq, Structural)]
pub enum ExifTag {
    Make,
    Model,
    LensModel,
    FocalLength,
    FNumber,
    ExposureTime,
    PhotographicSensitivity,
    DateTimeOriginal,
    GPSLatitude,
    GPSLatitudeRef,
    GPSLongitude,
    GPSLongitudeRef,
    GPSAltitude,
    ImageWidth,
    PixelXDimension,
    ImageLength,
    PixelYDimension,
    Orientation,
    ColorSpace,
    Flash,
    Software,
}

/// The IFD that a tag belongs to.
#[derive(Debug, Clone, Copy, PartialEq, Eq, Structural)]
pub enum TagContext {
    Tiff,
    Exif,
    Gps,
}

/// The context and number of each tag, as the EXIF standard assigns them.
pub open spec fn spec_tag_key(t: ExifTag) -> (TagContext, u16) {
    match t {
        ExifTag::Make => (TagContext::Tiff, 0x10fu16),
        ExifTag::Model => (TagContext::Tiff, 0x110u16),
        ExifTag::LensModel => (TagContext::Exif, 0xa434u16),
        ExifTag::FocalLength => (TagContext::Exif, 0x920au16),
        ExifTag::FNumber => (TagContext::Exif, 0x829du16),
        ExifTag::ExposureTime => (TagContext::Exif, 0x829au16),
        ExifTag::PhotographicSensitivity => (TagContext::Exif, 0x8827u16),
        ExifTag::DateTimeOriginal => (TagContext::Exif, 0x9003u16),
        ExifTag::GPSLatitude => (TagContext::Gps, 0x2u16),
        ExifTag::GPSLatitudeRef => (TagContext::Gps, 0x1u16),
        ExifTag::GPSLongitude => (TagContext::Gps, 0x4u16),
        ExifTag::GPSLongitudeRef => (TagContext::Gps, 0x3u16),
        ExifTag::GPSAltitude => (TagContext::Gps, 0x6u16),
        ExifTag::ImageWidth => (TagContext::Tiff, 0x100u16),
        ExifTag::PixelXDimension => (TagContext::Exif, 0xa002u16),
        ExifTag::ImageLength => (TagContext::Tiff, 0x101u16),
        ExifTag::PixelYDimension => (TagContext::Exif, 0xa003u16),
        ExifTag::Orientation => (TagContext::Tiff, 0x112u16),
        ExifTag::ColorSpace => (TagContext::Exif, 0xa001u16),
        ExifTag::Flash => (TagContext::Exif, 0x9209u16),
        ExifTag::Software => (TagContext::Tiff, 0x131u16),
    }
}

/// The context and number of a tag.
pub fn tag_key(t: ExifTag) -> (r: (TagContext, u16))
    ensures
        r == spec_tag_key(t),
{
    match t {
        ExifTag::Make => (TagContext::Tiff, 0x10f),
        ExifTag::Model => (TagContext::Tiff, 0x110),
        ExifTag::LensModel => (TagContext::Exif, 0xa434),
        ExifTag::FocalLength => (TagContext::Exif, 0x920a),
        ExifTag::FNumber => (TagContext::Exif, 0x829d),
        ExifTag::ExposureTime => (TagContext::Exif, 0x829a),
        ExifTag::PhotographicSensitivity => (TagContext::Exif, 0x8827),
        ExifTag::DateTimeOriginal => (TagContext::Exif, 0x9003),
        ExifTag::GPSLatitude => (TagContext::Gps, 0x2),
        ExifTag::GPSLatitudeRef => (TagContext::Gps, 0x1),
        ExifTag::GPSLongitude => (TagContext::Gps, 0x4),
        ExifTag::GPSLongitudeRef => (TagContext::Gps, 0x3),
        ExifTag::GPSAltitude => (TagContext::Gps, 0x6),
        ExifTag::ImageWidth => (TagContext::Tiff, 0x100),
        ExifTag::PixelXDimension => (TagContext::Exif, 0xa002),
        ExifTag::ImageLength => (TagContext::Tiff, 0x101),
        ExifTag::PixelYDimension => (TagContext::Exif, 0xa003),
        ExifTag::Orientation => (TagContext::Tiff, 0x112),
        ExifTag::ColorSpace => (TagContext::Exif, 0xa001),
        ExifTag::Flash => (TagContext::Exif, 0x9209),
        ExifTag::Software => (TagContext::Tiff, 0x131),
    }
}

/// Each tag is read from the IFD and under the number that the EXIF standard assigns it (the
/// numbers of kamadak-exif's `Tag` constants): Make 0x10F, Model 0x110, Software 0x131,
/// Orientation 0x112, ImageWidth 0x100 and ImageLength 0x101 in the TIFF IFD; ExposureTime
/// 0x829A, FNumber 0x829D, ISO 0x8827, DateTimeOriginal 0x9003, Flash 0x9209, FocalLength
/// 0x920A, ColorSpace 0xA001, PixelXDimension 0xA002, PixelYDimension 0xA003 and LensModel
/// 0xA434 in the Exif IFD; the GPS tags 0x1 to 0x6 in the GPS IFD. Distinct tags have distinct
/// keys.
pub proof fn law_tag_keys_are_standard(a: ExifTag, b: ExifTag)
    ensures
        spec_tag_key(ExifTag::Make) == (TagContext::Tiff, 0x10fu16),
        spec_tag_key(ExifTag::Model) == (TagContext::Tiff, 0x110u16),
        spec_tag_key(ExifTag::LensModel) == (TagContext::Exif, 0xa434u16),
        spec_tag_key(ExifTag::FocalLength) == (TagContext::Exif, 0x920au16),
        spec_tag_key(ExifTag::FNumber) == (TagContext::Exif, 0x829du16),
        spec_tag_key(ExifTag::ExposureTime) == (TagContext::Exif, 0x829au16),
        spec_tag_key(ExifTag::PhotographicSensitivity) == (TagContext::Exif, 0x8827u16),
        spec_tag_key(ExifTag::DateTimeOriginal) == (TagContext::Exif, 0x9003u16),
        spec_tag_key(ExifTag::GPSLatitude) == (TagContext::Gps, 0x2u16),
        spec_tag_key(ExifTag::GPSLatitudeRef) == (TagContext::Gps, 0x1u16),
        spec_tag_key(ExifTag::GPSLongitude) == (TagContext::Gps, 0x4u16),
        spec_tag_key(ExifTag::GPSLongitudeRef) == (TagContext::Gps, 0x3u16),
        spec_tag_key(ExifTag::GPSAltitude) == (TagContext::Gps, 0x6u16),
        spec_tag_key(ExifTag::ImageWidth) == (TagContext::Tiff, 0x100u16),
        spec_tag_key(ExifTag::PixelXDimension) == (TagContext::Exif, 0xa002u16),
        spec_tag_key(ExifTag::ImageLength) == (TagContext::Tiff, 0x101u16),
        spec_tag_key(ExifTag::PixelYDimension) == (TagContext::Exif, 0xa003u16),
        spec_tag_key(ExifTag::Orientation) == (TagContext::Tiff, 0x112u16),
        spec_tag_key(ExifTag::ColorSpace) == (TagContext::Exif, 0xa001u16),
        spec_tag_key(ExifTag::Flash) == (TagContext::Exif, 0x9209u16),
        spec_tag_key(ExifTag::Software) == (TagContext::Tiff, 0x131u16),
        a != b ==> spec_tag_key(a) != spec_tag_key(b),
{
}

/// What `exif::Reader::read_from_container` reads from the bytes of an image file, or `None`
/// where it fails.
pub uninterp spec fn exif_of(bytes: Seq<u8>) -> Option<exif::Exif>;

/// The displayed value of the field with the given context and number of the primary image
/// in `exif`, if it has one.
pub uninterp spec fn field_text_of(exif: exif::Exif, context: TagContext, number: u16) -> Option<Seq<char>>;

/// The displayed value of the tag `t` of the primary image in `exif`, if it has one.
pub open spec fn tag_text_of(exif: exif::Exif, t: ExifTag) -> Option<Seq<char>> {
    field_text_of(exif, spec_tag_key(t).0, spec_tag_key(t).1)
}

/// Why the metadata of a file could not be read.
#[derive(Debug)]
pub enum MetadataError {
    /// The bytes hold no EXIF data that the reader understands
    Unreadable(exif::Error),
}

/// `exif::Reader::read_from_container` on the bytes of an image file; the result is named by
/// [`exif_of`].
#[verifier::external_body]
fn read_exif(bytes: Vec<u8>) -> (r: Result<exif::Exif, exif::Error>)
    ensures
        match r {
            Ok(e) => exif_of(bytes@) == Some(e),
            Err(_) => exif_of(bytes@) is None,
        },
{
    Reader::new().read_from_container(&mut Cursor::new(bytes))
}

/// `Exif::get_field` for the tag of the given context and number in the primary image, then
/// `Field::display_value` written as text; the result is named by [`field_text_of`].
#[verifier::external_body]
fn field_text(exif: &exif::Exif, context: TagContext, number: u16) -> (r: Option<String>)
    ensures
        match r {
            Some(t) => field_text_of(*exif, context, number) == Some(t@),
            None => field_text_of(*exif, context, number) is None,
        },
{
    let c = match context {
        TagContext::Tiff => Context::Tiff,
        TagContext::Exif => Context::Exif,
        TagContext::Gps => Context::Gps,
    };
    exif.get_field(Tag(c, number), In::PRIMARY).map(|f| f.display_value().to_string())
}

/// The displayed value of the tag `t` of the primary image.
fn tag_text(exif: &exif::Exif, t: ExifTag) -> (r: Option<String>)
    ensures
        text_view(r) == tag_text_of(*exif, t),
{
    let (context, number) = tag_key(t);
    field_text(exif, context, number)
}

/// The metadata of an image as text and whole numbers. The decimal values (focal length,
/// aperture, GPS position and altitude) are kept as the text that EXIF shows for them.
pub struct ExifText {
    pub camera_make: Option<String>,
    pub camera_model: Option<String>,
    pub lens_model: Option<String>,
    pub focal_length: Option<String>,
    pub aperture: Option<String>,
    pub shutter_speed: Option<String>,
    pub iso: Option<u32>,
    pub date_taken: Option<String>,
    pub gps_latitude: Option<String>,
    pub gps_latitude_ref: Option<String>,
    pub gps_longitude: Option<String>,
    pub gps_longitude_ref: Option<String>,
    pub gps_altitude: Option<String>,
    pub image_width: Option<u32>,
    pub image_height: Option<u32>,
    pub orientation: Option<u32>,
    pub color_space: Option<String>,
    pub flash: Option<bool>,
    pub software: Option<String>,
}

/// The text of a field, as a value of the library.
pub open spec fn text_view(t: Option<String>) -> Option<Seq<char>> {
    match t {
        Some(s) => Some(s@),
        None => None,
    }
}

/// A field's text read as a whole number; none where the field is missing or is no number.
pub open spec fn number_of(t: Option<Seq<char>>) -> Option<u32> {
    match t {
        Some(s) => parse_u32(s),
        None => None,
    }
}

/// A size: the first tag's number where that tag is present (even when it is no number),
/// else the fallback tag's.
pub open spec fn size_of(exif: exif::Exif, tag: ExifTag, fallback: ExifTag) -> Option<u32> {
    if tag_text_of(exif, tag) is Some {
        number_of(tag_text_of(exif, tag))
    } else {
        number_of(tag_text_of(exif, fallback))
    }
}

/// Whether the flash fired: bit 0 of the `Flash` number.
pub open spec fn flash_of(exif: exif::Exif) -> Option<bool> {
    match number_of(tag_text_of(exif, ExifTag::Flash)) {
        Some(v) => Some(v % 2 == 1),
        None => None,
    }
}

/// What [`exif_fields`] gives for `exif`.
pub open spec fn fields_match(r: ExifText, exif: exif::Exif) -> bool {
    &&& text_view(r.camera_make) == tag_text_of(exif, ExifTag::Make)
    &&& text_view(r.camera_model) == tag_text_of(exif, ExifTag::Model)
    &&& text_view(r.lens_model) == tag_text_of(exif, ExifTag::LensModel)
    &&& text_view(r.focal_length) == tag_text_of(exif, ExifTag::FocalLength)
    &&& text_view(r.aperture) == tag_text_of(exif, ExifTag::FNumber)
    &&& text_view(r.shutter_speed) == tag_text_of(exif, ExifTag::ExposureTime)
    &&& r.iso == number_of(tag_text_of(exif, ExifTag::PhotographicSensitivity))
    &&& text_view(r.date_taken) == tag_text_of(exif, ExifTag::DateTimeOriginal)
    &&& text_view(r.gps_latitude) == tag_text_of(exif, ExifTag::GPSLatitude)
    &&& text_view(r.gps_latitude_ref) == tag_text_of(exif, ExifTag::GPSLatitudeRef)
    &&& text_view(r.gps_longitude) == tag_text_of(exif, ExifTag::GPSLongitude)
    &&& text_view(r.gps_longitude_ref) == tag_text_of(exif, ExifTag::GPSLongitudeRef)
    &&& text_view(r.gps_altitude) == tag_text_of(exif, ExifTag::GPSAltitude)
    &&& r.image_width == size_of(exif, ExifTag::ImageWidth, ExifTag::PixelXDimension)
    &&& r.image_height == size_of(exif, ExifTag::ImageLength, ExifTag::PixelYDimension)
    &&& r.orientation == number_of(tag_text_of(exif, ExifTag::Orientation))
    &&& text_view(r.color_space) == tag_text_of(exif, ExifTag::ColorSpace)
    &&& r.flash == flash_of(exif)
    &&& text_view(r.software) == tag_text_of(exif, ExifTag::Software)
}

/// A field's text read as a whole number.
fn number(t: &Option<String>) -> (r: Option<u32>)
    ensures
        r == number_of(text_view(*t)),
{
    match t {
        Some(s) => parse_u32_text(s.as_str()),
        None => None,
    }
}

/// A size read from `tag`, or from `fallback` where `tag` is missing.
fn size_field(exif: &exif::Exif, tag: ExifTag, fallback: ExifTag) -> (r: Option<u32>)
    ensures
        r == size_of(*exif, tag, fallback),
{
    match tag_text(exif, tag) {
        Some(t) => parse_u32_text(t.as_str()),
        None => number(&tag_text(exif, fallback)),
    }
}

/// The metadata fields of `exif`: texts as EXIF displays them, and the whole numbers (ISO,
/// size, orientation, flash) read from those texts.
pub fn exif_fields(exif: &exif::Exif) -> (r: ExifText)
    ensures
        fields_match(r, *exif),
{
    let iso_text = tag_text(exif, ExifTag::PhotographicSensitivity);
    let orientation_text = tag_text(exif, ExifTag::Orientation);
    let flash = match number(&tag_text(exif, ExifTag::Flash)) {
        Some(v) => Some(v % 2 == 1),
        None => None,
    };
    ExifText {
        camera_make: tag_text(exif, ExifTag::Make),
        camera_model: tag_text(exif, ExifTag::Model),
        lens_model: tag_text(exif, ExifTag::LensModel),
        focal_length: tag_text(exif, ExifTag::FocalLength),
        aperture: tag_text(exif, ExifTag::FNumber),
        shutter_speed: tag_text(exif, ExifTag::ExposureTime),
        iso: number(&iso_text),
        date_taken: tag_text(exif, ExifTag::DateTimeOriginal),
        gps_latitude: tag_text(exif, ExifTag::GPSLatitude),
        gps_latitude_ref: tag_text(exif, ExifTag::GPSLatitudeRef),
        gps_longitude: tag_text(exif, ExifTag::GPSLongitude),
        gps_longitude_ref: tag_text(exif, ExifTag::GPSLongitudeRef),
        gps_altitude: tag_text(exif, ExifTag::GPSAltitude),
        image_width: size_field(exif, ExifTag::ImageWidth, ExifTag::PixelXDimension),
        image_height: size_field(exif, ExifTag::ImageLength, ExifTag::PixelYDimension),
        orientation: number(&orientation_text),
        color_space: tag_text(exif, ExifTag::ColorSpace),
        flash,
        software: tag_text(exif, ExifTag::Software),
    }
}

/// Read the EXIF metadata of an image file from its bytes: it succeeds exactly where the
/// reader finds EXIF data, and then gives the fields of [`exif_fields`].
pub fn read_metadata(bytes: Vec<u8>) -> (r: Result<ExifText, MetadataError>)
    ensures
        r is Ok <==> exif_of(bytes@) is Some,
        r matches Ok(t) ==> fields_match(t, exif_of(bytes@).unwrap()),
{
    match read_exif(bytes) {
        Ok(exif) => Ok(exif_fields(&exif)),
        Err(e) => Err(MetadataError::Unreadable(e)),
    }
}

} // verus!
