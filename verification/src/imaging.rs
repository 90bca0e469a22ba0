use std::sync::Arc;
use crate::hue::{hue_rotated_bytes, normal_degrees, normalize_degrees, rotate_hue_bytes};
use crate::thumbnail::{rgba_bytes, rgba_bytes_of};
use crate::text::{
    all_ascii, ascii_lower, ascii_lower_char, extension, str_eq,
    str_to_lowercase, to_lowercase,
};
use vstd::prelude::*;

verus! {

/// `image::DynamicImage`: decoded pixels, carried opaquely through the library.
#[verifier::external_type_specification]
#[verifier::external_body]
pub struct ExDynamicImage(::image::DynamicImage);

/// `Arc::clone` on shared pixel data: the clone points at the same image.
#[verifier::external_body]
fn share_pixels(data: &Arc<::image::DynamicImage>) -> (r: Arc<::image::DynamicImage>)
    ensures
        r == *data,
{
    Arc::clone(data)
}

/// Represents a loaded image in the application
pub struct GlintImage {
    /// Path to the image file
    pub path: String,
    /// The decoded image data
    pub data: Arc<::image::DynamicImage>,
    /// Image width in pixels
    pub width: u32,
    /// Image height in pixels
    pub height: u32,
    /// Color type description
    pub color_type: String,
    /// File size in bytes
    pub file_size: u64,
}

/// The number of bytes that an image is charged in memory accounting: four per pixel.
pub open spec fn image_bytes(img: GlintImage) -> int {
    img.width as int * img.height as int * 4
}

impl GlintImage {
    /// A copy of this image that shares its pixel data.
    pub fn duplicate(&self) -> (r: GlintImage)
        ensures
            r == *self,
    {
        GlintImage {
            path: self.path.clone(),
            data: share_pixels(&self.data),
            width: self.width,
            height: self.height,
            color_type: self.color_type.clone(),
            file_size: self.file_size,
        }
    }

    /// The memory that this image is charged in a cache: width x height x 4 bytes.
    pub fn memory_bytes(&self) -> (r: u64)
        requires
            image_bytes(*self) <= u64::MAX,
        ensures
            r == image_bytes(*self),
    {
        let w = self.width as u64;
        let h = self.height as u64;
        assert(w * h <= 0xffff_ffff_ffff_ffffu64) by (nonlinear_arith)
            requires
                w <= 0xffff_ffffu64,
                h <= 0xffff_ffffu64,
        ;
        w * h * 4
    }
}


// ---------------------------------------------------------------------------
// Trusted calls into `image`
// ---------------------------------------------------------------------------

/// What `image::load_from_memory` decodes from `bytes` (the format guessed from the bytes),
/// or `None` where it fails.
pub uninterp spec fn decoded_of(bytes: Seq<u8>) -> Option<::image::DynamicImage>;

/// `image::load_from_memory`: the format is guessed from the bytes and the image decoded; the
/// result is named by [`decoded_of`].
#[verifier::external_body]
pub(crate) fn decode_bytes(bytes: &[u8]) -> (r: Result<::image::DynamicImage, anyhow::Error>)
    ensures
        match r {
            Ok(d) => decoded_of(bytes@) == Some(d),
            Err(_) => decoded_of(bytes@) is None,
        },
{
    ::image::load_from_memory(bytes).map_err(anyhow::Error::from)
}

/// `anyhow::Error::msg`: an error that displays `text`.
#[verifier::external_body]
fn error_message(text: &str) -> anyhow::Error {
    anyhow::Error::msg(text.to_string())
}

/// The 8-bit RGBA image of `width` x `height` whose pixels, row by row, are `pixels`.
pub uninterp spec fn rgba_image_of(width: u32, height: u32, pixels: Seq<u8>) -> ::image::DynamicImage;

/// `ImageBuffer::from_raw` into an `RgbaImage`, held as a `DynamicImage`: the image of the
/// given size with exactly these RGBA bytes (named by [`rgba_image_of`]), whose RGBA bytes
/// read back are the same.
#[verifier::external_body]
fn rgba_image(width: u32, height: u32, pixels: Vec<u8>) -> (r: ::image::DynamicImage)
    requires
        pixels@.len() == 4 * width * height,
    ensures
        r == rgba_image_of(width, height, pixels@),
        pixel_width_of(r) == width,
        pixel_height_of(r) == height,
        rgba_bytes_of(r) == pixels@,
{
    ::image::DynamicImage::ImageRgba8(::image::RgbaImage::from_raw(width, height, pixels).unwrap())
}

/// Whether the pixel type of `pixels` has an alpha channel.
pub uninterp spec fn alpha_of(pixels: ::image::DynamicImage) -> bool;

/// The `{:?}` text of the color type of `pixels`.
pub uninterp spec fn color_name_of(pixels: ::image::DynamicImage) -> Seq<char>;

/// The width of `pixels`.
pub uninterp spec fn pixel_width_of(pixels: ::image::DynamicImage) -> u32;

/// The height of `pixels`.
pub uninterp spec fn pixel_height_of(pixels: ::image::DynamicImage) -> u32;

/// `pixels` resampled to `width` x `height` with the Lanczos3 filter.
pub uninterp spec fn resized_exact(pixels: ::image::DynamicImage, width: u32, height: u32) -> ::image::DynamicImage;

/// `pixels` turned a quarter clockwise.
pub uninterp spec fn rotated_quarter(pixels: ::image::DynamicImage) -> ::image::DynamicImage;

/// `pixels` turned half a turn.
pub uninterp spec fn rotated_half(pixels: ::image::DynamicImage) -> ::image::DynamicImage;

/// `pixels` turned three quarters clockwise.
pub uninterp spec fn rotated_three_quarters(pixels: ::image::DynamicImage) -> ::image::DynamicImage;

/// `pixels` mirrored left to right.
pub uninterp spec fn flipped_horizontally(pixels: ::image::DynamicImage) -> ::image::DynamicImage;

/// `pixels` mirrored top to bottom.
pub uninterp spec fn flipped_vertically(pixels: ::image::DynamicImage) -> ::image::DynamicImage;

/// The cut-out of `pixels` at (`x`, `y`) of at most `width` x `height`.
pub uninterp spec fn cropped(pixels: ::image::DynamicImage, x: u32, y: u32, width: u32, height: u32) -> ::image::DynamicImage;

/// `pixels` with every channel value moved by `value`.
pub uninterp spec fn brightened(pixels: ::image::DynamicImage, value: i32) -> ::image::DynamicImage;

/// The grayscale version of `pixels`.
pub uninterp spec fn grayscale_of(pixels: ::image::DynamicImage) -> ::image::DynamicImage;

/// The length that a cut of `len` pixels starting at `start` keeps of a side of `full`
/// pixels: the start is clamped to the side, and the cut to what is left after it.
pub open spec fn clipped_len(full: u32, start: u32, len: u32) -> u32 {
    let s = if start <= full { start } else { full };
    let rest = (full - s) as u32;
    if len <= rest { len } else { rest }
}

/// `DynamicImage::has_alpha`: whether the pixel type can express transparency, named by
/// [`alpha_of`].
#[verifier::external_body]
fn pixels_have_alpha(data: &::image::DynamicImage) -> (r: bool)
    ensures
        r == alpha_of(*data),
{
    data.has_alpha()
}

/// `DynamicImage::color`, written with `{:?}` as the image's color-type description, named by
/// [`color_name_of`].
#[verifier::external_body]
fn color_description(data: &::image::DynamicImage) -> (r: String)
    ensures
        r@ == color_name_of(*data),
{
    format!("{:?}", data.color())
}

/// `DynamicImage::width`, named by [`pixel_width_of`].
#[verifier::external_body]
pub(crate) fn pixel_width(data: &::image::DynamicImage) -> (r: u32)
    ensures
        r == pixel_width_of(*data),
{
    data.width()
}

/// `DynamicImage::height`, named by [`pixel_height_of`].
#[verifier::external_body]
pub(crate) fn pixel_height(data: &::image::DynamicImage) -> (r: u32)
    ensures
        r == pixel_height_of(*data),
{
    data.height()
}

/// `DynamicImage::resize_exact` with the Lanczos3 filter: the result is exactly
/// `width` x `height`.
#[verifier::external_body]
fn resize_exact_pixels(data: &::image::DynamicImage, width: u32, height: u32) -> (r: ::image::DynamicImage)
    ensures
        r == resized_exact(*data, width, height),
        pixel_width_of(r) == width,
        pixel_height_of(r) == height,
{
    data.resize_exact(width, height, ::image::imageops::FilterType::Lanczos3)
}

/// `DynamicImage::rotate90`: the image turned a quarter clockwise; width and height swap.
#[verifier::external_body]
fn rotate90_pixels(data: &::image::DynamicImage) -> (r: ::image::DynamicImage)
    ensures
        r == rotated_quarter(*data),
        pixel_width_of(r) == pixel_height_of(*data),
        pixel_height_of(r) == pixel_width_of(*data),
{
    data.rotate90()
}

/// `DynamicImage::rotate180`: the image turned half a turn; the size stays.
#[verifier::external_body]
fn rotate180_pixels(data: &::image::DynamicImage) -> (r: ::image::DynamicImage)
    ensures
        r == rotated_half(*data),
        pixel_width_of(r) == pixel_width_of(*data),
        pixel_height_of(r) == pixel_height_of(*data),
{
    data.rotate180()
}

/// `DynamicImage::rotate270`: the image turned three quarters clockwise; width and height
/// swap.
#[verifier::external_body]
fn rotate270_pixels(data: &::image::DynamicImage) -> (r: ::image::DynamicImage)
    ensures
        r == rotated_three_quarters(*data),
        pixel_width_of(r) == pixel_height_of(*data),
        pixel_height_of(r) == pixel_width_of(*data),
{
    data.rotate270()
}

/// `DynamicImage::clone` (derived): an owned copy of the pixels, equal to them.
#[verifier::external_body]
fn copy_pixels(data: &::image::DynamicImage) -> (r: ::image::DynamicImage)
    ensures
        r == *data,
{
    data.clone()
}

/// `imageops::flip_horizontal_in_place` applied to a copy of the pixels; the size stays.
#[verifier::external_body]
fn flip_horizontal_pixels(data: &::image::DynamicImage) -> (r: ::image::DynamicImage)
    ensures
        r == flipped_horizontally(*data),
        pixel_width_of(r) == pixel_width_of(*data),
        pixel_height_of(r) == pixel_height_of(*data),
{
    let mut flipped = data.clone();
    ::image::imageops::flip_horizontal_in_place(&mut flipped);
    flipped
}

/// `imageops::flip_vertical_in_place` applied to a copy of the pixels; the size stays.
#[verifier::external_body]
fn flip_vertical_pixels(data: &::image::DynamicImage) -> (r: ::image::DynamicImage)
    ensures
        r == flipped_vertically(*data),
        pixel_width_of(r) == pixel_width_of(*data),
        pixel_height_of(r) == pixel_height_of(*data),
{
    let mut flipped = data.clone();
    ::image::imageops::flip_vertical_in_place(&mut flipped);
    flipped
}

/// `DynamicImage::crop_imm`: the cut-out delimited by the rectangle, clamped to the image
/// (see [`clipped_len`]).
#[verifier::external_body]
fn crop_pixels(data: &::image::DynamicImage, x: u32, y: u32, width: u32, height: u32) -> (r: ::image::DynamicImage)
    ensures
        r == cropped(*data, x, y, width, height),
        pixel_width_of(r) == clipped_len(pixel_width_of(*data), x, width),
        pixel_height_of(r) == clipped_len(pixel_height_of(*data), y, height),
{
    data.crop_imm(x, y, width, height)
}

/// `DynamicImage::brighten`: every channel value moved by `value`; the size stays.
#[verifier::external_body]
fn brighten_pixels(data: &::image::DynamicImage, value: i32) -> (r: ::image::DynamicImage)
    ensures
        r == brightened(*data, value),
        pixel_width_of(r) == pixel_width_of(*data),
        pixel_height_of(r) == pixel_height_of(*data),
{
    data.brighten(value)
}

/// `DynamicImage::grayscale`: the grayscale version of the image; the size stays.
#[verifier::external_body]
fn grayscale_pixels(data: &::image::DynamicImage) -> (r: ::image::DynamicImage)
    ensures
        r == grayscale_of(*data),
        pixel_width_of(r) == pixel_width_of(*data),
        pixel_height_of(r) == pixel_height_of(*data),
{
    data.grayscale()
}

impl GlintImage {
    /// Check if the image's pixel type has an alpha channel
    pub fn has_alpha(&self) -> (r: bool)
        ensures
            r == alpha_of(*self.data),
    {
        pixels_have_alpha(&self.data)
    }

    /// A new image with the given pixels and size that keeps this image's path and file size.
    fn with_pixels(&self, data: ::image::DynamicImage, width: u32, height: u32) -> (r: GlintImage)
        ensures
            r.path == self.path,
            r.file_size == self.file_size,
            r.width == width,
            r.height == height,
            *r.data == data,
            r.color_type@ == color_name_of(data),
    {
        let color_type = color_description(&data);
        GlintImage { path: self.path.clone(), data: Arc::new(data), width, height, color_type, file_size: self.file_size }
    }
}

/// Supported image file formats
#[derive(Debug, Clone, Copy, PartialEq, Eq, Structural)]
pub enum ImageFormat {
    Png,
    Jpeg,
    Webp,
    Gif,
    Bmp,
    Tiff,
    Svg,
    Ico,
    Avif,
    Heic,
    Heif,
    Raw,
    Qoi,
    Exr,
    Hdr,
    Dds,
    Tga,
    PngPreview,
}

/// The format that a lowercase extension names, if any.
pub open spec fn format_for(e: Seq<char>) -> Option<ImageFormat> {
    if e == "png"@ {
        Some(ImageFormat::Png)
    } else if e == "jpg"@ || e == "jpeg"@ {
        Some(ImageFormat::Jpeg)
    } else if e == "webp"@ {
        Some(ImageFormat::Webp)
    } else if e == "gif"@ {
        Some(ImageFormat::Gif)
    } else if e == "bmp"@ {
        Some(ImageFormat::Bmp)
    } else if e == "tiff"@ || e == "tif"@ {
        Some(ImageFormat::Tiff)
    } else if e == "svg"@ {
        Some(ImageFormat::Svg)
    } else if e == "ico"@ {
        Some(ImageFormat::Ico)
    } else if e == "avif"@ {
        Some(ImageFormat::Avif)
    } else if e == "heic"@ {
        Some(ImageFormat::Heic)
    } else if e == "heif"@ {
        Some(ImageFormat::Heif)
    } else if e == "cr2"@ || e == "cr3"@ || e == "nef"@ || e == "arw"@ || e == "dng"@ || e == "raf"@
        || e == "orf"@ || e == "rw2"@ || e == "pef"@ || e == "raw"@ {
        Some(ImageFormat::Raw)
    } else if e == "qoi"@ {
        Some(ImageFormat::Qoi)
    } else if e == "exr"@ {
        Some(ImageFormat::Exr)
    } else if e == "hdr"@ {
        Some(ImageFormat::Hdr)
    } else if e == "dds"@ {
        Some(ImageFormat::Dds)
    } else if e == "tga"@ {
        Some(ImageFormat::Tga)
    } else if e == "psd"@ {
        Some(ImageFormat::PngPreview)
    } else {
        None
    }
}

impl ImageFormat {
    pub open spec fn spec_extension(&self) -> Seq<char> {
        match self {
            ImageFormat::Png => "png"@,
            ImageFormat::Jpeg => "jpg"@,
            ImageFormat::Webp => "webp"@,
            ImageFormat::Gif => "gif"@,
            ImageFormat::Bmp => "bmp"@,
            ImageFormat::Tiff => "tiff"@,
            ImageFormat::Svg => "svg"@,
            ImageFormat::Ico => "ico"@,
            ImageFormat::Avif => "avif"@,
            ImageFormat::Heic => "heic"@,
            ImageFormat::Heif => "heif"@,
            ImageFormat::Raw => "raw"@,
            ImageFormat::Qoi => "qoi"@,
            ImageFormat::Exr => "exr"@,
            ImageFormat::Hdr => "hdr"@,
            ImageFormat::Dds => "dds"@,
            ImageFormat::Tga => "tga"@,
            ImageFormat::PngPreview => "psd"@,
        }
    }

    /// Get the file extension for this format
    pub fn extension(&self) -> (r: &'static str)
        ensures
            r@ == self.spec_extension(),
    {
        match self {
            ImageFormat::Png => "png",
            ImageFormat::Jpeg => "jpg",
            ImageFormat::Webp => "webp",
            ImageFormat::Gif => "gif",
            ImageFormat::Bmp => "bmp",
            ImageFormat::Tiff => "tiff",
            ImageFormat::Svg => "svg",
            ImageFormat::Ico => "ico",
            ImageFormat::Avif => "avif",
            ImageFormat::Heic => "heic",
            ImageFormat::Heif => "heif",
            ImageFormat::Raw => "raw",
            ImageFormat::Qoi => "qoi",
            ImageFormat::Exr => "exr",
            ImageFormat::Hdr => "hdr",
            ImageFormat::Dds => "dds",
            ImageFormat::Tga => "tga",
            ImageFormat::PngPreview => "psd",
        }
    }

    /// Detect format from file extension, in any case
    pub fn from_extension(ext: &str) -> (r: Option<Self>)
        ensures
            r == format_for(str_to_lowercase(ext@)),
            all_ascii(ext@) ==> r == format_for(ascii_lower(ext@)),
    {
        let lower = to_lowercase(ext);
        let e = lower.as_str();
        if str_eq(e, "png") {
            Some(ImageFormat::Png)
        } else if str_eq(e, "jpg") || str_eq(e, "jpeg") {
            Some(ImageFormat::Jpeg)
        } else if str_eq(e, "webp") {
            Some(ImageFormat::Webp)
        } else if str_eq(e, "gif") {
            Some(ImageFormat::Gif)
        } else if str_eq(e, "bmp") {
            Some(ImageFormat::Bmp)
        } else if str_eq(e, "tiff") || str_eq(e, "tif") {
            Some(ImageFormat::Tiff)
        } else if str_eq(e, "svg") {
            Some(ImageFormat::Svg)
        } else if str_eq(e, "ico") {
            Some(ImageFormat::Ico)
        } else if str_eq(e, "avif") {
            Some(ImageFormat::Avif)
        } else if str_eq(e, "heic") {
            Some(ImageFormat::Heic)
        } else if str_eq(e, "heif") {
            Some(ImageFormat::Heif)
        } else if str_eq(e, "cr2") || str_eq(e, "cr3") || str_eq(e, "nef") || str_eq(e, "arw")
            || str_eq(e, "dng") || str_eq(e, "raf") || str_eq(e, "orf") || str_eq(e, "rw2")
            || str_eq(e, "pef") || str_eq(e, "raw") {
            Some(ImageFormat::Raw)
        } else if str_eq(e, "qoi") {
            Some(ImageFormat::Qoi)
        } else if str_eq(e, "exr") {
            Some(ImageFormat::Exr)
        } else if str_eq(e, "hdr") {
            Some(ImageFormat::Hdr)
        } else if str_eq(e, "dds") {
            Some(ImageFormat::Dds)
        } else if str_eq(e, "tga") {
            Some(ImageFormat::Tga)
        } else if str_eq(e, "psd") {
            Some(ImageFormat::PngPreview)
        } else {
            None
        }
    }
}

/// How a file is decoded, by its lowercase extension.
#[derive(Debug, Clone, Copy, PartialEq, Eq, Structural)]
pub enum DecodeStrategy {
    /// HEIC/HEIF: tried with the standard decoders, reported as unsupported when they fail
    Heic,
    /// SVG: tried with the standard decoders, reported as unsupported when they fail
    Svg,
    /// Every other extension: the standard decoders after guessing the format
    Standard,
}

/// Handles decoding image files from disk with format-specific optimizations
pub struct ImageLoader;

impl ImageLoader {
    /// The decoding path for a lowercase extension: `heic`/`heif`, `svg`, or the standard one.
    pub fn decode_strategy(ext: &str) -> (r: DecodeStrategy)
        ensures
            r == (if ext@ == "heic"@ || ext@ == "heif"@ {
                DecodeStrategy::Heic
            } else if ext@ == "svg"@ {
                DecodeStrategy::Svg
            } else {
                DecodeStrategy::Standard
            }),
    {
        if str_eq(ext, "heic") || str_eq(ext, "heif") {
            DecodeStrategy::Heic
        } else if str_eq(ext, "svg") {
            DecodeStrategy::Svg
        } else {
            DecodeStrategy::Standard
        }
    }

    /// Load an image from the bytes of the file at `path` (of `file_size` bytes): the format
    /// is guessed from the bytes and the pixels decoded, and the size and color type are read
    /// from the pixels. It fails exactly where decoding fails; for HEIC/HEIF and SVG files the
    /// error then says that the format is not supported.
    pub fn load(path: String, bytes: &[u8], file_size: u64) -> (r: Result<GlintImage, anyhow::Error>)
        ensures
            r is Ok <==> decoded_of(bytes@) is Some,
            r matches Ok(img) ==> {
                &&& decoded_of(bytes@) == Some(*img.data)
                &&& img.path == path
                &&& img.file_size == file_size
                &&& img.width == pixel_width_of(*img.data)
                &&& img.height == pixel_height_of(*img.data)
                &&& img.color_type@ == color_name_of(*img.data)
            },
    {
        let ext = match extension(path.as_str()) {
            Some(e) => to_lowercase(e.as_str()),
            None => String::new(),
        };
        let strategy = Self::decode_strategy(ext.as_str());
        match decode_bytes(bytes) {
            Ok(data) => {
                let width = pixel_width(&data);
                let height = pixel_height(&data);
                let color_type = color_description(&data);
                Ok(GlintImage { path, data: Arc::new(data), width, height, color_type, file_size })
            },
            Err(e) => match strategy {
                DecodeStrategy::Heic => Err(
                    error_message("HEIC decoding not yet implemented - install libheif or convert to JPEG"),
                ),
                DecodeStrategy::Svg => Err(error_message("SVG decoding requires usvg crate, falling back")),
                DecodeStrategy::Standard => Err(e),
            },
        }
    }
}

/// How a rotation by a whole number of degrees turns the pixels.
#[derive(Debug, Clone, Copy, PartialEq, Eq, Structural)]
pub enum QuarterTurns {
    /// No turn: the pixels are copied as they are
    Zero,
    /// A quarter turn clockwise
    One,
    /// A half turn
    Two,
    /// Three quarter turns clockwise
    Three,
}

/// The turn for an angle in degrees: 90 and -270 turn a quarter, 180 and -180 a half, 270 and
/// -90 three quarters; every other angle leaves the image as it is.
pub open spec fn spec_turns_for(degrees: i32) -> QuarterTurns {
    if degrees == 90 || degrees == -270 {
        QuarterTurns::One
    } else if degrees == 180 || degrees == -180 {
        QuarterTurns::Two
    } else if degrees == 270 || degrees == -90 {
        QuarterTurns::Three
    } else {
        QuarterTurns::Zero
    }
}

/// The turn depends only on the angle modulo 360 for angles within one full turn either way:
/// an angle of 90 degrees (modulo 360) turns a quarter, 180 a half, 270 three quarters, and
/// every other angle not at all.
pub proof fn law_turn_by_angle(degrees: i32)
    requires
        -360 < degrees < 360,
    ensures
        spec_turns_for(degrees) == (if degrees as int % 360 == 90 {
            QuarterTurns::One
        } else if degrees as int % 360 == 180 {
            QuarterTurns::Two
        } else if degrees as int % 360 == 270 {
            QuarterTurns::Three
        } else {
            QuarterTurns::Zero
        }),
{
    if degrees < 0 {
        assert(degrees as int % 360 == degrees + 360);
    } else {
        assert(degrees as int % 360 == degrees);
    }
}


/// Each format's extension is non-empty lowercase ASCII text without a leading `.`, and is
/// read back as that format.
pub proof fn lemma_format_extension(f: ImageFormat)
    ensures
        format_for(f.spec_extension()) == Some(f),
        all_ascii(f.spec_extension()),
        ascii_lower(f.spec_extension()) == f.spec_extension(),
        f.spec_extension().len() > 0,
        f.spec_extension()[0] != '.',
{
    reveal_strlit("png");
    reveal_strlit("jpg");
    reveal_strlit("jpeg");
    reveal_strlit("webp");
    reveal_strlit("gif");
    reveal_strlit("bmp");
    reveal_strlit("tiff");
    reveal_strlit("tif");
    reveal_strlit("svg");
    reveal_strlit("ico");
    reveal_strlit("avif");
    reveal_strlit("heic");
    reveal_strlit("heif");
    reveal_strlit("cr2");
    reveal_strlit("cr3");
    reveal_strlit("nef");
    reveal_strlit("arw");
    reveal_strlit("dng");
    reveal_strlit("raf");
    reveal_strlit("orf");
    reveal_strlit("rw2");
    reveal_strlit("pef");
    reveal_strlit("raw");
    reveal_strlit("qoi");
    reveal_strlit("exr");
    reveal_strlit("hdr");
    reveal_strlit("dds");
    reveal_strlit("tga");
    reveal_strlit("psd");
    match f {
        ImageFormat::Png => {},
        ImageFormat::Jpeg => {
            assert("jpg"@[0] != "png"@[0]);
        },
        ImageFormat::Webp => {
            assert("webp"@.len() != "png"@.len());
            assert("webp"@.len() != "jpg"@.len());
            assert("webp"@[0] != "jpeg"@[0]);
        },
        ImageFormat::Gif => {
            assert("gif"@[0] != "png"@[0]);
            assert("gif"@[0] != "jpg"@[0]);
            assert("gif"@.len() != "jpeg"@.len());
            assert("gif"@.len() != "webp"@.len());
        },
        ImageFormat::Bmp => {
            assert("bmp"@[0] != "png"@[0]);
            assert("bmp"@[0] != "jpg"@[0]);
            assert("bmp"@.len() != "jpeg"@.len());
            assert("bmp"@.len() != "webp"@.len());
            assert("bmp"@[0] != "gif"@[0]);
        },
        ImageFormat::Tiff => {
            assert("tiff"@.len() != "png"@.len());
            assert("tiff"@.len() != "jpg"@.len());
            assert("tiff"@[0] != "jpeg"@[0]);
            assert("tiff"@[0] != "webp"@[0]);
            assert("tiff"@.len() != "gif"@.len());
            assert("tiff"@.len() != "bmp"@.len());
        },
        ImageFormat::Svg => {
            assert("svg"@[0] != "png"@[0]);
            assert("svg"@[0] != "jpg"@[0]);
            assert("svg"@.len() != "jpeg"@.len());
            assert("svg"@.len() != "webp"@.len());
            assert("svg"@[0] != "gif"@[0]);
            assert("svg"@[0] != "bmp"@[0]);
            assert("svg"@.len() != "tiff"@.len());
            assert("svg"@[0] != "tif"@[0]);
        },
        ImageFormat::Ico => {
            assert("ico"@[0] != "png"@[0]);
            assert("ico"@[0] != "jpg"@[0]);
            assert("ico"@.len() != "jpeg"@.len());
            assert("ico"@.len() != "webp"@.len());
            assert("ico"@[0] != "gif"@[0]);
            assert("ico"@[0] != "bmp"@[0]);
            assert("ico"@.len() != "tiff"@.len());
            assert("ico"@[0] != "tif"@[0]);
            assert("ico"@[0] != "svg"@[0]);
        },
        ImageFormat::Avif => {
            assert("avif"@.len() != "png"@.len());
            assert("avif"@.len() != "jpg"@.len());
            assert("avif"@[0] != "jpeg"@[0]);
            assert("avif"@[0] != "webp"@[0]);
            assert("avif"@.len() != "gif"@.len());
            assert("avif"@.len() != "bmp"@.len());
            assert("avif"@[0] != "tiff"@[0]);
            assert("avif"@.len() != "tif"@.len());
            assert("avif"@.len() != "svg"@.len());
            assert("avif"@.len() != "ico"@.len());
        },
        ImageFormat::Heic => {
            assert("heic"@.len() != "png"@.len());
            assert("heic"@.len() != "jpg"@.len());
            assert("heic"@[0] != "jpeg"@[0]);
            assert("heic"@[0] != "webp"@[0]);
            assert("heic"@.len() != "gif"@.len());
            assert("heic"@.len() != "bmp"@.len());
            assert("heic"@[0] != "tiff"@[0]);
            assert("heic"@.len() != "tif"@.len());
            assert("heic"@.len() != "svg"@.len());
            assert("heic"@.len() != "ico"@.len());
            assert("heic"@[0] != "avif"@[0]);
        },
        ImageFormat::Heif => {
            assert("heif"@.len() != "png"@.len());
            assert("heif"@.len() != "jpg"@.len());
            assert("heif"@[0] != "jpeg"@[0]);
            assert("heif"@[0] != "webp"@[0]);
            assert("heif"@.len() != "gif"@.len());
            assert("heif"@.len() != "bmp"@.len());
            assert("heif"@[0] != "tiff"@[0]);
            assert("heif"@.len() != "tif"@.len());
            assert("heif"@.len() != "svg"@.len());
            assert("heif"@.len() != "ico"@.len());
            assert("heif"@[0] != "avif"@[0]);
            assert("heif"@[3] != "heic"@[3]);
        },
        ImageFormat::Raw => {
            assert("raw"@[0] != "png"@[0]);
            assert("raw"@[0] != "jpg"@[0]);
            assert("raw"@.len() != "jpeg"@.len());
            assert("raw"@.len() != "webp"@.len());
            assert("raw"@[0] != "gif"@[0]);
            assert("raw"@[0] != "bmp"@[0]);
            assert("raw"@.len() != "tiff"@.len());
            assert("raw"@[0] != "tif"@[0]);
            assert("raw"@[0] != "svg"@[0]);
            assert("raw"@[0] != "ico"@[0]);
            assert("raw"@.len() != "avif"@.len());
            assert("raw"@.len() != "heic"@.len());
            assert("raw"@.len() != "heif"@.len());
            assert("raw"@[0] != "cr2"@[0]);
            assert("raw"@[0] != "cr3"@[0]);
            assert("raw"@[0] != "nef"@[0]);
            assert("raw"@[0] != "arw"@[0]);
            assert("raw"@[0] != "dng"@[0]);
            assert("raw"@[2] != "raf"@[2]);
            assert("raw"@[0] != "orf"@[0]);
            assert("raw"@[1] != "rw2"@[1]);
            assert("raw"@[0] != "pef"@[0]);
        },
        ImageFormat::Qoi => {
            assert("qoi"@[0] != "png"@[0]);
            assert("qoi"@[0] != "jpg"@[0]);
            assert("qoi"@.len() != "jpeg"@.len());
            assert("qoi"@.len() != "webp"@.len());
            assert("qoi"@[0] != "gif"@[0]);
            assert("qoi"@[0] != "bmp"@[0]);
            assert("qoi"@.len() != "tiff"@.len());
            assert("qoi"@[0] != "tif"@[0]);
            assert("qoi"@[0] != "svg"@[0]);
            assert("qoi"@[0] != "ico"@[0]);
            assert("qoi"@.len() != "avif"@.len());
            assert("qoi"@.len() != "heic"@.len());
            assert("qoi"@.len() != "heif"@.len());
            assert("qoi"@[0] != "cr2"@[0]);
            assert("qoi"@[0] != "cr3"@[0]);
            assert("qoi"@[0] != "nef"@[0]);
            assert("qoi"@[0] != "arw"@[0]);
            assert("qoi"@[0] != "dng"@[0]);
            assert("qoi"@[0] != "raf"@[0]);
            assert("qoi"@[0] != "orf"@[0]);
            assert("qoi"@[0] != "rw2"@[0]);
            assert("qoi"@[0] != "pef"@[0]);
            assert("qoi"@[0] != "raw"@[0]);
        },
        ImageFormat::Exr => {
            assert("exr"@[0] != "png"@[0]);
            assert("exr"@[0] != "jpg"@[0]);
            assert("exr"@.len() != "jpeg"@.len());
            assert("exr"@.len() != "webp"@.len());
            assert("exr"@[0] != "gif"@[0]);
            assert("exr"@[0] != "bmp"@[0]);
            assert("exr"@.len() != "tiff"@.len());
            assert("exr"@[0] != "tif"@[0]);
            assert("exr"@[0] != "svg"@[0]);
            assert("exr"@[0] != "ico"@[0]);
            assert("exr"@.len() != "avif"@.len());
            assert("exr"@.len() != "heic"@.len());
            assert("exr"@.len() != "heif"@.len());
            assert("exr"@[0] != "cr2"@[0]);
            assert("exr"@[0] != "cr3"@[0]);
            assert("exr"@[0] != "nef"@[0]);
            assert("exr"@[0] != "arw"@[0]);
            assert("exr"@[0] != "dng"@[0]);
            assert("exr"@[0] != "raf"@[0]);
            assert("exr"@[0] != "orf"@[0]);
            assert("exr"@[0] != "rw2"@[0]);
            assert("exr"@[0] != "pef"@[0]);
            assert("exr"@[0] != "raw"@[0]);
            assert("exr"@[0] != "qoi"@[0]);
        },
        ImageFormat::Hdr => {
            assert("hdr"@[0] != "png"@[0]);
            assert("hdr"@[0] != "jpg"@[0]);
            assert("hdr"@.len() != "jpeg"@.len());
            assert("hdr"@.len() != "webp"@.len());
            assert("hdr"@[0] != "gif"@[0]);
            assert("hdr"@[0] != "bmp"@[0]);
            assert("hdr"@.len() != "tiff"@.len());
            assert("hdr"@[0] != "tif"@[0]);
            assert("hdr"@[0] != "svg"@[0]);
            assert("hdr"@[0] != "ico"@[0]);
            assert("hdr"@.len() != "avif"@.len());
            assert("hdr"@.len() != "heic"@.len());
            assert("hdr"@.len() != "heif"@.len());
            assert("hdr"@[0] != "cr2"@[0]);
            assert("hdr"@[0] != "cr3"@[0]);
            assert("hdr"@[0] != "nef"@[0]);
            assert("hdr"@[0] != "arw"@[0]);
            assert("hdr"@[0] != "dng"@[0]);
            assert("hdr"@[0] != "raf"@[0]);
            assert("hdr"@[0] != "orf"@[0]);
            assert("hdr"@[0] != "rw2"@[0]);
            assert("hdr"@[0] != "pef"@[0]);
            assert("hdr"@[0] != "raw"@[0]);
            assert("hdr"@[0] != "qoi"@[0]);
            assert("hdr"@[0] != "exr"@[0]);
        },
        ImageFormat::Dds => {
            assert("dds"@[0] != "png"@[0]);
            assert("dds"@[0] != "jpg"@[0]);
            assert("dds"@.len() != "jpeg"@.len());
            assert("dds"@.len() != "webp"@.len());
            assert("dds"@[0] != "gif"@[0]);
            assert("dds"@[0] != "bmp"@[0]);
            assert("dds"@.len() != "tiff"@.len());
            assert("dds"@[0] != "tif"@[0]);
            assert("dds"@[0] != "svg"@[0]);
            assert("dds"@[0] != "ico"@[0]);
            assert("dds"@.len() != "avif"@.len());
            assert("dds"@.len() != "heic"@.len());
            assert("dds"@.len() != "heif"@.len());
            assert("dds"@[0] != "cr2"@[0]);
            assert("dds"@[0] != "cr3"@[0]);
            assert("dds"@[0] != "nef"@[0]);
            assert("dds"@[0] != "arw"@[0]);
            assert("dds"@[1] != "dng"@[1]);
            assert("dds"@[0] != "raf"@[0]);
            assert("dds"@[0] != "orf"@[0]);
            assert("dds"@[0] != "rw2"@[0]);
            assert("dds"@[0] != "pef"@[0]);
            assert("dds"@[0] != "raw"@[0]);
            assert("dds"@[0] != "qoi"@[0]);
            assert("dds"@[0] != "exr"@[0]);
            assert("dds"@[0] != "hdr"@[0]);
        },
        ImageFormat::Tga => {
            assert("tga"@[0] != "png"@[0]);
            assert("tga"@[0] != "jpg"@[0]);
            assert("tga"@.len() != "jpeg"@.len());
            assert("tga"@.len() != "webp"@.len());
            assert("tga"@[0] != "gif"@[0]);
            assert("tga"@[0] != "bmp"@[0]);
            assert("tga"@.len() != "tiff"@.len());
            assert("tga"@[1] != "tif"@[1]);
            assert("tga"@[0] != "svg"@[0]);
            assert("tga"@[0] != "ico"@[0]);
            assert("tga"@.len() != "avif"@.len());
            assert("tga"@.len() != "heic"@.len());
            assert("tga"@.len() != "heif"@.len());
            assert("tga"@[0] != "cr2"@[0]);
            assert("tga"@[0] != "cr3"@[0]);
            assert("tga"@[0] != "nef"@[0]);
            assert("tga"@[0] != "arw"@[0]);
            assert("tga"@[0] != "dng"@[0]);
            assert("tga"@[0] != "raf"@[0]);
            assert("tga"@[0] != "orf"@[0]);
            assert("tga"@[0] != "rw2"@[0]);
            assert("tga"@[0] != "pef"@[0]);
            assert("tga"@[0] != "raw"@[0]);
            assert("tga"@[0] != "qoi"@[0]);
            assert("tga"@[0] != "exr"@[0]);
            assert("tga"@[0] != "hdr"@[0]);
            assert("tga"@[0] != "dds"@[0]);
        },
        ImageFormat::PngPreview => {
            assert("psd"@[1] != "png"@[1]);
            assert("psd"@[0] != "jpg"@[0]);
            assert("psd"@.len() != "jpeg"@.len());
            assert("psd"@.len() != "webp"@.len());
            assert("psd"@[0] != "gif"@[0]);
            assert("psd"@[0] != "bmp"@[0]);
            assert("psd"@.len() != "tiff"@.len());
            assert("psd"@[0] != "tif"@[0]);
            assert("psd"@[0] != "svg"@[0]);
            assert("psd"@[0] != "ico"@[0]);
            assert("psd"@.len() != "avif"@.len());
            assert("psd"@.len() != "heic"@.len());
            assert("psd"@.len() != "heif"@.len());
            assert("psd"@[0] != "cr2"@[0]);
            assert("psd"@[0] != "cr3"@[0]);
            assert("psd"@[0] != "nef"@[0]);
            assert("psd"@[0] != "arw"@[0]);
            assert("psd"@[0] != "dng"@[0]);
            assert("psd"@[0] != "raf"@[0]);
            assert("psd"@[0] != "orf"@[0]);
            assert("psd"@[0] != "rw2"@[0]);
            assert("psd"@[1] != "pef"@[1]);
            assert("psd"@[0] != "raw"@[0]);
            assert("psd"@[0] != "qoi"@[0]);
            assert("psd"@[0] != "exr"@[0]);
            assert("psd"@[0] != "hdr"@[0]);
            assert("psd"@[0] != "dds"@[0]);
            assert("psd"@[0] != "tga"@[0]);
        },
    }
    let e = f.spec_extension();
    assert(ascii_lower(e) =~= e);
}

/// The extension of a format, in any mix of ASCII capitals and small letters, is read back
/// as that format by [`ImageFormat::from_extension`].
pub proof fn law_format_extension_round_trip(f: ImageFormat, e: Seq<char>)
    requires
        ascii_lower(e) == f.spec_extension(),
    ensures
        all_ascii(e),
        format_for(ascii_lower(e)) == Some(f),
{
    lemma_format_extension(f);
    let x = f.spec_extension();
    assert forall|i: int| 0 <= i < e.len() implies (#[trigger] e[i] as u32) < 128 by {
        assert(ascii_lower(e)[i] == ascii_lower_char(e[i]));
        assert((x[i] as u32) < 128);
    }
}

/// Distinct formats have distinct extensions, each non-empty lowercase ASCII text without a
/// leading `.`.
pub proof fn law_format_extensions_distinct(f: ImageFormat, g: ImageFormat)
    ensures
        f != g ==> f.spec_extension() != g.spec_extension(),
        f.spec_extension().len() > 0,
        f.spec_extension()[0] != '.',
        all_ascii(f.spec_extension()),
        ascii_lower(f.spec_extension()) == f.spec_extension(),
{
    lemma_format_extension(f);
    lemma_format_extension(g);
}

/// The pixels after the given turn.
pub open spec fn turned(pixels: ::image::DynamicImage, t: QuarterTurns) -> ::image::DynamicImage {
    match t {
        QuarterTurns::Zero => pixels,
        QuarterTurns::One => rotated_quarter(pixels),
        QuarterTurns::Two => rotated_half(pixels),
        QuarterTurns::Three => rotated_three_quarters(pixels),
    }
}

/// Core image processing operations
pub struct ImageProcessor;

impl ImageProcessor {
    /// The turn that rotating by `degrees` performs.
    pub fn turns_for(degrees: i32) -> (r: QuarterTurns)
        ensures
            r == spec_turns_for(degrees),
    {
        if degrees == 90 || degrees == -270 {
            QuarterTurns::One
        } else if degrees == 180 || degrees == -180 {
            QuarterTurns::Two
        } else if degrees == 270 || degrees == -90 {
            QuarterTurns::Three
        } else {
            QuarterTurns::Zero
        }
    }

    /// Resize an image to new dimensions using Lanczos3 filtering
    pub fn resize(image: &GlintImage, new_width: u32, new_height: u32) -> (r: Result<GlintImage, anyhow::Error>)
        ensures
            r matches Ok(img) && img.path == image.path && img.file_size == image.file_size
                && img.width == new_width && img.height == new_height
                && pixel_width_of(*img.data) == new_width && pixel_height_of(*img.data) == new_height
                && *img.data == resized_exact(*image.data, new_width, new_height)
                && img.color_type@ == color_name_of(*img.data),
    {
        let resized = resize_exact_pixels(&image.data, new_width, new_height);
        Ok(image.with_pixels(resized, new_width, new_height))
    }

    /// Rotate an image by a whole number of degrees (see [`spec_turns_for`]); the size is read
    /// from the rotated pixels.
    pub fn rotate(image: &GlintImage, degrees: i32) -> (r: Result<GlintImage, anyhow::Error>)
        ensures
            r matches Ok(img) && img.path == image.path && img.file_size == image.file_size
                && *img.data == turned(*image.data, spec_turns_for(degrees))
                && img.width == pixel_width_of(*img.data) && img.height == pixel_height_of(*img.data)
                && img.color_type@ == color_name_of(*img.data),
    {
        let rotated = match Self::turns_for(degrees) {
            QuarterTurns::One => rotate90_pixels(&image.data),
            QuarterTurns::Two => rotate180_pixels(&image.data),
            QuarterTurns::Three => rotate270_pixels(&image.data),
            QuarterTurns::Zero => copy_pixels(&image.data),
        };
        let new_width = pixel_width(&rotated);
        let new_height = pixel_height(&rotated);
        Ok(image.with_pixels(rotated, new_width, new_height))
    }

    /// Flip an image horizontally or vertically; the size, read from the pixels, stays.
    pub fn flip(image: &GlintImage, horizontal: bool) -> (r: Result<GlintImage, anyhow::Error>)
        ensures
            r matches Ok(img) && img.path == image.path && img.file_size == image.file_size
                && img.width == pixel_width_of(*image.data) && img.height == pixel_height_of(*image.data)
                && img.width == pixel_width_of(*img.data) && img.height == pixel_height_of(*img.data)
                && *img.data == (if horizontal {
                    flipped_horizontally(*image.data)
                } else {
                    flipped_vertically(*image.data)
                })
                && img.color_type@ == color_name_of(*img.data),
    {
        let flipped = if horizontal {
            flip_horizontal_pixels(&image.data)
        } else {
            flip_vertical_pixels(&image.data)
        };
        let width = pixel_width(&flipped);
        let height = pixel_height(&flipped);
        Ok(image.with_pixels(flipped, width, height))
    }

    /// Crop an image to the specified rectangle, clamped to the pixels; the recorded size is
    /// that of the cut-out.
    pub fn crop(image: &GlintImage, x: u32, y: u32, width: u32, height: u32) -> (r: Result<GlintImage, anyhow::Error>)
        ensures
            r matches Ok(img) && img.path == image.path && img.file_size == image.file_size
                && *img.data == cropped(*image.data, x, y, width, height)
                && img.width == clipped_len(pixel_width_of(*image.data), x, width)
                && img.height == clipped_len(pixel_height_of(*image.data), y, height)
                && img.width == pixel_width_of(*img.data) && img.height == pixel_height_of(*img.data)
                && img.color_type@ == color_name_of(*img.data),
    {
        let cut = crop_pixels(&image.data, x, y, width, height);
        let new_width = pixel_width(&cut);
        let new_height = pixel_height(&cut);
        Ok(image.with_pixels(cut, new_width, new_height))
    }

    /// Adjust brightness (range: -255 to 255); the size, read from the pixels, stays.
    pub fn adjust_brightness(image: &GlintImage, value: i32) -> (r: Result<GlintImage, anyhow::Error>)
        ensures
            r matches Ok(img) && img.path == image.path && img.file_size == image.file_size
                && img.width == pixel_width_of(*image.data) && img.height == pixel_height_of(*image.data)
                && img.width == pixel_width_of(*img.data) && img.height == pixel_height_of(*img.data)
                && *img.data == brightened(*image.data, value)
                && img.color_type@ == color_name_of(*img.data),
    {
        let adjusted = brighten_pixels(&image.data, value);
        let width = pixel_width(&adjusted);
        let height = pixel_height(&adjusted);
        Ok(image.with_pixels(adjusted, width, height))
    }

    /// Convert to grayscale; the size, read from the pixels, stays.
    pub fn grayscale(image: &GlintImage) -> (r: Result<GlintImage, anyhow::Error>)
        ensures
            r matches Ok(img) && img.path == image.path && img.file_size == image.file_size
                && img.width == pixel_width_of(*image.data) && img.height == pixel_height_of(*image.data)
                && img.width == pixel_width_of(*img.data) && img.height == pixel_height_of(*img.data)
                && *img.data == grayscale_of(*image.data)
                && img.color_type@ == color_name_of(*img.data),
    {
        let gray = grayscale_pixels(&image.data);
        let width = pixel_width(&gray);
        let height = pixel_height(&gray);
        Ok(image.with_pixels(gray, width, height))
    }

    /// Rotate the hue of every pixel by `degrees` in HSL colour space, keeping saturation,
    /// lightness and alpha (see [`hue_rotated`]); the result holds 8-bit RGBA pixels of the
    /// same size.
    pub fn hue_rotate(image: &GlintImage, degrees: i32) -> (r: Result<GlintImage, anyhow::Error>)
        ensures
            r matches Ok(img) && img.path == image.path && img.file_size == image.file_size
                && img.width == pixel_width_of(*image.data) && img.height == pixel_height_of(*image.data)
                && img.width == pixel_width_of(*img.data) && img.height == pixel_height_of(*img.data)
                && rgba_bytes_of(*img.data) == hue_rotated_bytes(rgba_bytes_of(*image.data), normal_degrees(degrees))
                && *img.data == rgba_image_of(img.width, img.height, rgba_bytes_of(*img.data))
                && img.color_type@ == color_name_of(*img.data),
    {
        let pixels = rgba_bytes(&image.data);
        let width = pixel_width(&image.data);
        let height = pixel_height(&image.data);
        let turn = normalize_degrees(degrees);
        proof {
            let wh: int = width * height;
            assert(4 * width * height == 4 * wh) by (nonlinear_arith)
                requires
                    wh == width * height,
            ;
            vstd::arithmetic::div_mod::lemma_mod_multiples_vanish(wh, 0, 4);
            assert(pixels@.len() % 4 == 0);
        }
        let rotated = rotate_hue_bytes(&pixels, turn);
        let data = rgba_image(width, height, rotated);
        Ok(image.with_pixels(data, width, height))
    }
}

} // verus!
