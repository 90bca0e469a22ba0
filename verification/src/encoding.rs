use crate::editor::ExportFormat;
use crate::imaging::{pixel_height, pixel_height_of, pixel_width, pixel_width_of, GlintImage};
use crate::thumbnail::{rgba_bytes, rgba_bytes_of, Thumbnail};
use image::{ExtendedColorType, ImageEncoder};
use std::io::Cursor;
use vstd::prelude::*;

verus! {

/// The PNG file that the `image` crate writes for RGBA `pixels` of `width` x `height`, or
/// `None` where it fails.
pub uninterp spec fn png_bytes_of(pixels: Seq<u8>, width: u32, height: u32) -> Option<Seq<u8>>;

/// The lossless WebP file that the `image` crate writes for RGBA `pixels` of `width` x `height`, or
/// `None` where it fails.
pub uninterp spec fn webp_bytes_of(pixels: Seq<u8>, width: u32, height: u32) -> Option<Seq<u8>>;

/// The BMP file that the `image` crate writes for RGBA `pixels` of `width` x `height`, or
/// `None` where it fails.
pub uninterp spec fn bmp_bytes_of(pixels: Seq<u8>, width: u32, height: u32) -> Option<Seq<u8>>;

/// The TIFF file that the `image` crate writes for RGBA `pixels` of `width` x `height`, or
/// `None` where it fails.
pub uninterp spec fn tiff_bytes_of(pixels: Seq<u8>, width: u32, height: u32) -> Option<Seq<u8>>;

/// The JPEG file that the `image` crate writes at `quality` for RGBA `pixels` of `width` x
/// `height`, or `None` where it fails.
pub uninterp spec fn jpeg_bytes_of(pixels: Seq<u8>, width: u32, height: u32, quality: u8) -> Option<Seq<u8>>;

/// The PNG encoder of the `image` crate on RGBA pixels, written to memory; the result is
/// named by [`png_bytes_of`].
#[verifier::external_body]
fn encode_png(pixels: &[u8], width: u32, height: u32) -> (r: Result<Vec<u8>, anyhow::Error>)
    requires
        pixels@.len() == 4 * width * height,
    ensures
        match r {
            Ok(b) => png_bytes_of(pixels@, width, height) == Some(b@),
            Err(_) => png_bytes_of(pixels@, width, height) is None,
        },
{
    let mut out: Vec<u8> = Vec::new();
    image::codecs::png::PngEncoder::new(&mut out).write_image(pixels, width, height, ExtendedColorType::Rgba8).map_err(anyhow::Error::from)?;
    Ok(out)
}

/// The lossless WebP encoder of the `image` crate on RGBA pixels, written to memory; the result is
/// named by [`webp_bytes_of`].
#[verifier::external_body]
fn encode_webp(pixels: &[u8], width: u32, height: u32) -> (r: Result<Vec<u8>, anyhow::Error>)
    requires
        pixels@.len() == 4 * width * height,
    ensures
        match r {
            Ok(b) => webp_bytes_of(pixels@, width, height) == Some(b@),
            Err(_) => webp_bytes_of(pixels@, width, height) is None,
        },
{
    let mut out: Vec<u8> = Vec::new();
    image::codecs::webp::WebPEncoder::new_lossless(&mut out).encode(pixels, width, height, ExtendedColorType::Rgba8).map_err(anyhow::Error::from)?;
    Ok(out)
}

/// The BMP encoder of the `image` crate on RGBA pixels, written to memory; the result is
/// named by [`bmp_bytes_of`].
#[verifier::external_body]
fn encode_bmp(pixels: &[u8], width: u32, height: u32) -> (r: Result<Vec<u8>, anyhow::Error>)
    requires
        pixels@.len() == 4 * width * height,
    ensures
        match r {
            Ok(b) => bmp_bytes_of(pixels@, width, height) == Some(b@),
            Err(_) => bmp_bytes_of(pixels@, width, height) is None,
        },
{
    let mut out: Vec<u8> = Vec::new();
    image::codecs::bmp::BmpEncoder::new(&mut out).write_image(pixels, width, height, ExtendedColorType::Rgba8).map_err(anyhow::Error::from)?;
    Ok(out)
}

/// The TIFF encoder of the `image` crate on RGBA pixels, written to memory; the result is
/// named by [`tiff_bytes_of`].
#[verifier::external_body]
fn encode_tiff(pixels: &[u8], width: u32, height: u32) -> (r: Result<Vec<u8>, anyhow::Error>)
    requires
        pixels@.len() == 4 * width * height,
    ensures
        match r {
            Ok(b) => tiff_bytes_of(pixels@, width, height) == Some(b@),
            Err(_) => tiff_bytes_of(pixels@, width, height) is None,
        },
{
    let mut out: Vec<u8> = Vec::new();
    image::codecs::tiff::TiffEncoder::new(Cursor::new(&mut out)).write_image(pixels, width, height, ExtendedColorType::Rgba8).map_err(anyhow::Error::from)?;
    Ok(out)
}

/// The JPEG encoder of the `image` crate at `quality` on RGBA pixels, written to memory; the
/// result is named by [`jpeg_bytes_of`].
#[verifier::external_body]
fn encode_jpeg(pixels: &[u8], width: u32, height: u32, quality: u8) -> (r: Result<Vec<u8>, anyhow::Error>)
    requires
        pixels@.len() == 4 * width * height,
    ensures
        match r {
            Ok(b) => jpeg_bytes_of(pixels@, width, height, quality) == Some(b@),
            Err(_) => jpeg_bytes_of(pixels@, width, height, quality) is None,
        },
{
    let mut out: Vec<u8> = Vec::new();
    image::codecs::jpeg::JpegEncoder::new_with_quality(&mut out, quality)
        .encode(pixels, width, height, ExtendedColorType::Rgba8)
        .map_err(anyhow::Error::from)?;
    Ok(out)
}

/// The file that an export in `format` writes for RGBA `pixels` (none for "same as source",
/// which keeps the source's own format).
pub open spec fn export_bytes_of(
    format: ExportFormat,
    pixels: Seq<u8>,
    width: u32,
    height: u32,
    quality: u8,
) -> Option<Seq<u8>> {
    match format {
        ExportFormat::Original => None,
        ExportFormat::Png => png_bytes_of(pixels, width, height),
        ExportFormat::Jpeg => jpeg_bytes_of(pixels, width, height, quality),
        ExportFormat::Webp => webp_bytes_of(pixels, width, height),
        ExportFormat::Bmp => bmp_bytes_of(pixels, width, height),
        ExportFormat::Tiff => tiff_bytes_of(pixels, width, height),
    }
}

/// The bytes of an exported image: its RGBA pixels encoded in `format` (JPEG at `quality`).
/// "Same as source" is not encoded here (the result is `None`): it is written in the
/// source's own format. Otherwise the result is the encoded file, or an error exactly where
/// the encoder fails.
pub fn encode_export(img: &GlintImage, format: ExportFormat, quality: u8) -> (r: Option<
    Result<Vec<u8>, anyhow::Error>,
>)
    ensures
        r is None <==> format == ExportFormat::Original,
        r matches Some(res) ==> {
            let e = export_bytes_of(
                format,
                rgba_bytes_of(*img.data),
                pixel_width_of(*img.data),
                pixel_height_of(*img.data),
                quality,
            );
            &&& res is Ok <==> e is Some
            &&& res matches Ok(b) ==> e == Some(b@)
        },
{
    let pixels = rgba_bytes(&img.data);
    let width = pixel_width(&img.data);
    let height = pixel_height(&img.data);
    match format {
        ExportFormat::Original => None,
        ExportFormat::Png => Some(encode_png(pixels.as_slice(), width, height)),
        ExportFormat::Jpeg => Some(encode_jpeg(pixels.as_slice(), width, height, quality)),
        ExportFormat::Webp => Some(encode_webp(pixels.as_slice(), width, height)),
        ExportFormat::Bmp => Some(encode_bmp(pixels.as_slice(), width, height)),
        ExportFormat::Tiff => Some(encode_tiff(pixels.as_slice(), width, height)),
    }
}

/// A thumbnail stored as a PNG file: none where its bytes are not four for each pixel or the
/// encoder fails.
pub fn encode_thumbnail(t: &Thumbnail) -> (r: Option<Vec<u8>>)
    ensures
        t.pixels@.len() != 4 * t.width * t.height ==> r is None,
        t.pixels@.len() == 4 * t.width * t.height ==> match r {
            Some(b) => png_bytes_of(t.pixels@, t.width, t.height) == Some(b@),
            None => png_bytes_of(t.pixels@, t.width, t.height) is None,
        },
{
    let w = t.width as u128;
    let h = t.height as u128;
    assert(4 * w * h <= 4 * 0xffff_ffffu128 * 0xffff_ffffu128) by (nonlinear_arith)
        requires
            w <= 0xffff_ffffu128,
            h <= 0xffff_ffffu128,
    ;
    let expected: u128 = 4 * w * h;
    if (t.pixels.len() as u128) != expected {
        return None;
    }
    match encode_png(t.pixels.as_slice(), t.width, t.height) {
        Ok(b) => Some(b),
        Err(_) => None,
    }
}

} // verus!
