use crate::imaging::{decode_bytes, decoded_of, pixel_height, pixel_height_of, pixel_width, pixel_width_of};
use vstd::prelude::*;

verus! {

/// The thumbnail of `pixels` scaled to fit `width` x `height` with its aspect ratio kept.
pub uninterp spec fn thumbnail_of(pixels: ::image::DynamicImage, width: u32, height: u32) -> ::image::DynamicImage;

/// The pixels of `pixels` as 8-bit RGBA, row by row, four bytes a pixel.
pub uninterp spec fn rgba_bytes_of(pixels: ::image::DynamicImage) -> Seq<u8>;

/// `DynamicImage::thumbnail`: the image scaled to fit the box with its aspect ratio kept,
/// named by [`thumbnail_of`].
#[verifier::external_body]
fn make_thumbnail(data: &::image::DynamicImage, width: u32, height: u32) -> (r: ::image::DynamicImage)
    ensures
        r == thumbnail_of(*data, width, height),
{
    data.thumbnail(width, height)
}

/// `DynamicImage::to_rgba8` then `ImageBuffer::into_raw`: the RGBA buffer of the image, four
/// bytes for each of its width x height pixels.
#[verifier::external_body]
pub(crate) fn rgba_bytes(data: &::image::DynamicImage) -> (r: Vec<u8>)
    ensures
        r@ == rgba_bytes_of(*data),
        r@.len() == 4 * pixel_width_of(*data) * pixel_height_of(*data),
{
    data.to_rgba8().into_raw()
}

/// A small RGBA picture of an image, ready to be shown or stored.
pub struct Thumbnail {
    pub width: u32,
    pub height: u32,
    /// Four bytes (red, green, blue, alpha) for each pixel, row by row
    pub pixels: Vec<u8>,
}

/// The thumbnail that the bytes of an image file give for a square box of `size` pixels:
/// the decoded image scaled to fit with its aspect ratio kept, as RGBA bytes.
pub open spec fn thumbnail_for(bytes: Seq<u8>, size: u32) -> Option<::image::DynamicImage> {
    match decoded_of(bytes) {
        Some(d) => Some(thumbnail_of(d, size, size)),
        None => None,
    }
}

/// The picture held in `t` is `pixels`: its size and its RGBA bytes.
pub open spec fn shows(t: Thumbnail, pixels: ::image::DynamicImage) -> bool {
    &&& t.width == pixel_width_of(pixels)
    &&& t.height == pixel_height_of(pixels)
    &&& t.pixels@ == rgba_bytes_of(pixels)
    &&& t.pixels@.len() == 4 * t.width * t.height
}

/// The RGBA picture of `pixels`.
fn picture(pixels: &::image::DynamicImage) -> (r: Thumbnail)
    ensures
        shows(r, *pixels),
{
    let width = pixel_width(pixels);
    let height = pixel_height(pixels);
    let bytes = rgba_bytes(pixels);
    Thumbnail { width, height, pixels: bytes }
}

/// Generate the thumbnail of an image file from its bytes, for a square box of `size`
/// pixels; none where the bytes do not decode.
pub fn thumbnail_rgba(bytes: &[u8], size: u32) -> (r: Option<Thumbnail>)
    ensures
        r is Some <==> decoded_of(bytes@) is Some,
        r matches Some(t) ==> shows(t, thumbnail_for(bytes@, size).unwrap()),
{
    match decode_bytes(bytes) {
        Ok(data) => {
            let small = make_thumbnail(&data, size, size);
            Some(picture(&small))
        },
        Err(_) => None,
    }
}

/// Decode a stored thumbnail (an encoded image) back into its RGBA picture.
pub fn decode_stored_thumbnail(data: &[u8]) -> (r: Result<Thumbnail, anyhow::Error>)
    ensures
        r is Ok <==> decoded_of(data@) is Some,
        r matches Ok(t) ==> shows(t, decoded_of(data@).unwrap()),
{
    match decode_bytes(data) {
        Ok(pixels) => Ok(picture(&pixels)),
        Err(e) => Err(e),
    }
}

} // verus!
