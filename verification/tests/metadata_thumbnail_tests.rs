use glint::editor::ExportFormat;
use glint::encoding::{encode_export, encode_thumbnail};
use glint::imaging::ImageLoader;
use glint::metadata::read_metadata;
use glint::thumbnail::{decode_stored_thumbnail, thumbnail_rgba, Thumbnail};
use image::{DynamicImage, GenericImageView};
use std::io::Cursor;

fn png_bytes(w: u32, h: u32) -> Vec<u8> {
    let mut out = Cursor::new(Vec::new());
    DynamicImage::new_rgba8(w, h).write_to(&mut out, image::ImageFormat::Png).unwrap();
    out.into_inner()
}

fn entry(out: &mut Vec<u8>, tag: u16, kind: u16, count: u32, value: u32) {
    out.extend_from_slice(&tag.to_le_bytes());
    out.extend_from_slice(&kind.to_le_bytes());
    out.extend_from_slice(&count.to_le_bytes());
    out.extend_from_slice(&value.to_le_bytes());
}

/// A little-endian TIFF file whose first IFD holds the width, the make and a pointer to an
/// Exif IFD with the ISO speed and the pixel height (no `ImageLength`).
fn tiff_with_exif() -> Vec<u8> {
    let mut t: Vec<u8> = vec![b'I', b'I', 42, 0, 8, 0, 0, 0];
    t.extend_from_slice(&3u16.to_le_bytes());
    entry(&mut t, 0x100, 3, 1, 4000);
    entry(&mut t, 0x10f, 2, 6, 50);
    entry(&mut t, 0x8769, 4, 1, 56);
    t.extend_from_slice(&0u32.to_le_bytes());
    t.extend_from_slice(b"Canon\0");
    assert_eq!(t.len(), 56);
    t.extend_from_slice(&2u16.to_le_bytes());
    entry(&mut t, 0x8827, 3, 1, 200);
    entry(&mut t, 0xa003, 4, 1, 3000);
    t.extend_from_slice(&0u32.to_le_bytes());
    t
}

#[test]
fn metadata_reads_texts_numbers_and_the_size_fallback() {
    let m = read_metadata(tiff_with_exif()).ok().expect("EXIF data");
    assert!(m.camera_make.clone().unwrap().contains("Canon"));
    assert_eq!(m.camera_model, None);
    assert_eq!(m.iso, Some(200));
    assert_eq!(m.image_width, Some(4000));
    assert_eq!(m.image_height, Some(3000));
    assert_eq!(m.gps_latitude, None);
    assert_eq!(m.flash, None);
}

#[test]
fn metadata_of_bytes_without_exif_is_an_error() {
    assert!(read_metadata(b"not an image".to_vec()).is_err());
    assert!(read_metadata(png_bytes(2, 2)).is_err());
}

#[test]
fn loading_decodes_the_bytes_and_reads_the_size() {
    let bytes = png_bytes(3, 2);
    let img = ImageLoader::load("/p/a.png".to_string(), &bytes, 99).ok().expect("decoded");
    assert_eq!((img.width, img.height), (3, 2));
    assert_eq!(img.data.dimensions(), (3, 2));
    assert_eq!(img.path, "/p/a.png");
    assert_eq!(img.file_size, 99);
    assert_eq!(img.color_type, "Rgba8");
    let named_wrong = ImageLoader::load("/p/a.jpg".to_string(), &bytes, 99).ok().expect("decoded");
    assert_eq!((named_wrong.width, named_wrong.height), (3, 2));
}

#[test]
fn loading_fails_where_decoding_fails() {
    let garbage = b"garbage bytes".to_vec();
    let e = ImageLoader::load("/p/a.heic".to_string(), &garbage, 1).err().expect("an error");
    assert!(e.to_string().contains("HEIC decoding not yet implemented"));
    let s = ImageLoader::load("/p/a.SVG".to_string(), &garbage, 1).err().expect("an error");
    assert!(s.to_string().contains("SVG decoding requires usvg"));
    assert!(ImageLoader::load("/p/a.png".to_string(), &garbage, 1).is_err());
}

#[test]
fn thumbnails_fit_the_box_and_hold_rgba_bytes() {
    let t = thumbnail_rgba(&png_bytes(8, 4), 4).expect("a thumbnail");
    assert_eq!((t.width, t.height), (4, 2));
    assert_eq!(t.pixels.len(), 4 * 4 * 2);
    assert!(thumbnail_rgba(b"nope", 4).is_none());
}

#[test]
fn stored_thumbnails_decode_back() {
    let t = decode_stored_thumbnail(&png_bytes(5, 3)).ok().expect("decoded");
    assert_eq!((t.width, t.height), (5, 3));
    assert_eq!(t.pixels.len(), 60);
    assert!(decode_stored_thumbnail(b"nope").is_err());
}

fn sample_image(w: u32, h: u32) -> glint::imaging::GlintImage {
    glint::imaging::GlintImage {
        path: "/p/s.png".to_string(),
        data: std::sync::Arc::new(DynamicImage::new_rgba8(w, h)),
        width: w,
        height: h,
        color_type: "Rgba8".to_string(),
        file_size: 1,
    }
}

#[test]
fn exports_encode_in_the_chosen_format() {
    let img = sample_image(3, 2);
    assert!(encode_export(&img, ExportFormat::Original, 90).is_none());
    for (f, fmt) in [
        (ExportFormat::Png, image::ImageFormat::Png),
        (ExportFormat::Bmp, image::ImageFormat::Bmp),
        (ExportFormat::Tiff, image::ImageFormat::Tiff),
        (ExportFormat::Webp, image::ImageFormat::WebP),
    ] {
        let bytes = encode_export(&img, f, 90).expect("encoded here").ok().expect("encoded");
        assert_eq!(image::guess_format(&bytes).ok(), Some(fmt));
        let back = image::load_from_memory(&bytes).ok().expect("decodes");
        assert_eq!(back.dimensions(), (3, 2));
    }
    assert!(encode_export(&img, ExportFormat::Jpeg, 90).is_some());
}

#[test]
fn thumbnails_are_stored_as_png() {
    let t = Thumbnail { width: 2, height: 1, pixels: vec![1, 2, 3, 255, 4, 5, 6, 255] };
    let bytes = encode_thumbnail(&t).expect("encoded");
    let back = decode_stored_thumbnail(&bytes).ok().expect("decoded");
    assert_eq!((back.width, back.height), (2, 1));
    assert_eq!(back.pixels, t.pixels);
    let short = Thumbnail { width: 2, height: 2, pixels: vec![0; 4] };
    assert!(encode_thumbnail(&short).is_none());
}
