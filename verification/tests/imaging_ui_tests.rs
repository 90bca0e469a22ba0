use glint::imaging::{DecodeStrategy, GlintImage, ImageFormat, ImageLoader, ImageProcessor, QuarterTurns};
use glint::renderer::{RenderPipeline, RenderQuality};
use glint::ui::{from_rgb, AppTheme, Icon, ThemeColor, ToolbarPanel};
use image::{DynamicImage, GenericImageView};
use std::sync::Arc;

fn img(w: u32, h: u32) -> GlintImage {
    GlintImage {
        path: "/p/x.png".to_string(),
        data: Arc::new(DynamicImage::new_rgba8(w, h)),
        width: w,
        height: h,
        color_type: "Rgba8".to_string(),
        file_size: 42,
    }
}

#[test]
fn formats_from_extensions_in_any_case() {
    assert_eq!(ImageFormat::from_extension("JPG"), Some(ImageFormat::Jpeg));
    assert_eq!(ImageFormat::from_extension("tif"), Some(ImageFormat::Tiff));
    assert_eq!(ImageFormat::from_extension("CR3"), Some(ImageFormat::Raw));
    assert_eq!(ImageFormat::from_extension("psd"), Some(ImageFormat::PngPreview));
    assert_eq!(ImageFormat::from_extension("txt"), None);
    assert_eq!(ImageFormat::Jpeg.extension(), "jpg");
    assert_eq!(ImageFormat::PngPreview.extension(), "psd");
}

#[test]
fn decode_strategies() {
    assert_eq!(ImageLoader::decode_strategy("heif"), DecodeStrategy::Heic);
    assert_eq!(ImageLoader::decode_strategy("svg"), DecodeStrategy::Svg);
    assert_eq!(ImageLoader::decode_strategy("png"), DecodeStrategy::Standard);
}

#[test]
fn rotation_turns() {
    assert_eq!(ImageProcessor::turns_for(90), QuarterTurns::One);
    assert_eq!(ImageProcessor::turns_for(-270), QuarterTurns::One);
    assert_eq!(ImageProcessor::turns_for(-180), QuarterTurns::Two);
    assert_eq!(ImageProcessor::turns_for(-90), QuarterTurns::Three);
    assert_eq!(ImageProcessor::turns_for(45), QuarterTurns::Zero);
}

#[test]
fn resize_sets_the_new_size() {
    let out = ImageProcessor::resize(&img(8, 6), 5, 7).unwrap();
    assert_eq!((out.width, out.height), (5, 7));
    assert_eq!(out.data.dimensions(), (5, 7));
    assert_eq!(out.path, "/p/x.png");
    assert_eq!(out.file_size, 42);
}

#[test]
fn rotate_reads_the_size_from_the_turned_pixels() {
    let out = ImageProcessor::rotate(&img(4, 2), 90).unwrap();
    assert_eq!((out.width, out.height), (2, 4));
    let same = ImageProcessor::rotate(&img(4, 2), 180).unwrap();
    assert_eq!((same.width, same.height), (4, 2));
    let none = ImageProcessor::rotate(&img(4, 2), 30).unwrap();
    assert_eq!((none.width, none.height), (4, 2));
}

#[test]
fn flips_crops_and_adjustments() {
    let base = img(4, 4);
    let f = ImageProcessor::flip(&base, true).unwrap();
    assert_eq!((f.width, f.height), (4, 4));
    let c = ImageProcessor::crop(&base, 1, 1, 2, 2).unwrap();
    assert_eq!((c.width, c.height), (2, 2));
    assert_eq!(c.data.dimensions(), (2, 2));
    let g = ImageProcessor::grayscale(&base).unwrap();
    assert!(g.has_alpha());
    assert_eq!((g.width, g.height), (4, 4));
    let b = ImageProcessor::adjust_brightness(&base, 40).unwrap();
    assert_eq!((b.width, b.height), (4, 4));
    let h = ImageProcessor::hue_rotate(&base, 90).unwrap();
    assert_eq!((h.width, h.height), (4, 4));
}

fn marked(w: u32, h: u32) -> GlintImage {
    let mut px = image::RgbaImage::new(w, h);
    px.put_pixel(0, 0, image::Rgba([200, 10, 20, 255]));
    GlintImage {
        path: "/p/m.png".to_string(),
        data: Arc::new(DynamicImage::ImageRgba8(px)),
        width: w,
        height: h,
        color_type: "Rgba8".to_string(),
        file_size: 7,
    }
}

#[test]
fn operations_change_the_pixels() {
    let base = marked(3, 2);
    let h = ImageProcessor::flip(&base, true).unwrap();
    assert_eq!(h.data.get_pixel(2, 0), image::Rgba([200, 10, 20, 255]));
    assert_eq!(h.data.get_pixel(0, 0), image::Rgba([0, 0, 0, 0]));
    let v = ImageProcessor::flip(&base, false).unwrap();
    assert_eq!(v.data.get_pixel(0, 1), image::Rgba([200, 10, 20, 255]));
    let r = ImageProcessor::rotate(&base, 90).unwrap();
    assert_eq!((r.width, r.height), (2, 3));
    assert_eq!(r.data.get_pixel(1, 0), image::Rgba([200, 10, 20, 255]));
    let b = ImageProcessor::adjust_brightness(&base, 40).unwrap();
    assert_eq!(b.data.get_pixel(0, 0), image::Rgba([240, 50, 60, 255]));
    let g = ImageProcessor::grayscale(&base).unwrap();
    let p = g.data.get_pixel(0, 0);
    assert_eq!(p[0], p[1]);
    assert_eq!(p[1], p[2]);
    assert_ne!(p[0], 200);
    assert_eq!(g.color_type, format!("{:?}", g.data.color()));
    let shifted = ImageProcessor::hue_rotate(&base, 30).unwrap();
    assert_eq!(shifted.data.get_pixel(0, 0), image::Rgba([200, 95, 10, 255]));
    assert_eq!(shifted.data.get_pixel(1, 1), image::Rgba([0, 0, 0, 0]));
    assert_eq!((shifted.width, shifted.height), (3, 2));
}

#[test]
fn crop_records_the_clipped_size() {
    let base = img(100, 100);
    let c = ImageProcessor::crop(&base, 50, 0, 100, 100).unwrap();
    assert_eq!((c.width, c.height), (50, 100));
    assert_eq!(c.data.dimensions(), (50, 100));
    let off = ImageProcessor::crop(&base, 120, 90, 10, 20).unwrap();
    assert_eq!((off.width, off.height), (0, 10));
}

#[test]
fn alpha_follows_the_pixel_type() {
    let rgb = GlintImage {
        path: "/p/rgb.jpg".to_string(),
        data: Arc::new(DynamicImage::new_rgb8(2, 2)),
        width: 2,
        height: 2,
        color_type: "Rgb8".to_string(),
        file_size: 1,
    };
    assert!(!rgb.has_alpha());
    assert!(img(2, 2).has_alpha());
}

#[test]
fn image_memory_and_sharing() {
    let a = img(10, 10);
    assert_eq!(a.memory_bytes(), 400);
    assert!(a.has_alpha());
    let b = a.duplicate();
    assert!(Arc::ptr_eq(&a.data, &b.data));
    assert_eq!(b.path, a.path);
}

#[test]
fn theme_cycle_and_colors() {
    let t = AppTheme::default();
    assert_eq!(t, AppTheme::Dark);
    assert_eq!(t.next(), AppTheme::Light);
    assert_eq!(t.next().next(), AppTheme::Amoled);
    assert_eq!(t.next().next().next(), AppTheme::Dark);
    assert!(AppTheme::Amoled.is_dark());
    assert!(!AppTheme::Light.is_dark());
    assert_eq!(AppTheme::Light.name(), "Light");
    assert_eq!(AppTheme::Dark.background_color(), from_rgb(18, 18, 18));
    assert_eq!(AppTheme::Light.background_color(), ThemeColor { r: 240, g: 240, b: 240, a: 255 });
}

#[test]
fn icons() {
    assert_eq!(Icon::ZoomIn.symbol(), "+");
    assert_eq!(Icon::Next.symbol(), "\u{2192}");
    assert_eq!(Icon::for_theme_name("Light"), Icon::ThemeLight);
    assert_eq!(Icon::for_theme_name("Amoled"), Icon::ThemeDark);
}

#[test]
fn toolbar_toggles() {
    let mut t = ToolbarPanel::new();
    t.toggle_gallery();
    assert!(t.is_gallery_active);
    assert!(!t.is_editor_active);
    t.toggle_editor();
    t.toggle_gallery();
    assert!(!t.is_gallery_active);
    assert!(t.is_editor_active);
}

#[test]
fn render_pipeline_settings() {
    let mut p = RenderPipeline::new();
    assert!(!p.is_initialized());
    assert_eq!(p.quality(), RenderQuality::Balanced);
    assert_eq!(p.sample_count(), 4);
    assert!(p.initialize().is_ok());
    assert!(p.is_initialized());
    p.set_sample_count(8);
    assert_eq!(p.sample_count(), 8);
    p.set_sample_count(3);
    assert_eq!(p.sample_count(), 4);
    p.set_quality(RenderQuality::Ultra);
    assert_eq!(p.quality(), RenderQuality::Ultra);
    assert_eq!(RenderPipeline::supported_formats(), vec!["Rgba8UnormSrgb", "Bgra8UnormSrgb", "Rgba16Float", "Rgba32Float"]);
    let d = RenderPipeline::default();
    assert_eq!(d.sample_count(), 4);
}

#[test]
fn every_format_is_found_again_from_its_extension() {
    let all = [
        ImageFormat::Png,
        ImageFormat::Jpeg,
        ImageFormat::Webp,
        ImageFormat::Gif,
        ImageFormat::Bmp,
        ImageFormat::Tiff,
        ImageFormat::Svg,
        ImageFormat::Ico,
        ImageFormat::Avif,
        ImageFormat::Heic,
        ImageFormat::Heif,
        ImageFormat::Raw,
        ImageFormat::Qoi,
        ImageFormat::Exr,
        ImageFormat::Hdr,
        ImageFormat::Dds,
        ImageFormat::Tga,
        ImageFormat::PngPreview,
    ];
    for f in all {
        assert_eq!(ImageFormat::from_extension(f.extension()), Some(f));
        assert_eq!(ImageFormat::from_extension(&f.extension().to_uppercase()), Some(f));
    }
}

const ALL_FORMATS: [ImageFormat; 18] = [
    ImageFormat::Png, ImageFormat::Jpeg, ImageFormat::Webp, ImageFormat::Gif, ImageFormat::Bmp,
    ImageFormat::Tiff, ImageFormat::Svg, ImageFormat::Ico, ImageFormat::Avif, ImageFormat::Heic,
    ImageFormat::Heif, ImageFormat::Raw, ImageFormat::Qoi, ImageFormat::Exr, ImageFormat::Hdr,
    ImageFormat::Dds, ImageFormat::Tga, ImageFormat::PngPreview,
];

#[test]
fn format_extensions_round_trip_in_any_case() {
    for f in ALL_FORMATS {
        let e = f.extension();
        assert!(!e.is_empty() && !e.starts_with('.'));
        assert_eq!(e, e.to_lowercase());
        assert_eq!(ImageFormat::from_extension(e), Some(f));
        assert_eq!(ImageFormat::from_extension(&e.to_uppercase()), Some(f));
        for g in ALL_FORMATS {
            if f != g {
                assert_ne!(e, g.extension());
            }
        }
    }
    assert_eq!(ImageFormat::from_extension("JPEG"), Some(ImageFormat::Jpeg));
}

#[test]
fn icon_symbols_are_distinct_single_characters() {
    let all = [
        Icon::Open, Icon::Folder, Icon::Prev, Icon::Next, Icon::ZoomIn, Icon::ZoomOut, Icon::Fit,
        Icon::Gallery, Icon::Editor, Icon::Slideshow, Icon::Fullscreen, Icon::RotateLeft,
        Icon::RotateRight, Icon::ThemeDark, Icon::ThemeLight,
    ];
    for a in all {
        assert_eq!(a.symbol().chars().count(), 1);
        for b in all {
            if a != b {
                assert_ne!(a.symbol(), b.symbol());
            }
        }
    }
    assert_eq!(Icon::ZoomIn.symbol(), "+");
    assert_eq!(Icon::Prev.symbol(), "\u{2190}");
    assert_eq!(Icon::Next.symbol(), "\u{2192}");
}

fn solid(rgb: [u8; 3]) -> GlintImage {
    GlintImage {
        path: "x.png".to_string(),
        data: Arc::new(DynamicImage::ImageRgb8(image::RgbImage::from_pixel(1, 1, image::Rgb(rgb)))),
        width: 1,
        height: 1,
        color_type: String::new(),
        file_size: 0,
    }
}

#[test]
fn hue_rotation_moves_the_hue_in_hsl() {
    let red = solid([255, 0, 0]);
    let g = ImageProcessor::hue_rotate(&red, 120).unwrap();
    assert_eq!((g.width, g.height), (1, 1));
    assert_eq!(g.data.get_pixel(0, 0), image::Rgba([0, 255, 0, 255]));
    let b = ImageProcessor::hue_rotate(&red, -120).unwrap();
    assert_eq!(b.data.get_pixel(0, 0), image::Rgba([0, 0, 255, 255]));
    let y = ImageProcessor::hue_rotate(&red, 420).unwrap();
    assert_eq!(y.data.get_pixel(0, 0), image::Rgba([255, 255, 0, 255]));
    let grey = ImageProcessor::hue_rotate(&solid([90, 90, 90]), 77).unwrap();
    assert_eq!(grey.data.get_pixel(0, 0), image::Rgba([90, 90, 90, 255]));
    let same = ImageProcessor::hue_rotate(&solid([12, 200, 99]), 0).unwrap();
    assert_eq!(same.data.get_pixel(0, 0), image::Rgba([12, 200, 99, 255]));
    assert_eq!(same.color_type, "Rgba8");
}

#[test]
fn recorded_size_is_the_size_of_the_pixels() {
    let mut odd = img(4, 2);
    odd.width = 9;
    odd.height = 9;
    let f = ImageProcessor::flip(&odd, false).unwrap();
    assert_eq!((f.width, f.height), (4, 2));
    let g = ImageProcessor::grayscale(&odd).unwrap();
    assert_eq!((g.width, g.height), g.data.dimensions());
    let b = ImageProcessor::adjust_brightness(&odd, -10).unwrap();
    assert_eq!((b.width, b.height), (4, 2));
}
