use glint::browser::{FileBrowser, ListedFile};
use glint::cache::ImageCache;
use glint::editor::{
    AspectPreset, Editor, ExportEditor, ExportFormat, PresetSize, ResampleFilter, ResizeEditor,
};
use glint::imaging::GlintImage;
use image::DynamicImage;
use std::sync::Arc;
use std::time::Duration;

fn img(path: &str, w: u32, h: u32) -> GlintImage {
    GlintImage {
        path: path.to_string(),
        data: Arc::new(DynamicImage::new_rgba8(w, h)),
        width: w,
        height: h,
        color_type: "Rgba8".to_string(),
        file_size: 100,
    }
}

#[test]
fn cache_starts_empty_with_fifty_slots_for_zero() {
    let c = ImageCache::new(0);
    assert!(c.is_empty());
    assert_eq!(c.len(), 0);
    assert_eq!(c.current_memory_bytes(), 0);
    assert_eq!(c.current_memory_mb(), 0);
}

#[test]
fn loaded_image_can_be_looked_up() {
    let mut c = ImageCache::new(0);
    c.load("a.png".to_string(), img("a.png", 10, 10));
    assert!(c.contains("a.png"));
    assert_eq!(c.current_memory_bytes(), 400);
    let got = c.get("a.png").expect("cached");
    assert_eq!(got.width, 10);
    assert!(c.get("b.png").is_none());
}

#[test]
fn memory_is_counted_in_whole_megabytes() {
    let mut c = ImageCache::new(0);
    c.load("big.png".to_string(), img("big.png", 512, 512));
    assert_eq!(c.current_memory_bytes(), 1024 * 1024);
    assert_eq!(c.current_memory_mb(), 1);
}

#[test]
fn loading_over_the_budget_evicts_least_recently_used() {
    let mut c = ImageCache::new(0);
    c.set_max_memory(0);
    c.load("a.png".to_string(), img("a.png", 10, 10));
    c.load("b.png".to_string(), img("b.png", 10, 10));
    assert!(!c.contains("a.png"));
    assert!(c.contains("b.png"));
    assert_eq!(c.len(), 1);
    assert_eq!(c.current_memory_bytes(), 400);
}

#[test]
fn reloading_a_path_replaces_its_charge() {
    let mut c = ImageCache::new(0);
    c.load("a.png".to_string(), img("a.png", 10, 10));
    c.load("a.png".to_string(), img("a.png", 20, 10));
    assert_eq!(c.len(), 1);
    assert_eq!(c.current_memory_bytes(), 800);
}

#[test]
fn full_cache_drops_the_least_recently_used_entry() {
    let mut c = ImageCache::new(2);
    c.load("a".to_string(), img("a", 10, 10));
    c.load("b".to_string(), img("b", 10, 10));
    c.get("a");
    c.load("c".to_string(), img("c", 10, 10));
    assert!(c.contains("a"));
    assert!(!c.contains("b"));
    assert!(c.contains("c"));
    assert_eq!(c.len(), 2);
    assert_eq!(c.current_memory_bytes(), 800);
}

#[test]
fn pushed_out_entry_stops_counting() {
    let mut c = ImageCache::new(2);
    c.insert("p1".to_string(), img("p1", 1024, 1024));
    c.insert("p2".to_string(), img("p2", 1024, 1024));
    c.insert("p3".to_string(), img("p3", 1024, 1024));
    assert_eq!(c.len(), 2);
    assert!(!c.contains("p1"));
    assert_eq!(c.current_memory_mb(), 8);
}

#[test]
fn invalidate_and_clear() {
    let mut c = ImageCache::new(0);
    c.load("a".to_string(), img("a", 10, 10));
    c.insert("b".to_string(), img("b", 5, 5));
    assert_eq!(c.current_memory_bytes(), 500);
    c.invalidate("missing");
    assert_eq!(c.current_memory_bytes(), 500);
    c.invalidate("a");
    assert!(!c.contains("a"));
    assert_eq!(c.current_memory_bytes(), 100);
    c.clear();
    assert!(c.is_empty());
    assert_eq!(c.current_memory_bytes(), 0);
}

#[test]
fn insert_ignores_the_budget() {
    let mut c = ImageCache::new(0);
    c.set_max_memory(0);
    c.insert("a".to_string(), img("a", 10, 10));
    c.insert("b".to_string(), img("b", 10, 10));
    assert_eq!(c.len(), 2);
    assert_eq!(c.current_memory_bytes(), 800);
}

#[test]
fn export_path_rules() {
    let mut e = ExportEditor::new();
    assert_eq!(e.export_path("/p/photo.jpg", None), "/p/photo_edited.jpg");
    assert_eq!(e.export_path("/p/photo", None), "/p/photo_edited");
    e.format = ExportFormat::Png;
    assert_eq!(e.export_path("/p/photo.jpg", None), "/p/photo_edited.png");
    assert_eq!(e.export_path("/p/photo.jpg", Some("/q/out.webp".to_string())), "/q/out.webp");
    e.overwrite = true;
    assert_eq!(e.export_path("/p/photo.jpg", None), "/p/photo.jpg");
}

#[test]
fn export_editor_defaults_and_requests() {
    let mut e = ExportEditor::default();
    assert_eq!(e.quality, 92);
    assert_eq!(e.suffix, "_edited");
    assert_eq!(e.format, ExportFormat::Original);
    assert!(!e.take_apply());
    e.apply_pending = true;
    assert!(e.take_apply());
    assert!(!e.take_apply());
    e.save_as_path = Some("/x.png".to_string());
    assert_eq!(e.take_save_as_path(), Some("/x.png".to_string()));
    assert_eq!(e.take_save_as_path(), None);
}

#[test]
fn quality_labels() {
    assert_eq!(ExportEditor::quality_label(0), "Maximum quality, large file");
    assert_eq!(ExportEditor::quality_label(1), "Low quality, small file");
    assert_eq!(ExportEditor::quality_label(30), "Low quality, small file");
    assert_eq!(ExportEditor::quality_label(31), "Medium quality");
    assert_eq!(ExportEditor::quality_label(60), "Medium quality");
    assert_eq!(ExportEditor::quality_label(61), "High quality");
    assert_eq!(ExportEditor::quality_label(85), "High quality");
    assert_eq!(ExportEditor::quality_label(86), "Very high quality");
    assert_eq!(ExportEditor::quality_label(95), "Very high quality");
    assert_eq!(ExportEditor::quality_label(96), "Maximum quality, large file");
}

#[test]
fn format_and_preset_labels() {
    assert_eq!(ExportFormat::Original.label(), "Same as Source");
    assert_eq!(ExportFormat::Original.extension(), "");
    assert_eq!(ExportFormat::Jpeg.extension(), "jpg");
    assert_eq!(ExportFormat::Webp.label(), "WebP");
    assert_eq!(AspectPreset::Cinemascope.label(), "2.35:1");
    assert_eq!(AspectPreset::Photo4x5.label(), "4:5");
    assert_eq!(ResampleFilter::Lanczos3.label(), "Lanczos (Best)");
    assert_eq!(PresetSize::Custom.dimensions(), None);
    assert_eq!(PresetSize::PrintA3.dimensions(), Some((3508, 4961)));
}

#[test]
fn resize_editor_size_and_presets() {
    let mut r = ResizeEditor::new();
    assert_eq!((r.width, r.height), (1920, 1080));
    r.set_original_size(800, 600);
    assert_eq!((r.width, r.height, r.original_width, r.original_height), (800, 600, 800, 600));
    r.select_preset(PresetSize::Phone);
    assert_eq!((r.width, r.height), (1080, 1920));
    r.select_preset(PresetSize::Custom);
    assert_eq!((r.width, r.height), (1080, 1920));
    assert_eq!(r.preset, PresetSize::Custom);
    r.width = 0;
    assert_eq!(r.target_size(), (1, 1920));
    r.apply_pending = true;
    assert!(r.take_apply());
    assert!(!r.apply_pending);
}

#[test]
fn editor_export_round_trip() {
    let mut ed = Editor::new();
    assert!(ed.begin_export().is_none());
    ed.export.apply_pending = true;
    assert!(ed.begin_export().is_none());
    assert!(!ed.export.apply_pending);
    ed.set_current_image(img("/p/photo.jpg", 4, 3));
    assert!(ed.take_current_image().is_some());
    assert!(ed.take_current_image().is_none());
    ed.export.format = ExportFormat::Png;
    ed.export.apply_pending = true;
    let job = ed.begin_export().expect("an export");
    assert_eq!(job.path, "/p/photo_edited.png");
    assert_eq!(job.format, ExportFormat::Png);
    assert_eq!(job.quality, 92);
    ed.finish_export(job, true);
    assert_eq!(ed.take_export_path(), Some("/p/photo_edited.png".to_string()));
    assert_eq!(ed.take_export_path(), None);
    let cur = ed.take_current_image().expect("the saved image");
    assert_eq!(cur.path, "/p/photo_edited.png");
}

#[test]
fn failed_export_changes_nothing() {
    let mut ed = Editor::new();
    ed.set_current_image(img("/p/a.png", 2, 2));
    ed.take_current_image();
    ed.export.overwrite = true;
    ed.export.apply_pending = true;
    let job = ed.begin_export().expect("an export");
    assert_eq!(job.path, "/p/a.png");
    ed.finish_export(job, false);
    assert!(ed.take_current_image().is_none());
    assert!(ed.take_export_path().is_none());
}

#[test]
fn overwriting_export_reports_no_new_path() {
    let mut ed = Editor::default();
    ed.set_current_image(img("/p/a.png", 2, 2));
    ed.export.overwrite = true;
    ed.export.apply_pending = true;
    let job = ed.begin_export().expect("an export");
    ed.finish_export(job, true);
    assert_eq!(ed.take_export_path(), None);
}

#[test]
fn editing_starts_from_the_cached_current_file() {
    let mut b = FileBrowser::new();
    b.open_directory(
        "/p",
        true,
        vec![ListedFile {
            path: "/p/a.png".to_string(),
            is_file: true,
            size: 0,
            modified: None,
            pixels: None,
            color: None,
        }],
        Duration::from_millis(1),
    );
    let mut c = ImageCache::new(0);
    let mut ed = Editor::new();
    assert!(ed.set_from_cache(&mut c, &b).is_none());
    assert!(ed.current_image().is_none());
    c.load("/p/a.png".to_string(), img("/p/a.png", 3, 3));
    let got = ed.set_from_cache(&mut c, &b).expect("cached");
    assert_eq!(got.path, "/p/a.png");
    assert_eq!(ed.current_image().map(|i| i.width), Some(3));
}

#[test]
fn inserted_image_is_what_a_lookup_gives() {
    let mut c = ImageCache::new(3);
    c.insert("a".to_string(), img("a", 3, 2));
    c.insert("a".to_string(), img("a2", 7, 1));
    let got = c.get("a").expect("cached");
    assert_eq!((got.path.as_str(), got.width, got.height), ("a2", 7, 1));
    assert_eq!(c.len(), 1);
    assert_eq!(c.current_memory_bytes(), 28);
}

#[test]
fn lookups_keep_every_entry() {
    let mut c = ImageCache::new(3);
    c.load("a".to_string(), img("a", 1, 1));
    c.load("b".to_string(), img("b", 2, 1));
    c.load("c".to_string(), img("c", 3, 1));
    c.get("a");
    c.get("zzz");
    assert!(c.contains("a") && c.contains("b") && c.contains("c"));
    assert_eq!(c.get("b").map(|i| i.width), Some(2));
    // "c" is now the least recently used and goes first when a new path comes in
    c.load("d".to_string(), img("d", 1, 1));
    assert!(!c.contains("c"));
    assert!(c.contains("a") && c.contains("b") && c.contains("d"));
}

#[test]
fn resize_keeps_the_aspect_ratio_when_asked() {
    let mut r = ResizeEditor::new();
    r.set_original_size(4000, 3000);
    r.set_width(1000);
    assert_eq!((r.width, r.height), (1000, 750));
    r.set_height(1001);
    assert_eq!((r.width, r.height), (1335, 1001));
    r.maintain_aspect = false;
    r.set_width(10);
    assert_eq!((r.width, r.height), (10, 1001));
    let mut fresh = ResizeEditor::new();
    fresh.set_width(640);
    assert_eq!((fresh.width, fresh.height), (640, 1080));
}

#[test]
fn export_extensions_name_supported_formats() {
    assert_eq!(ExportFormat::Original.extension(), "");
    for f in [ExportFormat::Png, ExportFormat::Jpeg, ExportFormat::Webp, ExportFormat::Bmp, ExportFormat::Tiff] {
        let e = f.extension();
        assert!(!e.is_empty());
        assert!(glint::imaging::ImageFormat::from_extension(e).is_some());
        assert!(glint::sorting::is_supported_image(&format!("x.{}", e)));
    }
}

#[test]
fn paths_that_compare_equal_share_an_entry() {
    let mut c = ImageCache::new(4);
    c.load("a/b.png".to_string(), img("a/b.png", 2, 2));
    assert!(c.contains("a//b.png"));
    assert!(c.contains("a/./b.png"));
    assert!(c.get("a//b.png").is_some());
    c.insert("a/./b.png".to_string(), img("a/b.png", 3, 3));
    assert_eq!(c.len(), 1);
    assert_eq!(c.current_memory_bytes(), 36);
    c.invalidate("a//b.png");
    assert!(c.is_empty());
}
