use crate::browser::FileBrowser;
use crate::cache::{lookup, promote, CacheState, ImageCache};
use crate::imaging::{format_for, lemma_format_extension, GlintImage, ImageFormat};
use crate::sorting::{plain_name_is_supported, supported_extension_list};
use crate::text::{
    all_ascii, ascii_lower, extension_of_name, is_plain_name, path_key_of, extension, file_stem, same_place, path_extension_of, paths_equal, path_stem_of, path_with_file_name_of, with_file_name,
};
use vstd::prelude::*;

verus! {

/// The currently active editing tool
#[derive(Debug, Clone, Copy, PartialEq, Eq, Structural)]
pub enum EditorTool {
    /// No tool is active.
    NoTool,
    Crop,
    Rotate,
    Resize,
    Adjust,
    Annotate,
    Filter,
}

/// Crop aspect ratio presets
#[derive(Debug, Clone, Copy, PartialEq, Eq, Structural)]
pub enum AspectPreset {
    Free,
    Square,
    Standard4x3,
    Standard16x9,
    Photo3x2,
    Photo4x5,
    Photo9x16,
    Cinemascope,
}

impl AspectPreset {
    pub open spec fn spec_label(&self) -> Seq<char> {
        match self {
            AspectPreset::Free => "Free"@,
            AspectPreset::Square => "1:1"@,
            AspectPreset::Standard4x3 => "4:3"@,
            AspectPreset::Standard16x9 => "16:9"@,
            AspectPreset::Photo3x2 => "3:2"@,
            AspectPreset::Photo4x5 => "4:5"@,
            AspectPreset::Photo9x16 => "9:16"@,
            AspectPreset::Cinemascope => "2.35:1"@,
        }
    }

    /// The label shown for this preset
    pub fn label(&self) -> (r: &'static str)
        ensures
            r@ == self.spec_label(),
    {
        match self {
            AspectPreset::Free => "Free",
            AspectPreset::Square => "1:1",
            AspectPreset::Standard4x3 => "4:3",
            AspectPreset::Standard16x9 => "16:9",
            AspectPreset::Photo3x2 => "3:2",
            AspectPreset::Photo4x5 => "4:5",
            AspectPreset::Photo9x16 => "9:16",
            AspectPreset::Cinemascope => "2.35:1",
        }
    }
}

/// Export formats
#[derive(Debug, Clone, Copy, PartialEq, Eq, Structural)]
pub enum ExportFormat {
    Original,
    Png,
    Jpeg,
    Webp,
    Bmp,
    Tiff,
}

impl ExportFormat {
    pub open spec fn spec_label(&self) -> Seq<char> {
        match self {
            ExportFormat::Original => "Same as Source"@,
            ExportFormat::Png => "PNG"@,
            ExportFormat::Jpeg => "JPEG"@,
            ExportFormat::Webp => "WebP"@,
            ExportFormat::Bmp => "BMP"@,
            ExportFormat::Tiff => "TIFF"@,
        }
    }

    pub open spec fn spec_extension(&self) -> Seq<char> {
        match self {
            ExportFormat::Original => ""@,
            ExportFormat::Png => "png"@,
            ExportFormat::Jpeg => "jpg"@,
            ExportFormat::Webp => "webp"@,
            ExportFormat::Bmp => "bmp"@,
            ExportFormat::Tiff => "tiff"@,
        }
    }

    pub fn label(&self) -> (r: &'static str)
        ensures
            r@ == self.spec_label(),
    {
        match self {
            ExportFormat::Original => "Same as Source",
            ExportFormat::Png => "PNG",
            ExportFormat::Jpeg => "JPEG",
            ExportFormat::Webp => "WebP",
            ExportFormat::Bmp => "BMP",
            ExportFormat::Tiff => "TIFF",
        }
    }

    /// Get the file extension for this format (empty for "same as source")
    pub fn extension(&self) -> (r: &'static str)
        ensures
            r@ == self.spec_extension(),
    {
        match self {
            ExportFormat::Original => "",
            ExportFormat::Png => "png",
            ExportFormat::Jpeg => "jpg",
            ExportFormat::Webp => "webp",
            ExportFormat::Bmp => "bmp",
            ExportFormat::Tiff => "tiff",
        }
    }
}

/// The image format that an export format writes, if it writes one of its own.
pub open spec fn export_image_format(f: ExportFormat) -> Option<ImageFormat> {
    match f {
        ExportFormat::Original => None,
        ExportFormat::Png => Some(ImageFormat::Png),
        ExportFormat::Jpeg => Some(ImageFormat::Jpeg),
        ExportFormat::Webp => Some(ImageFormat::Webp),
        ExportFormat::Bmp => Some(ImageFormat::Bmp),
        ExportFormat::Tiff => Some(ImageFormat::Tiff),
    }
}

/// The extension of an export format is empty exactly for "same as source"; every other one
/// is lowercase ASCII that names an image format, and a file named `x.` and that extension
/// is a supported image.
pub proof fn law_export_extensions_are_supported(f: ExportFormat)
    ensures
        (f.spec_extension().len() == 0) == (f == ExportFormat::Original),
        f != ExportFormat::Original ==> {
            let e = f.spec_extension();
            let name = seq!['x', '.'] + e;
            &&& all_ascii(e)
            &&& format_for(ascii_lower(e)) == export_image_format(f)
            &&& is_plain_name(name)
            &&& all_ascii(name)
            &&& plain_name_is_supported(name)
        },
{
    reveal_strlit("");
    reveal_strlit("png");
    reveal_strlit("jpg");
    reveal_strlit("webp");
    reveal_strlit("bmp");
    reveal_strlit("tiff");
    if f != ExportFormat::Original {
        let g = export_image_format(f).unwrap();
        lemma_format_extension(g);
        let e = f.spec_extension();
        assert(e == g.spec_extension());
        let name = seq!['x', '.'] + e;
        assert(name[1] == '.');
        assert forall|j: int| 1 < j < name.len() implies name[j] != '.' by {
            assert(name[j] == e[j - 2]);
        }
        let k = choose|k: int|
            0 < k < name.len() && name[k] == '.' && forall|j: int|
                k < j < name.len() ==> name[j] != '.';
        assert(k == 1);
        assert(name.subrange(2, name.len() as int) =~= e);
        assert(extension_of_name(name) == Some(e));
        assert(supported_extension_list().contains(e)) by {
            reveal_strlit("gif");
            reveal_strlit("jpeg");
            let sup = supported_extension_list();
            if f == ExportFormat::Png { assert(sup[0] == e); }
            if f == ExportFormat::Jpeg { assert(sup[1] == e); }
            if f == ExportFormat::Bmp { assert(sup[4] == e); }
            if f == ExportFormat::Tiff { assert(sup[5] == e); }
            if f == ExportFormat::Webp { assert(sup[7] == e); }
        }
        assert forall|i: int| 0 <= i < name.len() implies (#[trigger] name[i] as u32) < 128 by {
            if i >= 2 {
                assert(name[i] == e[i - 2]);
            }
        }
        assert(is_plain_name(name)) by {
            assert forall|i: int| 0 <= i < name.len() implies #[trigger] name[i] != '/' && name[i] != '\\' && name[i] != ':' by {
                if i >= 2 {
                    assert(name[i] == e[i - 2]);
                }
            }
            assert(name.len() > 2);
        }
    }
}

/// The description shown under the quality slider.
pub open spec fn spec_quality_label(quality: u8) -> Seq<char> {
    if 1 <= quality <= 30 {
        "Low quality, small file"@
    } else if 31 <= quality <= 60 {
        "Medium quality"@
    } else if 61 <= quality <= 85 {
        "High quality"@
    } else if 86 <= quality <= 95 {
        "Very high quality"@
    } else {
        "Maximum quality, large file"@
    }
}

/// Export settings and controls
pub struct ExportEditor {
    pub format: ExportFormat,
    pub quality: u8,
    pub strip_metadata: bool,
    pub convert_profile: bool,
    pub suffix: String,
    pub overwrite: bool,
    /// Set to true when "Export Image" is clicked (writes next to the image, with the suffix)
    pub apply_pending: bool,
    /// Set when "Save As..." picks a destination path
    pub save_as_path: Option<String>,
}

/// The path an export writes to: a chosen "save as" path; else the image's own path when
/// overwriting; else a sibling named stem + suffix, with the format's extension, or the
/// image's own extension when the format keeps the source's, or none when it has none.
pub open spec fn spec_export_path(
    image_path: Seq<char>,
    save_as: Option<Seq<char>>,
    overwrite: bool,
    suffix: Seq<char>,
    format: ExportFormat,
) -> Seq<char> {
    match save_as {
        Some(p) => p,
        None => if overwrite {
            image_path
        } else {
            let stem = match path_stem_of(image_path) {
                Some(s) => s,
                None => "image"@,
            };
            let ext = format.spec_extension();
            if ext.len() != 0 {
                path_with_file_name_of(image_path, stem + suffix + "."@ + ext)
            } else {
                match path_extension_of(image_path) {
                    Some(old) => path_with_file_name_of(image_path, stem + suffix + "."@ + old),
                    None => path_with_file_name_of(image_path, stem + suffix),
                }
            }
        },
    }
}

impl ExportEditor {
    pub fn new() -> (r: Self)
        ensures
            r.format == ExportFormat::Original,
            r.quality == 92,
            !r.strip_metadata,
            !r.convert_profile,
            r.suffix@ == "_edited"@,
            !r.overwrite,
            !r.apply_pending,
            r.save_as_path is None,
    {
        ExportEditor {
            format: ExportFormat::Original,
            quality: 92,
            strip_metadata: false,
            convert_profile: false,
            suffix: String::from_str("_edited"),
            overwrite: false,
            apply_pending: false,
            save_as_path: None,
        }
    }

    /// Take the pending "export" request, clearing it.
    pub fn take_apply(&mut self) -> (r: bool)
        ensures
            r == old(self).apply_pending,
            final(self).apply_pending == false,
            final(self).save_as_path == old(self).save_as_path,
            final(self).format == old(self).format,
            final(self).quality == old(self).quality,
            final(self).suffix == old(self).suffix,
            final(self).overwrite == old(self).overwrite,
            final(self).strip_metadata == old(self).strip_metadata,
            final(self).convert_profile == old(self).convert_profile,
    {
        let r = self.apply_pending;
        self.apply_pending = false;
        r
    }

    /// Take the pending "save as" destination, clearing it.
    pub fn take_save_as_path(&mut self) -> (r: Option<String>)
        ensures
            r == old(self).save_as_path,
            final(self).save_as_path is None,
            final(self).apply_pending == old(self).apply_pending,
            final(self).format == old(self).format,
            final(self).quality == old(self).quality,
            final(self).suffix == old(self).suffix,
            final(self).overwrite == old(self).overwrite,
            final(self).strip_metadata == old(self).strip_metadata,
            final(self).convert_profile == old(self).convert_profile,
    {
        self.save_as_path.take()
    }

    /// The description of a quality setting.
    pub fn quality_label(quality: u8) -> (r: &'static str)
        ensures
            r@ == spec_quality_label(quality),
    {
        if 1 <= quality && quality <= 30 {
            "Low quality, small file"
        } else if 31 <= quality && quality <= 60 {
            "Medium quality"
        } else if 61 <= quality && quality <= 85 {
            "High quality"
        } else if 86 <= quality && quality <= 95 {
            "Very high quality"
        } else {
            "Maximum quality, large file"
        }
    }

    /// The path that exporting an image at `image_path` writes to.
    pub fn export_path(&self, image_path: &str, save_as: Option<String>) -> (r: String)
        ensures
            r@ == spec_export_path(
                image_path@,
                match save_as {
                    Some(p) => Some(p@),
                    None => None,
                },
                self.overwrite,
                self.suffix@,
                self.format,
            ),
    {
        match save_as {
            Some(path) => path,
            None => {
                if self.overwrite {
                    String::from_str(image_path)
                } else {
                    let stem = match file_stem(image_path) {
                        Some(s) => s,
                        None => String::from_str("image"),
                    };
                    let ext = self.format.extension();
                    let base = stem.concat(self.suffix.as_str());
                    if ext.unicode_len() != 0 {
                        let name = base.concat(".").concat(ext);
                        with_file_name(image_path, name.as_str())
                    } else {
                        match extension(image_path) {
                            Some(old) => {
                                let name = base.concat(".").concat(old.as_str());
                                with_file_name(image_path, name.as_str())
                            },
                            None => with_file_name(image_path, base.as_str()),
                        }
                    }
                }
            },
        }
    }
}

impl Default for ExportEditor {
    fn default() -> (r: Self)
        ensures
            r.format == ExportFormat::Original,
            r.quality == 92,
            r.suffix@ == "_edited"@,
            !r.overwrite,
            !r.apply_pending,
            r.save_as_path is None,
    {
        Self::new()
    }
}

/// Resize presets
#[derive(Debug, Clone, Copy, PartialEq, Eq, Structural)]
pub enum PresetSize {
    Custom,
    SocialMedia,
    Desktop4k,
    Desktop1080p,
    Tablet,
    Phone,
    PrintA4,
    PrintA3,
}

impl PresetSize {
    /// The dimensions a preset stands for; `Custom` stands for none.
    pub open spec fn spec_dimensions(&self) -> Option<(u32, u32)> {
        match self {
            PresetSize::Custom => None,
            PresetSize::SocialMedia => Some((1200u32, 630u32)),
            PresetSize::Desktop4k => Some((3840u32, 2160u32)),
            PresetSize::Desktop1080p => Some((1920u32, 1080u32)),
            PresetSize::Tablet => Some((2048u32, 1536u32)),
            PresetSize::Phone => Some((1080u32, 1920u32)),
            PresetSize::PrintA4 => Some((2480u32, 3508u32)),
            PresetSize::PrintA3 => Some((3508u32, 4961u32)),
        }
    }

    /// The (width, height) in pixels of this preset, if it has fixed dimensions.
    pub fn dimensions(&self) -> (r: Option<(u32, u32)>)
        ensures
            r == self.spec_dimensions(),
    {
        match self {
            PresetSize::Custom => None,
            PresetSize::SocialMedia => Some((1200, 630)),
            PresetSize::Desktop4k => Some((3840, 2160)),
            PresetSize::Desktop1080p => Some((1920, 1080)),
            PresetSize::Tablet => Some((2048, 1536)),
            PresetSize::Phone => Some((1080, 1920)),
            PresetSize::PrintA4 => Some((2480, 3508)),
            PresetSize::PrintA3 => Some((3508, 4961)),
        }
    }
}

/// Resampling filters
#[derive(Debug, Clone, Copy, PartialEq, Eq, Structural)]
pub enum ResampleFilter {
    Nearest,
    Bilinear,
    Bicubic,
    Lanczos3,
}

impl ResampleFilter {
    pub open spec fn spec_label(&self) -> Seq<char> {
        match self {
            ResampleFilter::Nearest => "Nearest (Fast)"@,
            ResampleFilter::Bilinear => "Bilinear"@,
            ResampleFilter::Bicubic => "Bicubic"@,
            ResampleFilter::Lanczos3 => "Lanczos (Best)"@,
        }
    }

    pub fn label(&self) -> (r: &'static str)
        ensures
            r@ == self.spec_label(),
    {
        match self {
            ResampleFilter::Nearest => "Nearest (Fast)",
            ResampleFilter::Bilinear => "Bilinear",
            ResampleFilter::Bicubic => "Bicubic",
            ResampleFilter::Lanczos3 => "Lanczos (Best)",
        }
    }
}

/// Image resize tool
/// The other side that keeps the ratio `other : side` when one side becomes `value`:
/// `value * other / side` rounded to the nearest whole pixel (halves up), at least 1 and at
/// most `u32::MAX`.
pub open spec fn scaled_side(value: u32, other: u32, side: u32) -> u32 {
    let exact: int = (value * other + side as int / 2) / (side as int);
    if exact < 1 {
        1
    } else if exact > u32::MAX {
        u32::MAX
    } else {
        exact as u32
    }
}

/// [`scaled_side`] computed.
fn scale_side(value: u32, other: u32, side: u32) -> (r: u32)
    requires
        side > 0,
    ensures
        r == scaled_side(value, other, side),
{
    let v = value as u64;
    let o = other as u64;
    let d = side as u64;
    assert(v * o <= 0xffff_fffe_0000_0001u64) by (nonlinear_arith)
        requires
            v <= 0xffff_ffffu64,
            o <= 0xffff_ffffu64,
    ;
    let exact = (v * o + d / 2) / d;
    if exact < 1 {
        1
    } else if exact > 0xffff_ffffu64 {
        0xffff_ffffu32
    } else {
        exact as u32
    }
}

pub struct ResizeEditor {
    pub width: u32,
    pub height: u32,
    pub original_width: u32,
    pub original_height: u32,
    pub maintain_aspect: bool,
    pub preset: PresetSize,
    pub resolution: u32,
    pub filter: ResampleFilter,
    pub apply_pending: bool,
}

impl ResizeEditor {
    pub fn new() -> (r: Self)
        ensures
            r.width == 1920,
            r.height == 1080,
            r.original_width == 0,
            r.original_height == 0,
            r.maintain_aspect,
            r.preset == PresetSize::Desktop1080p,
            r.resolution == 72,
            r.filter == ResampleFilter::Lanczos3,
            !r.apply_pending,
    {
        ResizeEditor {
            width: 1920,
            height: 1080,
            original_width: 0,
            original_height: 0,
            maintain_aspect: true,
            preset: PresetSize::Desktop1080p,
            resolution: 72,
            filter: ResampleFilter::Lanczos3,
            apply_pending: false,
        }
    }

    /// Set the target width; where the aspect ratio is kept and the original size is known,
    /// the height follows (see [`scaled_side`]).
    pub fn set_width(&mut self, width: u32)
        ensures
            *final(self) == (ResizeEditor {
                width: width,
                height: if old(self).maintain_aspect && old(self).original_width > 0 {
                    scaled_side(width, old(self).original_height, old(self).original_width)
                } else {
                    old(self).height
                },
                ..*old(self)
            }),
    {
        if self.maintain_aspect && self.original_width > 0 {
            self.height = scale_side(width, self.original_height, self.original_width);
        }
        self.width = width;
    }

    /// Set the target height; where the aspect ratio is kept and the original size is known,
    /// the width follows (see [`scaled_side`]).
    pub fn set_height(&mut self, height: u32)
        ensures
            *final(self) == (ResizeEditor {
                height: height,
                width: if old(self).maintain_aspect && old(self).original_height > 0 {
                    scaled_side(height, old(self).original_width, old(self).original_height)
                } else {
                    old(self).width
                },
                ..*old(self)
            }),
    {
        if self.maintain_aspect && self.original_height > 0 {
            self.width = scale_side(height, self.original_width, self.original_height);
        }
        self.height = height;
    }

    /// Take the pending "resize" request, clearing it.
    pub fn take_apply(&mut self) -> (r: bool)
        ensures
            r == old(self).apply_pending,
            *final(self) == (ResizeEditor { apply_pending: false, ..*old(self) }),
    {
        let r = self.apply_pending;
        self.apply_pending = false;
        r
    }

    /// Record the size of the image being edited, which also becomes the target size.
    pub fn set_original_size(&mut self, width: u32, height: u32)
        ensures
            *final(self) == (ResizeEditor {
                original_width: width,
                original_height: height,
                width: width,
                height: height,
                ..*old(self)
            }),
    {
        self.original_width = width;
        self.original_height = height;
        self.width = width;
        self.height = height;
    }

    /// Choose a preset: it becomes selected and, unless it is `Custom`, sets the target size.
    pub fn select_preset(&mut self, preset: PresetSize)
        ensures
            final(self).preset == preset,
            match preset.spec_dimensions() {
                Some((w, h)) => final(self).width == w && final(self).height == h,
                None => final(self).width == old(self).width && final(self).height == old(self).height,
            },
            final(self).original_width == old(self).original_width,
            final(self).original_height == old(self).original_height,
            final(self).maintain_aspect == old(self).maintain_aspect,
            final(self).resolution == old(self).resolution,
            final(self).filter == old(self).filter,
            final(self).apply_pending == old(self).apply_pending,
    {
        self.preset = preset;
        match preset.dimensions() {
            Some((w, h)) => {
                self.width = w;
                self.height = h;
            },
            None => {},
        }
    }

    /// The size to resize to: the target size, each side at least 1.
    pub fn target_size(&self) -> (r: (u32, u32))
        ensures
            r.0 == (if self.width >= 1 { self.width } else { 1 }),
            r.1 == (if self.height >= 1 { self.height } else { 1 }),
    {
        (if self.width >= 1 { self.width } else { 1 }, if self.height >= 1 { self.height } else { 1 })
    }
}

impl Default for ResizeEditor {
    fn default() -> (r: Self)
        ensures
            r.width == 1920,
            r.height == 1080,
            r.preset == PresetSize::Desktop1080p,
            !r.apply_pending,
    {
        Self::new()
    }
}


/// An export to perform: which image, where, and in which format.
pub struct ExportJob {
    pub image: GlintImage,
    pub path: String,
    pub format: ExportFormat,
    pub quality: u8,
}

/// The editing session: the image being edited, its original, the tools' settings, and the
/// results waiting to be picked up by the viewer.
pub struct Editor {
    /// Resize tool
    pub resize: ResizeEditor,
    /// Export settings
    pub export: ExportEditor,
    /// Currently active tool
    pub active_tool: EditorTool,
    /// Original image before edits
    pub original: Option<GlintImage>,
    /// Currently edited image
    pub current: Option<GlintImage>,
    /// Whether a processed result waits to be taken
    pub pending_result: bool,
    /// Path of a newly exported file (different from the image's own) waiting to be taken
    pub pending_export_path: Option<String>,
}

impl Editor {
    pub open spec fn spec_original(&self) -> Option<GlintImage> {
        self.original
    }

    pub open spec fn spec_current(&self) -> Option<GlintImage> {
        self.current
    }

    pub open spec fn spec_pending_result(&self) -> bool {
        self.pending_result
    }

    pub open spec fn spec_pending_export_path(&self) -> Option<Seq<char>> {
        match self.pending_export_path {
            Some(p) => Some(p@),
            None => None,
        }
    }

    /// Create a new editor
    pub fn new() -> (r: Self)
        ensures
            r.active_tool == EditorTool::NoTool,
            r.spec_original() is None,
            r.spec_current() is None,
            !r.spec_pending_result(),
            r.spec_pending_export_path() is None,
    {
        Editor {
            resize: ResizeEditor::new(),
            export: ExportEditor::new(),
            active_tool: EditorTool::NoTool,
            original: None,
            current: None,
            pending_result: false,
            pending_export_path: None,
        }
    }

    /// Set the current image from a processed result; it waits to be taken.
    pub fn set_current_image(&mut self, image: GlintImage)
        ensures
            final(self).spec_current() == Some(image),
            final(self).spec_pending_result(),
            final(self).spec_original() == old(self).spec_original(),
            final(self).spec_pending_export_path() == old(self).spec_pending_export_path(),
    {
        self.current = Some(image);
        self.pending_result = true;
    }

    /// Take the current image if a result is waiting; it is handed out once.
    pub fn take_current_image(&mut self) -> (r: Option<GlintImage>)
        ensures
            old(self).spec_pending_result() ==> r == old(self).spec_current(),
            !old(self).spec_pending_result() ==> r is None,
            !final(self).spec_pending_result(),
            final(self).spec_current() == old(self).spec_current(),
            final(self).spec_original() == old(self).spec_original(),
            final(self).spec_pending_export_path() == old(self).spec_pending_export_path(),
    {
        if self.pending_result {
            self.pending_result = false;
            match &self.current {
                Some(img) => Some(img.duplicate()),
                None => None,
            }
        } else {
            None
        }
    }

    /// Take the path of a newly exported file, if one is waiting.
    pub fn take_export_path(&mut self) -> (r: Option<String>)
        ensures
            match r {
                Some(p) => old(self).spec_pending_export_path() == Some(p@),
                None => old(self).spec_pending_export_path() is None,
            },
            final(self).spec_pending_export_path() is None,
            final(self).spec_current() == old(self).spec_current(),
            final(self).spec_original() == old(self).spec_original(),
            final(self).spec_pending_result() == old(self).spec_pending_result(),
    {
        self.pending_export_path.take()
    }

    /// Start editing the browser's current file, if the cache holds it: it becomes both the
    /// original and the current image, and is returned. A cache hit marks it most recently used.
    pub fn set_from_cache(&mut self, cache: &mut ImageCache, browser: &FileBrowser) -> (r: Option<GlintImage>)
        requires
            old(cache).wf(),
            browser.wf(),
        ensures
            final(cache).wf(),
            browser@.files.len() == 0 ==> r is None && *final(cache) == *old(cache),
            browser@.files.len() > 0 ==> ({
                let k = path_key_of(browser@.files[browser@.index as int]);
                &&& final(cache)@ == CacheState { entries: promote(old(cache)@.entries, k), ..old(cache)@ }
                &&& r == lookup(old(cache)@.entries, k)
            }),
            r matches Some(img) ==> final(self).spec_original() == Some(img) && final(self).spec_current() == Some(img),
            r is None ==> final(self).spec_original() == old(self).spec_original() && final(self).spec_current() == old(self).spec_current(),
            final(self).spec_pending_result() == old(self).spec_pending_result(),
            final(self).spec_pending_export_path() == old(self).spec_pending_export_path(),
    {
        match browser.current() {
            Some(path) => {
                match cache.get(path.as_str()) {
                    Some(img) => {
                        self.original = Some(img.duplicate());
                        self.current = Some(img.duplicate());
                        Some(img)
                    },
                    None => None,
                }
            },
            None => None,
        }
    }

    /// Get the currently edited image
    pub fn current_image(&self) -> (r: Option<&GlintImage>)
        ensures
            match r {
                Some(img) => self.spec_current() == Some(*img),
                None => self.spec_current() is None,
            },
    {
        self.current.as_ref()
    }

    /// Pick up an export request: with "export" or "save as" pending (both are cleared), the
    /// current image, or else the original, is to be written to the path the export settings
    /// give. `None` when nothing was requested or there is no image.
    pub fn begin_export(&mut self) -> (r: Option<ExportJob>)
        ensures
            !final(self).export.apply_pending,
            final(self).export.save_as_path is None,
            final(self).export.format == old(self).export.format,
            final(self).export.suffix == old(self).export.suffix,
            final(self).export.overwrite == old(self).export.overwrite,
            final(self).spec_current() == old(self).spec_current(),
            final(self).spec_original() == old(self).spec_original(),
            final(self).spec_pending_result() == old(self).spec_pending_result(),
            final(self).spec_pending_export_path() == old(self).spec_pending_export_path(),
            (!old(self).export.apply_pending && old(self).export.save_as_path is None) ==> r is None,
            (old(self).spec_current() is None && old(self).spec_original() is None) ==> r is None,
            ((old(self).export.apply_pending || old(self).export.save_as_path is Some)
                && (old(self).spec_current() is Some || old(self).spec_original() is Some)) ==> (r matches Some(job) && {
                let img = if old(self).spec_current() is Some {
                    old(self).spec_current()->0
                } else {
                    old(self).spec_original()->0
                };
                &&& job.image == img
                &&& job.format == old(self).export.format
                &&& job.quality == old(self).export.quality
                &&& job.path@ == spec_export_path(
                    img.path@,
                    match old(self).export.save_as_path {
                        Some(p) => Some(p@),
                        None => None,
                    },
                    old(self).export.overwrite,
                    old(self).export.suffix@,
                    old(self).export.format,
                )
            }),
    {
        let apply = self.export.take_apply();
        let save_as = self.export.take_save_as_path();
        if !apply && save_as.is_none() {
            return None;
        }
        let img = match &self.current {
            Some(img) => img.duplicate(),
            None => match &self.original {
                Some(img) => img.duplicate(),
                None => return None,
            },
        };
        let path = self.export.export_path(img.path.as_str(), save_as);
        Some(ExportJob { image: img, path, format: self.export.format, quality: self.export.quality })
    }

    /// Record the outcome of an export: once written, the image with its new path becomes
    /// the current result, and a path that differs from the image's own is reported.
    pub fn finish_export(&mut self, job: ExportJob, saved: bool)
        ensures
            !saved ==> final(self).spec_current() == old(self).spec_current()
                && final(self).spec_pending_result() == old(self).spec_pending_result()
                && final(self).spec_pending_export_path() == old(self).spec_pending_export_path(),
            saved ==> final(self).spec_current() == Some(GlintImage { path: job.path, ..job.image })
                && final(self).spec_pending_result(),
            saved && !same_place(job.path@, job.image.path@) ==> final(self).spec_pending_export_path() == Some(job.path@),
            saved && same_place(job.path@, job.image.path@) ==> final(self).spec_pending_export_path() == old(self).spec_pending_export_path(),
            final(self).spec_original() == old(self).spec_original(),
    {
        if !saved {
            return;
        }
        let is_new_path = !paths_equal(job.path.as_str(), job.image.path.as_str());
        let export_path = if is_new_path { Some(job.path.clone()) } else { None };
        let mut saved_image = job.image;
        saved_image.path = job.path;
        self.current = Some(saved_image);
        self.pending_result = true;
        match export_path {
            Some(p) => { self.pending_export_path = Some(p); },
            None => {},
        }
    }
}

impl Default for Editor {
    fn default() -> (r: Self)
        ensures
            r.spec_current() is None,
            r.spec_original() is None,
            !r.spec_pending_result(),
    {
        Self::new()
    }
}

} // verus!
