use crate::imaging::GlintImage;
use vstd::prelude::*;

verus! {

/// Messages sent between components of Glint
pub enum AppMessage {
    OpenFile(String),
    ImageLoaded(GlintImage),
    OpenDirectory(String),
    NextImage,
    PreviousImage,
    FirstImage,
    LastImage,
    ReloadImage,
    ToggleFullscreen,
    ToggleGallery,
    ToggleEditing,
    ToggleSlideshow,
    ToggleTheme,
    ZoomIn,
    ZoomOut,
    ZoomFit,
    ZoomActual,
    RotateLeft,
    RotateRight,
    CopyToClipboard,
    CopyFilePath,
    MoveToRecycleBin,
    ShowImageInfo,
    SetAsDefault,
    SetAsDefaultResult(bool),
    OpenDefaultApps,
    EditorAction(String),
    ScanDirectory(String),
    Exit,
}

} // verus!
