use crate::messages::AppMessage;
use crate::sorting::extension_key;
use crate::text::{extension, file_name, str_eq, to_chars, to_lowercase};
use vstd::prelude::*;
use vstd::string::*;

verus! {

// ---------------------------------------------------------------------------
// Keyboard shortcuts
// ---------------------------------------------------------------------------

/// The keys pressed in one frame that the application reacts to (the `ctrl_` ones with Ctrl
/// held).
#[derive(Debug, Clone, Copy, PartialEq, Eq, Structural)]
pub struct ShortcutKeys {
    pub f11: bool,
    pub escape: bool,
    pub f5: bool,
    pub space: bool,
    pub delete: bool,
    pub home: bool,
    pub end: bool,
    pub ctrl_f: bool,
    pub ctrl_e: bool,
    pub ctrl_g: bool,
    pub ctrl_o: bool,
    pub ctrl_d: bool,
    pub ctrl_plus: bool,
    pub ctrl_minus: bool,
    pub ctrl_0: bool,
    pub ctrl_1: bool,
    pub ctrl_q: bool,
    pub ctrl_i: bool,
    pub ctrl_t: bool,
}

/// What a shortcut asks for: a message to the application, or a file or folder picker.
pub enum ShortcutAction {
    Send(AppMessage),
    PickFile,
    PickFolder,
}

/// The shortcut keys in the order the application looks at them, each with whether it is
/// pressed (in the state given) and the action it asks for: F11 toggles fullscreen; Escape
/// leaves fullscreen, or fits the image when not fullscreen; F5 toggles the slideshow; Space
/// goes to the next image; Delete moves the current file to the recycle bin when the gallery
/// has no selection; Home and End go to the first and last image; then Ctrl+F fullscreen,
/// Ctrl+E editing, Ctrl+G gallery, Ctrl+O the file picker, Ctrl+D the folder picker, Ctrl+=
/// and Ctrl+- zoom, Ctrl+0 fit, Ctrl+1 actual size, Ctrl+Q exit, Ctrl+I image info and
/// Ctrl+T the next theme.
pub open spec fn shortcut_table(k: ShortcutKeys, fullscreen: bool, selection_empty: bool) -> Seq<
    (bool, ShortcutAction),
> {
    seq![
        (k.f11, ShortcutAction::Send(AppMessage::ToggleFullscreen)),
        (k.escape && fullscreen, ShortcutAction::Send(AppMessage::ToggleFullscreen)),
        (k.escape && !fullscreen, ShortcutAction::Send(AppMessage::ZoomFit)),
        (k.f5, ShortcutAction::Send(AppMessage::ToggleSlideshow)),
        (k.space, ShortcutAction::Send(AppMessage::NextImage)),
        (k.delete && selection_empty, ShortcutAction::Send(AppMessage::MoveToRecycleBin)),
        (k.home, ShortcutAction::Send(AppMessage::FirstImage)),
        (k.end, ShortcutAction::Send(AppMessage::LastImage)),
        (k.ctrl_f, ShortcutAction::Send(AppMessage::ToggleFullscreen)),
        (k.ctrl_e, ShortcutAction::Send(AppMessage::ToggleEditing)),
        (k.ctrl_g, ShortcutAction::Send(AppMessage::ToggleGallery)),
        (k.ctrl_o, ShortcutAction::PickFile),
        (k.ctrl_d, ShortcutAction::PickFolder),
        (k.ctrl_plus, ShortcutAction::Send(AppMessage::ZoomIn)),
        (k.ctrl_minus, ShortcutAction::Send(AppMessage::ZoomOut)),
        (k.ctrl_0, ShortcutAction::Send(AppMessage::ZoomFit)),
        (k.ctrl_1, ShortcutAction::Send(AppMessage::ZoomActual)),
        (k.ctrl_q, ShortcutAction::Send(AppMessage::Exit)),
        (k.ctrl_i, ShortcutAction::Send(AppMessage::ShowImageInfo)),
        (k.ctrl_t, ShortcutAction::Send(AppMessage::ToggleTheme)),
    ]
}

/// The actions of the pressed entries, in order.
pub open spec fn pressed_actions(t: Seq<(bool, ShortcutAction)>) -> Seq<ShortcutAction>
    decreases t.len(),
{
    if t.len() == 0 {
        Seq::empty()
    } else if t[0].0 {
        seq![t[0].1] + pressed_actions(t.drop_first())
    } else {
        pressed_actions(t.drop_first())
    }
}

/// The keys of a frame in which none is pressed.
pub open spec fn no_keys() -> ShortcutKeys {
    ShortcutKeys {
        f11: false,
        escape: false,
        f5: false,
        space: false,
        delete: false,
        home: false,
        end: false,
        ctrl_f: false,
        ctrl_e: false,
        ctrl_g: false,
        ctrl_o: false,
        ctrl_d: false,
        ctrl_plus: false,
        ctrl_minus: false,
        ctrl_0: false,
        ctrl_1: false,
        ctrl_q: false,
        ctrl_i: false,
        ctrl_t: false,
    }
}

/// Ctrl+= zooms in and Ctrl+- zooms out: pressed alone, each asks for exactly that zoom,
/// whatever the fullscreen and selection state.
pub proof fn law_zoom_keys_alone(fullscreen: bool, selection_empty: bool)
    ensures
        pressed_actions(shortcut_table(ShortcutKeys { ctrl_plus: true, ..no_keys() }, fullscreen, selection_empty))
            == seq![ShortcutAction::Send(AppMessage::ZoomIn)],
        pressed_actions(shortcut_table(ShortcutKeys { ctrl_minus: true, ..no_keys() }, fullscreen, selection_empty))
            == seq![ShortcutAction::Send(AppMessage::ZoomOut)],
{
    reveal_with_fuel(pressed_actions, 21);
    assert(pressed_actions(shortcut_table(ShortcutKeys { ctrl_plus: true, ..no_keys() }, fullscreen, selection_empty))
        =~= seq![ShortcutAction::Send(AppMessage::ZoomIn)]);
    assert(pressed_actions(shortcut_table(ShortcutKeys { ctrl_minus: true, ..no_keys() }, fullscreen, selection_empty))
        =~= seq![ShortcutAction::Send(AppMessage::ZoomOut)]);
}

/// In any frame, a zoom-in is asked for exactly when Ctrl+= is pressed, and a zoom-out
/// exactly when Ctrl+- is.
pub proof fn law_zoom_follows_its_key(k: ShortcutKeys, fullscreen: bool, selection_empty: bool)
    ensures
        pressed_actions(shortcut_table(k, fullscreen, selection_empty)).contains(
            ShortcutAction::Send(AppMessage::ZoomIn),
        ) <==> k.ctrl_plus,
        pressed_actions(shortcut_table(k, fullscreen, selection_empty)).contains(
            ShortcutAction::Send(AppMessage::ZoomOut),
        ) <==> k.ctrl_minus,
{
    let t = shortcut_table(k, fullscreen, selection_empty);
    let zin = ShortcutAction::Send(AppMessage::ZoomIn);
    let zout = ShortcutAction::Send(AppMessage::ZoomOut);
    lemma_pressed_contains(t, zin);
    lemma_pressed_contains(t, zout);
    assert(t.len() == 20);
    assert(t[13] == (k.ctrl_plus, zin));
    assert(t[14] == (k.ctrl_minus, zout));
    assert forall|i: int| 0 <= i < t.len() && #[trigger] t[i].1 == zin implies i == 13 by {
        if i == 0 {} else if i == 1 {} else if i == 2 {} else if i == 3 {} else if i == 4 {} else if i == 5 {} else if i == 6 {} else if i == 7 {} else if i == 8 {} else if i == 9 {} else if i == 10 {} else if i == 11 {} else if i == 12 {} else if i == 13 {} else if i == 14 {} else if i == 15 {} else if i == 16 {} else if i == 17 {} else if i == 18 {} else if i == 19 {}
    }
    assert forall|i: int| 0 <= i < t.len() && #[trigger] t[i].1 == zout implies i == 14 by {
        if i == 0 {} else if i == 1 {} else if i == 2 {} else if i == 3 {} else if i == 4 {} else if i == 5 {} else if i == 6 {} else if i == 7 {} else if i == 8 {} else if i == 9 {} else if i == 10 {} else if i == 11 {} else if i == 12 {} else if i == 13 {} else if i == 14 {} else if i == 15 {} else if i == 16 {} else if i == 17 {} else if i == 18 {} else if i == 19 {}
    }
    if k.ctrl_plus {
        assert(t[13].0 && t[13].1 == zin);
    }
    if exists|i: int| 0 <= i < t.len() && #[trigger] t[i].0 && t[i].1 == zin {
        let i = choose|i: int| 0 <= i < t.len() && #[trigger] t[i].0 && t[i].1 == zin;
        assert(i == 13);
    }
    if k.ctrl_minus {
        assert(t[14].0 && t[14].1 == zout);
    }
    if exists|i: int| 0 <= i < t.len() && #[trigger] t[i].0 && t[i].1 == zout {
        let i = choose|i: int| 0 <= i < t.len() && #[trigger] t[i].0 && t[i].1 == zout;
        assert(i == 14);
    }
}

/// An action is among the pressed actions exactly when some pressed entry holds it.
pub proof fn lemma_pressed_contains(t: Seq<(bool, ShortcutAction)>, a: ShortcutAction)
    ensures
        pressed_actions(t).contains(a) <==> exists|i: int| 0 <= i < t.len() && #[trigger] t[i].0 && t[i].1 == a,
    decreases t.len(),
{
    if t.len() > 0 {
        lemma_pressed_contains(t.drop_first(), a);
        let rest = pressed_actions(t.drop_first());
        if t[0].0 {
            assert((seq![t[0].1] + rest)[0] == t[0].1);
            if rest.contains(a) {
                let j = choose|j: int| 0 <= j < rest.len() && rest[j] == a;
                assert((seq![t[0].1] + rest)[j + 1] == a);
            }
            if (seq![t[0].1] + rest).contains(a) {
                let j = choose|j: int| 0 <= j < (seq![t[0].1] + rest).len() && (seq![t[0].1] + rest)[j] == a;
                if j > 0 {
                    assert(rest[j - 1] == a);
                }
            }
        }
        if exists|i: int| 0 <= i < t.len() && #[trigger] t[i].0 && t[i].1 == a {
            let i = choose|i: int| 0 <= i < t.len() && #[trigger] t[i].0 && t[i].1 == a;
            if i > 0 {
                assert(t.drop_first()[i - 1] == t[i]);
            }
        }
        if exists|i: int| 0 <= i < t.drop_first().len() && #[trigger] t.drop_first()[i].0 && t.drop_first()[i].1 == a {
            let i = choose|i: int| 0 <= i < t.drop_first().len() && #[trigger] t.drop_first()[i].0 && t.drop_first()[i].1 == a;
            assert(t[i + 1] == t.drop_first()[i]);
        }
    }
}

/// The actions that the keys pressed in one frame ask for, in order.
pub fn shortcut_actions(k: ShortcutKeys, fullscreen: bool, selection_empty: bool) -> (r: Vec<
    ShortcutAction,
>)
    ensures
        r@ == pressed_actions(shortcut_table(k, fullscreen, selection_empty)),
{
    let mut table: Vec<(bool, ShortcutAction)> = vec![
        (k.f11, ShortcutAction::Send(AppMessage::ToggleFullscreen)),
        (k.escape && fullscreen, ShortcutAction::Send(AppMessage::ToggleFullscreen)),
        (k.escape && !fullscreen, ShortcutAction::Send(AppMessage::ZoomFit)),
        (k.f5, ShortcutAction::Send(AppMessage::ToggleSlideshow)),
        (k.space, ShortcutAction::Send(AppMessage::NextImage)),
        (k.delete && selection_empty, ShortcutAction::Send(AppMessage::MoveToRecycleBin)),
        (k.home, ShortcutAction::Send(AppMessage::FirstImage)),
        (k.end, ShortcutAction::Send(AppMessage::LastImage)),
        (k.ctrl_f, ShortcutAction::Send(AppMessage::ToggleFullscreen)),
        (k.ctrl_e, ShortcutAction::Send(AppMessage::ToggleEditing)),
        (k.ctrl_g, ShortcutAction::Send(AppMessage::ToggleGallery)),
        (k.ctrl_o, ShortcutAction::PickFile),
        (k.ctrl_d, ShortcutAction::PickFolder),
        (k.ctrl_plus, ShortcutAction::Send(AppMessage::ZoomIn)),
        (k.ctrl_minus, ShortcutAction::Send(AppMessage::ZoomOut)),
        (k.ctrl_0, ShortcutAction::Send(AppMessage::ZoomFit)),
        (k.ctrl_1, ShortcutAction::Send(AppMessage::ZoomActual)),
        (k.ctrl_q, ShortcutAction::Send(AppMessage::Exit)),
        (k.ctrl_i, ShortcutAction::Send(AppMessage::ShowImageInfo)),
        (k.ctrl_t, ShortcutAction::Send(AppMessage::ToggleTheme)),
    ];
    let ghost whole = shortcut_table(k, fullscreen, selection_empty);
    assert(table@ =~= whole);
    let mut r: Vec<ShortcutAction> = Vec::new();
    while table.len() > 0
        invariant
            pressed_actions(whole) == r@ + pressed_actions(table@),
        decreases table.len(),
    {
        let ghost before = table@;
        let (pressed, action) = table.remove(0);
        assert(before.drop_first() =~= table@);
        let ghost r0 = r@;
        if pressed {
            r.push(action);
            assert(r0 + pressed_actions(before) =~= r@ + pressed_actions(table@));
        } else {
            assert(r0 + pressed_actions(before) =~= r@ + pressed_actions(table@));
        }
    }
    assert(r@ + pressed_actions(table@) =~= r@);
    r
}

// ---------------------------------------------------------------------------
// Drag and drop
// ---------------------------------------------------------------------------

/// The extensions of files that open when dropped on the window.
pub open spec fn droppable_extensions() -> Seq<Seq<char>> {
    seq![
        "png"@, "jpg"@, "jpeg"@, "gif"@, "bmp"@, "tiff"@, "tif"@, "webp"@, "ico"@, "avif"@,
        "heic"@, "heif"@, "svg"@, "raw"@, "cr2"@, "cr3"@, "nef"@, "arw"@, "dng"@, "raf"@,
        "orf"@, "rw2"@, "qoi"@, "exr"@, "hdr"@, "dds"@, "tga"@,
    ]
}

/// The extensions of hovered files that light up the drop hint.
pub open spec fn hover_extensions() -> Seq<Seq<char>> {
    seq![
        "png"@, "jpg"@, "jpeg"@, "gif"@, "bmp"@, "tiff"@, "tif"@, "webp"@, "ico"@, "avif"@,
        "heic"@, "heif"@, "svg"@,
    ]
}

/// Whether `list` holds `e`.
fn list_holds(list: &[&str], e: &str) -> (r: bool)
    ensures
        r == list@.map_values(|x: &str| x@).contains(e@),
{
    let ghost texts = list@.map_values(|x: &str| x@);
    let mut i: usize = 0;
    while i < list.len()
        invariant
            i <= list@.len(),
            texts == list@.map_values(|x: &str| x@),
            forall|j: int| 0 <= j < i ==> texts[j] != e@,
        decreases list@.len() - i,
    {
        if str_eq(list[i], e) {
            assert(texts[i as int] == e@);
            return true;
        }
        i = i + 1;
    }
    false
}

/// The lowercased extension of a path, or the empty text when it has none.
fn extension_key_of(path: &str) -> (r: String)
    ensures
        r@ == extension_key(path@),
{
    match extension(path) {
        Some(e) => to_lowercase(e.as_str()),
        None => String::new(),
    }
}

/// What a file dropped on the window asks for: an image (by its lowercased extension) is
/// opened; otherwise a directory is opened; anything else is ignored.
pub fn drop_action(path: &str, is_dir: bool) -> (r: Option<AppMessage>)
    ensures
        droppable_extensions().contains(extension_key(path@)) ==> (r matches Some(AppMessage::OpenFile(p)) && p@ == path@),
        !droppable_extensions().contains(extension_key(path@)) && is_dir ==> (r matches Some(AppMessage::OpenDirectory(p)) && p@ == path@),
        !droppable_extensions().contains(extension_key(path@)) && !is_dir ==> r is None,
{
    let ext = extension_key_of(path);
    let list = [
        "png", "jpg", "jpeg", "gif", "bmp", "tiff", "tif", "webp", "ico", "avif", "heic", "heif",
        "svg", "raw", "cr2", "cr3", "nef", "arw", "dng", "raf", "orf", "rw2", "qoi", "exr", "hdr",
        "dds", "tga",
    ];
    let holds = list_holds(&list, ext.as_str());
    assert(list@.map_values(|x: &str| x@) =~= droppable_extensions());
    if holds {
        Some(AppMessage::OpenFile(String::from_str(path)))
    } else if is_dir {
        Some(AppMessage::OpenDirectory(String::from_str(path)))
    } else {
        None
    }
}

/// Whether a hovered file makes the window show the drop hint: a directory, or a file with
/// one of the hover extensions.
pub fn drop_allowed(path: &str, is_dir: bool) -> (r: bool)
    ensures
        r == (is_dir || hover_extensions().contains(extension_key(path@))),
{
    if is_dir {
        return true;
    }
    let ext = extension_key_of(path);
    let list = [
        "png", "jpg", "jpeg", "gif", "bmp", "tiff", "tif", "webp", "ico", "avif", "heic", "heif",
        "svg",
    ];
    let holds = list_holds(&list, ext.as_str());
    assert(list@.map_values(|x: &str| x@) =~= hover_extensions());
    holds
}

// ---------------------------------------------------------------------------
// Titles and labels
// ---------------------------------------------------------------------------

/// The window title while a file is shown: "Glint - " and its file name ("Unknown" when the
/// path has none).
pub fn file_title(path: &str) -> (r: String)
    ensures
        r@ == "Glint - "@ + match crate::text::path_file_name_of(path@) {
            Some(n) => n,
            None => "Unknown"@,
        },
{
    let name = match file_name(path) {
        Some(n) => n,
        None => String::from_str("Unknown"),
    };
    String::from_str("Glint - ").concat(name.as_str())
}

/// The name shown for a folder: its final component ("Folder" when the path has none).
pub fn folder_name(path: &str) -> (r: String)
    ensures
        r@ == match crate::text::path_file_name_of(path@) {
            Some(n) => n,
            None => "Folder"@,
        },
{
    match file_name(path) {
        Some(n) => n,
        None => String::from_str("Folder"),
    }
}

/// How many characters of a long name a thumbnail label keeps: 12, or all of them when there
/// are fewer.
pub open spec fn label_keep(name: Seq<char>) -> int {
    if name.len() < 12 { name.len() as int } else { 12 }
}

/// The label under a gallery thumbnail: a name of more than 14 bytes (in UTF-8) is cut to its
/// first 12 characters followed by `...`; a shorter one is shown whole.
pub fn thumbnail_label(name: &str) -> (r: String)
    ensures
        r@ == (if name.len() > 14 {
            name@.subrange(0, label_keep(name@)) + "..."@
        } else {
            name@
        }),
{
    if name.len() > 14 {
        let n = to_chars(name).len();
        let keep = if n < 12 { n } else { 12 };
        String::from_str(name.substring_char(0, keep)).concat("...")
    } else {
        String::from_str(name)
    }
}

/// The first known folder among `dirs`, if any.
pub open spec fn first_known(dirs: Seq<Option<String>>) -> Option<String>
    decreases dirs.len(),
{
    if dirs.len() == 0 {
        None
    } else if dirs[0] is Some {
        dirs[0]
    } else {
        first_known(dirs.drop_first())
    }
}

/// The folder to scan for the gallery on the first frame: once (`scanned` becomes true), the
/// first known of the common folders (pictures, desktop, downloads, in that order); nothing
/// after that.
pub fn startup_scan(scanned: &mut bool, dirs: Vec<Option<String>>) -> (r: Option<String>)
    ensures
        *final(scanned),
        r == (if *old(scanned) { None } else { first_known(dirs@) }),
{
    if *scanned {
        return None;
    }
    *scanned = true;
    let mut i: usize = 0;
    assert(dirs@.skip(0) =~= dirs@);
    while i < dirs.len()
        invariant
            i <= dirs@.len(),
            first_known(dirs@) == first_known(dirs@.skip(i as int)),
            *scanned,
            !*old(scanned),
        decreases dirs@.len() - i,
    {
        assert(dirs@.skip(i as int)[0] == dirs@[i as int]);
        match &dirs[i] {
            Some(d) => {
                return Some(d.clone());
            },
            None => {},
        }
        assert(dirs@.skip(i as int).drop_first() =~= dirs@.skip(i + 1));
        i = i + 1;
    }
    None
}

// ---------------------------------------------------------------------------
// Becoming the default viewer
// ---------------------------------------------------------------------------

/// Whether the viewer is the default one, whether the banner offering to make it so is
/// shown, and whether an attempt is under way.
#[derive(Debug, Clone, Copy, PartialEq, Eq, Structural)]
pub struct DefaultViewerState {
    pub is_default_viewer: bool,
    pub show_banner: bool,
    pub setting_default: bool,
}

impl DefaultViewerState {
    /// At start: the banner shows unless the viewer already is the default.
    pub fn new(is_default: bool) -> (r: Self)
        ensures
            r == (DefaultViewerState { is_default_viewer: is_default, show_banner: !is_default, setting_default: false }),
    {
        DefaultViewerState { is_default_viewer: is_default, show_banner: !is_default, setting_default: false }
    }

    /// A request to become the default: it starts (returning true) unless one is under way.
    pub fn begin(&mut self) -> (r: bool)
        ensures
            r == !old(self).setting_default,
            *final(self) == (DefaultViewerState { setting_default: true, ..*old(self) }),
    {
        if self.setting_default {
            return false;
        }
        self.setting_default = true;
        true
    }

    /// The attempt ended: on success the viewer is the default and the banner goes; on
    /// failure the caller is to open the Default Apps settings (returning true).
    pub fn finish(&mut self, success: bool) -> (r: bool)
        ensures
            r == !success,
            !final(self).setting_default,
            success ==> final(self).is_default_viewer && !final(self).show_banner,
            !success ==> final(self).is_default_viewer == old(self).is_default_viewer
                && final(self).show_banner == old(self).show_banner,
    {
        self.setting_default = false;
        if success {
            self.is_default_viewer = true;
            self.show_banner = false;
            false
        } else {
            true
        }
    }

    /// The banner's close button.
    pub fn dismiss_banner(&mut self)
        ensures
            *final(self) == (DefaultViewerState { show_banner: false, ..*old(self) }),
    {
        self.show_banner = false;
    }
}

} // verus!
