use glint::browser::{FileBrowser, ListedFile};
use glint::controls::{
    drop_action, drop_allowed, file_title, folder_name, shortcut_actions, DefaultViewerState,
    ShortcutAction, ShortcutKeys,
};
use glint::messages::AppMessage;
use std::time::Duration;

fn no_keys() -> ShortcutKeys {
    ShortcutKeys {
        f11: false,
        escape: false,
        f5: false,
        space: false,
        delete: false,
        home: false,
        end: false,
        ctrl_f: false,
        ctrl_e: false,
        ctrl_g: false,
        ctrl_o: false,
        ctrl_d: false,
        ctrl_plus: false,
        ctrl_minus: false,
        ctrl_0: false,
        ctrl_1: false,
        ctrl_q: false,
        ctrl_i: false,
        ctrl_t: false,
    }
}

fn names(actions: &[ShortcutAction]) -> Vec<&'static str> {
    actions
        .iter()
        .map(|a| match a {
            ShortcutAction::PickFile => "pick file",
            ShortcutAction::PickFolder => "pick folder",
            ShortcutAction::Send(AppMessage::ToggleFullscreen) => "fullscreen",
            ShortcutAction::Send(AppMessage::ZoomFit) => "fit",
            ShortcutAction::Send(AppMessage::NextImage) => "next",
            ShortcutAction::Send(AppMessage::MoveToRecycleBin) => "recycle",
            ShortcutAction::Send(AppMessage::ToggleTheme) => "theme",
            ShortcutAction::Send(AppMessage::Exit) => "exit",
            _ => "other",
        })
        .collect()
}

#[test]
fn no_keys_no_actions() {
    assert!(shortcut_actions(no_keys(), false, true).is_empty());
}

#[test]
fn escape_leaves_fullscreen_or_fits() {
    let mut k = no_keys();
    k.escape = true;
    assert_eq!(names(&shortcut_actions(k, true, true)), vec!["fullscreen"]);
    assert_eq!(names(&shortcut_actions(k, false, true)), vec!["fit"]);
}

#[test]
fn delete_needs_an_empty_gallery_selection() {
    let mut k = no_keys();
    k.delete = true;
    assert_eq!(names(&shortcut_actions(k, false, true)), vec!["recycle"]);
    assert!(shortcut_actions(k, false, false).is_empty());
}

#[test]
fn shortcuts_come_in_order() {
    let mut k = no_keys();
    k.ctrl_t = true;
    k.space = true;
    k.ctrl_o = true;
    k.f11 = true;
    k.ctrl_q = true;
    k.ctrl_d = true;
    assert_eq!(
        names(&shortcut_actions(k, false, true)),
        vec!["fullscreen", "next", "pick file", "pick folder", "exit", "theme"]
    );
}

#[test]
fn dropped_files_and_folders() {
    match drop_action("/p/shot.PNG", false) {
        Some(AppMessage::OpenFile(p)) => assert_eq!(p, "/p/shot.PNG"),
        _ => panic!("expected to open the file"),
    }
    match drop_action("/p/album", true) {
        Some(AppMessage::OpenDirectory(p)) => assert_eq!(p, "/p/album"),
        _ => panic!("expected to open the folder"),
    }
    assert!(drop_action("/p/notes.txt", false).is_none());
    assert!(drop_action("/p/x.pef", false).is_none());
    assert!(matches!(drop_action("/p/x.raw", false), Some(AppMessage::OpenFile(_))));
}

#[test]
fn drop_hint_for_folders_and_common_images() {
    assert!(drop_allowed("/p/album", true));
    assert!(drop_allowed("/p/a.JPEG", false));
    assert!(!drop_allowed("/p/a.cr2", false));
    assert!(!drop_allowed("/p/a", false));
}

#[test]
fn titles_and_folder_names() {
    assert_eq!(file_title("/p/beach.jpg"), "Glint - beach.jpg");
    assert_eq!(file_title("/"), "Glint - Unknown");
    assert_eq!(folder_name("/p/album"), "album");
    assert_eq!(folder_name("/"), "Folder");
}

#[test]
fn default_viewer_flow() {
    let mut d = DefaultViewerState::new(false);
    assert!(d.show_banner);
    assert!(d.begin());
    assert!(!d.begin());
    assert!(d.finish(false));
    assert!(!d.setting_default);
    assert!(d.show_banner);
    assert!(d.begin());
    assert!(!d.finish(true));
    assert!(d.is_default_viewer);
    assert!(!d.show_banner);
    let mut e = DefaultViewerState::new(true);
    assert!(!e.show_banner);
    e.dismiss_banner();
    assert!(!e.show_banner);
}

fn entry(p: &str) -> ListedFile {
    ListedFile { path: p.to_string(), is_file: true, size: 0, modified: None, pixels: None, color: None }
}

#[test]
fn browser_lists_and_selects_paths() {
    let mut b = FileBrowser::new();
    b.open_directory("/p", true, vec![entry("/p/a.png"), entry("/p/b.png")], Duration::from_millis(1));
    assert!(b.lists("/p/b.png"));
    assert!(!b.lists("/p/c.png"));
    b.select_path("/p/b.png");
    assert_eq!(b.current_index(), 1);
    b.select_path("/p/zzz.png");
    assert_eq!(b.current_index(), 1);
}

#[test]
fn exported_file_in_the_open_folder_is_added_and_selected() {
    let mut b = FileBrowser::new();
    b.open_directory("/p", true, vec![entry("/p/a.png"), entry("/p/c.png")], Duration::from_millis(1));
    b.add_exported("/p/a_edited.png".to_string());
    let files: Vec<&str> = b.files().iter().map(|s| s.as_str()).collect();
    assert_eq!(files, vec!["/p/a.png", "/p/a_edited.png", "/p/c.png"]);
    assert_eq!(b.current_index(), 1);
    b.add_exported("/elsewhere/out.png".to_string());
    assert_eq!(b.len(), 3);
    assert_eq!(b.current_index(), 1);
}

#[test]
fn recent_folders_shown_latest_first() {
    let mut b = FileBrowser::new();
    for i in 0..13 {
        b.open_directory(&format!("/d{}", i), true, vec![], Duration::from_millis(1));
    }
    let shown = b.recent_shown();
    assert_eq!(shown.len(), 10);
    assert_eq!(shown[0], "/d11");
    assert_eq!(shown[9], "/d2");
}

#[test]
fn files_in_the_open_directory() {
    let mut b = FileBrowser::new();
    assert!(!b.in_directory("/p/a.png"));
    b.open_directory("/p", true, vec![], Duration::from_millis(1));
    assert!(b.in_directory("/p/a.png"));
    assert!(!b.in_directory("/q/a.png"));
    assert!(!b.in_directory("/p/sub/a.png"));
}

#[test]
fn thumbnail_labels_cut_long_names() {
    assert_eq!(glint::controls::thumbnail_label("short.png"), "short.png");
    assert_eq!(glint::controls::thumbnail_label("exactly14b.png"), "exactly14b.png");
    assert_eq!(glint::controls::thumbnail_label("a_rather_long_name.png"), "a_rather_lon...");
    assert_eq!(glint::controls::thumbnail_label("ééééééééé"), "ééééééééé...");
}

#[test]
fn startup_scans_the_first_known_folder_once() {
    let mut scanned = false;
    let dirs = vec![None, Some("/home/u/Desktop".to_string()), Some("/home/u/Downloads".to_string())];
    assert_eq!(glint::controls::startup_scan(&mut scanned, dirs.clone()), Some("/home/u/Desktop".to_string()));
    assert!(scanned);
    assert_eq!(glint::controls::startup_scan(&mut scanned, dirs), None);
    let mut fresh = false;
    assert_eq!(glint::controls::startup_scan(&mut fresh, vec![None, None]), None);
    assert!(fresh);
}
