use glint::gallery::GalleryState;
use std::collections::HashSet;

fn gallery(items: &[&str]) -> GalleryState {
    let mut g = GalleryState::new();
    g.set_gallery_items(items.iter().map(|s| s.to_string()).collect());
    g
}

fn selected(g: &GalleryState) -> Vec<usize> {
    let mut v: Vec<usize> = g.selected_indices().iter().copied().collect();
    v.sort();
    v
}

#[test]
fn plain_click_selects_and_asks_to_open() {
    let mut g = gallery(&["a", "b", "c", "d"]);
    g.handle_gallery_click(1, false, false);
    assert_eq!(selected(&g), vec![1]);
    assert_eq!(g.focused_index(), Some(1));
    assert_eq!(g.take_pending_gallery_open(), Some("b".to_string()));
    assert_eq!(g.take_pending_gallery_open(), None);
}

#[test]
fn plain_click_selects_only_the_clicked_item() {
    let mut g = gallery(&["a", "b", "c", "d"]);
    g.handle_gallery_click(0, false, false);
    g.handle_gallery_click(2, false, false);
    assert_eq!(selected(&g), vec![2]);
    assert_eq!(g.selected_paths(), vec!["c".to_string()]);
    g.handle_gallery_click(1, true, false);
    assert_eq!(selected(&g), vec![1, 2]);
    g.handle_gallery_click(3, false, false);
    assert_eq!(selected(&g), vec![3]);
}

#[test]
fn ctrl_click_toggles() {
    let mut g = gallery(&["a", "b", "c", "d"]);
    g.handle_gallery_click(1, false, false);
    g.handle_gallery_click(3, true, false);
    assert_eq!(selected(&g), vec![1, 3]);
    assert_eq!(g.focused_index(), Some(3));
    g.handle_gallery_click(3, true, false);
    assert_eq!(selected(&g), vec![1]);
    g.handle_gallery_click(1, true, false);
    assert!(selected(&g).is_empty());
    assert_eq!(g.focused_index(), None);
}

#[test]
fn shift_click_selects_a_range_from_the_last_click() {
    let mut g = gallery(&["a", "b", "c", "d", "e"]);
    g.handle_gallery_click(3, false, false);
    g.handle_gallery_click(1, false, true);
    assert_eq!(selected(&g), vec![1, 2, 3]);
    assert_eq!(g.selected_paths(), vec!["b".to_string(), "c".to_string(), "d".to_string()]);
    let mut fresh = gallery(&["a", "b"]);
    fresh.handle_gallery_click(1, false, true);
    assert_eq!(selected(&fresh), vec![1]);
}

#[test]
fn select_all_and_escape() {
    let mut g = gallery(&["a", "b", "c"]);
    g.select_all();
    assert_eq!(selected(&g), vec![0, 1, 2]);
    assert_eq!(g.focused_index(), Some(0));
    g.escape();
    assert!(selected(&g).is_empty());
    g.select_all_from_menu();
    assert_eq!(selected(&g), vec![0, 1, 2]);
    g.clear_selection();
    assert!(selected(&g).is_empty());
}

#[test]
fn delete_request_lists_the_selection_in_order() {
    let mut g = gallery(&["a", "b", "c"]);
    g.request_delete();
    assert_eq!(g.take_pending_delete(), None);
    g.handle_gallery_click(2, true, false);
    g.handle_gallery_click(0, true, false);
    g.request_delete();
    assert_eq!(g.take_pending_delete(), Some(vec!["a".to_string(), "c".to_string()]));
    assert_eq!(g.take_pending_delete(), None);
}

#[test]
fn dragging_moves_an_item() {
    let mut g = gallery(&["a", "b", "c", "d"]);
    g.handle_gallery_click(0, false, false);
    g.drag_item(1, Some(2));
    assert_eq!(g.drag_state(), (None, None));
    g.drag_item(0, Some(3));
    assert_eq!(g.drag_state(), (Some(0), Some(3)));
    g.finish_drag();
    assert_eq!(g.drag_state(), (None, None));
    let items: Vec<&str> = g.items().iter().map(|s| s.as_str()).collect();
    assert_eq!(items, vec!["b", "c", "a", "d"]);
}

#[test]
fn dropping_on_itself_changes_nothing() {
    let mut g = gallery(&["a", "b"]);
    g.handle_gallery_click(1, false, false);
    g.drag_item(1, Some(1));
    g.finish_drag();
    let items: Vec<&str> = g.items().iter().map(|s| s.as_str()).collect();
    assert_eq!(items, vec!["a", "b"]);
}

#[test]
fn right_click_menu() {
    let mut g = gallery(&["a", "b", "c"]);
    g.handle_gallery_click(0, false, false);
    g.take_pending_gallery_open();
    g.right_click(2, true);
    assert_eq!(selected(&g), vec![2]);
    assert!(g.menu_open());
    g.menu_open_first();
    assert!(!g.menu_open());
    assert_eq!(g.take_pending_gallery_open(), Some("c".to_string()));
    g.right_click(2, true);
    g.menu_move_to();
    assert_eq!(g.take_pending_move_to(), Some(vec!["c".to_string()]));
    g.right_click(2, false);
    assert!(!g.menu_open());
    g.right_click(1, true);
    g.menu_delete();
    assert_eq!(g.take_pending_delete(), Some(vec!["b".to_string()]));
    g.right_click(1, true);
    g.close_menu();
    assert!(!g.menu_open());
}

#[test]
fn removing_paths_clears_the_selection() {
    let mut g = gallery(&["a", "b", "c"]);
    g.select_all();
    g.remove_paths(&["b".to_string()]);
    let items: Vec<&str> = g.items().iter().map(|s| s.as_str()).collect();
    assert_eq!(items, vec!["a", "c"]);
    assert!(selected(&g).is_empty());
    assert_eq!(g.gallery_count(), 2);
}

#[test]
fn requests_and_positions() {
    let mut g = gallery(&["a", "b", "a"]);
    assert_eq!(g.position_of(&"a".to_string()), Some(0));
    assert_eq!(g.position_of(&"z".to_string()), None);
    g.request_nav_next();
    assert!(g.take_pending_nav_next());
    assert!(!g.take_pending_nav_next());
    g.request_nav_prev();
    assert!(g.take_pending_nav_prev());
    g.request_folder_open("/photos".to_string());
    assert_eq!(g.take_pending_folder_open(), Some("/photos".to_string()));
    assert_eq!(g.take_pending_folder_open(), None);
    g.open_item(1);
    assert_eq!(g.take_pending_gallery_open(), Some("b".to_string()));
    g.open_item(7);
    assert_eq!(g.take_pending_gallery_open(), None);
    let _unused: HashSet<usize> = g.selected_indices().clone();
}
