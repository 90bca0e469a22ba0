use glint::browser::{FileBrowser, ListedFile};
use glint::sorting::{
    is_supported_image, supported_extensions, ImageFacts, ImageFilter, Orientation, SortDirection,
    SortField,
};
use std::time::Duration;

fn entry(p: &str, is_file: bool) -> ListedFile {
    ListedFile { path: p.to_string(), is_file, size: 0, modified: None, pixels: None, color: None }
}

fn listing() -> Vec<ListedFile> {
    vec![
        entry("/photos/b.png", true),
        entry("/photos/A.jpg", true),
        entry("/photos/notes.txt", true),
        entry("/photos/sub.png", false),
        entry("/photos/c.GIF", true),
    ]
}

fn names(b: &FileBrowser) -> Vec<&str> {
    b.files().iter().map(|s| s.as_str()).collect()
}

fn opened() -> FileBrowser {
    let mut b = FileBrowser::new();
    b.open_directory("/photos", true, listing(), Duration::from_millis(7));
    b
}

#[test]
fn new_browser_is_empty() {
    let b = FileBrowser::new();
    assert!(b.is_empty());
    assert_eq!(b.len(), 0);
    assert_eq!(b.current(), None);
    assert_eq!(b.current_directory(), None);
    assert_eq!(b.last_index_duration(), Duration::from_secs(0));
}

#[test]
fn opening_a_directory_lists_its_images_by_name() {
    let b = opened();
    assert_eq!(names(&b), vec!["/photos/A.jpg", "/photos/b.png", "/photos/c.GIF"]);
    assert_eq!(b.current_index(), 0);
    assert_eq!(b.current(), Some("/photos/A.jpg".to_string()));
    assert_eq!(b.current_directory(), Some("/photos"));
    assert_eq!(b.last_index_duration(), Duration::from_millis(7));
}

#[test]
fn opening_something_that_is_not_a_directory_changes_nothing() {
    let mut b = opened();
    b.open_directory("/photos/A.jpg", false, vec![], Duration::from_millis(1));
    assert_eq!(b.len(), 3);
    assert_eq!(b.current_directory(), Some("/photos"));
}

#[test]
fn next_and_previous_wrap_around() {
    let mut b = opened();
    assert_eq!(b.next(), Some("/photos/b.png".to_string()));
    assert_eq!(b.next(), Some("/photos/c.GIF".to_string()));
    assert_eq!(b.next(), Some("/photos/A.jpg".to_string()));
    assert_eq!(b.previous(), Some("/photos/c.GIF".to_string()));
    assert_eq!(b.current_index(), 2);
}

#[test]
fn previous_undoes_next() {
    let mut b = opened();
    b.set_current_index(1);
    b.next();
    assert_eq!(b.previous(), Some("/photos/b.png".to_string()));
    assert_eq!(b.current_index(), 1);
}

#[test]
fn navigation_on_an_empty_list() {
    let mut b = FileBrowser::new();
    assert_eq!(b.next(), None);
    assert_eq!(b.previous(), None);
    assert_eq!(b.first(), None);
    assert_eq!(b.last(), None);
    assert_eq!(b.go_to(0), None);
}

#[test]
fn first_last_and_go_to() {
    let mut b = opened();
    assert_eq!(b.last(), Some("/photos/c.GIF".to_string()));
    assert_eq!(b.first(), Some("/photos/A.jpg".to_string()));
    assert_eq!(b.go_to(1), Some("/photos/b.png".to_string()));
    assert_eq!(b.go_to(3), None);
    assert_eq!(b.current_index(), 1);
    b.set_current_index(9);
    assert_eq!(b.current_index(), 1);
}

#[test]
fn adding_a_path_inserts_it_by_name_and_keeps_the_current_file() {
    let mut b = opened();
    b.last();
    b.add_path("/photos/B2.png".to_string());
    assert_eq!(names(&b), vec!["/photos/A.jpg", "/photos/b.png", "/photos/B2.png", "/photos/c.GIF"]);
    assert_eq!(b.current(), Some("/photos/c.GIF".to_string()));
}

#[test]
fn adding_a_listed_or_unsupported_path_changes_nothing() {
    let mut b = opened();
    b.add_path("/photos/b.png".to_string());
    b.add_path("/photos/readme.md".to_string());
    assert_eq!(b.len(), 3);
}

#[test]
fn removing_paths_keeps_the_index_inside_the_list() {
    let mut b = opened();
    b.last();
    b.remove_paths(&["/photos/c.GIF".to_string(), "/elsewhere/x.png".to_string()]);
    assert_eq!(names(&b), vec!["/photos/A.jpg", "/photos/b.png"]);
    assert_eq!(b.current_index(), 1);
    b.remove_paths(&["/photos/A.jpg".to_string(), "/photos/b.png".to_string()]);
    assert!(b.is_empty());
    assert_eq!(b.current_index(), 0);
}

#[test]
fn leaving_a_directory_remembers_it() {
    let mut b = FileBrowser::new();
    b.open_directory("/a", true, vec![], Duration::from_millis(1));
    b.open_directory("/b", true, vec![], Duration::from_millis(1));
    b.open_directory("/b", true, vec![], Duration::from_millis(1));
    assert_eq!(b.recent_directories().to_vec(), vec!["/a".to_string()]);
}

#[test]
fn at_most_twenty_recent_directories() {
    let mut b = FileBrowser::new();
    for i in 0..23 {
        b.open_directory(&format!("/d{}", i), true, vec![], Duration::from_millis(1));
    }
    let recent = b.recent_directories();
    assert_eq!(recent.len(), 20);
    assert_eq!(recent[0], "/d2");
    assert_eq!(recent[19], "/d21");
}

#[test]
fn bookmarking_twice_keeps_one_bookmark() {
    let mut b = opened();
    b.bookmark_current();
    b.bookmark_current();
    assert_eq!(b.bookmarks().to_vec(), vec!["/photos".to_string()]);
    let mut empty = FileBrowser::new();
    empty.bookmark_current();
    assert!(empty.bookmarks().is_empty());
}

#[test]
fn sort_and_filter_reindex_an_open_directory() {
    let mut b = opened();
    b.next();
    b.set_sort(SortField::Size, SortDirection::Descending, vec![entry("/photos/z.png", true)]);
    assert_eq!(names(&b), vec!["/photos/z.png"]);
    assert_eq!(b.current_index(), 0);
    let mut f = ImageFilter::new();
    f.search_query = Some("x".to_string());
    b.set_filter(f, listing());
    assert_eq!(b.len(), 3);
    let mut fresh = FileBrowser::new();
    fresh.set_sort(SortField::Date, SortDirection::Ascending, listing());
    assert!(fresh.is_empty());
}

#[test]
fn supported_images_by_extension_in_any_case() {
    assert!(is_supported_image("/a/b.PNG"));
    assert!(is_supported_image("/a/raw.Cr3"));
    assert!(!is_supported_image("/a/b.txt"));
    assert!(!is_supported_image("/a/noext"));
    assert!(!is_supported_image("/a/.png"));
    assert_eq!(supported_extensions().len(), 28);
}

#[test]
fn filter_by_type_and_name() {
    let mut f = ImageFilter::new();
    assert!(f.matches("/x/anything.png", None));
    f.file_types = vec!["jpg".to_string()];
    f.search_query = Some("Beach".to_string());
    assert!(f.matches("/x/beach_day.JPG", None));
    assert!(!f.matches("/x/beach.png", None));
    assert!(!f.matches("/x/city.jpg", None));
    let kept = f.apply(vec![
        ("/x/BEACH2.jpg".to_string(), None),
        ("/x/city.jpg".to_string(), None),
        ("/x/beach1.jpg".to_string(), None),
    ]);
    assert_eq!(kept, vec!["/x/BEACH2.jpg".to_string(), "/x/beach1.jpg".to_string()]);
}

fn facts(width: u32, height: u32, modified: Option<i64>) -> Option<ImageFacts> {
    Some(ImageFacts { width, height, modified })
}

#[test]
fn filter_by_size_orientation_and_date() {
    let mut f = ImageFilter::new();
    f.min_width = Some(1000);
    assert!(!f.matches("wide.png", facts(500, 300, None)));
    assert!(f.matches("wide.png", facts(1000, 300, None)));
    assert!(!f.matches("wide.png", None));
    f.max_height = Some(400);
    assert!(!f.matches("tall.png", facts(1200, 800, None)));
    let mut o = ImageFilter::new();
    o.orientation = Some(Orientation::Portrait);
    assert!(o.matches("p.png", facts(300, 500, None)));
    assert!(!o.matches("p.png", facts(500, 300, None)));
    o.orientation = Some(Orientation::Panoramic);
    assert!(o.matches("p.png", facts(2000, 1000, None)));
    assert!(!o.matches("p.png", facts(1999, 1000, None)));
    o.orientation = Some(Orientation::Square);
    assert!(o.matches("p.png", facts(64, 64, None)));
    let mut d = ImageFilter::new();
    d.date_from = Some(100);
    d.date_to = Some(200);
    assert!(d.matches("d.png", facts(1, 1, Some(150))));
    assert!(d.matches("d.png", facts(1, 1, Some(200))));
    assert!(!d.matches("d.png", facts(1, 1, Some(201))));
    assert!(!d.matches("d.png", facts(1, 1, None)));
    let kept = f.apply(vec![
        ("a.png".to_string(), facts(1500, 300, None)),
        ("b.png".to_string(), facts(900, 300, None)),
        ("c.png".to_string(), None),
    ]);
    assert_eq!(kept, vec!["a.png".to_string()]);
}

#[test]
fn changes_in_the_open_directory_reindex_it() {
    let mut b = opened();
    b.next();
    b.check_for_updates(false, vec![]);
    assert_eq!(b.len(), 3);
    assert_eq!(b.current_index(), 1);
    b.check_for_updates(true, vec![entry("/photos/new.png", true)]);
    assert_eq!(names(&b), vec!["/photos/new.png"]);
    assert_eq!(b.current_index(), 0);
    let mut closed = FileBrowser::new();
    closed.check_for_updates(true, listing());
    assert!(closed.is_empty());
}

#[test]
fn opening_an_unlisted_file_asks_for_its_folder() {
    let empty = FileBrowser::new();
    assert_eq!(empty.folder_to_open_for("/photos/b.png"), Some("/photos".to_string()));
    let b = opened();
    assert_eq!(b.folder_to_open_for("/photos/b.png"), None);
    assert_eq!(b.folder_to_open_for("/photos//b.png"), None);
    assert_eq!(b.folder_to_open_for("/other/x.png"), Some("/other".to_string()));
}

fn facts_entry(p: &str, size: u64, modified: Option<i64>, pixels: Option<u64>, color: Option<&str>) -> ListedFile {
    ListedFile {
        path: p.to_string(),
        is_file: true,
        size,
        modified,
        pixels,
        color: color.map(|c| c.to_string()),
    }
}

fn abc() -> Vec<ListedFile> {
    vec![
        facts_entry("/d/b.png", 30, Some(5), Some(100), Some("Rgb8")),
        facts_entry("/d/a.png", 20, None, Some(400), Some("Rgba8")),
        facts_entry("/d/notes.txt", 1, Some(1), None, None),
        facts_entry("/d/c.png", 10, Some(9), None, Some("L8")),
    ]
}

#[test]
fn sorting_follows_field_and_direction() {
    let mut b = FileBrowser::new();
    b.open_directory("/d", true, abc(), Duration::from_millis(1));
    assert_eq!(names(&b), vec!["/d/a.png", "/d/b.png", "/d/c.png"]);
    b.next();
    b.set_sort(SortField::Name, SortDirection::Descending, abc());
    assert_eq!(names(&b), vec!["/d/c.png", "/d/b.png", "/d/a.png"]);
    assert_eq!(b.current_index(), 0);
    b.set_sort(SortField::Size, SortDirection::Ascending, abc());
    assert_eq!(names(&b), vec!["/d/c.png", "/d/a.png", "/d/b.png"]);
    b.set_sort(SortField::Date, SortDirection::Descending, abc());
    assert_eq!(names(&b), vec!["/d/c.png", "/d/b.png", "/d/a.png"]);
    b.set_sort(SortField::Resolution, SortDirection::Ascending, abc());
    assert_eq!(names(&b), vec!["/d/c.png", "/d/b.png", "/d/a.png"]);
    b.set_sort(SortField::ColorProfile, SortDirection::Ascending, abc());
    assert_eq!(names(&b), vec!["/d/c.png", "/d/b.png", "/d/a.png"]);
    b.set_sort(SortField::Random, SortDirection::Ascending, abc());
    assert_eq!(names(&b), vec!["/d/b.png", "/d/a.png", "/d/c.png"]);
    let mut closed = FileBrowser::new();
    closed.set_sort(SortField::Size, SortDirection::Descending, abc());
    assert!(closed.is_empty());
}

#[test]
fn equal_keys_keep_the_listing_order_ascending() {
    let mut b = FileBrowser::new();
    let same = vec![facts_entry("/d/x.png", 5, None, None, None), facts_entry("/d/y.png", 5, None, None, None)];
    b.open_directory("/d", true, same.clone(), Duration::from_millis(1));
    b.set_sort(SortField::Size, SortDirection::Ascending, same.clone());
    assert_eq!(names(&b), vec!["/d/x.png", "/d/y.png"]);
    b.set_sort(SortField::Size, SortDirection::Descending, same);
    assert_eq!(names(&b), vec!["/d/y.png", "/d/x.png"]);
}

#[test]
fn an_empty_filter_keeps_every_image() {
    let f = ImageFilter::new();
    let kept = f.apply(vec![("b.png".to_string(), None), ("a.txt".to_string(), Some(ImageFacts { width: 1, height: 1, modified: None }))]);
    assert_eq!(kept, vec!["b.png".to_string(), "a.txt".to_string()]);
}
