use crate::sorting::{
    is_supported_image, name_or_empty, spec_is_supported_image, ImageFilter, SortDirection,
    SortField,
};
use crate::text::{
    chars_le, file_name, parent, path_parent_of, lemma_lex_le_total, lemma_lex_le_trans, lex_le, same_place, paths_equal,
    str_to_lowercase, to_chars, to_lowercase,
};
use std::time::Duration;
use vstd::prelude::*;
use vstd::seq_lib::to_multiset_insert;

verus! {

// ---------------------------------------------------------------------------
// Ordering files by name
// ---------------------------------------------------------------------------

/// The key that files are ordered by: the lowercased file name (empty when there is none).
pub open spec fn sort_key(path: Seq<char>) -> Seq<char> {
    str_to_lowercase(name_or_empty(path))
}

/// The text of each path.
pub open spec fn views(v: Seq<String>) -> Seq<Seq<char>> {
    v.map_values(|s: String| s@)
}

/// Paths are in order of their sort keys.
pub open spec fn sorted_by_name(s: Seq<Seq<char>>) -> bool {
    forall|i: int, j: int| 0 <= i < j < s.len() ==> lex_le(sort_key(s[i]), sort_key(s[j]))
}

/// The number of leading paths whose key is at most `key`: where a path with that key goes
/// in a list sorted by name (after the paths with an equal key).
pub open spec fn insertion_point(t: Seq<Seq<char>>, key: Seq<char>) -> nat
    decreases t.len(),
{
    if t.len() == 0 {
        0
    } else if lex_le(sort_key(t[0]), key) {
        1 + insertion_point(t.drop_first(), key)
    } else {
        0
    }
}

/// `t` with `p` inserted at its insertion point.
pub open spec fn insert_by_name(t: Seq<Seq<char>>, p: Seq<char>) -> Seq<Seq<char>> {
    t.insert(insertion_point(t, sort_key(p)) as int, p)
}

pub proof fn lemma_insertion_point(t: Seq<Seq<char>>, key: Seq<char>)
    ensures
        insertion_point(t, key) <= t.len(),
        forall|i: int| 0 <= i < insertion_point(t, key) ==> lex_le(sort_key(#[trigger] t[i]), key),
        insertion_point(t, key) < t.len() ==> !lex_le(sort_key(t[insertion_point(t, key) as int]), key),
    decreases t.len(),
{
    if t.len() > 0 && lex_le(sort_key(t[0]), key) {
        lemma_insertion_point(t.drop_first(), key);
        assert forall|i: int| 0 <= i < insertion_point(t, key) implies lex_le(sort_key(#[trigger] t[i]), key) by {
            if i > 0 {
                assert(t[i] == t.drop_first()[i - 1]);
            }
        }
    }
}

/// Inserting at the insertion point keeps a sorted list sorted.
pub proof fn lemma_insert_sorted(t: Seq<Seq<char>>, p: Seq<char>)
    ensures
        sorted_by_name(t) ==> sorted_by_name(insert_by_name(t, p)),
        insert_by_name(t, p).len() == t.len() + 1,
        insert_by_name(t, p).to_multiset() == t.to_multiset().insert(p),
{
    let n = insertion_point(t, sort_key(p)) as int;
    lemma_insertion_point(t, sort_key(p));
    to_multiset_insert(t, n, p);
    let r = insert_by_name(t, p);
    if sorted_by_name(t) {
    assert forall|i: int, j: int| 0 <= i < j < r.len() implies lex_le(sort_key(r[i]), sort_key(r[j])) by {
        if j < n {
            assert(r[i] == t[i] && r[j] == t[j]);
        } else if j == n {
            assert(r[i] == t[i]);
        } else if i == n {
            // t[n] > key(p), and t[j - 1] >= t[n]
            lemma_lex_le_total(sort_key(t[n]), sort_key(p));
            if j - 1 > n {
                lemma_lex_le_trans(sort_key(p), sort_key(t[n]), sort_key(t[j - 1]));
            }
        } else if i < n {
            assert(r[i] == t[i]);
            assert(r[j] == t[j - 1]);
        } else {
            assert(r[i] == t[i - 1] && r[j] == t[j - 1]);
        }
    }
}
}


/// A filtered sorted list is sorted.
pub proof fn lemma_filter_sorted(s: Seq<Seq<char>>, pred: spec_fn(Seq<char>) -> bool)
    requires
        sorted_by_name(s),
    ensures
        sorted_by_name(s.filter(pred)),
    decreases s.len(),
{
    reveal(Seq::filter);
    if s.len() > 0 {
        let d = s.drop_last();
        lemma_filter_sorted(d, pred);
        let sub = d.filter(pred);
        if pred(s.last()) {
            assert forall|i: int| 0 <= i < sub.len() implies lex_le(sort_key(sub[i]), sort_key(s.last())) by {
                #[allow(deprecated)]
                d.filter_lemma(pred);
                d.lemma_filter_contains_rev(pred, sub[i]);
                let k = choose|k: int| 0 <= k < d.len() && d[k] == sub[i];
                assert(s[k] == d[k]);
            }
            let r = sub.push(s.last());
            assert forall|i: int, j: int| 0 <= i < j < r.len() implies lex_le(sort_key(r[i]), sort_key(r[j])) by {
                if j < sub.len() {
                    assert(r[i] == sub[i] && r[j] == sub[j]);
                } else {
                    assert(r[i] == sub[i]);
                }
            }
        }
    }
}

/// The entries of a directory listing that the browser shows: supported images among its
/// regular files, in listing order.
pub open spec fn listed_entries(entries: Seq<ListedFile>) -> Seq<ListedFile>
    decreases entries.len(),
{
    if entries.len() == 0 {
        Seq::empty()
    } else {
        let rest = listed_entries(entries.drop_last());
        let e = entries.last();
        if e.is_file && spec_is_supported_image(e.path@) {
            rest.push(e)
        } else {
            rest
        }
    }
}

/// `a <= b` on optional values, a missing value first.
pub open spec fn option_le(a: Option<int>, b: Option<int>) -> bool {
    match (a, b) {
        (None, _) => true,
        (Some(_), None) => false,
        (Some(x), Some(y)) => x <= y,
    }
}

pub open spec fn opt_i64(a: Option<i64>) -> Option<int> {
    match a {
        Some(x) => Some(x as int),
        None => None,
    }
}

pub open spec fn opt_u64(a: Option<u64>) -> Option<int> {
    match a {
        Some(x) => Some(x as int),
        None => None,
    }
}

/// The color-profile text of an entry (empty when unknown).
pub open spec fn color_text(e: ListedFile) -> Seq<char> {
    match e.color {
        Some(c) => c@,
        None => Seq::empty(),
    }
}

/// Whether entry `a` comes no later than `b` when sorting ascending by `field`: by the
/// lowercased file name, the size in bytes, the modification time, the pixel count or the
/// color-profile text (an unknown time or pixel count first). Random order puts no entry
/// before another, so the listing's own order stays.
pub open spec fn entry_le(field: SortField, a: ListedFile, b: ListedFile) -> bool {
    match field {
        SortField::Name => lex_le(sort_key(a.path@), sort_key(b.path@)),
        SortField::Size => a.size <= b.size,
        SortField::Date => option_le(opt_i64(a.modified), opt_i64(b.modified)),
        SortField::Resolution => option_le(opt_u64(a.pixels), opt_u64(b.pixels)),
        SortField::ColorProfile => lex_le(color_text(a), color_text(b)),
        SortField::Random => true,
    }
}

/// The number of leading entries of `t` that come no later than `e`: where `e` goes in a
/// sorted `t` (after the entries equal to it).
pub open spec fn entry_insertion_point(field: SortField, t: Seq<ListedFile>, e: ListedFile) -> nat
    decreases t.len(),
{
    if t.len() == 0 {
        0
    } else if entry_le(field, t[0], e) {
        1 + entry_insertion_point(field, t.drop_first(), e)
    } else {
        0
    }
}

/// The stable ascending sort of `s` by `field`: each entry in turn inserted after every entry
/// that comes no later than it.
pub open spec fn sort_entries(field: SortField, s: Seq<ListedFile>) -> Seq<ListedFile>
    decreases s.len(),
{
    if s.len() == 0 {
        s
    } else {
        let t = sort_entries(field, s.drop_last());
        t.insert(entry_insertion_point(field, t, s.last()) as int, s.last())
    }
}

/// The paths of entries.
pub open spec fn paths_of(s: Seq<ListedFile>) -> Seq<Seq<char>> {
    s.map_values(|e: ListedFile| e.path@)
}

/// The browser's files for a directory listing: its supported images sorted by `field`,
/// ascending, or the ascending order reversed.
pub open spec fn indexed_files(field: SortField, direction: SortDirection, entries: Seq<ListedFile>) -> Seq<Seq<char>> {
    let up = paths_of(sort_entries(field, listed_entries(entries)));
    match direction {
        SortDirection::Ascending => up,
        SortDirection::Descending => up.reverse(),
    }
}

/// Whether the browser's files follow the order by name, ascending, that adding a path
/// keeps: a directory is open and sorted by name, ascending.
pub open spec fn by_name_ascending(s: BrowserState) -> bool {
    s.directory is Some && s.sort_field == SortField::Name && s.sort_direction == SortDirection::Ascending
}

/// Whether `paths` lists `p`: some path in it equals `p` by path comparison.
pub open spec fn lists_path(paths: Seq<Seq<char>>, p: Seq<char>) -> bool {
    exists|j: int| 0 <= j < paths.len() && same_place(paths[j], p)
}

/// The index after moving forward one file, wrapping to the first.
pub open spec fn next_index(i: nat, len: nat) -> nat {
    ((i + 1) % len) as nat
}

/// The index after moving back one file, wrapping to the last.
pub open spec fn previous_index(i: nat, len: nat) -> nat {
    if i == 0 {
        (len - 1) as nat
    } else {
        (i - 1) as nat
    }
}

/// How many recent directories the browser remembers.
pub open spec fn recent_limit() -> nat {
    20
}

/// The state with the current index set to `i`.
pub open spec fn with_index(s: BrowserState, i: nat) -> BrowserState {
    BrowserState { index: i, ..s }
}

/// The recent directories after leaving `dir` for `path`: a directory other than `path` is
/// remembered, and the oldest is forgotten beyond twenty.
pub open spec fn remember_recent(recent: Seq<Seq<char>>, dir: Option<Seq<char>>, path: Seq<char>) -> Seq<Seq<char>> {
    match dir {
        Some(d) => if !same_place(d, path) {
            if recent.push(d).len() > recent_limit() {
                recent.push(d).drop_first()
            } else {
                recent.push(d)
            }
        } else {
            recent
        },
        None => recent,
    }
}

/// The state after opening the directory `path` whose listing is `entries`.
pub open spec fn after_open_directory(s: BrowserState, path: Seq<char>, entries: Seq<ListedFile>, elapsed: Duration) -> BrowserState {
    BrowserState {
        index_duration: elapsed,
        directory: Some(path),
        files: indexed_files(s.sort_field, s.sort_direction, entries),
        index: 0,
        recent: remember_recent(s.recent, s.directory, path),
        ..s
    }
}

/// The index after a path is inserted at `pos`: an insertion at or before the current file
/// moves the index one on, staying inside the list.
pub open spec fn index_after_insert(index: nat, pos: nat, new_len: nat) -> nat {
    if pos <= index {
        if index + 1 <= new_len - 1 {
            index + 1
        } else {
            (new_len - 1) as nat
        }
    } else {
        index
    }
}

/// Whether adding `path` changes the file list: it is a supported image that no listed file
/// equals by path comparison.
pub open spec fn adds_path(s: BrowserState, path: Seq<char>) -> bool {
    spec_is_supported_image(path) && !lists_path(s.files, path)
}

/// The state after adding `path`.
pub open spec fn after_add_path(s: BrowserState, path: Seq<char>) -> BrowserState {
    if adds_path(s, path) {
        BrowserState {
            files: insert_by_name(s.files, path),
            index: index_after_insert(s.index, insertion_point(s.files, sort_key(path)), s.files.len() + 1),
            ..s
        }
    } else {
        s
    }
}

/// The files left after removing those that `paths` lists.
pub open spec fn without_paths(files: Seq<Seq<char>>, paths: Seq<Seq<char>>) -> Seq<Seq<char>> {
    files.filter(|p: Seq<char>| !lists_path(paths, p))
}

/// The state after removing the files that `paths` lists; the index stays inside the list.
pub open spec fn after_remove_paths(s: BrowserState, paths: Seq<Seq<char>>) -> BrowserState {
    let files = without_paths(s.files, paths);
    BrowserState {
        files: files,
        index: if files.len() > 0 {
            if s.index <= files.len() - 1 { s.index } else { (files.len() - 1) as nat }
        } else {
            0
        },
        ..s
    }
}

/// The state after bookmarking the current directory, unless a bookmark already equals it.
pub open spec fn after_bookmark_current(s: BrowserState) -> BrowserState {
    match s.directory {
        Some(d) => if !lists_path(s.bookmarks, d) {
            BrowserState { bookmarks: s.bookmarks.push(d), ..s }
        } else {
            s
        },
        None => s,
    }
}

/// `i` is the first index whose path equals `p` by path comparison.
pub open spec fn is_first_listed(files: Seq<Seq<char>>, p: Seq<char>, i: int) -> bool {
    &&& 0 <= i < files.len()
    &&& same_place(files[i], p)
    &&& forall|j: int| 0 <= j < i ==> !same_place(#[trigger] files[j], p)
}

/// The state after making the first file equal to `p` current, when there is one.
pub open spec fn after_select_path(s: BrowserState, p: Seq<char>) -> BrowserState {
    if lists_path(s.files, p) {
        with_index(s, (choose|i: int| is_first_listed(s.files, p, i)) as nat)
    } else {
        s
    }
}

/// Whether an exported file lies in the open directory: its parent equals the directory.
pub open spec fn in_open_directory(s: BrowserState, p: Seq<char>) -> bool {
    match (s.directory, path_parent_of(p)) {
        (Some(d), Some(q)) => same_place(q, d),
        _ => false,
    }
}

/// The state after an export wrote `p`: a file in the open directory is added, and the
/// exported file becomes current when it is listed.
pub open spec fn after_exported(s: BrowserState, p: Seq<char>) -> BrowserState {
    let added = if in_open_directory(s, p) { after_add_path(s, p) } else { s };
    after_select_path(added, p)
}

proof fn lemma_first_listed_unique(files: Seq<Seq<char>>, p: Seq<char>, i: int, k: int)
    requires
        is_first_listed(files, p, i),
        is_first_listed(files, p, k),
    ensures
        i == k,
{
    if i < k {
        assert(!same_place(files[i], p));
    } else if k < i {
        assert(!same_place(files[k], p));
    }
}

// ---------------------------------------------------------------------------
// The file browser
// ---------------------------------------------------------------------------

/// One entry of a directory listing, as the file system reported it.
#[derive(Debug, Clone)]
pub struct ListedFile {
    /// The entry's full path
    pub path: String,
    /// Whether the entry is a regular file
    pub is_file: bool,
    /// The size in bytes
    pub size: u64,
    /// When it was last modified (seconds since the Unix epoch), where known
    pub modified: Option<i64>,
    /// Its width times its height in pixels, where known
    pub pixels: Option<u64>,
    /// Its color profile (the color type of its pixels), where known
    pub color: Option<String>,
}

/// The abstract state of a [`FileBrowser`].
pub struct BrowserState {
    pub directory: Option<Seq<char>>,
    pub files: Seq<Seq<char>>,
    pub index: nat,
    pub sort_field: SortField,
    pub sort_direction: SortDirection,
    pub recent: Seq<Seq<char>>,
    pub bookmarks: Seq<Seq<char>>,
    pub filter: ImageFilter,
    /// How long the last directory indexing took
    pub index_duration: Duration,
}

/// `Duration::from_secs(0)`.
#[verifier::external_body]
fn zero_duration() -> Duration {
    Duration::from_secs(0)
}

/// File browser state for navigating through images in a directory
pub struct FileBrowser {
    current_directory: Option<String>,
    files: Vec<String>,
    keys: Vec<Vec<char>>,
    current_index: usize,
    sort_field: SortField,
    sort_direction: SortDirection,
    filter: ImageFilter,
    recent_directories: Vec<String>,
    bookmarks: Vec<String>,
    last_index_duration: Duration,
}

impl View for FileBrowser {
    type V = BrowserState;

    closed spec fn view(&self) -> BrowserState {
        BrowserState {
            directory: match self.current_directory {
                Some(d) => Some(d@),
                None => None,
            },
            files: views(self.files@),
            index: self.current_index as nat,
            sort_field: self.sort_field,
            sort_direction: self.sort_direction,
            recent: views(self.recent_directories@),
            bookmarks: views(self.bookmarks@),
            filter: self.filter,
            index_duration: self.last_index_duration,
        }
    }
}

/// The key of a path.
fn name_key(path: &str) -> (r: Vec<char>)
    ensures
        r@ == sort_key(path@),
{
    let name = match file_name(path) {
        Some(n) => n,
        None => String::new(),
    };
    let lower = to_lowercase(name.as_str());
    to_chars(lower.as_str())
}

/// A text option as a value of the library.
pub open spec fn text_option(t: Option<String>) -> Option<Seq<char>> {
    match t {
        Some(s) => Some(s@),
        None => None,
    }
}

impl FileBrowser {
    /// Whether a browser state is one that the browser's operations keep: files sorted by
    /// name when that is the sort order, the current index inside the list (0 when it is
    /// empty), at most twenty recent directories and no bookmark twice.
    pub open spec fn well_formed(s: BrowserState) -> bool {
        &&& by_name_ascending(s) ==> sorted_by_name(s.files)
        &&& (s.files.len() == 0 ==> s.index == 0)
        &&& (s.files.len() > 0 ==> s.index < s.files.len())
        &&& s.recent.len() <= recent_limit()
        &&& forall|i: int, j: int|
            0 <= i < j < s.bookmarks.len() ==> !same_place(s.bookmarks[i], s.bookmarks[j])
    }

    pub closed spec fn keys_match(&self) -> bool {
        &&& self.keys@.len() == self.files@.len()
        &&& forall|i: int| 0 <= i < self.keys@.len() ==> #[trigger] self.keys@[i]@ == sort_key(self.files@[i]@)
    }

    /// The browser is in a state that its operations keep.
    pub open spec fn wf(&self) -> bool {
        &&& Self::well_formed(self@)
        &&& self.keys_match()
    }

    pub fn new() -> (r: Self)
        ensures
            r.wf(),
            r@.directory is None,
            r@.files == Seq::<Seq<char>>::empty(),
            r@.index == 0,
            r@.sort_field == SortField::Name,
            r@.sort_direction == SortDirection::Ascending,
            r@.recent == Seq::<Seq<char>>::empty(),
            r@.bookmarks == Seq::<Seq<char>>::empty(),
            r@.filter.is_empty_filter(),
    {
        let r = FileBrowser {
            current_directory: None,
            files: Vec::new(),
            keys: Vec::new(),
            current_index: 0,
            sort_field: SortField::Name,
            sort_direction: SortDirection::Ascending,
            filter: ImageFilter::new(),
            recent_directories: Vec::new(),
            bookmarks: Vec::new(),
            last_index_duration: zero_duration(),
        };
        assert(views(r.files@) =~= Seq::<Seq<char>>::empty());
        assert(views(r.recent_directories@) =~= Seq::<Seq<char>>::empty());
        assert(views(r.bookmarks@) =~= Seq::<Seq<char>>::empty());
        r
    }

    /// Open a directory given whether it is one and its listing: a path that is not a
    /// directory changes nothing; otherwise the directory left behind is remembered, the
    /// listing's supported images become the files, in the sort order (see [`indexed_files`]),
    /// and the first is current.
    pub fn open_directory(&mut self, path: &str, is_dir: bool, entries: Vec<ListedFile>, elapsed: Duration)
        requires
            old(self).wf(),
        ensures
            final(self).wf(),
            !is_dir ==> final(self)@ == old(self)@,
            is_dir ==> final(self)@ == after_open_directory(old(self)@, path@, entries@, elapsed),
    {
        if !is_dir {
            return;
        }
        let ghost s0 = self@;
        match &self.current_directory {
            Some(current) => {
                if !paths_equal(current.as_str(), path) {
                    let remembered = current.clone();
                    self.recent_directories.push(remembered);
                    if self.recent_directories.len() > 20 {
                        self.recent_directories.remove(0);
                    }
                }
            },
            None => {},
        }
        proof {
            let r0 = s0.recent;
            match s0.directory {
                Some(d) => {
                    assert(views(old(self).recent_directories@.push(old(self).current_directory->0)) =~= r0.push(d));
                    assert(views(old(self).recent_directories@.push(old(self).current_directory->0).subrange(1, r0.len() as int + 1)) =~= r0.push(d).drop_first());
                },
                None => {},
            }
        }
        assert(views(self.recent_directories@) == remember_recent(s0.recent, s0.directory, path@));
        self.current_directory = Some(String::from_str(path));
        self.index_directory(entries);
        self.last_index_duration = elapsed;
    }

    /// Move to the next file, wrapping to the first; `None` when there are no files.
    pub fn next(&mut self) -> (r: Option<String>)
        requires
            old(self).wf(),
        ensures
            final(self).wf(),
            old(self)@.files.len() == 0 ==> r is None && final(self)@ == old(self)@,
            old(self)@.files.len() > 0 ==> (r matches Some(p) && final(self)@ == with_index(
                old(self)@,
                next_index(old(self)@.index, old(self)@.files.len()),
            ) && p@ == old(self)@.files[next_index(old(self)@.index, old(self)@.files.len()) as int]),
    {
        if self.files.len() == 0 {
            return None;
        }
        self.current_index = (self.current_index + 1) % self.files.len();
        Some(self.files[self.current_index].clone())
    }

    /// Move to the previous file, wrapping to the last; `None` when there are no files.
    pub fn previous(&mut self) -> (r: Option<String>)
        requires
            old(self).wf(),
        ensures
            final(self).wf(),
            old(self)@.files.len() == 0 ==> r is None && final(self)@ == old(self)@,
            old(self)@.files.len() > 0 ==> (r matches Some(p) && final(self)@ == with_index(
                old(self)@,
                previous_index(old(self)@.index, old(self)@.files.len()),
            ) && p@ == old(self)@.files[previous_index(old(self)@.index, old(self)@.files.len()) as int]),
    {
        if self.files.len() == 0 {
            return None;
        }
        self.current_index = if self.current_index == 0 {
            self.files.len() - 1
        } else {
            self.current_index - 1
        };
        Some(self.files[self.current_index].clone())
    }

    /// Go to the first file; `None` when there are no files.
    pub fn first(&mut self) -> (r: Option<String>)
        requires
            old(self).wf(),
        ensures
            final(self).wf(),
            old(self)@.files.len() == 0 ==> r is None && final(self)@ == old(self)@,
            old(self)@.files.len() > 0 ==> (r matches Some(p) && final(self)@ == with_index(old(self)@, 0)
                && p@ == old(self)@.files[0]),
    {
        if self.files.len() == 0 {
            return None;
        }
        self.current_index = 0;
        Some(self.files[0].clone())
    }

    /// Go to the last file; `None` when there are no files.
    pub fn last(&mut self) -> (r: Option<String>)
        requires
            old(self).wf(),
        ensures
            final(self).wf(),
            old(self)@.files.len() == 0 ==> r is None && final(self)@ == old(self)@,
            old(self)@.files.len() > 0 ==> (r matches Some(p) && final(self)@ == with_index(
                old(self)@,
                (old(self)@.files.len() - 1) as nat,
            ) && p@ == old(self)@.files.last()),
    {
        if self.files.len() == 0 {
            return None;
        }
        self.current_index = self.files.len() - 1;
        Some(self.files[self.files.len() - 1].clone())
    }

    /// Go to the file at `index`; `None`, with nothing changed, when there is no such file.
    pub fn go_to(&mut self, index: usize) -> (r: Option<String>)
        requires
            old(self).wf(),
        ensures
            final(self).wf(),
            index >= old(self)@.files.len() ==> r is None && final(self)@ == old(self)@,
            index < old(self)@.files.len() ==> (r matches Some(p) && final(self)@ == with_index(
                old(self)@,
                index as nat,
            ) && p@ == old(self)@.files[index as int]),
    {
        if index >= self.files.len() {
            return None;
        }
        self.current_index = index;
        Some(self.files[index].clone())
    }

    /// Make the file at `index` current, when there is one.
    pub fn set_current_index(&mut self, index: usize)
        requires
            old(self).wf(),
        ensures
            final(self).wf(),
            final(self)@ == (if index < old(self)@.files.len() {
                with_index(old(self)@, index as nat)
            } else {
                old(self)@
            }),
    {
        if index < self.files.len() {
            self.current_index = index;
        }
    }

    /// Add a path to the file list at its place by name, ascending (the one order that a path
    /// alone gives): only supported images that are not listed yet are added, and an insertion
    /// at or before the current file moves the index on.
    pub fn add_path(&mut self, path: String)
        requires
            old(self).wf(),
            old(self)@.files.len() < usize::MAX,
        ensures
            final(self).wf(),
            final(self)@ == after_add_path(old(self)@, path@),
    {
        if !is_supported_image(path.as_str()) {
            return;
        }
        let mut i: usize = 0;
        while i < self.files.len()
            invariant
                i <= self.files@.len(),
                forall|j: int| 0 <= j < i ==> !same_place(#[trigger] self.files@[j]@, path@),
                self.wf(),
                self@ == old(self)@,
                spec_is_supported_image(path@),
            decreases self.files@.len() - i,
        {
            if paths_equal(self.files[i].as_str(), path.as_str()) {
                assert(same_place(views(self.files@)[i as int], path@));
                return;
            }
            i = i + 1;
        }
        assert(!lists_path(self@.files, path@)) by {
            if lists_path(self@.files, path@) {
                let j = choose|j: int| 0 <= j < self@.files.len() && same_place(self@.files[j], path@);
                assert(self@.files[j] == self.files@[j]@);
            }
        }
        let ghost s0 = self@;
        let pos = self.insert_by_name(path);
        if pos <= self.current_index {
            let bumped = self.current_index.saturating_add(1);
            let top = self.files.len().saturating_sub(1);
            self.current_index = if bumped <= top { bumped } else { top };
        }
        proof {
            lemma_insertion_point(s0.files, sort_key(path@));
        }
    }

    /// Remove every file that `paths` lists, keeping the order of the rest; the index stays
    /// inside the list.
    pub fn remove_paths(&mut self, paths: &[String])
        requires
            old(self).wf(),
        ensures
            final(self).wf(),
            final(self)@ == after_remove_paths(old(self)@, views(paths@)),
    {
        let ghost s0 = self@;
        let ghost pv = views(paths@);
        let ghost pred = |p: Seq<char>| !lists_path(pv, p);
        let mut kept: Vec<String> = Vec::new();
        let mut kept_keys: Vec<Vec<char>> = Vec::new();
        let mut i: usize = 0;
        while i < self.files.len()
            invariant
                self.wf(),
                self@ == s0,
                pv == views(paths@),
                pred == (|p: Seq<char>| !lists_path(pv, p)),
                i <= self.files@.len(),
                views(kept@) == views(self.files@.subrange(0, i as int)).filter(pred),
                kept_keys@.len() == kept@.len(),
                forall|j: int| 0 <= j < kept_keys@.len() ==> #[trigger] kept_keys@[j]@ == sort_key(kept@[j]@),
            decreases self.files@.len() - i,
        {
            let ghost before = views(self.files@.subrange(0, i as int));
            assert(views(self.files@.subrange(0, i + 1)) =~= before.push(self.files@[i as int]@));
            assert(before.push(self.files@[i as int]@).drop_last() =~= before);
            reveal_with_fuel(Seq::filter, 1);
            let mut listed = false;
            let mut k: usize = 0;
            while k < paths.len()
                invariant
                    k <= paths@.len(),
                    i < self.files@.len(),
                    pv == views(paths@),
                    listed == exists|j: int| 0 <= j < k && same_place(#[trigger] pv[j], self.files@[i as int]@),
                decreases paths@.len() - k,
            {
                assert(pv[k as int] == paths@[k as int]@);
                if paths_equal(paths[k].as_str(), self.files[i].as_str()) {
                    listed = true;
                }
                k = k + 1;
            }
            assert(listed == lists_path(pv, self.files@[i as int]@));
            let ghost x = self.files@[i as int]@;
            assert(before.push(x).filter(pred) == (if pred(x) {
                before.filter(pred).push(x)
            } else {
                before.filter(pred)
            }));
            assert(pred(x) == !listed);
            if !listed {
                let ghost kv = views(kept@);
                kept.push(self.files[i].clone());
                kept_keys.push(self.keys[i].clone());
                assert(views(kept@) =~= kv.push(self.files@[i as int]@));
            }
            i = i + 1;
        }
        assert(self.files@.subrange(0, self.files@.len() as int) =~= self.files@);
        proof {
            if sorted_by_name(s0.files) {
                lemma_filter_sorted(s0.files, pred);
            }
        }
        self.files = kept;
        self.keys = kept_keys;
        if self.files.len() > 0 {
            let top = self.files.len() - 1;
            if self.current_index > top {
                self.current_index = top;
            }
        } else {
            self.current_index = 0;
        }
    }

    /// The current file; `None` when there are no files.
    pub fn current(&self) -> (r: Option<String>)
        requires
            self.wf(),
        ensures
            self@.files.len() == 0 ==> r is None,
            self@.files.len() > 0 ==> (r matches Some(p) && p@ == self@.files[self@.index as int]),
    {
        if self.files.len() == 0 {
            None
        } else {
            Some(self.files[self.current_index].clone())
        }
    }

    pub fn current_index(&self) -> (r: usize)
        ensures
            r == self@.index,
    {
        self.current_index
    }

    pub fn len(&self) -> (r: usize)
        ensures
            r == self@.files.len(),
    {
        self.files.len()
    }

    pub fn is_empty(&self) -> (r: bool)
        ensures
            r == (self@.files.len() == 0),
    {
        self.files.len() == 0
    }

    pub fn files(&self) -> (r: &[String])
        ensures
            views(r@) == self@.files,
    {
        self.files.as_slice()
    }

    pub fn current_directory(&self) -> (r: Option<&str>)
        ensures
            match r {
                Some(d) => self@.directory == Some(d@),
                None => self@.directory is None,
            },
    {
        match &self.current_directory {
            Some(d) => Some(d.as_str()),
            None => None,
        }
    }

    /// The field that files are sorted by.
    pub fn sort_field(&self) -> (r: SortField)
        ensures
            r == self@.sort_field,
    {
        self.sort_field
    }

    /// Set the sort order and, when a directory is open, index it again from its listing.
    pub fn set_sort(&mut self, field: SortField, direction: SortDirection, entries: Vec<ListedFile>)
        requires
            old(self).wf(),
        ensures
            final(self).wf(),
            final(self)@ == (if old(self)@.directory is Some {
                BrowserState { sort_field: field, sort_direction: direction, files: indexed_files(field, direction, entries@), index: 0, ..old(self)@ }
            } else {
                BrowserState { sort_field: field, sort_direction: direction, ..old(self)@ }
            }),
    {
        self.sort_field = field;
        self.sort_direction = direction;
        if self.current_directory.is_some() {
            self.index_directory(entries);
        }
    }

    /// Set the filter and, when a directory is open, index it again from its listing.
    pub fn set_filter(&mut self, filter: ImageFilter, entries: Vec<ListedFile>)
        requires
            old(self).wf(),
        ensures
            final(self).wf(),
            final(self)@ == (if old(self)@.directory is Some {
                BrowserState { filter: filter, files: indexed_files(old(self)@.sort_field, old(self)@.sort_direction, entries@), index: 0, ..old(self)@ }
            } else {
                BrowserState { filter: filter, ..old(self)@ }
            }),
    {
        self.filter = filter;
        if self.current_directory.is_some() {
            self.index_directory(entries);
        }
    }

    /// After the watched directory reported a change (`changed`), index it again from its
    /// listing; without a change or an open directory nothing happens.
    pub fn check_for_updates(&mut self, changed: bool, entries: Vec<ListedFile>)
        requires
            old(self).wf(),
        ensures
            final(self).wf(),
            final(self)@ == (if changed && old(self)@.directory is Some {
                BrowserState { files: indexed_files(old(self)@.sort_field, old(self)@.sort_direction, entries@), index: 0, ..old(self)@ }
            } else {
                old(self)@
            }),
    {
        if changed && self.current_directory.is_some() {
            self.index_directory(entries);
        }
    }

    /// Bookmark the current directory unless a bookmark already equals it.
    pub fn bookmark_current(&mut self)
        requires
            old(self).wf(),
        ensures
            final(self).wf(),
            final(self)@ == after_bookmark_current(old(self)@),
    {
        let ghost s0 = self@;
        match &self.current_directory {
            Some(dir) => {
                let mut i: usize = 0;
                while i < self.bookmarks.len()
                    invariant
                        i <= self.bookmarks@.len(),
                        self@ == s0,
                        self.wf(),
                        self.current_directory == Some(*dir),
                        forall|j: int| 0 <= j < i ==> !same_place(#[trigger] self.bookmarks@[j]@, dir@),
                    decreases self.bookmarks@.len() - i,
                {
                    if paths_equal(self.bookmarks[i].as_str(), dir.as_str()) {
                        assert(same_place(s0.bookmarks[i as int], dir@));
                        return;
                    }
                    i = i + 1;
                }
                assert(!lists_path(s0.bookmarks, dir@)) by {
                    if lists_path(s0.bookmarks, dir@) {
                        let j = choose|j: int| 0 <= j < s0.bookmarks.len() && same_place(s0.bookmarks[j], dir@);
                        assert(s0.bookmarks[j] == self.bookmarks@[j]@);
                    }
                }
                let d = dir.clone();
                self.bookmarks.push(d);
                assert(views(self.bookmarks@) =~= s0.bookmarks.push(dir@));
            },
            None => {},
        }
    }

    /// Whether some file equals `path` by path comparison.
    pub fn lists(&self, path: &str) -> (r: bool)
        ensures
            r == lists_path(self@.files, path@),
    {
        let mut i: usize = 0;
        while i < self.files.len()
            invariant
                i <= self.files@.len(),
                forall|j: int| 0 <= j < i ==> !same_place(#[trigger] self@.files[j], path@),
            decreases self.files@.len() - i,
        {
            if paths_equal(self.files[i].as_str(), path) {
                assert(same_place(self@.files[i as int], path@));
                return true;
            }
            i = i + 1;
        }
        false
    }

    /// The folder to open so that a file opened by path can be stepped through with its
    /// neighbours: its parent, where no folder is open or the open one does not list the
    /// file; none otherwise.
    pub fn folder_to_open_for(&self, path: &str) -> (r: Option<String>)
        ensures
            text_option(r) == (if self@.files.len() == 0 || !lists_path(self@.files, path@) {
                path_parent_of(path@)
            } else {
                None
            }),
    {
        if self.files.len() == 0 || !self.lists(path) {
            parent(path)
        } else {
            None
        }
    }

    /// Make the first file equal to `path` current, when there is one.
    pub fn select_path(&mut self, path: &str)
        requires
            old(self).wf(),
        ensures
            final(self).wf(),
            final(self)@ == after_select_path(old(self)@, path@),
    {
        let ghost s0 = self@;
        let mut i: usize = 0;
        while i < self.files.len()
            invariant
                i <= self.files@.len(),
                self@ == s0,
                s0 == old(self)@,
                *self == *old(self),
                self.wf(),
                forall|j: int| 0 <= j < i ==> !same_place(#[trigger] s0.files[j], path@),
            decreases self.files@.len() - i,
        {
            if paths_equal(self.files[i].as_str(), path) {
                proof {
                    assert(is_first_listed(s0.files, path@, i as int));
                    let k = choose|k: int| is_first_listed(s0.files, path@, k);
                    lemma_first_listed_unique(s0.files, path@, i as int, k);
                }
                self.current_index = i;
                assert(self@ == with_index(s0, i as nat));
                return;
            }
            i = i + 1;
        }
    }

    /// Whether a file lies in the open directory: its parent equals the directory.
    pub fn in_directory(&self, path: &str) -> (r: bool)
        ensures
            r == in_open_directory(self@, path@),
    {
        match (&self.current_directory, parent(path)) {
            (Some(d), Some(q)) => paths_equal(q.as_str(), d.as_str()),
            _ => false,
        }
    }

    /// After an export wrote `export_path`: a file in the open directory is added to the list,
    /// and the exported file becomes current when it is listed.
    pub fn add_exported(&mut self, export_path: String)
        requires
            old(self).wf(),
            old(self)@.files.len() < usize::MAX,
        ensures
            final(self).wf(),
            final(self)@ == after_exported(old(self)@, export_path@),
    {
        if self.in_directory(export_path.as_str()) {
            self.add_path(export_path.clone());
        }
        self.select_path(export_path.as_str());
    }

    /// The recent directories to show: the ten most recent at most, the latest first.
    pub fn recent_shown(&self) -> (r: Vec<String>)
        ensures
            r@.len() == (if self@.recent.len() < 10 { self@.recent.len() } else { 10 }),
            forall|k: int| 0 <= k < r@.len() ==> #[trigger] r@[k]@ == self@.recent[self@.recent.len() - 1 - k],
    {
        let n = self.recent_directories.len();
        let take: usize = if n < 10 { n } else { 10 };
        let mut r: Vec<String> = Vec::new();
        let mut k: usize = 0;
        while k < take
            invariant
                take <= n,
                n == self.recent_directories@.len(),
                take == (if n < 10 { n } else { 10 }),
                k <= take,
                r@.len() == k,
                forall|m: int| 0 <= m < k ==> #[trigger] r@[m]@ == self@.recent[n - 1 - m],
            decreases take - k,
        {
            r.push(self.recent_directories[n - 1 - k].clone());
            k = k + 1;
        }
        r
    }

    pub fn bookmarks(&self) -> (r: &[String])
        ensures
            views(r@) == self@.bookmarks,
    {
        self.bookmarks.as_slice()
    }

    pub fn recent_directories(&self) -> (r: &[String])
        ensures
            views(r@) == self@.recent,
    {
        self.recent_directories.as_slice()
    }

    /// How long the last directory indexing took, as the caller measured it.
    pub fn last_index_duration(&self) -> (r: Duration)
        ensures
            r == self@.index_duration,
    {
        self.last_index_duration
    }

    /// Insert a path at its place by name, returning the position it took.
    fn insert_by_name(&mut self, path: String) -> (pos: usize)
        requires
            old(self).keys_match(),
            old(self).files@.len() < usize::MAX,
        ensures
            final(self).keys_match(),
            views(final(self).files@) == insert_by_name(views(old(self).files@), path@),
            pos == insertion_point(views(old(self).files@), sort_key(path@)),
            final(self).files@.len() == old(self).files@.len() + 1,
            sorted_by_name(views(old(self).files@)) ==> sorted_by_name(views(final(self).files@)),
            final(self).current_directory == old(self).current_directory,
            final(self).current_index == old(self).current_index,
            final(self).recent_directories == old(self).recent_directories,
            final(self).bookmarks == old(self).bookmarks,
            final(self).sort_field == old(self).sort_field,
            final(self).sort_direction == old(self).sort_direction,
            final(self).filter == old(self).filter,
            final(self).last_index_duration == old(self).last_index_duration,
    {
        let key = name_key(path.as_str());
        let ghost t = views(self.files@);
        let mut i: usize = 0;
        assert(t.skip(0) =~= t);
        while i < self.keys.len() && chars_le(&self.keys[i], &key)
            invariant
                self.keys_match(),
                t == views(self.files@),
                key@ == sort_key(path@),
                i <= self.keys@.len(),
                insertion_point(t, key@) == i + insertion_point(t.skip(i as int), key@),
            decreases self.keys@.len() - i,
        {
            assert(t.skip(i as int).drop_first() =~= t.skip(i + 1));
            assert(t.skip(i as int)[0] == t[i as int]);
            i = i + 1;
        }
        proof {
            if i < self.keys@.len() {
                assert(t.skip(i as int)[0] == t[i as int]);
            }
            assert(t.skip(0) =~= t);
        }
        assert(insertion_point(t, key@) == i);
        proof { lemma_insert_sorted(t, path@); }
        let ghost p = path@;
        self.files.insert(i, path);
        self.keys.insert(i, key);
        assert(views(self.files@) =~= t.insert(i as int, p));
        assert forall|j: int| 0 <= j < self.keys@.len() implies #[trigger] self.keys@[j]@ == sort_key(self.files@[j]@) by {
            if j < i {
            } else if j == i {
            } else {
                assert(self.keys@[j] == old(self).keys@[j - 1]);
                assert(self.files@[j] == old(self).files@[j - 1]);
            }
        }
        i
    }

    /// Replace the file list with the supported images of a directory listing, in the
    /// browser's sort order, and go to the first.
    #[verifier::rlimit(40)]
    fn index_directory(&mut self, entries: Vec<ListedFile>)
        requires
            old(self).keys_match(),
        ensures
            final(self).keys_match(),
            views(final(self).files@) == indexed_files(old(self).sort_field, old(self).sort_direction, entries@),
            old(self).sort_field == SortField::Name && old(self).sort_direction == SortDirection::Ascending
                ==> sorted_by_name(views(final(self).files@)),
            final(self).current_index == 0,
            final(self).current_directory == old(self).current_directory,
            final(self).recent_directories == old(self).recent_directories,
            final(self).bookmarks == old(self).bookmarks,
            final(self).sort_field == old(self).sort_field,
            final(self).sort_direction == old(self).sort_direction,
            final(self).filter == old(self).filter,
            final(self).last_index_duration == old(self).last_index_duration,
    {
        let field = self.sort_field;
        let mut files: Vec<String> = Vec::new();
        let mut keys: Vec<Vec<char>> = Vec::new();
        let mut idx: Vec<usize> = Vec::new();
        let ghost mut sorted: Seq<ListedFile> = Seq::empty();
        let mut i: usize = 0;
        assert(entries@.subrange(0, 0) =~= Seq::<ListedFile>::empty());
        while i < entries.len()
            invariant
                i <= entries@.len(),
                sorted == sort_entries(field, listed_entries(entries@.subrange(0, i as int))),
                files@.len() == sorted.len(),
                keys@.len() == sorted.len(),
                idx@.len() == sorted.len(),
                sorted.len() <= i,
                forall|m: int|
                    0 <= m < sorted.len() ==> {
                        &&& #[trigger] idx@[m] < entries@.len()
                        &&& entries@[idx@[m] as int] == sorted[m]
                        &&& files@[m]@ == sorted[m].path@
                        &&& keys@[m]@ == sort_key(sorted[m].path@)
                    },
            decreases entries@.len() - i,
        {
            proof {
                lemma_entries_step(field, entries@, i as int);
                lemma_sort_entries(field, listed_entries(entries@.subrange(0, i as int)));
                lemma_listed_entries_len(entries@.subrange(0, i as int));
            }
            let e = &entries[i];
            if e.is_file && is_supported_image(e.path.as_str()) {
                let key = name_key(e.path.as_str());
                let mut pos: usize = 0;
                assert(sorted.skip(0) =~= sorted);
                while pos < idx.len() && entry_le_exec(field, &entries[idx[pos]], &keys[pos], e, &key)
                    invariant
                        pos <= sorted.len(),
                        idx@.len() == sorted.len(),
                        keys@.len() == sorted.len(),
                        *e == entries@[i as int],
                        key@ == sort_key(e.path@),
                        forall|m: int|
                            0 <= m < sorted.len() ==> {
                                &&& #[trigger] idx@[m] < entries@.len()
                                &&& entries@[idx@[m] as int] == sorted[m]
                                &&& keys@[m]@ == sort_key(sorted[m].path@)
                            },
                        entry_insertion_point(field, sorted, *e) == pos + entry_insertion_point(
                            field,
                            sorted.skip(pos as int),
                            *e,
                        ),
                    decreases sorted.len() - pos,
                {
                    assert(sorted.skip(pos as int).drop_first() =~= sorted.skip(pos + 1));
                    assert(sorted.skip(pos as int)[0] == sorted[pos as int]);
                    pos = pos + 1;
                }
                proof {
                    if pos < sorted.len() {
                        assert(sorted.skip(pos as int)[0] == sorted[pos as int]);
                    }
                }
                assert(entry_insertion_point(field, sorted, *e) == pos);
                let ghost before_files = files@;
                let ghost before_keys = keys@;
                let ghost before_idx = idx@;
                files.insert(pos, e.path.clone());
                keys.insert(pos, key);
                idx.insert(pos, i);
                proof {
                    let old_sorted = sorted;
                    sorted = sorted.insert(pos as int, entries@[i as int]);
                    assert forall|m: int| 0 <= m < sorted.len() implies {
                        &&& #[trigger] idx@[m] < entries@.len()
                        &&& entries@[idx@[m] as int] == sorted[m]
                        &&& files@[m]@ == sorted[m].path@
                        &&& keys@[m]@ == sort_key(sorted[m].path@)
                    } by {
                        if m < pos {
                            assert(idx@[m] == before_idx[m] && files@[m] == before_files[m] && keys@[m] == before_keys[m]);
                            assert(sorted[m] == old_sorted[m]);
                        } else if m > pos {
                            assert(idx@[m] == before_idx[m - 1] && files@[m] == before_files[m - 1] && keys@[m] == before_keys[m - 1]);
                            assert(sorted[m] == old_sorted[m - 1]);
                        }
                    }
                }
            }
            i = i + 1;
        }
        assert(entries@.subrange(0, entries@.len() as int) =~= entries@);
        assert forall|m: int| 0 <= m < files@.len() implies #[trigger] views(files@)[m] == paths_of(sorted)[m] by {
            assert(idx@[m] < entries@.len());
        }
        assert(views(files@) =~= paths_of(sorted));
        assert forall|m: int| 0 <= m < keys@.len() implies #[trigger] keys@[m]@ == sort_key(files@[m]@) by {
            assert(idx@[m] < entries@.len());
        }
        proof {
            lemma_sort_entries(field, listed_entries(entries@));
            if field == SortField::Name {
                lemma_sorted_paths(sorted);
            }
        }
        match self.sort_direction {
            SortDirection::Ascending => {
                self.files = files;
                self.keys = keys;
            },
            SortDirection::Descending => {
                let ghost fv = files@;
                let ghost kv = keys@;
                let (rf, rk) = reverse_lists(files, keys);
                assert(views(rf@) =~= views(fv).reverse());
                assert forall|m: int| 0 <= m < rk@.len() implies #[trigger] rk@[m]@ == sort_key(rf@[m]@) by {
                    assert(rk@[m] == kv[kv.len() - 1 - m]);
                    assert(rf@[m] == fv[fv.len() - 1 - m]);
                }
                self.files = rf;
                self.keys = rk;
            },
        }
        self.current_index = 0;
    }
}

/// The two lists, each in reverse order.
fn reverse_lists(files: Vec<String>, keys: Vec<Vec<char>>) -> (r: (Vec<String>, Vec<Vec<char>>))
    requires
        files@.len() == keys@.len(),
    ensures
        r.0@ == files@.reverse(),
        r.1@ == keys@.reverse(),
{
    let ghost f0 = files@;
    let ghost k0 = keys@;
    let mut files = files;
    let mut keys = keys;
    let mut rf: Vec<String> = Vec::new();
    let mut rk: Vec<Vec<char>> = Vec::new();
    while files.len() > 0
        invariant
            files@.len() == keys@.len(),
            f0.len() == k0.len(),
            files@ == f0.take(files@.len() as int),
            keys@ == k0.take(keys@.len() as int),
            rf@ == f0.reverse().take(rf@.len() as int),
            rk@ == k0.reverse().take(rk@.len() as int),
            rf@.len() + files@.len() == f0.len(),
            rk@.len() == rf@.len(),
        decreases files@.len(),
    {
        let f = files.pop().unwrap();
        let k = keys.pop().unwrap();
        rf.push(f);
        rk.push(k);
        assert(files@ =~= f0.take(files@.len() as int));
        assert(keys@ =~= k0.take(keys@.len() as int));
        assert(rf@ =~= f0.reverse().take(rf@.len() as int));
        assert(rk@ =~= k0.reverse().take(rk@.len() as int));
    }
    assert(rf@ =~= f0.reverse());
    assert(rk@ =~= k0.reverse());
    (rf, rk)
}

/// [`entry_le`] computed, given the entries' name keys.
fn entry_le_exec(field: SortField, a: &ListedFile, ak: &Vec<char>, b: &ListedFile, bk: &Vec<char>) -> (r: bool)
    requires
        ak@ == sort_key(a.path@),
        bk@ == sort_key(b.path@),
    ensures
        r == entry_le(field, *a, *b),
{
    match field {
        SortField::Name => chars_le(ak, bk),
        SortField::Size => a.size <= b.size,
        SortField::Date => match (a.modified, b.modified) {
            (None, _) => true,
            (Some(_), None) => false,
            (Some(x), Some(y)) => x <= y,
        },
        SortField::Resolution => match (a.pixels, b.pixels) {
            (None, _) => true,
            (Some(_), None) => false,
            (Some(x), Some(y)) => x <= y,
        },
        SortField::ColorProfile => {
            let ca = match &a.color {
                Some(c) => to_chars(c.as_str()),
                None => Vec::new(),
            };
            let cb = match &b.color {
                Some(c) => to_chars(c.as_str()),
                None => Vec::new(),
            };
            assert(ca@ == color_text(*a) && cb@ == color_text(*b));
            chars_le(&ca, &cb)
        },
        SortField::Random => true,
    }
}

/// One more listing entry either leaves the sorted entries as they are or inserts itself at
/// its insertion point.
pub proof fn lemma_entries_step(field: SortField, entries: Seq<ListedFile>, i: int)
    requires
        0 <= i < entries.len(),
    ensures
        ({
            let e = entries[i];
            let before = sort_entries(field, listed_entries(entries.subrange(0, i)));
            let after = sort_entries(field, listed_entries(entries.subrange(0, i + 1)));
            &&& (e.is_file && spec_is_supported_image(e.path@)) ==> after == before.insert(
                entry_insertion_point(field, before, e) as int,
                e,
            )
            &&& !(e.is_file && spec_is_supported_image(e.path@)) ==> after == before
        }),
{
    let prefix = entries.subrange(0, i);
    let next = entries.subrange(0, i + 1);
    assert(next.drop_last() =~= prefix);
    assert(next.last() == entries[i]);
    let rest = listed_entries(prefix);
    assert(rest.push(entries[i]).drop_last() =~= rest);
}

pub proof fn lemma_listed_entries_len(entries: Seq<ListedFile>)
    ensures
        listed_entries(entries).len() <= entries.len(),
    decreases entries.len(),
{
    if entries.len() > 0 {
        lemma_listed_entries_len(entries.drop_last());
    }
}

/// `entry_le` orders any two entries one way or the other.
pub proof fn lemma_entry_le_total(field: SortField, a: ListedFile, b: ListedFile)
    ensures
        entry_le(field, a, b) || entry_le(field, b, a),
{
    lemma_lex_le_total(sort_key(a.path@), sort_key(b.path@));
    lemma_lex_le_total(color_text(a), color_text(b));
}

/// `entry_le` is transitive.
pub proof fn lemma_entry_le_trans(field: SortField, a: ListedFile, b: ListedFile, c: ListedFile)
    requires
        entry_le(field, a, b),
        entry_le(field, b, c),
    ensures
        entry_le(field, a, c),
{
    match field {
        SortField::Name => lemma_lex_le_trans(sort_key(a.path@), sort_key(b.path@), sort_key(c.path@)),
        SortField::ColorProfile => lemma_lex_le_trans(color_text(a), color_text(b), color_text(c)),
        _ => {},
    }
}

pub proof fn lemma_entry_insertion_point(field: SortField, t: Seq<ListedFile>, e: ListedFile)
    ensures
        entry_insertion_point(field, t, e) <= t.len(),
        forall|i: int| 0 <= i < entry_insertion_point(field, t, e) ==> entry_le(field, #[trigger] t[i], e),
        entry_insertion_point(field, t, e) < t.len() ==> !entry_le(field, t[entry_insertion_point(field, t, e) as int], e),
    decreases t.len(),
{
    if t.len() > 0 && entry_le(field, t[0], e) {
        lemma_entry_insertion_point(field, t.drop_first(), e);
        assert forall|i: int| 0 <= i < entry_insertion_point(field, t, e) implies entry_le(field, #[trigger] t[i], e) by {
            if i > 0 {
                assert(t[i] == t.drop_first()[i - 1]);
            }
        }
    }
}

/// Entries are in ascending order of `field`.
pub open spec fn sorted_by(field: SortField, s: Seq<ListedFile>) -> bool {
    forall|i: int, j: int| 0 <= i < j < s.len() ==> entry_le(field, #[trigger] s[i], #[trigger] s[j])
}

/// Sorting by a field gives a sorted permutation of its input.
pub proof fn lemma_sort_entries(field: SortField, s: Seq<ListedFile>)
    ensures
        sorted_by(field, sort_entries(field, s)),
        sort_entries(field, s).len() == s.len(),
        sort_entries(field, s).to_multiset() == s.to_multiset(),
    decreases s.len(),
{
    if s.len() > 0 {
        let t = sort_entries(field, s.drop_last());
        let p = s.last();
        lemma_sort_entries(field, s.drop_last());
        let n = entry_insertion_point(field, t, p) as int;
        lemma_entry_insertion_point(field, t, p);
        to_multiset_insert(t, n, p);
        vstd::seq_lib::to_multiset_build(s.drop_last(), p);
        assert(s.drop_last().push(p) =~= s);
        let r = t.insert(n, p);
        assert forall|i: int, j: int| 0 <= i < j < r.len() implies entry_le(field, #[trigger] r[i], #[trigger] r[j]) by {
            if j < n {
                assert(r[i] == t[i] && r[j] == t[j]);
            } else if j == n {
                assert(r[i] == t[i]);
            } else if i == n {
                lemma_entry_le_total(field, t[n], p);
                assert(r[j] == t[j - 1]);
                if j - 1 > n {
                    lemma_entry_le_trans(field, p, t[n], t[j - 1]);
                }
            } else if i < n {
                assert(r[i] == t[i]);
                assert(r[j] == t[j - 1]);
            } else {
                assert(r[i] == t[i - 1] && r[j] == t[j - 1]);
            }
        }
    }
}

/// Entries sorted by name have their paths sorted by name.
pub proof fn lemma_sorted_paths(s: Seq<ListedFile>)
    requires
        sorted_by(SortField::Name, s),
    ensures
        sorted_by_name(paths_of(s)),
{
    assert forall|i: int, j: int| 0 <= i < j < paths_of(s).len() implies lex_le(
        sort_key(paths_of(s)[i]),
        sort_key(paths_of(s)[j]),
    ) by {
        assert(entry_le(SortField::Name, s[i], s[j]));
    }
}

impl Default for FileBrowser {
    fn default() -> (r: Self)
        ensures
            r.wf(),
            r@.directory is None,
            r@.files == Seq::<Seq<char>>::empty(),
            r@.index == 0,
    {
        Self::new()
    }
}



// ---------------------------------------------------------------------------
// Laws of the file browser
// ---------------------------------------------------------------------------

/// Moving back after moving forward, or forward after moving back, returns to the same file.
pub proof fn law_previous_undoes_next(i: nat, len: nat)
    requires
        i < len,
    ensures
        previous_index(next_index(i, len), len) == i,
        next_index(previous_index(i, len), len) == i,
{
    if i + 1 < len {
        assert((i + 1) % len == i + 1) by (nonlinear_arith)
            requires
                0 <= i + 1 < len,
        ;
    } else {
        assert((i + 1) % len == 0) by (nonlinear_arith)
            requires
                i + 1 == len,
                len > 0,
        ;
    }
    if i == 0 {
        assert(((len - 1) as nat + 1) % len == 0) by (nonlinear_arith)
            requires
                len > 0,
        ;
    } else {
        assert(((i - 1) as nat + 1) % len == i) by (nonlinear_arith)
            requires
                0 < i < len,
        ;
    }
}

/// Indexing a directory gives its supported images, each as often as listed, in ascending
/// order of the sort field, or in the reverse of that order when descending; sorted by name
/// when sorting by name, ascending.
pub proof fn law_indexed_files_sorted(field: SortField, direction: SortDirection, entries: Seq<ListedFile>)
    ensures
        sorted_by(field, sort_entries(field, listed_entries(entries))),
        sort_entries(field, listed_entries(entries)).to_multiset() == listed_entries(entries).to_multiset(),
        indexed_files(field, direction, entries) == (match direction {
            SortDirection::Ascending => paths_of(sort_entries(field, listed_entries(entries))),
            SortDirection::Descending => paths_of(sort_entries(field, listed_entries(entries))).reverse(),
        }),
        field == SortField::Name && direction == SortDirection::Ascending ==> sorted_by_name(
            indexed_files(field, direction, entries),
        ),
{
    lemma_sort_entries(field, listed_entries(entries));
    if field == SortField::Name {
        lemma_sorted_paths(sort_entries(field, listed_entries(entries)));
    }
}

/// Adding a new supported image puts it in the list, one longer and still sorted by name;
/// the current index still points into the list.
pub proof fn law_add_path_inserts(s: BrowserState, path: Seq<char>)
    requires
        FileBrowser::well_formed(s),
        adds_path(s, path),
    ensures
        after_add_path(s, path).files.contains(path),
        after_add_path(s, path).files.len() == s.files.len() + 1,
        by_name_ascending(s) ==> sorted_by_name(after_add_path(s, path).files),
        after_add_path(s, path).index < after_add_path(s, path).files.len(),
{
    lemma_insert_sorted(s.files, path);
    lemma_insertion_point(s.files, sort_key(path));
    let n = insertion_point(s.files, sort_key(path)) as int;
    assert(after_add_path(s, path).files[n] == path);
}

proof fn lemma_first_listed_exists(files: Seq<Seq<char>>, p: Seq<char>, k: int)
    requires
        0 <= k < files.len(),
        same_place(files[k], p),
    ensures
        exists|i: int| is_first_listed(files, p, i),
    decreases k,
{
    if exists|j: int| 0 <= j < k && same_place(#[trigger] files[j], p) {
        let j = choose|j: int| 0 <= j < k && same_place(#[trigger] files[j], p);
        lemma_first_listed_exists(files, p, j);
    } else {
        assert(is_first_listed(files, p, k));
    }
}

/// An export written into the open directory, as a supported image, becomes the current file.
pub proof fn law_export_becomes_current(s: BrowserState, p: Seq<char>)
    requires
        FileBrowser::well_formed(s),
        in_open_directory(s, p),
        spec_is_supported_image(p),
    ensures
        same_place(after_exported(s, p).files[after_exported(s, p).index as int], p),
{
    let added = after_add_path(s, p);
    if adds_path(s, p) {
        law_add_path_inserts(s, p);
        let k = choose|k: int| 0 <= k < added.files.len() && added.files[k] == p;
        assert(same_place(added.files[k], p));
    }
    assert(lists_path(added.files, p));
    let k = choose|k: int| 0 <= k < added.files.len() && same_place(added.files[k], p);
    lemma_first_listed_exists(added.files, p, k);
}

/// Adding a file keeps the current file current.
pub proof fn law_add_path_keeps_current(s: BrowserState, path: Seq<char>)
    requires
        FileBrowser::well_formed(s),
        s.files.len() > 0,
    ensures
        after_add_path(s, path).files[after_add_path(s, path).index as int] == s.files[s.index as int],
{
    if adds_path(s, path) {
        lemma_insertion_point(s.files, sort_key(path));
    }
}

/// After removing paths, no remaining file is one of them, and the rest keep their order.
pub proof fn law_remove_paths_removes(s: BrowserState, paths: Seq<Seq<char>>)
    requires
        FileBrowser::well_formed(s),
    ensures
        forall|i: int| 0 <= i < after_remove_paths(s, paths).files.len() ==> !lists_path(
            paths,
            #[trigger] after_remove_paths(s, paths).files[i],
        ),
        by_name_ascending(s) ==> sorted_by_name(after_remove_paths(s, paths).files),
{
    let pred = |p: Seq<char>| !lists_path(paths, p);
    #[allow(deprecated)]
    s.files.filter_lemma(pred);
    if by_name_ascending(s) {
        lemma_filter_sorted(s.files, pred);
    }
}

/// Bookmarking the current directory twice bookmarks it once.
pub proof fn law_bookmark_idempotent(s: BrowserState)
    ensures
        after_bookmark_current(after_bookmark_current(s)) == after_bookmark_current(s),
{
    match s.directory {
        Some(d) => {
            if !lists_path(s.bookmarks, d) {
                let b = s.bookmarks.push(d);
                assert(b[s.bookmarks.len() as int] == d);
                assert(same_place(b[s.bookmarks.len() as int], d));
            }
        },
        None => {},
    }
}

} // verus!
