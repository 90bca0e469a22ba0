use crate::browser::{lists_path, views, without_paths};
use crate::text::{same_place, paths_equal};
use std::collections::HashSet;
use vstd::prelude::*;
use vstd::seq_lib::to_multiset_insert;

verus! {

broadcast use vstd::std_specs::hash::group_hash_axioms;

/// The abstract state of a [`GalleryState`].
pub struct GalleryView {
    /// The gallery's items, in display order
    pub items: Seq<Seq<char>>,
    /// The item that has the focus
    pub focus: Option<usize>,
    /// The selected item indices
    pub selected: Set<usize>,
    /// The index that was clicked last (the anchor of a range selection)
    pub last_clicked: Option<usize>,
    /// The item being dragged
    pub drag_source: Option<usize>,
    /// The place it would be dropped
    pub drag_target: Option<usize>,
    /// Whether the context menu is open
    pub menu_open: bool,
    /// A file waiting to be opened
    pub pending_open: Option<Seq<char>>,
    /// A folder waiting to be opened
    pub pending_folder: Option<Seq<char>>,
    /// Files waiting to be deleted
    pub pending_delete: Option<Seq<Seq<char>>>,
    /// Files waiting to be moved
    pub pending_move: Option<Seq<Seq<char>>>,
    /// Whether moving to the previous image was requested
    pub nav_prev: bool,
    /// Whether moving to the next image was requested
    pub nav_next: bool,
}

/// The index of the first item that names the same place as `p` (the length when there is
/// none).
pub open spec fn first_pos(items: Seq<Seq<char>>, p: Seq<char>) -> nat
    decreases items.len(),
{
    if items.len() == 0 {
        0
    } else if same_place(items[0], p) {
        0
    } else {
        1 + first_pos(items.drop_first(), p)
    }
}

pub proof fn lemma_first_pos_le(items: Seq<Seq<char>>, i: int)
    requires
        0 <= i < items.len(),
    ensures
        first_pos(items, items[i]) <= i,
    decreases i,
{
    if i > 0 && !same_place(items[0], items[i]) {
        lemma_first_pos_le(items.drop_first(), i - 1);
        assert(items.drop_first()[i - 1] == items[i]);
    }
}

/// The selected items among the first `n`, in index order.
pub open spec fn selected_upto(items: Seq<Seq<char>>, sel: Set<usize>, n: nat) -> Seq<Seq<char>>
    decreases n,
{
    if n == 0 {
        Seq::empty()
    } else {
        let r = selected_upto(items, sel, (n - 1) as nat);
        if sel.contains((n - 1) as usize) {
            r.push(items[n - 1])
        } else {
            r
        }
    }
}

/// The selected items, in index order.
pub open spec fn selected_items(items: Seq<Seq<char>>, sel: Set<usize>) -> Seq<Seq<char>> {
    selected_upto(items, sel, items.len())
}

/// Paths are ordered by where each first occurs among the items.
pub open spec fn ordered_by_first_position(items: Seq<Seq<char>>, r: Seq<Seq<char>>) -> bool {
    forall|i: int, j: int| 0 <= i < j < r.len() ==> first_pos(items, r[i]) <= first_pos(items, r[j])
}

/// The indices from `lo` to `hi`, both included.
pub open spec fn index_range(lo: usize, hi: usize) -> Set<usize> {
    Set::new(|i: usize| lo <= i <= hi)
}

/// The state after a click on `index` with the given modifier keys. Ctrl toggles the item
/// (the focus is dropped when the selection empties); Shift selects the range from the last
/// clicked index; a plain click selects only the item and asks for it to be opened.
pub open spec fn after_click(g: GalleryView, index: usize, ctrl: bool, shift: bool) -> GalleryView {
    if ctrl {
        if g.selected.contains(index) {
            let sel = g.selected.remove(index);
            GalleryView {
                selected: sel,
                focus: if sel.is_empty() { None } else { g.focus },
                last_clicked: Some(index),
                ..g
            }
        } else {
            GalleryView {
                selected: g.selected.insert(index),
                focus: Some(index),
                last_clicked: Some(index),
                ..g
            }
        }
    } else if shift {
        let start = match g.last_clicked {
            Some(s) => s,
            None => index,
        };
        let lo = if start <= index { start } else { index };
        let hi = if start <= index { index } else { start };
        GalleryView {
            selected: index_range(lo, hi),
            focus: Some(index),
            last_clicked: Some(index),
            ..g
        }
    } else {
        GalleryView {
            selected: Set::<usize>::empty().insert(index),
            focus: Some(index),
            last_clicked: Some(index),
            pending_open: if index < g.items.len() { Some(g.items[index as int]) } else { g.pending_open },
            ..g
        }
    }
}

/// The state with no selection, no drag and the menu closed.
pub open spec fn cleared(g: GalleryView) -> GalleryView {
    GalleryView {
        selected: Set::empty(),
        last_clicked: None,
        drag_source: None,
        drag_target: None,
        menu_open: false,
        ..g
    }
}

/// The items after dropping the item at `src` on `dst`: when they differ and `dst` is an index,
/// the item is taken out and put back at `dst`, one less when `dst` was after `src`.
pub open spec fn reordered(items: Seq<Seq<char>>, src: usize, dst: usize) -> Seq<Seq<char>> {
    if src != dst && dst < items.len() {
        let rest = items.remove(src as int);
        let d = if dst > src { (dst - 1) as int } else { dst as int };
        rest.insert(d, items[src as int])
    } else {
        items
    }
}

/// The set of indices below `n`.
pub fn all_indices(n: usize) -> (r: HashSet<usize>)
    ensures
        r@ == Set::new(|i: usize| i < n),
{
    let mut r: HashSet<usize> = HashSet::new();
    let mut i: usize = 0;
    while i < n
        invariant
            i <= n,
            r@ == Set::new(|j: usize| j < i),
        decreases n - i,
    {
        r.insert(i);
        i = i + 1;
        assert(r@ =~= Set::new(|j: usize| j < i));
    }
    assert(r@ =~= Set::new(|j: usize| j < n));
    r
}

/// Gallery landing-page state: the items, the selection and the requests that the viewer
/// hands to the application.
pub struct GalleryState {
    gallery_items: Vec<String>,
    selected_gallery_index: Option<usize>,
    pending_gallery_open: Option<String>,
    pending_folder_open: Option<String>,
    selected_indices: HashSet<usize>,
    last_clicked_index: Option<usize>,
    drag_source_index: Option<usize>,
    drag_target_index: Option<usize>,
    pending_delete: Option<Vec<String>>,
    pending_move_to: Option<Vec<String>>,
    context_menu_open: bool,
    pending_nav_prev: bool,
    pending_nav_next: bool,
}

pub open spec fn opt_view(o: Option<String>) -> Option<Seq<char>> {
    match o {
        Some(s) => Some(s@),
        None => None,
    }
}

pub open spec fn opt_views(o: Option<Vec<String>>) -> Option<Seq<Seq<char>>> {
    match o {
        Some(v) => Some(views(v@)),
        None => None,
    }
}

impl View for GalleryState {
    type V = GalleryView;

    closed spec fn view(&self) -> GalleryView {
        GalleryView {
            items: views(self.gallery_items@),
            focus: self.selected_gallery_index,
            selected: self.selected_indices@,
            last_clicked: self.last_clicked_index,
            drag_source: self.drag_source_index,
            drag_target: self.drag_target_index,
            menu_open: self.context_menu_open,
            pending_open: opt_view(self.pending_gallery_open),
            pending_folder: opt_view(self.pending_folder_open),
            pending_delete: opt_views(self.pending_delete),
            pending_move: opt_views(self.pending_move_to),
            nav_prev: self.pending_nav_prev,
            nav_next: self.pending_nav_next,
        }
    }
}

impl GalleryState {
    /// A dragged item is always one of the items.
    pub open spec fn well_formed(g: GalleryView) -> bool {
        g.drag_source matches Some(s) ==> s < g.items.len()
    }

    pub open spec fn wf(&self) -> bool {
        Self::well_formed(self@)
    }

    pub fn new() -> (r: Self)
        ensures
            r.wf(),
            r@.items == Seq::<Seq<char>>::empty(),
            r@.focus is None,
            r@.selected == Set::<usize>::empty(),
            r@.last_clicked is None,
            r@.drag_source is None,
            r@.drag_target is None,
            !r@.menu_open,
            r@.pending_open is None,
            r@.pending_folder is None,
            r@.pending_delete is None,
            r@.pending_move is None,
            !r@.nav_prev,
            !r@.nav_next,
    {
        let r = GalleryState {
            gallery_items: Vec::new(),
            selected_gallery_index: None,
            pending_gallery_open: None,
            pending_folder_open: None,
            selected_indices: HashSet::new(),
            last_clicked_index: None,
            drag_source_index: None,
            drag_target_index: None,
            pending_delete: None,
            pending_move_to: None,
            context_menu_open: false,
            pending_nav_prev: false,
            pending_nav_next: false,
        };
        assert(views(r.gallery_items@) =~= Seq::<Seq<char>>::empty());
        r
    }

    /// Clear all selections, any drag, and close the context menu
    pub fn clear_selection(&mut self)
        ensures
            final(self)@ == cleared(old(self)@),
            final(self).wf(),
    {
        self.selected_indices.clear();
        self.last_clicked_index = None;
        self.drag_source_index = None;
        self.drag_target_index = None;
        self.context_menu_open = false;
    }

    /// Set the gallery items; the selection is cleared and, with items and no focus, the first
    /// item gets the focus.
    pub fn set_gallery_items(&mut self, items: Vec<String>)
        ensures
            final(self).wf(),
            final(self)@ == (GalleryView {
                items: views(items@),
                focus: if old(self)@.focus is None && items@.len() > 0 { Some(0usize) } else { old(self)@.focus },
                ..cleared(old(self)@)
            }),
    {
        let ghost iv = views(items@);
        self.gallery_items = items;
        self.clear_selection();
        if self.selected_gallery_index.is_none() && self.gallery_items.len() > 0 {
            self.selected_gallery_index = Some(0);
        }
        assert(self@.items == iv);
        assert(self@.focus == (if old(self)@.focus is None && iv.len() > 0 { Some(0usize) } else { old(self)@.focus }));
        assert(self@.selected == Set::<usize>::empty());
        assert(self@.pending_open == old(self)@.pending_open);
    }

    /// Take pending delete operations
    pub fn take_pending_delete(&mut self) -> (r: Option<Vec<String>>)
        ensures
            opt_views(r) == old(self)@.pending_delete,
            final(self)@ == (GalleryView { pending_delete: None, ..old(self)@ }),
            final(self).wf() == old(self).wf(),
    {
        self.pending_delete.take()
    }

    /// Take pending move-to operations
    pub fn take_pending_move_to(&mut self) -> (r: Option<Vec<String>>)
        ensures
            opt_views(r) == old(self)@.pending_move,
            final(self)@ == (GalleryView { pending_move: None, ..old(self)@ }),
            final(self).wf() == old(self).wf(),
    {
        self.pending_move_to.take()
    }

    /// Take a pending gallery click to open an image file
    pub fn take_pending_gallery_open(&mut self) -> (r: Option<String>)
        ensures
            opt_view(r) == old(self)@.pending_open,
            final(self)@ == (GalleryView { pending_open: None, ..old(self)@ }),
            final(self).wf() == old(self).wf(),
    {
        self.pending_gallery_open.take()
    }

    /// Take a pending folder click to open a directory
    pub fn take_pending_folder_open(&mut self) -> (r: Option<String>)
        ensures
            opt_view(r) == old(self)@.pending_folder,
            final(self)@ == (GalleryView { pending_folder: None, ..old(self)@ }),
            final(self).wf() == old(self).wf(),
    {
        self.pending_folder_open.take()
    }

    /// Ask for a folder to be opened.
    pub fn request_folder_open(&mut self, path: String)
        ensures
            final(self)@ == (GalleryView { pending_folder: Some(path@), ..old(self)@ }),
            final(self).wf() == old(self).wf(),
    {
        self.pending_folder_open = Some(path);
    }

    /// Number of gallery items
    pub fn gallery_count(&self) -> (r: usize)
        ensures
            r == self@.items.len(),
    {
        self.gallery_items.len()
    }

    /// The gallery items
    pub fn items(&self) -> (r: &[String])
        ensures
            views(r@) == self@.items,
    {
        self.gallery_items.as_slice()
    }

    /// The selected indices
    pub fn selected_indices(&self) -> (r: &HashSet<usize>)
        ensures
            r@ == self@.selected,
    {
        &self.selected_indices
    }

    /// The index of the focused item
    pub fn focused_index(&self) -> (r: Option<usize>)
        ensures
            r == self@.focus,
    {
        self.selected_gallery_index
    }

    /// Ask for the previous image.
    pub fn request_nav_prev(&mut self)
        ensures
            final(self)@ == (GalleryView { nav_prev: true, ..old(self)@ }),
            final(self).wf() == old(self).wf(),
    {
        self.pending_nav_prev = true;
    }

    /// Ask for the next image.
    pub fn request_nav_next(&mut self)
        ensures
            final(self)@ == (GalleryView { nav_next: true, ..old(self)@ }),
            final(self).wf() == old(self).wf(),
    {
        self.pending_nav_next = true;
    }

    /// Take a pending request for the previous image
    pub fn take_pending_nav_prev(&mut self) -> (r: bool)
        ensures
            r == old(self)@.nav_prev,
            final(self)@ == (GalleryView { nav_prev: false, ..old(self)@ }),
            final(self).wf() == old(self).wf(),
    {
        let r = self.pending_nav_prev;
        self.pending_nav_prev = false;
        r
    }

    /// Take a pending request for the next image
    pub fn take_pending_nav_next(&mut self) -> (r: bool)
        ensures
            r == old(self)@.nav_next,
            final(self)@ == (GalleryView { nav_next: false, ..old(self)@ }),
            final(self).wf() == old(self).wf(),
    {
        let r = self.pending_nav_next;
        self.pending_nav_next = false;
        r
    }

    /// Handle a gallery item click with modifier keys
    pub fn handle_gallery_click(&mut self, index: usize, ctrl: bool, shift: bool)
        requires
            old(self).wf(),
        ensures
            final(self).wf(),
            final(self)@ == after_click(old(self)@, index, ctrl, shift),
    {
        let ghost g = self@;
        if ctrl {
            if self.selected_indices.contains(&index) {
                self.selected_indices.remove(&index);
                if self.selected_indices.is_empty() {
                    self.selected_gallery_index = None;
                }
            } else {
                self.selected_indices.insert(index);
                self.selected_gallery_index = Some(index);
            }
            self.last_clicked_index = Some(index);
        } else if shift {
            let range_start = match self.last_clicked_index {
                Some(s) => s,
                None => index,
            };
            let lo = if range_start <= index { range_start } else { index };
            let hi = if range_start <= index { index } else { range_start };
            let mut range: HashSet<usize> = HashSet::new();
            let mut i = lo;
            loop
                invariant_except_break
                    range@ == Set::new(|j: usize| lo <= j < i),
                invariant
                    lo <= i <= hi,
                ensures
                    range@ == index_range(lo, hi),
                decreases hi - i,
            {
                range.insert(i);
                if i == hi {
                    assert(range@ =~= index_range(lo, hi));
                    break;
                }
                i = i + 1;
                assert(range@ =~= Set::new(|j: usize| lo <= j < i));
            }
            self.selected_indices = range;
            self.selected_gallery_index = Some(index);
            self.last_clicked_index = Some(index);
        } else {
            self.selected_indices.clear();
            self.selected_indices.insert(index);
            self.selected_gallery_index = Some(index);
            self.last_clicked_index = Some(index);
            if index < self.gallery_items.len() {
                self.pending_gallery_open = Some(self.gallery_items[index].clone());
            }
        }
    }

    /// The index of the first item that is the same path as `path`.
    pub fn position_of(&self, path: &String) -> (r: Option<usize>)
        ensures
            match r {
                Some(i) => i == first_pos(self@.items, path@) && i < self@.items.len(),
                None => first_pos(self@.items, path@) == self@.items.len(),
            },
    {
        let mut i: usize = 0;
        assert(self@.items.skip(0) =~= self@.items);
        while i < self.gallery_items.len()
            invariant
                i <= self.gallery_items@.len(),
                first_pos(self@.items, path@) == i + first_pos(self@.items.skip(i as int), path@),
            decreases self.gallery_items@.len() - i,
        {
            assert(self@.items.skip(i as int)[0] == self.gallery_items@[i as int]@);
            if paths_equal(self.gallery_items[i].as_str(), path.as_str()) {
                return Some(i);
            }
            assert(self@.items.skip(i as int).drop_first() =~= self@.items.skip(i + 1));
            i = i + 1;
        }
        None
    }

    /// The selected paths, ordered by where each path first occurs among the items
    /// (indices past the end select nothing).
    pub fn selected_paths(&self) -> (r: Vec<String>)
        ensures
            views(r@).to_multiset() == selected_items(self@.items, self@.selected).to_multiset(),
            ordered_by_first_position(self@.items, views(r@)),
    {
        let ghost items = self@.items;
        let ghost sel = self@.selected;
        let mut out: Vec<String> = Vec::new();
        let mut keys: Vec<usize> = Vec::new();
        let mut i: usize = 0;
        assert(views(out@) =~= selected_upto(items, sel, 0));
        while i < self.gallery_items.len()
            invariant
                items == self@.items,
                sel == self@.selected,
                i <= items.len(),
                views(out@).to_multiset() == selected_upto(items, sel, i as nat).to_multiset(),
                keys@.len() == out@.len(),
                forall|m: int| 0 <= m < keys@.len() ==> #[trigger] keys@[m] == first_pos(items, out@[m]@),
                forall|a: int, b: int| 0 <= a < b < keys@.len() ==> keys@[a] <= keys@[b],
            decreases items.len() - i,
        {
            assert(selected_upto(items, sel, (i + 1) as nat) == (if sel.contains(i) {
                selected_upto(items, sel, i as nat).push(items[i as int])
            } else {
                selected_upto(items, sel, i as nat)
            }));
            if self.selected_indices.contains(&i) {
                let path = self.gallery_items[i].clone();
                proof { lemma_first_pos_le(items, i as int); }
                let key = match self.position_of(&path) {
                    Some(k) => k,
                    None => i,
                };
                let mut q: usize = 0;
                while q < keys.len() && keys[q] <= key
                    invariant
                        q <= keys@.len(),
                        forall|m: int| 0 <= m < q ==> keys@[m] <= key,
                    decreases keys@.len() - q,
                {
                    q = q + 1;
                }
                let ghost before = views(out@);
                let ghost before_keys = keys@;
                let ghost pv = path@;
                out.insert(q, path);
                keys.insert(q, key);
                assert(views(out@) =~= before.insert(q as int, pv));
                proof {
                    to_multiset_insert(before, q as int, pv);
                    vstd::seq_lib::to_multiset_build(selected_upto(items, sel, i as nat), pv);
                }
                assert forall|m: int| 0 <= m < keys@.len() implies #[trigger] keys@[m] == first_pos(items, out@[m]@) by {
                    if m > q {
                        assert(keys@[m] == before_keys[m - 1]);
                        assert(out@[m]@ == before[m - 1]);
                    } else if m < q {
                        assert(out@[m]@ == before[m]);
                    }
                }
                assert forall|a: int, b: int| 0 <= a < b < keys@.len() implies keys@[a] <= keys@[b] by {
                    if b < q {
                    } else if b == q {
                    } else if a == q {
                        assert(keys@[b] == before_keys[b - 1]);
                        assert(before_keys[q as int] > key);
                    } else if a < q {
                        assert(keys@[b] == before_keys[b - 1]);
                    } else {
                        assert(keys@[a] == before_keys[a - 1]);
                        assert(keys@[b] == before_keys[b - 1]);
                    }
                }
            }
            i = i + 1;
        }
        assert(ordered_by_first_position(items, views(out@))) by {
            assert forall|a: int, b: int| 0 <= a < b < views(out@).len() implies first_pos(items, views(out@)[a]) <= first_pos(items, views(out@)[b]) by {
                assert(keys@[a] == first_pos(items, out@[a]@));
                assert(keys@[b] == first_pos(items, out@[b]@));
            }
        }
        out
    }

    /// Remove the items that `paths` lists, keeping the order of the rest, and clear the
    /// selection.
    pub fn remove_paths(&mut self, paths: &[String])
        requires
            old(self).wf(),
        ensures
            final(self).wf(),
            final(self)@ == (GalleryView { items: without_paths(old(self)@.items, views(paths@)), ..cleared(old(self)@) }),
    {
        let ghost g = self@;
        let ghost pv = views(paths@);
        let ghost pred = |p: Seq<char>| !lists_path(pv, p);
        let mut kept: Vec<String> = Vec::new();
        let mut i: usize = 0;
        while i < self.gallery_items.len()
            invariant
                self@ == g,
                pv == views(paths@),
                pred == (|p: Seq<char>| !lists_path(pv, p)),
                i <= self.gallery_items@.len(),
                views(kept@) == views(self.gallery_items@.subrange(0, i as int)).filter(pred),
            decreases self.gallery_items@.len() - i,
        {
            let ghost before = views(self.gallery_items@.subrange(0, i as int));
            let ghost x = self.gallery_items@[i as int]@;
            assert(views(self.gallery_items@.subrange(0, i + 1)) =~= before.push(x));
            assert(before.push(x).drop_last() =~= before);
            reveal_with_fuel(Seq::filter, 1);
            let mut listed = false;
            let mut k: usize = 0;
            while k < paths.len()
                invariant
                    k <= paths@.len(),
                    i < self.gallery_items@.len(),
                    pv == views(paths@),
                    listed == exists|j: int| 0 <= j < k && same_place(#[trigger] pv[j], self.gallery_items@[i as int]@),
                decreases paths@.len() - k,
            {
                assert(pv[k as int] == paths@[k as int]@);
                if paths_equal(paths[k].as_str(), self.gallery_items[i].as_str()) {
                    listed = true;
                }
                k = k + 1;
            }
            assert(listed == lists_path(pv, x));
            assert(before.push(x).filter(pred) == (if pred(x) {
                before.filter(pred).push(x)
            } else {
                before.filter(pred)
            }));
            if !listed {
                let ghost kv = views(kept@);
                kept.push(self.gallery_items[i].clone());
                assert(views(kept@) =~= kv.push(x));
            }
            i = i + 1;
        }
        assert(self.gallery_items@.subrange(0, self.gallery_items@.len() as int) =~= self.gallery_items@);
        self.gallery_items = kept;
        self.clear_selection();
    }

    /// Select every item (Ctrl+A); with items, the first gets the focus and the last becomes
    /// the range anchor.
    pub fn select_all(&mut self)
        requires
            old(self).wf(),
        ensures
            final(self).wf(),
            final(self)@ == (GalleryView {
                selected: Set::new(|i: usize| i < old(self)@.items.len()),
                focus: if old(self)@.items.len() > 0 { Some(0usize) } else { old(self)@.focus },
                last_clicked: if old(self)@.items.len() > 0 {
                    Some((old(self)@.items.len() - 1) as usize)
                } else {
                    old(self)@.last_clicked
                },
                ..old(self)@
            }),
    {
        let n = self.gallery_items.len();
        self.selected_indices = all_indices(n);
        if n > 0 {
            self.selected_gallery_index = Some(0);
            self.last_clicked_index = Some(n - 1);
        }
    }

    /// Select every item from the context menu, which closes.
    pub fn select_all_from_menu(&mut self)
        requires
            old(self).wf(),
        ensures
            final(self).wf(),
            final(self)@ == (GalleryView {
                selected: Set::new(|i: usize| i < old(self)@.items.len()),
                menu_open: false,
                ..old(self)@
            }),
    {
        let n = self.gallery_items.len();
        self.selected_indices = all_indices(n);
        self.context_menu_open = false;
    }

    /// Escape: with a selection, clear it.
    pub fn escape(&mut self)
        requires
            old(self).wf(),
        ensures
            final(self).wf(),
            final(self)@ == (if old(self)@.selected.is_empty() { old(self)@ } else { cleared(old(self)@) }),
    {
        if !self.selected_indices.is_empty() {
            self.clear_selection();
        }
    }

    /// The Delete key: with a selection, ask for the selected paths to be deleted.
    pub fn request_delete(&mut self)
        requires
            old(self).wf(),
        ensures
            final(self).wf(),
            old(self)@.selected.is_empty() ==> final(self)@ == old(self)@,
            !old(self)@.selected.is_empty() ==> final(self)@ == (GalleryView {
                pending_delete: final(self)@.pending_delete,
                ..old(self)@
            }) && (final(self)@.pending_delete matches Some(d) && d.to_multiset() == selected_items(
                old(self)@.items,
                old(self)@.selected,
            ).to_multiset() && ordered_by_first_position(old(self)@.items, d)),
    {
        if !self.selected_indices.is_empty() {
            let paths = self.selected_paths();
            self.pending_delete = Some(paths);
        }
    }

    /// A double click on `index` asks for that item to be opened.
    pub fn open_item(&mut self, index: usize)
        requires
            old(self).wf(),
        ensures
            final(self).wf(),
            final(self)@ == (if index < old(self)@.items.len() {
                GalleryView { pending_open: Some(old(self)@.items[index as int]), ..old(self)@ }
            } else {
                old(self)@
            }),
    {
        if index < self.gallery_items.len() {
            self.pending_gallery_open = Some(self.gallery_items[index].clone());
        }
    }

    /// A selected item at `index` is being dragged, over `target` when that is known: the
    /// first dragged item becomes the drag source. Unselected items do not drag.
    pub fn drag_item(&mut self, index: usize, target: Option<usize>)
        requires
            old(self).wf(),
            index < old(self)@.items.len(),
        ensures
            final(self).wf(),
            !old(self)@.selected.contains(index) ==> final(self)@ == old(self)@,
            old(self)@.selected.contains(index) ==> final(self)@ == (GalleryView {
                drag_source: if old(self)@.drag_source is None { Some(index) } else { old(self)@.drag_source },
                drag_target: if target is Some { target } else { old(self)@.drag_target },
                ..old(self)@
            }),
    {
        if self.selected_indices.contains(&index) {
            if self.drag_source_index.is_none() {
                self.drag_source_index = Some(index);
            }
            match target {
                Some(t) => { self.drag_target_index = Some(t); },
                None => {},
            }
        }
    }

    /// The drag is released: with a source and a target the item is moved, then the drag ends.
    pub fn finish_drag(&mut self)
        requires
            old(self).wf(),
        ensures
            final(self).wf(),
            final(self)@ == (GalleryView {
                items: match (old(self)@.drag_source, old(self)@.drag_target) {
                    (Some(src), Some(dst)) => reordered(old(self)@.items, src, dst),
                    _ => old(self)@.items,
                },
                drag_source: None,
                drag_target: None,
                ..old(self)@
            }),
    {
        match (self.drag_source_index, self.drag_target_index) {
            (Some(src), Some(dst)) => {
                if src != dst && dst < self.gallery_items.len() {
                    let ghost before = self.gallery_items@;
                    let item = self.gallery_items.remove(src);
                    let d = if dst > src { dst - 1 } else { dst };
                    self.gallery_items.insert(d, item);
                    assert(views(self.gallery_items@) =~= reordered(views(before), src, dst));
                }
            },
            _ => {},
        }
        self.drag_source_index = None;
        self.drag_target_index = None;
    }

    /// The item being dragged and the place it would be dropped.
    pub fn drag_state(&self) -> (r: (Option<usize>, Option<usize>))
        ensures
            r == (self@.drag_source, self@.drag_target),
    {
        (self.drag_source_index, self.drag_target_index)
    }

    /// A right click on `index`: an unselected item becomes the only selection; the context
    /// menu opens when the pointer position is known.
    pub fn right_click(&mut self, index: usize, pointer_known: bool)
        requires
            old(self).wf(),
        ensures
            final(self).wf(),
            final(self)@ == (GalleryView {
                selected: if old(self)@.selected.contains(index) { old(self)@.selected } else { Set::<usize>::empty().insert(index) },
                focus: if old(self)@.selected.contains(index) { old(self)@.focus } else { Some(index) },
                last_clicked: if old(self)@.selected.contains(index) { old(self)@.last_clicked } else { Some(index) },
                menu_open: if pointer_known { true } else { old(self)@.menu_open },
                ..old(self)@
            }),
    {
        if !self.selected_indices.contains(&index) {
            self.selected_indices.clear();
            self.selected_indices.insert(index);
            self.selected_gallery_index = Some(index);
            self.last_clicked_index = Some(index);
        }
        if pointer_known {
            self.context_menu_open = true;
        }
    }

    /// Whether the context menu is open
    pub fn menu_open(&self) -> (r: bool)
        ensures
            r == self@.menu_open,
    {
        self.context_menu_open
    }

    /// Close the context menu.
    pub fn close_menu(&mut self)
        requires
            old(self).wf(),
        ensures
            final(self).wf(),
            final(self)@ == (GalleryView { menu_open: false, ..old(self)@ }),
    {
        self.context_menu_open = false;
    }

    /// "Open" in the context menu: the first selected path is to be opened; the menu closes.
    pub fn menu_open_first(&mut self)
        requires
            old(self).wf(),
        ensures
            final(self).wf(),
            !final(self)@.menu_open,
            final(self)@.selected == old(self)@.selected,
            final(self)@.items == old(self)@.items,
            selected_items(old(self)@.items, old(self)@.selected).len() == 0 ==> final(self)@.pending_open == old(self)@.pending_open,
            selected_items(old(self)@.items, old(self)@.selected).len() > 0 ==> (final(self)@.pending_open matches Some(p)
                && selected_items(old(self)@.items, old(self)@.selected).contains(p)
                && forall|k: int| 0 <= k < selected_items(old(self)@.items, old(self)@.selected).len() ==>
                    first_pos(old(self)@.items, p) <= first_pos(old(self)@.items, #[trigger] selected_items(old(self)@.items, old(self)@.selected)[k])),
    {
        let paths = self.selected_paths();
        let ghost sv = selected_items(self@.items, self@.selected);
        proof {
            vstd::seq_lib::to_multiset_len(views(paths@));
            vstd::seq_lib::to_multiset_len(sv);
        }
        if paths.len() > 0 {
            let first = paths[0].clone();
            proof {
                let pv = views(paths@);
                assert(pv[0] == first@);
                vstd::seq_lib::to_multiset_contains(pv, first@);
                vstd::seq_lib::to_multiset_contains(sv, first@);
                assert forall|k: int| 0 <= k < sv.len() implies first_pos(self@.items, first@) <= first_pos(self@.items, #[trigger] sv[k]) by {
                    vstd::seq_lib::to_multiset_contains(sv, sv[k]);
                    vstd::seq_lib::to_multiset_contains(pv, sv[k]);
                    let m = choose|m: int| 0 <= m < pv.len() && pv[m] == sv[k];
                    if m > 0 {
                        assert(first_pos(self@.items, pv[0]) <= first_pos(self@.items, pv[m]));
                    }
                }
            }
            self.pending_gallery_open = Some(first);
        }
        self.context_menu_open = false;
    }

    /// "Delete" in the context menu: the selected paths are to be deleted; the menu closes.
    pub fn menu_delete(&mut self)
        requires
            old(self).wf(),
        ensures
            final(self).wf(),
            final(self)@ == (GalleryView {
                pending_delete: final(self)@.pending_delete,
                menu_open: false,
                ..old(self)@
            }),
            final(self)@.pending_delete matches Some(d) && d.to_multiset() == selected_items(
                old(self)@.items,
                old(self)@.selected,
            ).to_multiset() && ordered_by_first_position(old(self)@.items, d),
    {
        let paths = self.selected_paths();
        self.pending_delete = Some(paths);
        self.context_menu_open = false;
    }

    /// "Move to..." in the context menu: the selected paths are to be moved; the menu closes.
    pub fn menu_move_to(&mut self)
        requires
            old(self).wf(),
        ensures
            final(self).wf(),
            final(self)@ == (GalleryView {
                pending_move: final(self)@.pending_move,
                menu_open: false,
                ..old(self)@
            }),
            final(self)@.pending_move matches Some(d) && d.to_multiset() == selected_items(
                old(self)@.items,
                old(self)@.selected,
            ).to_multiset() && ordered_by_first_position(old(self)@.items, d),
    {
        let paths = self.selected_paths();
        self.pending_move_to = Some(paths);
        self.context_menu_open = false;
    }
}

/// Ctrl-clicking the same item twice leaves the selection as it was.
pub proof fn law_ctrl_click_twice_restores_selection(g: GalleryView, index: usize)
    ensures
        after_click(after_click(g, index, true, false), index, true, false).selected == g.selected,
{
    let once = after_click(g, index, true, false);
    if g.selected.contains(index) {
        assert(once.selected.insert(index) =~= g.selected);
    } else {
        assert(once.selected.remove(index) =~= g.selected);
    }
}

/// A click without modifiers leaves the clicked item, and only it, selected and focused.
pub proof fn law_plain_click_selects(g: GalleryView, index: usize)
    ensures
        after_click(g, index, false, false).selected == set![index],
        after_click(g, index, false, false).focus == Some(index),
{
    assert(set![index] =~= Set::<usize>::empty().insert(index));
}

/// A Shift-click selects exactly the indices from the anchor (the last clicked index, or the
/// clicked one when there was none) to the clicked index, both included, on whichever side
/// of the anchor the click falls; the anchor and the clicked index are always selected.
pub proof fn law_shift_click_selects_range(g: GalleryView, index: usize)
    ensures
        ({
            let a: usize = match g.last_clicked {
                Some(s) => s,
                None => index,
            };
            let sel = after_click(g, index, false, true).selected;
            &&& forall|i: usize| #[trigger] sel.contains(i) <==> ((a <= i && i <= index) || (index <= i && i <= a))
            &&& sel.contains(a)
            &&& sel.contains(index)
        }),
{
}

/// Dropping an item on another position moves it there: with source `src` and target `dst`
/// (both inside the gallery, `src != dst`), the item lands at `dst`, or at `dst - 1` when the
/// target lies after the source (the item itself has left the list), the list keeps its
/// length, and the other items keep their order.
pub proof fn law_drop_moves_item(items: Seq<Seq<char>>, src: usize, dst: usize)
    requires
        src < items.len(),
        dst < items.len(),
        src != dst,
    ensures
        ({
            let r = reordered(items, src, dst);
            let p: int = if dst > src { dst - 1 } else { dst as int };
            &&& r.len() == items.len()
            &&& r[p] == items[src as int]
            &&& r.remove(p) == items.remove(src as int)
        }),
{
    let rest = items.remove(src as int);
    let p: int = if dst > src { dst - 1 } else { dst as int };
    assert(rest.insert(p, items[src as int]).remove(p) =~= rest);
}

/// Dragging an item to another place reorders the gallery: the same items, each as often.
pub proof fn law_drop_keeps_items(items: Seq<Seq<char>>, src: usize, dst: usize)
    requires
        src < items.len(),
    ensures
        reordered(items, src, dst).to_multiset() == items.to_multiset(),
        reordered(items, src, dst).len() == items.len(),
{
    broadcast use vstd::seq_lib::group_to_multiset_ensures;
    if src != dst && dst < items.len() {
        let rest = items.remove(src as int);
        let d = if dst > src { (dst - 1) as int } else { dst as int };
        let x = items[src as int];
        assert(items =~= items.subrange(0, src as int) + seq![x] + items.subrange(src + 1, items.len() as int));
        assert(rest =~= items.subrange(0, src as int) + items.subrange(src + 1, items.len() as int));
        vstd::seq_lib::lemma_multiset_commutative(items.subrange(0, src as int) + seq![x], items.subrange(src + 1, items.len() as int));
        vstd::seq_lib::lemma_multiset_commutative(items.subrange(0, src as int), seq![x]);
        vstd::seq_lib::lemma_multiset_commutative(items.subrange(0, src as int), items.subrange(src + 1, items.len() as int));
        let out = rest.insert(d, x);
        assert(out =~= rest.subrange(0, d) + seq![x] + rest.subrange(d, rest.len() as int));
        assert(rest =~= rest.subrange(0, d) + rest.subrange(d, rest.len() as int));
        vstd::seq_lib::lemma_multiset_commutative(rest.subrange(0, d) + seq![x], rest.subrange(d, rest.len() as int));
        vstd::seq_lib::lemma_multiset_commutative(rest.subrange(0, d), seq![x]);
        vstd::seq_lib::lemma_multiset_commutative(rest.subrange(0, d), rest.subrange(d, rest.len() as int));
        assert(out.to_multiset() =~= rest.to_multiset().insert(x));
        assert(items.to_multiset() =~= rest.to_multiset().insert(x));
    }
}

} // verus!
