//! Application state of the file-transfer screen: two panels, type-to-filter
//! search, selection, drag-and-drop and the requests it hands to the main loop.

use vstd::prelude::*;

use crate::geometry::Rect;
use crate::input::{KeyCode, KeyEvent, KeyKind, MouseButton, MouseEvent, MouseKind, Event};
use crate::paths::{joined_path, parent_path, path_join, path_parent};
use crate::ssh::{as_entries, remote_join, remote_join_spec, remote_parent, remote_parent_spec, RemoteEntry};
use crate::text::{push_char, string_of_range, owned, same_text, bytes_le, chars_of, contains_chars, contains_seq, lemma_bytes_le_total, lemma_bytes_le_trans, str_le};
use vstd::utf8::encode_utf8;

verus! {

/// Which of the two panels.
#[derive(Clone, Copy, PartialEq, Eq, Debug, Structural)]
pub enum PanelId {
    Local,
    Remote,
}

impl PanelId {
    /// The other panel.
    pub open spec fn other(self) -> PanelId {
        match self {
            PanelId::Local => PanelId::Remote,
            PanelId::Remote => PanelId::Local,
        }
    }
}

/// One entry of a panel (local or remote, shown the same way).
#[derive(Clone, Debug)]
pub struct Entry {
    pub name: String,
    pub is_dir: bool,
}

impl Entry {
    /// An exact copy of the entry.
    pub fn duplicate(&self) -> (r: Entry)
        ensures
            r == *self,
    {
        Entry { name: self.name.clone(), is_dir: self.is_dir }
    }
}

/// Lower-case form of a string as `str::to_lowercase` computes it.
pub uninterp spec fn lowercase(s: Seq<char>) -> Seq<char>;

/// Normalisation for search: lower-cases the text (std `str::to_lowercase`).
/// Claimed: the result is `lowercase` of the input, and it is empty exactly
/// when the input is (every character maps to at least one character).
#[verifier::external_body]
pub(crate) fn fold(s: &str) -> (r: String)
    ensures
        r@ == lowercase(s@),
        (r@.len() == 0) == (s@.len() == 0),
{
    s.to_lowercase()
}

/// A name matches the search query: the query is empty, or its lower-case
/// form occurs in the lower-case name.
pub open spec fn name_matches(name: Seq<char>, query: Seq<char>) -> bool {
    query.len() == 0 || contains_seq(lowercase(name), lowercase(query))
}

/// Indices (in order) of the first `n` entries whose names match `query`.
pub open spec fn visible_upto(entries: Seq<Entry>, query: Seq<char>, n: int) -> Seq<usize>
    decreases n,
{
    if n <= 0 {
        Seq::empty()
    } else {
        let prev = visible_upto(entries, query, n - 1);
        if name_matches(entries[n - 1].name@, query) {
            prev.push((n - 1) as usize)
        } else {
            prev
        }
    }
}

/// Indices of all entries that match `query`, in order.
pub open spec fn visible_indices(entries: Seq<Entry>, query: Seq<char>) -> Seq<usize> {
    visible_upto(entries, query, entries.len() as int)
}

/// Strictly increasing sequence of indices.
pub open spec fn strictly_increasing(s: Seq<usize>) -> bool {
    forall|i: int, j: int| 0 <= i < j < s.len() ==> s[i] < s[j]
}

/// The scroll offset after keeping `selected` inside a window of `h` rows
/// that starts at `offset` (a window of height 0 is left alone).
pub open spec fn clamped_offset(selected: int, offset: int, h: int) -> int {
    if h == 0 {
        offset
    } else if selected < offset {
        selected
    } else if selected >= offset + h {
        selected + 1 - h
    } else {
        offset
    }
}


/// Listing order: directories first, then by name in the order of `str`'s
/// `Ord` (byte-wise on UTF-8).
pub open spec fn entry_le(a: Entry, b: Entry) -> bool {
    (a.is_dir && !b.is_dir) || (a.is_dir == b.is_dir && bytes_le(
        encode_utf8(a.name@),
        encode_utf8(b.name@),
    ))
}

/// The entries are in listing order.
pub open spec fn listing_sorted(s: Seq<Entry>) -> bool {
    forall|i: int, j: int| 0 <= i < j < s.len() ==> entry_le(s[i], s[j])
}

proof fn lemma_entry_le_total(a: Entry, b: Entry)
    ensures
        entry_le(a, b) || entry_le(b, a),
{
    lemma_bytes_le_total(encode_utf8(a.name@), encode_utf8(b.name@));
}

proof fn lemma_entry_le_trans(a: Entry, b: Entry, c: Entry)
    requires
        entry_le(a, b),
        entry_le(b, c),
    ensures
        entry_le(a, c),
{
    if a.is_dir == b.is_dir && b.is_dir == c.is_dir {
        lemma_bytes_le_trans(encode_utf8(a.name@), encode_utf8(b.name@), encode_utf8(c.name@));
    }
}

fn entry_le_exec(a: &Entry, b: &Entry) -> (r: bool)
    ensures
        r == entry_le(*a, *b),
{
    if a.is_dir != b.is_dir {
        a.is_dir
    } else {
        str_le(a.name.as_str(), b.name.as_str())
    }
}

/// Sorts a listing: directories first, then by name. The result holds the
/// same entries.
pub fn sort_entries(v: &Vec<Entry>) -> (r: Vec<Entry>)
    ensures
        listing_sorted(r@),
        r@.to_multiset() == v@.to_multiset(),
{
    broadcast use vstd::seq_lib::group_to_multiset_ensures;
    broadcast use vstd::multiset::group_multiset_axioms;

    let mut r: Vec<Entry> = Vec::new();
    let mut i: usize = 0;
    while i < v.len()
        invariant
            i <= v@.len(),
            listing_sorted(r@),
            r@.to_multiset() == v@.take(i as int).to_multiset(),
        decreases v@.len() - i,
    {
        let e = v[i].duplicate();
        let mut p: usize = 0;
        while p < r.len() && entry_le_exec(&r[p], &e)
            invariant
                p <= r@.len(),
                forall|a: int| 0 <= a < p ==> entry_le(r@[a], e),
            decreases r@.len() - p,
        {
            p = p + 1;
        }
        let ghost old_r = r@;
        proof {
            if p < old_r.len() {
                lemma_entry_le_total(old_r[p as int], e);
                assert forall|b: int| p <= b < old_r.len() implies entry_le(e, old_r[b]) by {
                    if b > p {
                        lemma_entry_le_trans(e, old_r[p as int], old_r[b]);
                    }
                }
            }
        }
        r.insert(p, e);
        proof {
            assert(r@ == old_r.insert(p as int, e));
            assert forall|a: int, b: int| 0 <= a < b < r@.len() implies entry_le(r@[a], r@[b]) by {
                if b < p {
                    assert(r@[a] == old_r[a] && r@[b] == old_r[b]);
                } else if b == p {
                    assert(r@[a] == old_r[a]);
                } else if a < p {
                    assert(r@[a] == old_r[a] && r@[b] == old_r[b - 1]);
                } else if a == p {
                    assert(r@[b] == old_r[b - 1]);
                } else {
                    assert(r@[a] == old_r[a - 1] && r@[b] == old_r[b - 1]);
                }
            }
            assert(r@.remove(p as int) =~= old_r);
            assert(r@[p as int] == e);
            assert(v@.take(i + 1) =~= v@.take(i as int).push(v@[i as int]));
            r@.to_multiset_ensures();
            assert(r@.remove(p as int).to_multiset() =~= r@.to_multiset().remove(r@[p as int]));
            assert(r@.to_multiset().remove(e) =~= old_r.to_multiset());
            assert(r@.contains(e));
            assert(r@.to_multiset().count(e) > 0);
            assert(r@.to_multiset() =~= old_r.to_multiset().insert(e));
            v@.take(i as int).to_multiset_ensures();
            assert(v@.take(i as int).push(e).to_multiset() =~= v@.take(i as int).to_multiset().insert(e));
        }
        i = i + 1;
    }
    assert(v@.take(v@.len() as int) =~= v@);
    r
}


/// The `..` entry every listing starts with.
pub open spec fn is_parent_entry(e: Entry) -> bool {
    e.name@ == ".."@ && e.is_dir
}

/// A directory listing as a panel shows it: a `..` entry is added to what
/// was read, then everything is put in listing order.
pub fn listing_with_parent(listed: &Vec<Entry>) -> (r: Vec<Entry>)
    ensures
        listing_sorted(r@),
        exists|up: Entry| #[trigger]
            is_parent_entry(up) && r@.to_multiset() == (seq![up] + listed@).to_multiset(),
{
    let mut entries: Vec<Entry> = Vec::new();
    let up = Entry { name: owned(".."), is_dir: true };
    let ghost upv = up;
    entries.push(up);
    let mut i: usize = 0;
    while i < listed.len()
        invariant
            i <= listed@.len(),
            entries@ == seq![upv] + listed@.take(i as int),
        decreases listed@.len() - i,
    {
        entries.push(listed[i].duplicate());
        assert(seq![upv] + listed@.take(i + 1) =~= (seq![upv] + listed@.take(i as int)).push(
            listed@[i as int],
        ));
        i = i + 1;
    }
    assert(listed@.take(listed@.len() as int) =~= listed@);
    let r = sort_entries(&entries);
    assert(is_parent_entry(upv));
    r
}

/// A single file panel.
///
/// `entries` is the whole directory; `view` holds the indices (into
/// `entries`) of the entries that match the search query. Selection,
/// scrolling and mouse hits always go through `view`, so a hidden entry can
/// never be selected while a filter is active.
pub struct Panel {
    /// Full path for the local panel, `/...` path for the remote one.
    pub cwd: String,
    pub entries: Vec<Entry>,
    /// Visible indices into `entries` (those that match the query).
    pub view: Vec<usize>,
    /// Search query; everything is visible when it is empty.
    pub query: String,
    /// Selected position inside `view`.
    pub selected: usize,
    pub offset: usize,
    /// Inner list area of the last drawing (for mouse hit tests).
    pub list_area: Rect,
}

impl Panel {
    /// The entry under the selection, if the selection points at one.
    pub open spec fn current_entry(self) -> Option<Entry> {
        if self.selected < self.view@.len() && self.view@[self.selected as int]
            < self.entries@.len() {
            Some(self.entries@[self.view@[self.selected as int] as int])
        } else {
            None
        }
    }

    /// The index (into `entries`) under the selection before a refilter.
    pub open spec fn selected_index(self) -> Option<usize> {
        if self.selected < self.view@.len() {
            Some(self.view@[self.selected as int])
        } else {
            None
        }
    }

    /// Everything but the view, selection and scroll offset is the same.
    pub open spec fn same_listing(self, other: Panel) -> bool {
        &&& self.cwd == other.cwd
        &&& self.entries == other.entries
        &&& self.query == other.query
        &&& self.list_area == other.list_area
    }

    /// An empty panel.
    pub fn new() -> (p: Panel)
        ensures
            p.cwd@.len() == 0,
            p.entries@.len() == 0,
            p.view@.len() == 0,
            p.query@.len() == 0,
            p.selected == 0,
            p.offset == 0,
            p.list_area == (Rect { x: 0, y: 0, width: 0, height: 0 }),
    {
        Panel {
            cwd: String::new(),
            entries: Vec::new(),
            view: Vec::new(),
            query: String::new(),
            selected: 0,
            offset: 0,
            list_area: Rect::zero(),
        }
    }

    /// The visible entries, in display order.
    pub fn visible(&self) -> (v: Vec<Entry>)
        ensures
            v@ == shown_entries(self.entries@, self.view@, self.view@.len() as int),
    {
        let mut v: Vec<Entry> = Vec::new();
        let mut i: usize = 0;
        while i < self.view.len()
            invariant
                i <= self.view@.len(),
                v@ == shown_entries(self.entries@, self.view@, i as int),
            decreases self.view@.len() - i,
        {
            let k = self.view[i];
            if k < self.entries.len() {
                v.push(self.entries[k].duplicate());
            }
            i = i + 1;
        }
        v
    }

    /// The entry under the selection.
    pub fn current(&self) -> (r: Option<&Entry>)
        ensures
            match r {
                Some(e) => self.current_entry() == Some(*e),
                None => self.current_entry() is None,
            },
    {
        if self.selected < self.view.len() {
            let k = self.view[self.selected];
            if k < self.entries.len() {
                return Some(&self.entries[k]);
            }
        }
        None
    }

    /// Keeps the selection inside the visible window of the list area.
    pub fn clamp_scroll(&mut self)
        ensures
            final(self).offset == clamped_offset(
                old(self).selected as int,
                old(self).offset as int,
                old(self).list_area.height as int,
            ),
            final(self).selected == old(self).selected,
            final(self).view == old(self).view,
            final(self).same_listing(*old(self)),
    {
        let h = self.list_area.height as usize;
        if h == 0 {
            return;
        }
        if self.selected < self.offset {
            self.offset = self.selected;
        } else if self.selected - self.offset >= h {
            self.offset = self.selected - h + 1;
        }
    }

    /// Rebuilds `view` from the query. If the selected entry is still
    /// visible, the selection stays on it; otherwise it goes to the top.
    pub fn refilter(&mut self)
        ensures
            refiltered(*final(self), *old(self), old(self).query@),
            final(self).query == old(self).query,
    {
        let ghost old_view = self.view@;
        let onceki: Option<usize> = if self.selected < self.view.len() {
            Some(self.view[self.selected])
        } else {
            None
        };
        let q = fold(self.query.as_str());
        let qv = chars_of(q.as_str());
        let mut view: Vec<usize> = Vec::new();
        let mut i: usize = 0;
        while i < self.entries.len()
            invariant
                i <= self.entries@.len(),
                qv@ == lowercase(self.query@),
                (qv@.len() == 0) == (self.query@.len() == 0),
                view@ == visible_upto(self.entries@, self.query@, i as int),
            decreases self.entries@.len() - i,
        {
            let f = fold(self.entries[i].name.as_str());
            let fv = chars_of(f.as_str());
            if qv.len() == 0 || contains_chars(&fv, &qv) {
                view.push(i);
            }
            i = i + 1;
        }
        let mut sel: usize = 0;
        if let Some(k) = onceki {
            let mut p: usize = 0;
            while p < view.len() && view[p] != k
                invariant
                    p <= view@.len(),
                    forall|t: int| 0 <= t < p ==> view@[t] != k,
                decreases view@.len() - p,
            {
                p = p + 1;
            }
            if p < view.len() {
                sel = p;
            }
        }
        proof {
            assert(onceki == old(self).selected_index());
        }
        self.view = view;
        self.selected = sel;
        self.offset = 0;
        self.clamp_scroll();
    }

    /// Clears the query, keeping the selection where it can.
    pub fn clear_query(&mut self)
        ensures
            refiltered(*final(self), *old(self), Seq::<char>::empty()),
    {
        self.set_query(String::new());
    }

    /// Moves the selection to `sel` and scrolls to show it.
    pub fn select_at(&mut self, sel: usize)
        ensures
            moved_to(*final(self), *old(self), sel as int),
    {
        self.selected = sel;
        self.clamp_scroll();
    }

    /// Sets the query to `q` and refilters.
    pub fn set_query(&mut self, q: String)
        ensures
            refiltered(*final(self), *old(self), q@),
    {
        self.query = q;
        self.refilter();
    }

    /// Whether (`col`, `row`) lies in this panel's list area.
    pub fn contains(&self, col: u16, row: u16) -> (b: bool)
        ensures
            b == self.list_area.has(col as int, row as int),
    {
        self.list_area.contains(col, row)
    }

    /// The position in `view` under (`col`, `row`), if any.
    pub fn hit(&self, col: u16, row: u16) -> (r: Option<usize>)
        ensures
            r == panel_hit(*self, col as int, row as int),
    {
        if !self.list_area.contains(col, row) {
            return None;
        }
        let rel = (row - self.list_area.y) as usize;
        if self.offset <= self.view.len() && rel < self.view.len() - self.offset {
            Some(self.offset + rel)
        } else {
            None
        }
    }
}


/// `p` is `before` refiltered for `query`: same directory and entries, the
/// view is exactly the entries matching `query`, the selection stays on the
/// previously selected entry when it is still visible (else it goes to the
/// top), and the window is scrolled from the top to show it.
pub open spec fn refiltered(p: Panel, before: Panel, query: Seq<char>) -> bool {
    &&& p.cwd == before.cwd
    &&& p.entries == before.entries
    &&& p.list_area == before.list_area
    &&& p.query@ == query
    &&& p.view@ == visible_indices(before.entries@, query)
    &&& match before.selected_index() {
        Some(i) if p.view@.contains(i) => p.selected < p.view@.len() && p.view@[p.selected as int]
            == i,
        _ => p.selected == 0,
    }
    &&& p.offset == clamped_offset(p.selected as int, 0, before.list_area.height as int)
}

/// `p` is `before` with the selection moved to `sel` and scrolled to show it.
pub open spec fn moved_to(p: Panel, before: Panel, sel: int) -> bool {
    &&& p.cwd == before.cwd
    &&& p.entries == before.entries
    &&& p.list_area == before.list_area
    &&& p.query == before.query
    &&& p.view == before.view
    &&& p.selected == sel
    &&& p.offset == clamped_offset(sel, before.offset as int, before.list_area.height as int)
}


/// Drag state. `active` means the mouse really moved (not a click).
pub struct Drag {
    pub source: PanelId,
    pub entry: Entry,
    pub col: u16,
    pub row: u16,
    pub active: bool,
}

/// A transfer request born from drag-and-drop or F5; the main loop runs it.
#[derive(Clone)]
pub struct TransferRequest {
    pub source: PanelId,
    pub target: PanelId,
    pub name: String,
    pub local_path: String,
    pub remote_path: String,
}

/// An edit request born from F4; the main loop opens the editor.
#[derive(Clone)]
pub struct EditRequest {
    /// The panel the file comes from. `Remote`: download, edit, upload.
    pub panel: PanelId,
    pub name: String,
    /// Local panel: the file to edit. Remote panel: unused (empty).
    pub local_path: String,
    /// Remote panel: the path to download and upload back. Local: empty.
    pub remote_path: String,
}

/// Progress of the running transfer, as the UI shows it.
pub struct TransferState {
    /// Root of the transfer (dragged or selected file or folder name).
    pub name: String,
    pub done: u64,
    pub total: u64,
    /// What is happening: scanning, or the path of the file being copied.
    pub label: Option<String>,
    /// (finished, total) file count for a folder transfer.
    pub files: Option<(u32, u32)>,
}

/// A directory the main loop must list and load into a panel.
pub struct LoadRequest {
    pub panel: PanelId,
    pub dir: String,
}

/// The whole state of the file-transfer screen.
pub struct App {
    pub local: Panel,
    pub remote: Panel,
    pub focus: PanelId,
    pub drag: Option<Drag>,
    pub status: String,
    pub should_quit: bool,
    /// Pending transfer request; the main loop runs it in a separate task.
    pub pending_transfer: Option<TransferRequest>,
    /// Progress of the running transfer (for the progress bar).
    pub transfer: Option<TransferState>,
    /// Pending edit request; the main loop opens the editor.
    pub pending_edit: Option<EditRequest>,
}

/// The local directory one level up (`Path::parent`), or the same one at a root.
pub open spec fn local_parent(cwd: Seq<char>) -> Seq<char> {
    match parent_path(cwd) {
        Some(p) => p,
        None => cwd,
    }
}

/// The directory a panel goes up to.
pub open spec fn parent_dir(panel: PanelId, cwd: Seq<char>) -> Seq<char> {
    match panel {
        PanelId::Local => local_parent(cwd),
        PanelId::Remote => remote_parent_spec(cwd),
    }
}

/// The directory a panel enters through an entry named `name`.
pub open spec fn child_dir(panel: PanelId, cwd: Seq<char>, name: Seq<char>) -> Seq<char> {
    if name == ".."@ {
        parent_dir(panel, cwd)
    } else {
        match panel {
            PanelId::Local => joined_path(cwd, name),
            PanelId::Remote => remote_join_spec(cwd, name),
        }
    }
}

/// A load request, as (panel, directory).
pub open spec fn load_view(r: Option<LoadRequest>) -> Option<(PanelId, Seq<char>)> {
    match r {
        Some(l) => Some((l.panel, l.dir@)),
        None => None,
    }
}

impl App {
    /// The panel with the given id.
    pub open spec fn panel(self, id: PanelId) -> Panel {
        match id {
            PanelId::Local => self.local,
            PanelId::Remote => self.remote,
        }
    }

    /// Everything but panel `id` is as in `old`.
    pub open spec fn same_but_panel(self, old: App, id: PanelId) -> bool {
        &&& id == PanelId::Local ==> self.remote == old.remote
        &&& id == PanelId::Remote ==> self.local == old.local
        &&& self.focus == old.focus
        &&& self.drag == old.drag
        &&& self.status == old.status
        &&& self.should_quit == old.should_quit
        &&& self.pending_transfer == old.pending_transfer
        &&& self.transfer == old.transfer
        &&& self.pending_edit == old.pending_edit
    }

    /// Only the status line changed (to `status`).
    pub open spec fn only_status(self, old: App, status: Seq<char>) -> bool {
        &&& self.local == old.local
        &&& self.remote == old.remote
        &&& self.focus == old.focus
        &&& self.drag == old.drag
        &&& self.status@ == status
        &&& self.should_quit == old.should_quit
        &&& self.pending_transfer == old.pending_transfer
        &&& self.transfer == old.transfer
        &&& self.pending_edit == old.pending_edit
    }

    /// Where entering position `idx` of panel `id` leads: nowhere unless it
    /// shows a directory.
    pub open spec fn enter_target(self, id: PanelId, idx: int) -> Option<(PanelId, Seq<char>)> {
        let p = self.panel(id);
        if 0 <= idx < p.view@.len() && p.view@[idx] < p.entries@.len() && p.entries@[p.view@[
            idx
        ] as int].is_dir {
            Some((id, child_dir(id, p.cwd@, p.entries@[p.view@[idx] as int].name@)))
        } else {
            None
        }
    }

    /// A fresh screen: both panels empty, focus on the local one.
    pub fn new() -> (a: App)
        ensures
            a.local.entries@.len() == 0 && a.local.view@.len() == 0 && a.local.query@.len() == 0,
            a.remote.entries@.len() == 0 && a.remote.view@.len() == 0 && a.remote.query@.len()
                == 0,
            a.focus == PanelId::Local,
            a.drag is None,
            a.status@ == "Yazmaya başla = ara · F5: transfer · F4: düzenle · Esc: temizle/çık"@,
            !a.should_quit,
            a.pending_transfer is None && a.transfer is None && a.pending_edit is None,
    {
        App {
            local: Panel::new(),
            remote: Panel::new(),
            focus: PanelId::Local,
            drag: None,
            status: owned("Yazmaya başla = ara · F5: transfer · F4: düzenle · Esc: temizle/çık"),
            should_quit: false,
            pending_transfer: None,
            transfer: None,
            pending_edit: None,
        }
    }

    /// Loads a local directory listing (what was read from `dir`): a `..`
    /// entry is added, the listing is sorted, the query is cleared and the
    /// selection goes to the top.
    pub fn load_local(&mut self, dir: String, listed: Vec<Entry>)
        ensures
            final(self).local.cwd == dir,
            listing_sorted(final(self).local.entries@),
            exists|up: Entry| #[trigger]
                is_parent_entry(up) && final(self).local.entries@.to_multiset() == (seq![up]
                    + listed@).to_multiset(),
            final(self).local.query@.len() == 0,
            final(self).local.view@ == visible_indices(final(self).local.entries@, Seq::<char>::empty()),
            final(self).local.selected == 0,
            final(self).local.offset == 0,
            final(self).local.list_area == old(self).local.list_area,
            final(self).same_but_panel(*old(self), PanelId::Local),
    {
        let entries = listing_with_parent(&listed);
        let mut p = Panel::new();
        std::mem::swap(&mut p, &mut self.local);
        p.cwd = dir;
        p.entries = entries;
        p.view = Vec::new();
        p.selected = 0;
        p.offset = 0;
        p.set_query(String::new());
        std::mem::swap(&mut p, &mut self.local);
    }

    /// Loads a remote directory listing (already in listing order).
    pub fn load_remote(&mut self, dir: String, list: Vec<RemoteEntry>)
        ensures
            final(self).remote.cwd == dir,
            final(self).remote.entries@ == as_entries(list@),
            final(self).remote.query@.len() == 0,
            final(self).remote.view@ == visible_indices(final(self).remote.entries@, Seq::<char>::empty()),
            final(self).remote.selected == 0,
            final(self).remote.offset == 0,
            final(self).remote.list_area == old(self).remote.list_area,
            final(self).same_but_panel(*old(self), PanelId::Remote),
    {
        let mut entries: Vec<Entry> = Vec::new();
        let mut i: usize = 0;
        while i < list.len()
            invariant
                i <= list@.len(),
                entries@ == as_entries(list@.take(i as int)),
            decreases list@.len() - i,
        {
            entries.push(Entry { name: list[i].name.clone(), is_dir: list[i].is_dir });
            assert(as_entries(list@.take(i + 1)) =~= as_entries(list@.take(i as int)).push(
                Entry { name: list@[i as int].name, is_dir: list@[i as int].is_dir },
            ));
            i = i + 1;
        }
        assert(list@.take(list@.len() as int) =~= list@);
        let mut p = Panel::new();
        std::mem::swap(&mut p, &mut self.remote);
        p.cwd = dir;
        p.entries = entries;
        p.view = Vec::new();
        p.selected = 0;
        p.offset = 0;
        p.set_query(String::new());
        std::mem::swap(&mut p, &mut self.remote);
    }

    /// The directory panel `id` goes up to.
    pub fn parent_of(&self, id: PanelId) -> (r: LoadRequest)
        ensures
            r.panel == id,
            r.dir@ == parent_dir(id, self.panel(id).cwd@),
    {
        match id {
            PanelId::Local => {
                let dir = match path_parent(self.local.cwd.as_str()) {
                    Some(p) => p,
                    None => self.local.cwd.clone(),
                };
                LoadRequest { panel: id, dir }
            },
            PanelId::Remote => LoadRequest { panel: id, dir: remote_parent(self.remote.cwd.as_str()) },
        }
    }

    /// Where entering position `idx` (of `view`) of panel `id` leads: a
    /// directory to load, or nothing for a file or an empty spot.
    pub fn enter(&self, id: PanelId, idx: usize) -> (r: Option<LoadRequest>)
        ensures
            load_view(r) == self.enter_target(id, idx as int),
    {
        let p = match id {
            PanelId::Local => &self.local,
            PanelId::Remote => &self.remote,
        };
        if idx >= p.view.len() {
            return None;
        }
        let k = p.view[idx];
        if k >= p.entries.len() {
            return None;
        }
        let entry = &p.entries[k];
        if !entry.is_dir {
            return None;
        }
        if same_text(entry.name.as_str(), "..") {
            let up = self.parent_of(id);
            return Some(up);
        }
        let dir = match id {
            PanelId::Local => path_join(p.cwd.as_str(), entry.name.as_str()),
            PanelId::Remote => remote_join(p.cwd.as_str(), entry.name.as_str()),
        };
        Some(LoadRequest { panel: id, dir })
    }

    /// Which panel's list area holds (`col`, `row`).
    pub fn panel_at(&self, col: u16, row: u16) -> (r: Option<PanelId>)
        ensures
            r == (if self.local.list_area.has(col as int, row as int) {
                Some(PanelId::Local)
            } else if self.remote.list_area.has(col as int, row as int) {
                Some(PanelId::Remote)
            } else {
                None
            }),
    {
        if self.local.contains(col, row) {
            Some(PanelId::Local)
        } else if self.remote.contains(col, row) {
            Some(PanelId::Remote)
        } else {
            None
        }
    }
}


impl App {
    /// Everything is as in `old` except the pending transfer.
    pub open spec fn same_but_transfer(self, old: App) -> bool {
        &&& self.local == old.local
        &&& self.remote == old.remote
        &&& self.focus == old.focus
        &&& self.drag == old.drag
        &&& self.status == old.status
        &&& self.should_quit == old.should_quit
        &&& self.transfer == old.transfer
        &&& self.pending_edit == old.pending_edit
    }

    /// Everything is as in `old` except the pending edit.
    pub open spec fn same_but_edit(self, old: App) -> bool {
        &&& self.local == old.local
        &&& self.remote == old.remote
        &&& self.focus == old.focus
        &&& self.drag == old.drag
        &&& self.status == old.status
        &&& self.should_quit == old.should_quit
        &&& self.pending_transfer == old.pending_transfer
        &&& self.transfer == old.transfer
    }

    /// The effect of asking to move `entry` from panel `source` to panel
    /// `target`: the target path is always the opposite panel's current
    /// directory plus the same name.
    pub open spec fn transfer_queued(
        self,
        old: App,
        source: PanelId,
        entry: Entry,
        target: PanelId,
    ) -> bool {
        if entry.is_dir && entry.name@ == ".."@ {
            self.only_status(old, "Üst dizin (`..`) aktarılamaz."@)
        } else if source == target {
            self.only_status(old, "Kaynak ve hedef aynı panel — işlem yok."@)
        } else {
            &&& self.same_but_transfer(old)
            &&& self.pending_transfer matches Some(t) && t.source == source && t.target == target
                && t.name@ == entry.name@ && t.local_path@ == joined_path(
                old.local.cwd@,
                entry.name@,
            ) && t.remote_path@ == remote_join_spec(old.remote.cwd@, entry.name@)
        }
    }

    /// The effect of F5: the selected entry of the focused panel goes to the
    /// other panel; nothing happens when nothing is selected.
    pub open spec fn transfer_selected(self, old: App) -> bool {
        match old.panel(old.focus).current_entry() {
            Some(e) => self.transfer_queued(old, old.focus, e, old.focus.other()),
            None => self == old,
        }
    }

    /// The effect of F4: an edit request for the selected file of the
    /// focused panel; a folder is refused; nothing happens without selection.
    pub open spec fn edit_requested(self, old: App) -> bool {
        match old.panel(old.focus).current_entry() {
            None => self == old,
            Some(e) => if e.is_dir {
                self.only_status(old, "Klasör düzenlenemez — bir dosya seçin."@)
            } else {
                &&& self.same_but_edit(old)
                &&& self.pending_edit matches Some(r) && r.panel == old.focus && r.name@ == e.name@
                    && r.local_path@ == (if old.focus == PanelId::Local {
                    joined_path(old.local.cwd@, e.name@)
                } else {
                    Seq::<char>::empty()
                }) && r.remote_path@ == (if old.focus == PanelId::Remote {
                    remote_join_spec(old.remote.cwd@, e.name@)
                } else {
                    Seq::<char>::empty()
                })
            },
        }
    }

    /// Queues a transfer of `entry` from `source` to `target`. The real I/O
    /// happens in the main loop.
    pub fn queue_transfer(&mut self, source: PanelId, entry: &Entry, target: PanelId)
        ensures
            final(self).transfer_queued(*old(self), source, *entry, target),
    {
        if entry.is_dir && same_text(entry.name.as_str(), "..") {
            self.status = owned("Üst dizin (`..`) aktarılamaz.");
            return;
        }
        if source == target {
            self.status = owned("Kaynak ve hedef aynı panel — işlem yok.");
            return;
        }
        let local_path = path_join(self.local.cwd.as_str(), entry.name.as_str());
        let remote_path = remote_join(self.remote.cwd.as_str(), entry.name.as_str());
        self.pending_transfer = Some(
            TransferRequest { source, target, name: owned(entry.name.as_str()), local_path, remote_path },
        );
    }

    /// Drag-and-drop result: transfer the dragged entry to `target`.
    pub fn request_transfer(&mut self, drag: &Drag, target: PanelId)
        ensures
            final(self).transfer_queued(*old(self), drag.source, drag.entry, target),
    {
        self.queue_transfer(drag.source, &drag.entry, target);
    }

    /// F5: transfer the selected entry of the focused panel to the other one.
    pub fn request_transfer_selected(&mut self)
        ensures
            final(self).transfer_selected(*old(self)),
    {
        let source = self.focus;
        let target = match source {
            PanelId::Local => PanelId::Remote,
            PanelId::Remote => PanelId::Local,
        };
        let entry = match source {
            PanelId::Local => match self.local.current() {
                Some(e) => e.duplicate(),
                None => return ,
            },
            PanelId::Remote => match self.remote.current() {
                Some(e) => e.duplicate(),
                None => return ,
            },
        };
        self.queue_transfer(source, &entry, target);
    }

    /// F4: request editing the selected file of the focused panel.
    pub fn request_edit(&mut self)
        ensures
            final(self).edit_requested(*old(self)),
    {
        let panel = self.focus;
        let entry = match panel {
            PanelId::Local => match self.local.current() {
                Some(e) => e.duplicate(),
                None => return ,
            },
            PanelId::Remote => match self.remote.current() {
                Some(e) => e.duplicate(),
                None => return ,
            },
        };
        if entry.is_dir {
            self.status = owned("Klasör düzenlenemez — bir dosya seçin.");
            return;
        }
        let (local_path, remote_path) = match panel {
            PanelId::Local => (path_join(self.local.cwd.as_str(), entry.name.as_str()), String::new()),
            PanelId::Remote => (String::new(), remote_join(self.remote.cwd.as_str(), entry.name.as_str())),
        };
        self.pending_edit = Some(EditRequest { panel, name: entry.name, local_path, remote_path });
    }

    /// The name of the selected entry of a panel (to restore it after a reload).
    pub fn selected_name(&self, panel: PanelId) -> (r: Option<String>)
        ensures
            match r {
                Some(n) => self.panel(panel).current_entry() matches Some(e) && n@ == e.name@,
                None => self.panel(panel).current_entry() is None,
            },
    {
        let cur = match panel {
            PanelId::Local => self.local.current(),
            PanelId::Remote => self.remote.current(),
        };
        match cur {
            Some(e) => Some(e.name.clone()),
            None => None,
        }
    }
}


/// The position of the first entry named `name`, from position `i` on.
pub open spec fn first_named_from(entries: Seq<Entry>, name: Seq<char>, i: int) -> Option<int>
    decreases entries.len() - i,
{
    if i < 0 || i >= entries.len() {
        None
    } else if entries[i].name@ == name {
        Some(i)
    } else {
        first_named_from(entries, name, i + 1)
    }
}

/// `min(a, b)` on integers.
pub open spec fn min_int(a: int, b: int) -> int {
    if a <= b {
        a
    } else {
        b
    }
}

/// `a - b`, but not below zero.
pub open spec fn sat_sub(a: int, b: int) -> int {
    if a >= b {
        a - b
    } else {
        0
    }
}

/// The page size for PageUp/PageDown: the list height, at least 1.
pub open spec fn page_of(p: Panel) -> int {
    if p.list_area.height == 0 {
        1
    } else {
        p.list_area.height as int
    }
}

impl App {
    /// `old` with `should_quit` set.
    pub open spec fn quit_of(old: App) -> App {
        App { should_quit: true, ..old }
    }

    /// The effect of a key press on the file screen. Every typeable key goes
    /// to the search query (so there are no single-letter shortcuts); Esc
    /// clears the query before it quits; Backspace on an empty query goes up.
    /// `out` is the directory the main loop must then load.
    pub open spec fn key_effect(
        new: App,
        old: App,
        k: KeyEvent,
        out: Option<(PanelId, Seq<char>)>,
    ) -> bool {
        let ctrl = k.modifiers.ctrl;
        let alt = k.modifiers.alt;
        let f = old.focus;
        let p = old.panel(f);
        let np = new.panel(f);
        let last = sat_sub(p.view@.len() as int, 1);
        let moved = |sel: int| out is None && new.same_but_panel(old, f) && moved_to(np, p, sel);
        match k.code {
            KeyCode::Char(c) if ctrl && (c == 'q' || c == 'Q') => out is None && new == App::quit_of(
                old,
            ),
            KeyCode::F(10) => out is None && new == App::quit_of(old),
            KeyCode::Esc => out is None && if p.query@.len() == 0 {
                new == App::quit_of(old)
            } else {
                new.same_but_panel(old, f) && refiltered(np, p, Seq::<char>::empty())
            },
            KeyCode::F(4) => out is None && new.edit_requested(old),
            KeyCode::F(5) => out is None && new.transfer_selected(old),
            KeyCode::Tab => out is None && new == App { focus: f.other(), ..old },
            KeyCode::Backspace => if p.query@.len() == 0 {
                new == old && out == Some((f, parent_dir(f, p.cwd@)))
            } else {
                out is None && new.same_but_panel(old, f) && refiltered(
                    np,
                    p,
                    p.query@.drop_last(),
                )
            },
            KeyCode::Char(c) if !ctrl && !alt => out is None && new.same_but_panel(old, f)
                && refiltered(np, p, p.query@.push(c)),
            KeyCode::Enter => new == old && out == old.enter_target(f, p.selected as int),
            KeyCode::Down => if p.selected + 1 < p.view@.len() {
                moved(p.selected + 1)
            } else {
                out is None && new == old
            },
            KeyCode::Up => if p.selected > 0 {
                moved(p.selected - 1)
            } else {
                out is None && new == old
            },
            KeyCode::Home => moved(0),
            KeyCode::End => moved(last),
            KeyCode::PageDown => moved(min_int(p.selected + page_of(p), last)),
            KeyCode::PageUp => moved(sat_sub(p.selected as int, page_of(p))),
            _ => out is None && new == old,
        }
    }

    /// Selects the first entry named `name` in a panel (to keep the cursor
    /// after a reload). An entry hidden by the filter cannot be selected, so
    /// the query is cleared first. Nothing happens when no entry has the name.
    pub fn select_by_name(&mut self, panel: PanelId, name: &str)
        ensures
            match first_named_from(old(self).panel(panel).entries@, name@, 0) {
                None => *final(self) == *old(self),
                Some(k) => {
                    &&& final(self).same_but_panel(*old(self), panel)
                    &&& final(self).panel(panel).current_entry() == Some(
                        old(self).panel(panel).entries@[k],
                    )
                    &&& final(self).panel(panel).view@[final(self).panel(panel).selected as int]
                        == k
                    &&& if old(self).panel(panel).view@.contains(k as usize) {
                        moved_to(
                            final(self).panel(panel),
                            old(self).panel(panel),
                            final(self).panel(panel).selected as int,
                        )
                    } else {
                        exists|mid: Panel|
                            refiltered(mid, old(self).panel(panel), Seq::<char>::empty())
                                && #[trigger] moved_to(
                                final(self).panel(panel),
                                mid,
                                final(self).panel(panel).selected as int,
                            )
                    }
                },
            },
    {
        let mut p = Panel::new();
        match panel {
            PanelId::Local => std::mem::swap(&mut p, &mut self.local),
            PanelId::Remote => std::mem::swap(&mut p, &mut self.remote),
        }
        let ghost before = p;
        let mut k: usize = 0;
        while k < p.entries.len() && !same_text(p.entries[k].name.as_str(), name)
            invariant
                k <= p.entries@.len(),
                p == before,
                first_named_from(p.entries@, name@, 0) == first_named_from(
                    p.entries@,
                    name@,
                    k as int,
                ),
            decreases p.entries@.len() - k,
        {
            k = k + 1;
        }
        if k == p.entries.len() {
            match panel {
                PanelId::Local => std::mem::swap(&mut p, &mut self.local),
                PanelId::Remote => std::mem::swap(&mut p, &mut self.remote),
            }
            return;
        }
        let mut pos: usize = 0;
        while pos < p.view.len() && p.view[pos] != k
            invariant
                pos <= p.view@.len(),
                forall|t: int| 0 <= t < pos ==> p.view@[t] != k,
            decreases p.view@.len() - pos,
        {
            pos = pos + 1;
        }
        let ghost mut mid = p;
        if pos == p.view.len() {
            p.clear_query();
            proof {
                mid = p;
                law_view_is_the_matching_entries(p.entries@, Seq::<char>::empty());
                assert(p.view@.contains(k));
            }
            pos = 0;
            while pos < p.view.len() && p.view[pos] != k
                invariant
                    pos <= p.view@.len(),
                    p == mid,
                    p.view@.contains(k),
                    forall|t: int| 0 <= t < pos ==> p.view@[t] != k,
                decreases p.view@.len() - pos,
            {
                pos = pos + 1;
            }
        }
        p.select_at(pos);
        proof {
            assert(p.view@[p.selected as int] == k);
        }
        match panel {
            PanelId::Local => std::mem::swap(&mut p, &mut self.local),
            PanelId::Remote => std::mem::swap(&mut p, &mut self.remote),
        }
    }
}


impl App {
    /// Moves the selection of panel `id` to `sel`.
    fn move_in(&mut self, id: PanelId, sel: usize)
        ensures
            final(self).same_but_panel(*old(self), id),
            moved_to(final(self).panel(id), old(self).panel(id), sel as int),
    {
        match id {
            PanelId::Local => self.local.select_at(sel),
            PanelId::Remote => self.remote.select_at(sel),
        }
    }

    /// Sets the query of panel `id` and refilters it.
    fn query_in(&mut self, id: PanelId, q: String)
        ensures
            final(self).same_but_panel(*old(self), id),
            refiltered(final(self).panel(id), old(self).panel(id), q@),
    {
        match id {
            PanelId::Local => self.local.set_query(q),
            PanelId::Remote => self.remote.set_query(q),
        }
    }

    /// Handles a key press on the file screen; returns the directory the
    /// main loop must load next, if any.
    pub fn handle_key(&mut self, k: &KeyEvent) -> (r: Option<LoadRequest>)
        ensures
            App::key_effect(*final(self), *old(self), *k, load_view(r)),
    {
        let ctrl = k.modifiers.ctrl;
        let alt = k.modifiers.alt;
        let f = self.focus;
        let (query, selected, len, height) = match f {
            PanelId::Local => (
                chars_of(self.local.query.as_str()),
                self.local.selected,
                self.local.view.len(),
                self.local.list_area.height,
            ),
            PanelId::Remote => (
                chars_of(self.remote.query.as_str()),
                self.remote.selected,
                self.remote.view.len(),
                self.remote.list_area.height,
            ),
        };
        let last: usize = if len > 0 {
            len - 1
        } else {
            0
        };
        let page: usize = if height == 0 {
            1
        } else {
            height as usize
        };
        match k.code {
            KeyCode::Char(c) if ctrl && (c == 'q' || c == 'Q') => {
                self.should_quit = true;
                None
            },
            KeyCode::F(10) => {
                self.should_quit = true;
                None
            },
            KeyCode::Esc => {
                if query.len() == 0 {
                    self.should_quit = true;
                } else {
                    self.query_in(f, String::new());
                }
                None
            },
            KeyCode::F(4) => {
                self.request_edit();
                None
            },
            KeyCode::F(5) => {
                self.request_transfer_selected();
                None
            },
            KeyCode::Tab => {
                self.focus = match f {
                    PanelId::Local => PanelId::Remote,
                    PanelId::Remote => PanelId::Local,
                };
                None
            },
            KeyCode::Backspace => {
                if query.len() == 0 {
                    Some(self.parent_of(f))
                } else {
                    let q = string_of_range(&query, 0, query.len() - 1);
                    proof {
                        assert(query@.subrange(0, query@.len() - 1) =~= query@.drop_last());
                    }
                    self.query_in(f, q);
                    None
                }
            },
            KeyCode::Char(c) if !ctrl && !alt => {
                let mut q = string_of_range(&query, 0, query.len());
                push_char(&mut q, c);
                proof {
                    assert(query@.subrange(0, query@.len() as int) =~= query@);
                }
                self.query_in(f, q);
                None
            },
            KeyCode::Enter => self.enter(f, selected),
            KeyCode::Down => {
                if len > 0 && selected < len - 1 {
                    self.move_in(f, selected + 1);
                }
                None
            },
            KeyCode::Up => {
                if selected > 0 {
                    self.move_in(f, selected - 1);
                }
                None
            },
            KeyCode::Home => {
                self.move_in(f, 0);
                None
            },
            KeyCode::End => {
                self.move_in(f, last);
                None
            },
            KeyCode::PageDown => {
                let target = if selected >= last || last - selected <= page {
                    last
                } else {
                    selected + page
                };
                self.move_in(f, target);
                None
            },
            KeyCode::PageUp => {
                let target = if selected >= page {
                    selected - page
                } else {
                    0
                };
                self.move_in(f, target);
                None
            },
            _ => None,
        }
    }
}


/// `before` with the selection set to `sel` (no scrolling).
pub open spec fn pointed_at(p: Panel, before: Panel, sel: int) -> bool {
    &&& p.cwd == before.cwd
    &&& p.entries == before.entries
    &&& p.list_area == before.list_area
    &&& p.query == before.query
    &&& p.view == before.view
    &&& p.offset == before.offset
    &&& p.selected == sel
}

impl App {
    /// The effect of pressing the left button: the panel under the cursor
    /// gets the focus and the entry under it is selected and becomes a
    /// possible drag source.
    pub open spec fn press_effect(new: App, old: App, col: int, row: int) -> bool {
        let hit_local = panel_hit(old.local, col, row);
        let hit_remote = panel_hit(old.remote, col, row);
        let (id, idx) = if hit_local is Some {
            (PanelId::Local, hit_local)
        } else {
            (PanelId::Remote, hit_remote)
        };
        match idx {
            None => new == old,
            Some(i) => {
                &&& new.focus == id
                &&& (id == PanelId::Local ==> new.remote == old.remote)
                &&& (id == PanelId::Remote ==> new.local == old.local)
                &&& pointed_at(new.panel(id), old.panel(id), i as int)
                &&& new.status == old.status
                &&& new.should_quit == old.should_quit
                &&& new.pending_transfer == old.pending_transfer
                &&& new.transfer == old.transfer
                &&& new.pending_edit == old.pending_edit
                &&& match new.panel(id).current_entry() {
                    Some(e) => new.drag == Some(
                        Drag { source: id, entry: e, col: col as u16, row: row as u16, active: false },
                    ),
                    None => new.drag == old.drag,
                }
            },
        }
    }

    /// The effect of a mouse event on the file screen. Dragging an entry
    /// onto the other panel queues a transfer; a click without movement
    /// enters a folder; the wheel moves the selection of the panel under it.
    pub open spec fn mouse_effect(
        new: App,
        old: App,
        m: MouseEvent,
        out: Option<(PanelId, Seq<char>)>,
    ) -> bool {
        let col = m.column as int;
        let row = m.row as int;
        let under = if old.local.list_area.has(col, row) {
            Some(PanelId::Local)
        } else if old.remote.list_area.has(col, row) {
            Some(PanelId::Remote)
        } else {
            None
        };
        match m.kind {
            MouseKind::Down(MouseButton::Left) => out is None && App::press_effect(new, old, col, row),
            MouseKind::Drag(MouseButton::Left) => out is None && match old.drag {
                Some(d) => new == App {
                    drag: Some(Drag { active: true, col: m.column, row: m.row, ..d }),
                    ..old
                },
                None => new == old,
            },
            MouseKind::Up(MouseButton::Left) => match old.drag {
                None => out is None && new == old,
                Some(d) => {
                    let mid = App { drag: None, ..old };
                    if d.active {
                        out is None && match under {
                            Some(t) => new.transfer_queued(mid, d.source, d.entry, t),
                            None => new == mid,
                        }
                    } else {
                        new == mid && out == match panel_hit(old.panel(d.source), col, row) {
                            Some(i) => mid.enter_target(d.source, i as int),
                            None => None,
                        }
                    }
                },
            },
            MouseKind::ScrollDown => out is None && match under {
                Some(id) => new.same_but_panel(old, id) && moved_to(
                    new.panel(id),
                    old.panel(id),
                    min_int(
                        old.panel(id).selected + 1,
                        sat_sub(old.panel(id).view@.len() as int, 1),
                    ),
                ),
                None => new == old,
            },
            MouseKind::ScrollUp => out is None && match under {
                Some(id) => new.same_but_panel(old, id) && moved_to(
                    new.panel(id),
                    old.panel(id),
                    sat_sub(old.panel(id).selected as int, 1),
                ),
                None => new == old,
            },
            _ => out is None && new == old,
        }
    }

    fn press(&mut self, col: u16, row: u16)
        ensures
            App::press_effect(*final(self), *old(self), col as int, row as int),
    {
        let (id, hit) = match self.local.hit(col, row) {
            Some(i) => (PanelId::Local, Some(i)),
            None => (PanelId::Remote, self.remote.hit(col, row)),
        };
        let idx = match hit {
            Some(i) => i,
            None => return ,
        };
        self.focus = id;
        let entry = match id {
            PanelId::Local => {
                self.local.selected = idx;
                match self.local.current() {
                    Some(e) => e.duplicate(),
                    None => return ,
                }
            },
            PanelId::Remote => {
                self.remote.selected = idx;
                match self.remote.current() {
                    Some(e) => e.duplicate(),
                    None => return ,
                }
            },
        };
        self.drag = Some(Drag { source: id, entry, col, row, active: false });
    }

    /// Handles a mouse event on the file screen; returns the directory the
    /// main loop must load next, if any.
    pub fn handle_mouse(&mut self, m: &MouseEvent) -> (r: Option<LoadRequest>)
        ensures
            App::mouse_effect(*final(self), *old(self), *m, load_view(r)),
    {
        let col = m.column;
        let row = m.row;
        match m.kind {
            MouseKind::Down(MouseButton::Left) => {
                self.press(col, row);
                None
            },
            MouseKind::Drag(MouseButton::Left) => {
                match &mut self.drag {
                    Some(d) => {
                        d.active = true;
                        d.col = col;
                        d.row = row;
                    },
                    None => {},
                }
                None
            },
            MouseKind::Up(MouseButton::Left) => {
                let taken = self.drag.take();
                match taken {
                    None => None,
                    Some(drag) => {
                        if drag.active {
                            match self.panel_at(col, row) {
                                Some(target) => self.request_transfer(&drag, target),
                                None => {},
                            }
                            None
                        } else {
                            let hit = match drag.source {
                                PanelId::Local => self.local.hit(col, row),
                                PanelId::Remote => self.remote.hit(col, row),
                            };
                            match hit {
                                Some(idx) => self.enter(drag.source, idx),
                                None => None,
                            }
                        }
                    },
                }
            },
            MouseKind::ScrollDown => {
                match self.panel_at(col, row) {
                    Some(id) => {
                        let (sel, len) = match id {
                            PanelId::Local => (self.local.selected, self.local.view.len()),
                            PanelId::Remote => (self.remote.selected, self.remote.view.len()),
                        };
                        let max: usize = if len > 0 {
                            len - 1
                        } else {
                            0
                        };
                        let target = if sel >= max {
                            max
                        } else {
                            sel + 1
                        };
                        self.move_in(id, target);
                    },
                    None => {},
                }
                None
            },
            MouseKind::ScrollUp => {
                match self.panel_at(col, row) {
                    Some(id) => {
                        let sel = match id {
                            PanelId::Local => self.local.selected,
                            PanelId::Remote => self.remote.selected,
                        };
                        let target = if sel > 0 {
                            sel - 1
                        } else {
                            0
                        };
                        self.move_in(id, target);
                    },
                    None => {},
                }
                None
            },
            _ => None,
        }
    }

    /// Handles an input event on the file screen. Only key presses count
    /// (some terminals report releases too).
    pub fn handle_event(&mut self, ev: &Event) -> (r: Option<LoadRequest>)
        ensures
            match *ev {
                Event::Key(k) => if k.kind == KeyKind::Press {
                    App::key_effect(*final(self), *old(self), k, load_view(r))
                } else {
                    *final(self) == *old(self) && r is None
                },
                Event::Mouse(m) => App::mouse_effect(*final(self), *old(self), m, load_view(r)),
                _ => *final(self) == *old(self) && r is None,
            },
    {
        match ev {
            Event::Key(k) => {
                if k.kind == KeyKind::Press {
                    self.handle_key(k)
                } else {
                    None
                }
            },
            Event::Mouse(m) => self.handle_mouse(m),
            _ => None,
        }
    }
}

/// The entries that `view` shows (out-of-range indices show nothing), from
/// the first `n` positions of `view`.
pub open spec fn shown_entries(entries: Seq<Entry>, view: Seq<usize>, n: int) -> Seq<Entry>
    decreases n,
{
    if n <= 0 {
        Seq::empty()
    } else {
        let prev = shown_entries(entries, view, n - 1);
        if view[n - 1] < entries.len() {
            prev.push(entries[view[n - 1] as int])
        } else {
            prev
        }
    }
}

/// The `view` position under a cell of the panel's list area.
pub open spec fn panel_hit(p: Panel, col: int, row: int) -> Option<usize> {
    if !p.list_area.has(col, row) {
        None
    } else {
        let idx = p.offset + (row - p.list_area.y);
        if idx < p.view@.len() {
            Some(idx as usize)
        } else {
            None
        }
    }
}


/// The first `n` visible indices: increasing, in range, and exactly the
/// matching entries among the first `n`.
proof fn lemma_visible_upto(entries: Seq<Entry>, query: Seq<char>, n: int)
    requires
        0 <= n <= entries.len(),
        entries.len() <= usize::MAX,
    ensures
        strictly_increasing(visible_upto(entries, query, n)),
        forall|t: int|
            0 <= t < visible_upto(entries, query, n).len() ==> visible_upto(entries, query, n)[t]
                < n,
        forall|k: usize|
            visible_upto(entries, query, n).contains(k) <==> (k < n && name_matches(
                entries[k as int].name@,
                query,
            )),
    decreases n,
{
    if n > 0 {
        lemma_visible_upto(entries, query, n - 1);
        let prev = visible_upto(entries, query, n - 1);
        let cur = visible_upto(entries, query, n);
        if name_matches(entries[n - 1].name@, query) {
            assert(cur == prev.push((n - 1) as usize));
            assert forall|i: int, j: int| 0 <= i < j < cur.len() implies cur[i] < cur[j] by {
                if j < prev.len() {
                    assert(cur[i] == prev[i] && cur[j] == prev[j]);
                } else {
                    assert(cur[i] == prev[i]);
                }
            }
            assert forall|k: usize| cur.contains(k) <==> (k < n && name_matches(
                entries[k as int].name@,
                query,
            )) by {
                if cur.contains(k) {
                    let t = choose|t: int| 0 <= t < cur.len() && cur[t] == k;
                    if t < prev.len() {
                        assert(prev[t] == k);
                        assert(prev.contains(k));
                    }
                }
                if k < n && name_matches(entries[k as int].name@, query) {
                    if k < n - 1 {
                        assert(prev.contains(k));
                        let t = choose|t: int| 0 <= t < prev.len() && prev[t] == k;
                        assert(cur[t] == k);
                    } else {
                        assert(cur[cur.len() - 1] == k);
                    }
                }
            }
        } else {
            assert(cur == prev);
            assert forall|k: usize| cur.contains(k) <==> (k < n && name_matches(
                entries[k as int].name@,
                query,
            )) by {
                if k == n - 1 {
                    assert(!prev.contains(k));
                }
            }
        }
    }
}

/// What the search promises: the view lists, in increasing order and
/// without repetition, exactly the entries whose names match the query.
pub proof fn law_view_is_the_matching_entries(entries: Seq<Entry>, query: Seq<char>)
    requires
        entries.len() <= usize::MAX,
    ensures
        strictly_increasing(visible_indices(entries, query)),
        forall|k: usize|
            visible_indices(entries, query).contains(k) <==> (k < entries.len() && name_matches(
                entries[k as int].name@,
                query,
            )),
{
    lemma_visible_upto(entries, query, entries.len() as int);
}

/// With an empty query every entry is visible, in directory order.
pub proof fn law_empty_query_shows_everything(entries: Seq<Entry>)
    requires
        entries.len() <= usize::MAX,
    ensures
        visible_indices(entries, Seq::<char>::empty()) == Seq::new(
            entries.len(),
            |i: int| i as usize,
        ),
{
    let e = Seq::<char>::empty();
    lemma_visible_upto(entries, e, entries.len() as int);
    let v = visible_indices(entries, e);
    let all = Seq::new(entries.len(), |i: int| i as usize);
    assert forall|n: int| 0 <= n <= entries.len() implies visible_upto(entries, e, n) =~= Seq::new(
        n as nat,
        |i: int| i as usize,
    ) by {
        lemma_all_visible_upto(entries, n);
    }
    assert(v =~= all);
}

proof fn lemma_all_visible_upto(entries: Seq<Entry>, n: int)
    requires
        0 <= n <= entries.len(),
        entries.len() <= usize::MAX,
    ensures
        visible_upto(entries, Seq::<char>::empty(), n) =~= Seq::new(n as nat, |i: int| i as usize),
    decreases n,
{
    if n > 0 {
        lemma_all_visible_upto(entries, n - 1);
    }
}

/// A filtered panel never shows a hidden entry as selected: whenever the
/// view is the filter result and the selection lies in it (as `refilter`
/// leaves it), the selected entry matches the query, and there is a
/// selected entry exactly when something is visible.
pub proof fn law_selection_is_visible(p: Panel)
    requires
        p.view@ == visible_indices(p.entries@, p.query@),
        p.selected < p.view@.len() || p.selected == 0,
        p.entries@.len() <= usize::MAX,
    ensures
        p.current_entry() is Some <==> p.view@.len() > 0,
        p.current_entry() matches Some(e) ==> name_matches(e.name@, p.query@),
{
    lemma_visible_upto(p.entries@, p.query@, p.entries@.len() as int);
    if p.view@.len() > 0 {
        let k = p.view@[p.selected as int];
        assert(p.view@.contains(k));
    }
}

/// After scrolling, a window of positive height shows the selection.
pub proof fn law_scroll_keeps_selection_in_window(selected: int, offset: int, h: int)
    requires
        h > 0,
        0 <= selected,
        0 <= offset,
    ensures
        clamped_offset(selected, offset, h) <= selected < clamped_offset(selected, offset, h) + h,
{
}

} // verus!

verus! {

/// The panel's title: ` TAG: cwd `, and while a search is on
/// ` TAG: cwd — ara: QUERY (SHOWN/TOTAL) `.
pub open spec fn panel_title_text(tag: Seq<char>, cwd: Seq<char>, query: Seq<char>, shown: nat, total: nat) -> Seq<char> {
    " "@ + tag + ": "@ + cwd + if query.len() == 0 {
        " "@
    } else {
        " — ara: "@ + query + " ("@ + crate::text::decimal(shown) + "/"@ + crate::text::decimal(total) + ") "@
    }
}

/// The line under a filtered list: `(N girdi gizlendi)` for the N entries
/// the search hides, none when nothing is hidden.
pub open spec fn hidden_note_text(shown: nat, total: nat) -> Option<Seq<char>> {
    if shown < total {
        Some("("@ + crate::text::decimal((total - shown) as nat) + " girdi gizlendi)"@)
    } else {
        None
    }
}

impl Panel {
    /// The title drawn on the panel's frame (see `panel_title_text`).
    pub fn title(&self, tag: &str) -> (r: String)
        ensures
            r@ == panel_title_text(tag@, self.cwd@, self.query@, self.view@.len(), self.entries@.len()),
    {
        let mut s = crate::text::concat3(" ", tag, ": ");
        s.append(self.cwd.as_str());
        if self.query.as_str().unicode_len() == 0 {
            s.append(" ");
        } else {
            s.append(" — ara: ");
            s.append(self.query.as_str());
            s.append(" (");
            crate::text::push_decimal(&mut s, self.view.len() as u64);
            s.append("/");
            crate::text::push_decimal(&mut s, self.entries.len() as u64);
            s.append(") ");
        }
        assert(s@ =~= panel_title_text(tag@, self.cwd@, self.query@, self.view@.len(), self.entries@.len()));
        s
    }

    /// The note under the list while a search hides entries.
    pub fn hidden_note(&self) -> (r: Option<String>)
        ensures
            crate::config::opt_view(r) == hidden_note_text(self.view@.len(), self.entries@.len()),
    {
        if self.view.len() < self.entries.len() {
            let mut s = owned("(");
            crate::text::push_decimal(&mut s, (self.entries.len() - self.view.len()) as u64);
            s.append(" girdi gizlendi)");
            assert(s@ =~= "("@ + crate::text::decimal((self.entries@.len() - self.view@.len()) as nat) + " girdi gizlendi)"@);
            Some(s)
        } else {
            None
        }
    }
}

} // verus!

verus! {

/// What a loaded listing looks like (`load_local` keeps it sorted):
/// directories come before files, and among entries of the same kind an
/// entry whose name is byte-wise larger never comes before a smaller one.
pub proof fn law_listing_order(s: Seq<Entry>, i: int, j: int)
    requires
        listing_sorted(s),
        0 <= i < j < s.len(),
    ensures
        s[j].is_dir ==> s[i].is_dir,
        s[i].is_dir == s[j].is_dir && encode_utf8(s[i].name@) != encode_utf8(s[j].name@) ==> !bytes_le(
            encode_utf8(s[j].name@),
            encode_utf8(s[i].name@),
        ),
{
    assert(entry_le(s[i], s[j]));
    crate::text::law_bytes_order_is_lexicographic(
        encode_utf8(s[i].name@),
        encode_utf8(s[j].name@),
        0,
    );
}

/// Home moves the focused panel's selection to the top of what it shows;
/// End to its last row. Nothing else changes and nothing is loaded.
pub proof fn law_home_and_end(new: App, old: App, k: KeyEvent, out: Option<(PanelId, Seq<char>)>)
    requires
        App::key_effect(new, old, k, out),
        k.code == KeyCode::Home || k.code == KeyCode::End,
    ensures
        out is None,
        new.focus == old.focus,
        new.panel(old.focus.other()) == old.panel(old.focus.other()),
        new.panel(old.focus).view == old.panel(old.focus).view,
        k.code == KeyCode::Home ==> new.panel(old.focus).selected == 0,
        k.code == KeyCode::End && old.panel(old.focus).view@.len() > 0 ==> new.panel(
            old.focus,
        ).selected == old.panel(old.focus).view@.len() - 1,
{
}

/// A drop after a real drag queues a transfer from the panel the drag
/// started in to the panel dropped on, of the dragged entry (unless it is
/// `..` or the same panel): local to remote uploads into the remote
/// directory, remote to local downloads into the local one.
pub proof fn law_drop_transfers_from_drag_source(
    new: App,
    old: App,
    m: MouseEvent,
    out: Option<(PanelId, Seq<char>)>,
    target: PanelId,
)
    requires
        App::mouse_effect(new, old, m, out),
        m.kind == MouseKind::Up(MouseButton::Left),
        old.drag matches Some(d) && d.active && d.source != target && !(d.entry.is_dir
            && d.entry.name@ == ".."@),
        target == PanelId::Local ==> old.local.list_area.has(m.column as int, m.row as int),
        target == PanelId::Remote ==> !old.local.list_area.has(m.column as int, m.row as int)
            && old.remote.list_area.has(m.column as int, m.row as int),
    ensures
        out is None,
        new.drag is None,
        new.pending_transfer matches Some(t) && t.source == old.drag->0.source && t.target == target
            && t.source != t.target && t.name@ == old.drag->0.entry.name@ && t.remote_path@
            == remote_join_spec(old.remote.cwd@, old.drag->0.entry.name@) && t.local_path@
            == joined_path(old.local.cwd@, old.drag->0.entry.name@),
{
}

} // verus!
