//! Transfer bookkeeping: remote path arithmetic, the breadth-first tree walk
//! that plans a (folder) transfer, progress reporting and the outcome summary.

use std::collections::VecDeque;

use vstd::prelude::*;

use crate::app::{is_parent_entry, listing_sorted, listing_with_parent, Entry};
use crate::text::{chars_of, concat2, concat3, decimal, owned, push_decimal, same_text, string_of_range};

verus! {

/// Progress report sent to the main loop during a transfer.
#[derive(Clone, Debug)]
pub struct TransferProgress {
    /// Bytes transferred (for a tree: over all files).
    pub done: u64,
    /// Total bytes (0 when unknown).
    pub total: u64,
    /// What is happening: scanning, or the path of the file being copied.
    pub label: Option<String>,
    /// (finished, total) file count, once the tree is known.
    pub files: Option<(u32, u32)>,
}

impl Default for TransferProgress {
    fn default() -> (r: TransferProgress)
        ensures
            r.done == 0 && r.total == 0 && r.label is None && r.files is None,
    {
        TransferProgress { done: 0, total: 0, label: None, files: None }
    }
}

/// Result of transferring a folder (or a single file).
#[derive(Clone, Debug)]
pub struct TreeOutcome {
    pub files: u32,
    pub dirs: u32,
    /// Symbolic links skipped.
    pub symlinks: u32,
    /// Directories that could not be listed (skipped).
    pub unreadable: u32,
    /// Files that could not be transferred.
    pub errors: u32,
    /// Text of the first error (shown in the status bar).
    pub first_error: Option<String>,
}

impl Default for TreeOutcome {
    fn default() -> (r: TreeOutcome)
        ensures
            r.files == 0 && r.dirs == 0 && r.symlinks == 0 && r.unreadable == 0 && r.errors == 0,
            r.first_error is None,
    {
        TreeOutcome { files: 0, dirs: 0, symlinks: 0, unreadable: 0, errors: 0, first_error: None }
    }
}

/// ` · <n><label>` when `n > 0`, nothing otherwise.
pub open spec fn summary_part(n: u32, label: Seq<char>) -> Seq<char> {
    if n > 0 {
        " · "@ + decimal(n as nat) + label
    } else {
        Seq::empty()
    }
}

/// The status-bar summary: the file count, then each non-zero count among
/// folders, skipped links, unreadable folders and errors, joined by ` · `.
pub open spec fn summary_text(o: TreeOutcome) -> Seq<char> {
    decimal(o.files as nat) + " dosya"@ + summary_part(o.dirs, " klasör"@) + summary_part(
        o.symlinks,
        " sembolik bağ atlandı"@,
    ) + summary_part(o.unreadable, " dizin okunamadı"@) + summary_part(o.errors, " hata"@)
}

/// The first-error text for a failure at `rel` (the root when empty).
pub open spec fn error_note(rel: Seq<char>, msg: Seq<char>) -> Seq<char> {
    (if rel.len() == 0 {
        "kök"@
    } else {
        rel
    }) + ": "@ + msg
}

fn push_part(s: &mut String, n: u32, label: &str)
    ensures
        final(s)@ == old(s)@ + summary_part(n, label@),
{
    if n > 0 {
        let ghost start = s@;
        s.append(" · ");
        push_decimal(s, n as u64);
        s.append(label);
        assert(s@ =~= start + summary_part(n, label@));
    } else {
        assert(s@ =~= old(s)@ + summary_part(n, label@));
    }
}

impl TreeOutcome {
    /// Nothing failed and no folder was skipped: everything planned (links
    /// aside) was copied.
    pub fn is_clean(&self) -> (b: bool)
        ensures
            b == (self.errors == 0 && self.unreadable == 0),
    {
        self.errors == 0 && self.unreadable == 0
    }

    /// Human-readable summary, e.g. "12 dosya · 3 klasör · 1 hata".
    pub fn summary(&self) -> (s: String)
        ensures
            s@ == summary_text(*self),
    {
        let mut s = String::new();
        push_decimal(&mut s, self.files as u64);
        s.append(" dosya");
        push_part(&mut s, self.dirs, " klasör");
        push_part(&mut s, self.symlinks, " sembolik bağ atlandı");
        push_part(&mut s, self.unreadable, " dizin okunamadı");
        push_part(&mut s, self.errors, " hata");
        assert(s@ =~= summary_text(*self));
        s
    }

    /// Counts a failed item; the first failure's text is kept.
    pub fn note_error(&mut self, rel: &str, msg: &str)
        requires
            old(self).errors < u32::MAX,
        ensures
            final(self).errors == old(self).errors + 1,
            final(self).files == old(self).files,
            final(self).dirs == old(self).dirs,
            final(self).symlinks == old(self).symlinks,
            final(self).unreadable == old(self).unreadable,
            match old(self).first_error {
                Some(e) => final(self).first_error == Some(e),
                None => final(self).first_error matches Some(t) && t@ == error_note(rel@, msg@),
            },
    {
        self.errors = self.errors + 1;
        if self.first_error.is_none() {
            let what = if rel.unicode_len() == 0 {
                owned("kök")
            } else {
                owned(rel)
            };
            self.first_error = Some(concat3(what.as_str(), ": ", msg));
        }
    }
}

/// What a tree item is.
#[derive(Clone, Copy, PartialEq, Eq, Debug, Structural)]
pub enum Kind {
    Dir,
    File,
    /// Symbolic links are not copied: a link to a directory could make the
    /// walk loop, and replacing a link by its target would be a silent
    /// surprise. They are counted and reported.
    Symlink,
}

/// One item of the tree to transfer.
#[derive(Clone, Debug)]
pub struct TreeItem {
    /// Path relative to the root (`/`-separated); empty for the root itself.
    pub rel: String,
    pub kind: Kind,
    /// Size, for a file.
    pub size: u64,
}

/// The planned transfer: what to copy and how much it weighs.
#[derive(Debug)]
pub struct Tree {
    pub items: Vec<TreeItem>,
    pub total_bytes: u64,
    pub files: u32,
    pub dirs: u32,
    pub symlinks: u32,
    pub unreadable: u32,
}

/// Number of items of the given kind among the first `n`.
pub open spec fn count_kind(items: Seq<TreeItem>, kind: Kind, n: int) -> nat
    decreases n,
{
    if n <= 0 {
        0
    } else {
        count_kind(items, kind, n - 1) + if items[n - 1].kind == kind {
            1nat
        } else {
            0nat
        }
    }
}

/// Total size of the files among the first `n` items.
pub open spec fn file_bytes(items: Seq<TreeItem>, n: int) -> nat
    decreases n,
{
    if n <= 0 {
        0
    } else {
        file_bytes(items, n - 1) + if items[n - 1].kind == Kind::File {
            items[n - 1].size as nat
        } else {
            0nat
        }
    }
}

impl Tree {
    /// The counters agree with the items: one per item of each kind, and the
    /// byte total is the sum of the file sizes.
    pub open spec fn counts_agree(self) -> bool {
        let n = self.items@.len() as int;
        &&& self.files == count_kind(self.items@, Kind::File, n)
        &&& self.dirs == count_kind(self.items@, Kind::Dir, n)
        &&& self.symlinks == count_kind(self.items@, Kind::Symlink, n)
        &&& self.total_bytes == file_bytes(self.items@, n)
    }

    /// An empty plan.
    pub fn new() -> (t: Tree)
        ensures
            t.items@.len() == 0,
            t.unreadable == 0,
            t.counts_agree(),
    {
        Tree { items: Vec::new(), total_bytes: 0, files: 0, dirs: 0, symlinks: 0, unreadable: 0 }
    }

    /// Appends an item and counts it.
    pub fn push(&mut self, rel: String, kind: Kind, size: u64)
        requires
            kind == Kind::Dir ==> old(self).dirs < u32::MAX,
            kind == Kind::File ==> old(self).files < u32::MAX && old(self).total_bytes + size
                <= u64::MAX,
            kind == Kind::Symlink ==> old(self).symlinks < u32::MAX,
        ensures
            final(self).items@ == old(self).items@.push(TreeItem { rel, kind, size }),
            final(self).unreadable == old(self).unreadable,
            final(self).dirs == old(self).dirs + if kind == Kind::Dir {
                1int
            } else {
                0
            },
            final(self).files == old(self).files + if kind == Kind::File {
                1int
            } else {
                0
            },
            final(self).symlinks == old(self).symlinks + if kind == Kind::Symlink {
                1int
            } else {
                0
            },
            final(self).total_bytes == old(self).total_bytes + if kind == Kind::File {
                size as int
            } else {
                0
            },
            old(self).counts_agree() ==> final(self).counts_agree(),
    {
        match kind {
            Kind::Dir => self.dirs = self.dirs + 1,
            Kind::File => {
                self.files = self.files + 1;
                self.total_bytes = self.total_bytes + size;
            },
            Kind::Symlink => self.symlinks = self.symlinks + 1,
        }
        let ghost before = self.items@;
        self.items.push(TreeItem { rel, kind, size });
        proof {
            let n = self.items@.len() as int;
            assert(self.items@.take(n - 1) =~= before);
            lemma_counts_prefix(self.items@, before, n - 1);
        }
    }
}

proof fn lemma_counts_prefix(items: Seq<TreeItem>, before: Seq<TreeItem>, n: int)
    requires
        0 <= n <= before.len(),
        before.len() <= items.len(),
        forall|i: int| 0 <= i < before.len() ==> items[i] == before[i],
    ensures
        count_kind(items, Kind::Dir, n) == count_kind(before, Kind::Dir, n),
        count_kind(items, Kind::File, n) == count_kind(before, Kind::File, n),
        count_kind(items, Kind::Symlink, n) == count_kind(before, Kind::Symlink, n),
        file_bytes(items, n) == file_bytes(before, n),
    decreases n,
{
    if n > 0 {
        lemma_counts_prefix(items, before, n - 1);
    }
}

/// Joins paths relative to the transfer root (`/` separator, empty root).
pub open spec fn join_rel_spec(parent: Seq<char>, name: Seq<char>) -> Seq<char> {
    if parent.len() == 0 {
        name
    } else {
        parent + "/"@ + name
    }
}

/// Joins paths relative to the transfer root.
pub fn join_rel(parent: &str, name: &str) -> (r: String)
    ensures
        r@ == join_rel_spec(parent@, name@),
{
    if parent.unicode_len() == 0 {
        owned(name)
    } else {
        concat3(parent, "/", name)
    }
}

/// Remote paths are always joined with `/`.
pub open spec fn remote_join_spec(dir: Seq<char>, name: Seq<char>) -> Seq<char> {
    if dir.len() > 0 && dir.last() == '/' {
        dir + name
    } else {
        dir + "/"@ + name
    }
}

/// Joins a remote directory and a name with `/`.
pub fn remote_join(dir: &str, name: &str) -> (r: String)
    ensures
        r@ == remote_join_spec(dir@, name@),
{
    let n = dir.unicode_len();
    if n > 0 && dir.get_char(n - 1) == '/' {
        concat2(dir, name)
    } else {
        concat3(dir, "/", name)
    }
}

/// Remote root + path relative to it; the root itself when `rel` is empty.
pub open spec fn remote_child_spec(root: Seq<char>, rel: Seq<char>) -> Seq<char> {
    if rel.len() == 0 {
        root
    } else {
        remote_join_spec(root, rel)
    }
}

/// Remote root + path relative to it.
pub fn remote_child(root: &str, rel: &str) -> (r: String)
    ensures
        r@ == remote_child_spec(root@, rel@),
{
    if rel.unicode_len() == 0 {
        owned(root)
    } else {
        remote_join(root, rel)
    }
}

/// `s` without its trailing `/` characters.
pub open spec fn trim_slashes(s: Seq<char>) -> Seq<char>
    decreases s.len(),
{
    if s.len() > 0 && s.last() == '/' {
        trim_slashes(s.drop_last())
    } else {
        s
    }
}

/// Position of the last `/` in `s`.
pub open spec fn last_slash(s: Seq<char>) -> Option<int>
    decreases s.len(),
{
    if s.len() == 0 {
        None
    } else if s.last() == '/' {
        Some(s.len() - 1)
    } else {
        last_slash(s.drop_last())
    }
}

/// The parent of a remote directory (`..` applied): trailing slashes are
/// dropped, then everything from the last `/`; the root when nothing is left.
pub open spec fn remote_parent_spec(dir: Seq<char>) -> Seq<char> {
    let t = trim_slashes(dir);
    match last_slash(t) {
        Some(i) if i > 0 => t.take(i),
        _ => "/"@,
    }
}

/// The parent of a remote directory.
pub fn remote_parent(dir: &str) -> (r: String)
    ensures
        r@ == remote_parent_spec(dir@),
{
    let cs = chars_of(dir);
    let mut n: usize = cs.len();
    assert(cs@.take(n as int) =~= dir@);
    while n > 0 && cs[n - 1] == '/'
        invariant
            n <= cs@.len(),
            trim_slashes(cs@.take(n as int)) == trim_slashes(dir@),
            cs@ == dir@,
        decreases n,
    {
        assert(cs@.take(n - 1) =~= cs@.take(n as int).drop_last());
        n = n - 1;
    }
    assert(trim_slashes(cs@.take(n as int)) == cs@.take(n as int));
    let mut i: usize = n;
    while i > 0 && cs[i - 1] != '/'
        invariant
            i <= n <= cs@.len(),
            last_slash(cs@.take(n as int)) == last_slash(cs@.take(i as int)),
        decreases i,
    {
        assert(cs@.take(i - 1) =~= cs@.take(i as int).drop_last());
        i = i - 1;
    }
    if i <= 1 {
        proof {
            if i == 1 {
                assert(cs@.take(i as int).last() == '/');
            } else {
                assert(cs@.take(0) =~= Seq::<char>::empty());
            }
        }
        owned("/")
    } else {
        proof {
            assert(cs@.take(i as int).last() == '/');
            assert(cs@.take(n as int).take(i - 1) =~= cs@.subrange(0, i - 1));
        }
        string_of_range(&cs, 0, i - 1)
    }
}


/// Every item but the first (the root) is named by joining the path of an
/// earlier directory item with a name: a directory always comes before
/// anything inside it, so the target directories exist before their contents
/// are copied.
pub open spec fn parents_first(items: Seq<TreeItem>) -> bool {
    forall|i: int| 1 <= i < items.len() ==> #[trigger] has_earlier_parent(items, i)
}

/// Item `i` lies inside some earlier directory item.
pub open spec fn has_earlier_parent(items: Seq<TreeItem>, i: int) -> bool {
    exists|j: int, name: Seq<char>| #[trigger] inside_earlier_dir(items, i, j, name)
}

/// Item `i` is `name` inside the directory item `j`, which comes earlier.
pub open spec fn inside_earlier_dir(items: Seq<TreeItem>, i: int, j: int, name: Seq<char>) -> bool {
    &&& 0 <= j < i
    &&& items[j].kind == Kind::Dir
    &&& items[i].rel@ == join_rel_spec(items[j].rel@, name)
}

/// Item `j` is a directory item at `rel`.
pub open spec fn is_dir_item_at(items: Seq<TreeItem>, j: int, rel: Seq<char>) -> bool {
    &&& 0 <= j < items.len()
    &&& items[j].kind == Kind::Dir
    &&& items[j].rel@ == rel
}

/// The plan holds a directory item at `rel`.
pub open spec fn has_dir_item(items: Seq<TreeItem>, rel: Seq<char>) -> bool {
    exists|j: int| #[trigger] is_dir_item_at(items, j, rel)
}

/// Breadth-first planner of a transfer tree. The caller lists each directory
/// that `next_dir` hands out and reports its entries; the walker decides what
/// is planned and what is listed next.
pub struct Walker {
    tree: Tree,
    queue: VecDeque<String>,
    current: Option<String>,
    /// For each item after the root: the index of its directory and its name.
    parent: Ghost<Seq<int>>,
    names: Ghost<Seq<Seq<char>>>,
    /// For each queued directory: the index of its item.
    queued_at: Ghost<Seq<int>>,
    current_at: Ghost<int>,
}

impl Walker {
    /// The items planned so far.
    pub closed spec fn items(self) -> Seq<TreeItem> {
        self.tree.items@
    }

    /// Directories still to be listed, in order.
    pub closed spec fn pending(self) -> Seq<Seq<char>> {
        self.queue@.map_values(|s: String| s@)
    }

    /// The directory whose entries are being reported, if any.
    pub closed spec fn listing(self) -> Option<Seq<char>> {
        match self.current {
            Some(c) => Some(c@),
            None => None,
        }
    }

    /// The planned tree's counters.
    pub closed spec fn tree_view(self) -> Tree {
        self.tree
    }

    /// The walker's internal invariant.
    pub closed spec fn wf(self) -> bool {
        let items = self.tree.items@;
        &&& self.tree.counts_agree()
        &&& items.len() >= 1
        &&& items[0].rel@ == Seq::<char>::empty()
        &&& self.parent@.len() == items.len()
        &&& self.names@.len() == items.len()
        &&& forall|i: int|
            1 <= i < items.len() ==> 0 <= #[trigger] self.parent@[i] < i && items[self.parent@[
                i
            ]].kind == Kind::Dir && items[i].rel@ == join_rel_spec(
                items[self.parent@[i]].rel@,
                self.names@[i],
            )
        &&& self.queued_at@.len() == self.queue@.len()
        &&& forall|q: int|
            0 <= q < self.queue@.len() ==> 0 <= #[trigger] self.queued_at@[q] < items.len()
                && items[self.queued_at@[q]].kind == Kind::Dir && items[self.queued_at@[
                q
            ]].rel@ == self.queue@[q]@
        &&& self.current matches Some(c) ==> 0 <= self.current_at@ < items.len()
            && items[self.current_at@].kind == Kind::Dir && items[self.current_at@].rel@ == c@
    }

    proof fn lemma_parents_first(self)
        requires
            self.wf(),
        ensures
            parents_first(self.items()),
    {
        let items = self.tree.items@;
        assert forall|i: int| 1 <= i < items.len() implies #[trigger] has_earlier_parent(
            items,
            i,
        ) by {
            let j = self.parent@[i];
            let name = self.names@[i];
            assert(inside_earlier_dir(items, i, j, name));
        }
    }

    /// What a walk keeps at every step: the root is the plan's first item,
    /// every item after it lies inside an earlier directory item, and only
    /// directory items are ever listed (each directory waiting to be
    /// listed, and the one being listed, is a directory item of the plan),
    /// so a link or a file is never followed. The counters agree with the
    /// items; an unlistable folder changes nothing but the unreadable count
    /// (see `unreadable`).
    pub proof fn law_only_directories_are_listed(self)
        requires
            self.wf(),
        ensures
            self.items().len() >= 1,
            self.items()[0].rel@ == Seq::<char>::empty(),
            parents_first(self.items()),
            self.tree_view().counts_agree(),
            self.tree_view().items@ == self.items(),
            forall|q: int|
                0 <= q < self.pending().len() ==> #[trigger] has_dir_item(
                    self.items(),
                    self.pending()[q],
                ),
            self.listing() matches Some(c) ==> has_dir_item(self.items(), c),
    {
        self.lemma_parents_first();
        let items = self.tree.items@;
        assert forall|q: int| 0 <= q < self.pending().len() implies #[trigger] has_dir_item(
            self.items(),
            self.pending()[q],
        ) by {
            let j = self.queued_at@[q];
            assert(is_dir_item_at(items, j, self.pending()[q]));
        }
        if self.current is Some {
            let j = self.current_at@;
            assert(is_dir_item_at(items, j, self.listing()->0));
        }
    }

    /// Starts the plan from the root's own kind (`size` counts only for a
    /// file). Only a directory root is listed further.
    pub fn start(kind: Kind, size: u64) -> (w: Walker)
        ensures
            w.wf(),
            w.items() == seq![
                TreeItem {
                    rel: w.items()[0].rel,
                    kind,
                    size: if kind == Kind::File {
                        size
                    } else {
                        0
                    },
                },
            ],
            w.items()[0].rel@ == Seq::<char>::empty(),
            w.pending() == if kind == Kind::Dir {
                seq![Seq::<char>::empty()]
            } else {
                Seq::<Seq<char>>::empty()
            },
            w.listing() is None,
            w.tree_view().unreadable == 0,
            parents_first(w.items()),
    {
        let mut tree = Tree::new();
        let mut queue: VecDeque<String> = VecDeque::new();
        let ghost mut queued_at: Seq<int> = Seq::empty();
        match kind {
            Kind::Symlink => tree.push(String::new(), Kind::Symlink, 0),
            Kind::File => tree.push(String::new(), Kind::File, size),
            Kind::Dir => {
                tree.push(String::new(), Kind::Dir, 0);
                queue.push_back(String::new());
                proof {
                    queued_at = seq![0int];
                }
            },
        }
        let ghost p0: Seq<int> = seq![0int];
        let ghost n0: Seq<Seq<char>> = seq![Seq::<char>::empty()];
        let parent: Ghost<Seq<int>> = Ghost(p0);
        let names: Ghost<Seq<Seq<char>>> = Ghost(n0);
        let queued: Ghost<Seq<int>> = Ghost(queued_at);
        let current_at: Ghost<int> = Ghost(0);
        let w = Walker {
            tree,
            queue,
            current: None,
            parent,
            names,
            queued_at: queued,
            current_at,
        };
        proof {
            assert(w.pending() =~= if kind == Kind::Dir {
                seq![Seq::<char>::empty()]
            } else {
                Seq::<Seq<char>>::empty()
            });
            w.lemma_parents_first();
        }
        w
    }

    /// The next directory to list (relative to the root), breadth first.
    pub fn next_dir(&mut self) -> (r: Option<String>)
        requires
            old(self).wf(),
        ensures
            final(self).wf(),
            final(self).items() == old(self).items(),
            final(self).tree_view() == old(self).tree_view(),
            match r {
                Some(d) => old(self).pending().len() > 0 && d@ == old(self).pending()[0]
                    && final(self).pending() == old(self).pending().drop_first()
                    && final(self).listing() == Some(d@),
                None => old(self).pending().len() == 0 && final(self).pending() == old(
                    self,
                ).pending() && final(self).listing() is None,
            },
    {
        let ghost old_q = self.queue@;
        match self.queue.pop_front() {
            Some(d) => {
                let c = owned(d.as_str());
                proof {
                    self.current_at@ = self.queued_at@[0];
                    self.queued_at@ = self.queued_at@.drop_first();
                }
                self.current = Some(c);
                proof {
                    assert(self.pending() =~= old(self).pending().drop_first());
                }
                Some(d)
            },
            None => {
                self.current = None;
                None
            },
        }
    }

    /// The directory being listed could not be read: count it and move on.
    pub fn unreadable(&mut self)
        requires
            old(self).wf(),
            old(self).tree_view().unreadable < u32::MAX,
        ensures
            final(self).wf(),
            final(self).items() == old(self).items(),
            final(self).pending() == old(self).pending(),
            final(self).listing() is None,
            final(self).tree_view().unreadable == old(self).tree_view().unreadable + 1,
    {
        self.tree.unreadable = self.tree.unreadable + 1;
        self.current = None;
    }

    /// There is room to count one more item of this kind.
    pub open spec fn room_for(t: Tree, kind: Kind, size: u64) -> bool {
        &&& kind == Kind::Dir ==> t.dirs < u32::MAX
        &&& kind == Kind::File ==> t.files < u32::MAX && t.total_bytes + size <= u64::MAX
        &&& kind == Kind::Symlink ==> t.symlinks < u32::MAX
    }

    /// Whether one more item of this kind can be counted.
    pub fn has_room(&self, kind: Kind, size: u64) -> (b: bool)
        ensures
            b == Walker::room_for(self.tree_view(), kind, size),
    {
        match kind {
            Kind::Dir => self.tree.dirs < u32::MAX,
            Kind::File => self.tree.files < u32::MAX && size <= u64::MAX - self.tree.total_bytes,
            Kind::Symlink => self.tree.symlinks < u32::MAX,
        }
    }

    /// Records one entry of the directory being listed. Links are recorded
    /// but never listed; directories are queued for listing.
    pub fn add(&mut self, name: &str, kind: Kind, size: u64)
        requires
            old(self).wf(),
            old(self).listing() is Some,
            Walker::room_for(old(self).tree_view(), kind, size),
        ensures
            final(self).wf(),
            final(self).listing() == old(self).listing(),
            final(self).items().len() == old(self).items().len() + 1,
            final(self).items().drop_last() == old(self).items(),
            final(self).items().last().kind == kind,
            final(self).items().last().size == (if kind == Kind::File {
                size
            } else {
                0
            }),
            final(self).items().last().rel@ == join_rel_spec(
                old(self).listing()->0,
                name@,
            ),
            final(self).pending() == if kind == Kind::Dir {
                old(self).pending().push(final(self).items().last().rel@)
            } else {
                old(self).pending()
            },
            final(self).tree_view().unreadable == old(self).tree_view().unreadable,
            parents_first(final(self).items()),
    {
        let parent = match &self.current {
            Some(c) => owned(c.as_str()),
            None => String::new(),
        };
        let child = join_rel(parent.as_str(), name);
        let ghost n = self.tree.items@.len() as int;
        let ghost old_items = self.tree.items@;
        match kind {
            Kind::Symlink => self.tree.push(child, Kind::Symlink, 0),
            Kind::Dir => {
                let queued = owned(child.as_str());
                self.tree.push(child, Kind::Dir, 0);
                self.queue.push_back(queued);
                proof {
                    self.queued_at@ = self.queued_at@.push(n);
                }
            },
            Kind::File => self.tree.push(child, Kind::File, size),
        }
        proof {
            self.parent@ = self.parent@.push(self.current_at@);
            self.names@ = self.names@.push(name@);
            let items = self.tree.items@;
            assert(items.drop_last() =~= old_items);
            assert forall|i: int| 1 <= i < items.len() implies 0 <= #[trigger] self.parent@[i] < i
                && items[self.parent@[i]].kind == Kind::Dir && items[i].rel@ == join_rel_spec(
                items[self.parent@[i]].rel@,
                self.names@[i],
            ) by {
                if i < n {
                    assert(items[i] == old_items[i]);
                    assert(items[self.parent@[i]] == old_items[self.parent@[i]]);
                }
            }
            assert forall|q: int| 0 <= q < self.queue@.len() implies 0
                <= #[trigger] self.queued_at@[q] < items.len() && items[self.queued_at@[q]].kind
                == Kind::Dir && items[self.queued_at@[q]].rel@ == self.queue@[q]@ by {
                if self.queued_at@[q] < n {
                    assert(items[self.queued_at@[q]] == old_items[self.queued_at@[q]]);
                }
            }
            assert(items[self.current_at@] == old_items[self.current_at@]);
            if kind == Kind::Dir {
                assert(self.pending() =~= old(self).pending().push(items.last().rel@));
            } else {
                assert(self.pending() =~= old(self).pending());
            }
            self.lemma_parents_first();
        }
    }

    /// Like `add`, for remote listings, which also name `.` and `..`:
    /// those are skipped.
    pub fn add_remote(&mut self, name: &str, kind: Kind, size: u64)
        requires
            old(self).wf(),
            old(self).listing() is Some,
            Walker::room_for(old(self).tree_view(), kind, size),
        ensures
            final(self).wf(),
            final(self).listing() == old(self).listing(),
            name@ == "."@ || name@ == ".."@ ==> final(self).items() == old(self).items()
                && final(self).pending() == old(self).pending(),
            !(name@ == "."@ || name@ == ".."@) ==> final(self).items().len() == old(
                self,
            ).items().len() + 1 && final(self).items().drop_last() == old(self).items()
                && final(self).items().last().rel@ == join_rel_spec(
                old(self).listing()->0,
                name@,
            ) && final(self).items().last().kind == kind,
            final(self).tree_view().unreadable == old(self).tree_view().unreadable,
            parents_first(final(self).items()),
    {
        if same_text(name, ".") || same_text(name, "..") {
            proof {
                self.lemma_parents_first();
            }
            return;
        }
        self.add(name, kind, size);
    }

    /// The finished plan.
    pub fn finish(self) -> (t: Tree)
        requires
            self.wf(),
        ensures
            t == self.tree_view(),
            t.items@ == self.items(),
            t.counts_agree(),
            parents_first(t.items@),
            t.items@.len() >= 1,
            t.items@[0].rel@ == Seq::<char>::empty(),
    {
        proof {
            self.lemma_parents_first();
        }
        self.tree
    }
}


/// Clones an optional label.
fn clone_label(l: &Option<String>) -> (r: Option<String>)
    ensures
        r == *l,
{
    match l {
        Some(s) => Some(s.clone()),
        None => None,
    }
}

/// Progress bookkeeping of a transfer. At the end of each file the counter
/// is pinned to the file's expected size rather than to the bytes actually
/// read, so the bar only moves forward, also when a file fails.
pub struct Reporter {
    pub done: u64,
    pub total: u64,
    pub files_done: u32,
    pub files_total: u32,
    pub label: Option<String>,
    /// `done` when the current file started.
    pub file_base: u64,
}

impl Reporter {
    /// Starts reporting on the planned tree.
    pub fn new(tree: &Tree) -> (r: Reporter)
        ensures
            r.done == 0,
            r.total == tree.total_bytes,
            r.files_done == 0,
            r.files_total == tree.files,
            r.label is None,
            r.file_base == 0,
    {
        Reporter {
            done: 0,
            total: tree.total_bytes,
            files_done: 0,
            files_total: tree.files,
            label: None,
            file_base: 0,
        }
    }

    /// The report to send now.
    pub fn progress(&self) -> (p: TransferProgress)
        ensures
            p.done == self.done,
            p.total == self.total,
            p.label == self.label,
            p.files == Some((self.files_done, self.files_total)),
    {
        TransferProgress {
            done: self.done,
            total: self.total,
            label: clone_label(&self.label),
            files: Some((self.files_done, self.files_total)),
        }
    }

    /// A file starts: remember where the counter stood and show its path.
    pub fn start_file(&mut self, rel: &str)
        ensures
            final(self).file_base == old(self).done,
            final(self).label matches Some(l) && l@ == rel@,
            final(self).done == old(self).done,
            final(self).total == old(self).total,
            final(self).files_done == old(self).files_done,
            final(self).files_total == old(self).files_total,
    {
        self.file_base = self.done;
        self.label = Some(owned(rel));
    }

    /// `n` more bytes were copied.
    pub fn bump(&mut self, n: u64)
        requires
            old(self).done + n <= u64::MAX,
        ensures
            final(self).done == old(self).done + n,
            final(self).file_base == old(self).file_base,
            final(self).label == old(self).label,
            final(self).total == old(self).total,
            final(self).files_done == old(self).files_done,
            final(self).files_total == old(self).files_total,
    {
        self.done = self.done + n;
    }

    /// The current file is over (copied or not): the counter moves to the
    /// file's start plus its expected size, and one more file is done.
    pub fn finish_file(&mut self, size: u64)
        requires
            old(self).file_base + size <= u64::MAX,
            old(self).files_done < u32::MAX,
        ensures
            final(self).done == old(self).file_base + size,
            final(self).files_done == old(self).files_done + 1,
            final(self).file_base == old(self).file_base,
            final(self).label == old(self).label,
            final(self).total == old(self).total,
            final(self).files_total == old(self).files_total,
    {
        self.done = self.file_base + size;
        self.files_done = self.files_done + 1;
    }
}

/// A file's progress never goes back: from its start, whatever was bumped in
/// between, finishing lands at the start plus the file's size, at least
/// where it started.
pub proof fn law_progress_never_goes_back(start: u64, size: u64)
    requires
        start + size <= u64::MAX,
    ensures
        start <= start + size,
{
}

impl TreeOutcome {
    /// The outcome before anything was copied: the links and unreadable
    /// directories of the plan are already known.
    pub fn for_tree(tree: &Tree) -> (o: TreeOutcome)
        ensures
            o.files == 0 && o.dirs == 0 && o.errors == 0 && o.first_error is None,
            o.symlinks == tree.symlinks,
            o.unreadable == tree.unreadable,
    {
        TreeOutcome {
            files: 0,
            dirs: 0,
            symlinks: tree.symlinks,
            unreadable: tree.unreadable,
            errors: 0,
            first_error: None,
        }
    }

    /// Records what happened to one planned item: links are skipped, a
    /// created directory or copied file is counted, a failure is noted.
    pub fn record(&mut self, kind: Kind, rel: &str, failure: Option<String>)
        requires
            old(self).dirs < u32::MAX,
            old(self).files < u32::MAX,
            old(self).errors < u32::MAX,
        ensures
            final(self).symlinks == old(self).symlinks,
            final(self).unreadable == old(self).unreadable,
            kind == Kind::Symlink ==> final(self).files == old(self).files && final(self).dirs
                == old(self).dirs && final(self).errors == old(self).errors
                && final(self).first_error == old(self).first_error,
            kind != Kind::Symlink && failure is None ==> final(self).errors == old(self).errors
                && final(self).first_error == old(self).first_error && final(self).dirs == old(
                self,
            ).dirs + (if kind == Kind::Dir {
                1int
            } else {
                0
            }) && final(self).files == old(self).files + (if kind == Kind::File {
                1int
            } else {
                0
            }),
            kind != Kind::Symlink && failure is Some ==> final(self).errors == old(self).errors
                + 1 && final(self).dirs == old(self).dirs && final(self).files == old(self).files
                && match old(self).first_error {
                Some(e) => final(self).first_error == Some(e),
                None => final(self).first_error matches Some(t) && t@ == error_note(
                    rel@,
                    failure->0@,
                ),
            },
    {
        match kind {
            Kind::Symlink => {},
            Kind::Dir => match failure {
                None => self.dirs = self.dirs + 1,
                Some(msg) => self.note_error(rel, msg.as_str()),
            },
            Kind::File => match failure {
                None => self.files = self.files + 1,
                Some(msg) => self.note_error(rel, msg.as_str()),
            },
        }
    }
}

/// One remote directory entry.
#[derive(Clone, Debug)]
pub struct RemoteEntry {
    pub name: String,
    pub is_dir: bool,
}


/// A remote entry as a panel entry.
pub open spec fn as_entry(e: RemoteEntry) -> Entry {
    Entry { name: e.name, is_dir: e.is_dir }
}

/// Remote entries as panel entries.
pub open spec fn as_entries(s: Seq<RemoteEntry>) -> Seq<Entry> {
    s.map_values(|e: RemoteEntry| as_entry(e))
}

/// Orders a remote directory listing for the panel: a `..` entry is added,
/// then directories come first and names follow `str`'s order.
pub fn arrange_listing(read: &Vec<RemoteEntry>) -> (r: Vec<RemoteEntry>)
    ensures
        listing_sorted(as_entries(r@)),
        exists|up: Entry| #[trigger]
            is_parent_entry(up) && as_entries(r@).to_multiset() == (seq![up] + as_entries(
                read@,
            )).to_multiset(),
{
    let mut entries: Vec<Entry> = Vec::new();
    let mut i: usize = 0;
    while i < read.len()
        invariant
            i <= read@.len(),
            entries@ == as_entries(read@.take(i as int)),
        decreases read@.len() - i,
    {
        entries.push(Entry { name: read[i].name.clone(), is_dir: read[i].is_dir });
        assert(as_entries(read@.take(i + 1)) =~= as_entries(read@.take(i as int)).push(
            as_entry(read@[i as int]),
        ));
        i = i + 1;
    }
    assert(read@.take(read@.len() as int) =~= read@);
    let sorted = listing_with_parent(&entries);
    let mut out: Vec<RemoteEntry> = Vec::new();
    let mut j: usize = 0;
    while j < sorted.len()
        invariant
            j <= sorted@.len(),
            as_entries(out@) == sorted@.take(j as int),
        decreases sorted@.len() - j,
    {
        let ghost before = out@;
        let item = RemoteEntry { name: sorted[j].name.clone(), is_dir: sorted[j].is_dir };
        assert(as_entry(item) == sorted@[j as int]);
        out.push(item);
        assert(as_entries(out@) =~= as_entries(before).push(as_entry(item)));
        assert(sorted@.take(j + 1) =~= sorted@.take(j as int).push(sorted@[j as int]));
        j = j + 1;
    }
    assert(sorted@.take(sorted@.len() as int) =~= sorted@);
    out
}

} // verus!

verus! {

/// The pieces of `s` between slashes, as `str::split('/')` gives them
/// (empty pieces included).
pub open spec fn split_slash(s: Seq<char>) -> Seq<Seq<char>>
    decreases s.len(),
{
    if s.len() == 0 {
        seq![Seq::empty()]
    } else {
        let p = split_slash(s.drop_last());
        if s.last() == '/' {
            p.push(Seq::empty())
        } else {
            p.update(p.len() - 1, p.last().push(s.last()))
        }
    }
}

proof fn lemma_split_slash_len(s: Seq<char>)
    ensures
        split_slash(s).len() >= 1,
    decreases s.len(),
{
    if s.len() > 0 {
        lemma_split_slash_len(s.drop_last());
    }
}

/// `root` joined with each piece in turn (`Path::join`).
pub open spec fn join_all(root: Seq<char>, parts: Seq<Seq<char>>) -> Seq<char>
    decreases parts.len(),
{
    if parts.len() == 0 {
        root
    } else {
        crate::paths::joined_path(join_all(root, parts.drop_last()), parts.last())
    }
}

/// A local root plus a `/`-separated relative path: the root itself when
/// the path is empty, else the root joined with each piece in turn (so the
/// platform's separator is used).
pub open spec fn local_child_spec(root: Seq<char>, rel: Seq<char>) -> Seq<char> {
    if rel.len() == 0 {
        root
    } else {
        join_all(root, split_slash(rel))
    }
}

/// A local root plus a relative path from a remote tree.
pub fn local_child(root: &str, rel: &str) -> (r: String)
    ensures
        r@ == local_child_spec(root@, rel@),
{
    let cs = chars_of(rel);
    if cs.len() == 0 {
        return owned(root);
    }
    let mut acc = owned(root);
    let mut part = String::new();
    let mut i: usize = 0;
    assert(rel@.take(0) =~= Seq::<char>::empty());
    assert(split_slash(Seq::<char>::empty()).drop_last() =~= Seq::<Seq<char>>::empty());
    while i < cs.len()
        invariant
            i <= cs@.len(),
            cs@ == rel@,
            split_slash(rel@.take(i as int)).len() >= 1,
            acc@ == join_all(root@, split_slash(rel@.take(i as int)).drop_last()),
            part@ == split_slash(rel@.take(i as int)).last(),
        decreases cs@.len() - i,
    {
        let c = cs[i];
        let ghost before = rel@.take(i as int);
        let ghost after = rel@.take(i + 1);
        assert(after.drop_last() =~= before);
        assert(after.last() == c);
        proof {
            lemma_split_slash_len(before);
        }
        if c == '/' {
            acc = crate::paths::path_join(acc.as_str(), part.as_str());
            part = String::new();
            proof {
                let p = split_slash(before);
                assert(split_slash(after) == p.push(Seq::<char>::empty()));
                assert(p.push(Seq::<char>::empty()).drop_last() =~= p);
                assert(p =~= p.drop_last().push(p.last()));
            }
        } else {
            crate::text::push_char(&mut part, c);
            proof {
                let p = split_slash(before);
                let q = p.update(p.len() - 1, p.last().push(c));
                assert(split_slash(after) == q);
                assert(q.drop_last() =~= p.drop_last());
            }
        }
        i = i + 1;
    }
    assert(rel@.take(cs@.len() as int) =~= rel@);
    let ghost p = split_slash(rel@);
    proof {
        lemma_split_slash_len(rel@);
        assert(p =~= p.drop_last().push(p.last()));
    }
    crate::paths::path_join(acc.as_str(), part.as_str())
}

} // verus!

verus! {

/// Items of `kind` among the first `n` that did not fail (`failures[i]`
/// holds item `i`'s error, if any).
pub open spec fn ok_count(items: Seq<TreeItem>, failures: Seq<Option<String>>, kind: Kind, n: int) -> nat
    decreases n,
{
    if n <= 0 {
        0
    } else {
        ok_count(items, failures, kind, n - 1) + if items[n - 1].kind == kind && failures[n - 1] is None {
            1nat
        } else {
            0nat
        }
    }
}

/// Files and directories among the first `n` items that failed (links are
/// never copied, so they never fail).
pub open spec fn fail_count(items: Seq<TreeItem>, failures: Seq<Option<String>>, n: int) -> nat
    decreases n,
{
    if n <= 0 {
        0
    } else {
        fail_count(items, failures, n - 1) + if items[n - 1].kind != Kind::Symlink
            && failures[n - 1] is Some {
            1nat
        } else {
            0nat
        }
    }
}

/// The note of the first failed file or directory among the first `n`.
pub open spec fn first_failure(items: Seq<TreeItem>, failures: Seq<Option<String>>, n: int) -> Option<
    Seq<char>,
>
    decreases n,
{
    if n <= 0 {
        None
    } else {
        match first_failure(items, failures, n - 1) {
            Some(e) => Some(e),
            None => if items[n - 1].kind != Kind::Symlink && failures[n - 1] is Some {
                Some(error_note(items[n - 1].rel@, failures[n - 1]->0@))
            } else {
                None
            },
        }
    }
}

proof fn lemma_count_kind_grows(items: Seq<TreeItem>, kind: Kind, i: int, n: int)
    requires
        0 <= i <= n,
    ensures
        count_kind(items, kind, i) <= count_kind(items, kind, n),
    decreases n - i,
{
    if i < n {
        lemma_count_kind_grows(items, kind, i, n - 1);
    }
}

impl TreeOutcome {
    /// The outcome of a transfer, from what happened to each planned item
    /// (`failures[i]`: item `i`'s error, if it failed). One failure never
    /// stops the rest: every file and folder is either counted as copied or
    /// as an error, links are reported as skipped, and the first error's
    /// text is kept.
    pub fn tally(tree: &Tree, failures: &Vec<Option<String>>) -> (o: TreeOutcome)
        requires
            failures@.len() == tree.items@.len(),
            tree.counts_agree(),
            tree.files + tree.dirs < u32::MAX,
        ensures
            o.files == ok_count(tree.items@, failures@, Kind::File, tree.items@.len() as int),
            o.dirs == ok_count(tree.items@, failures@, Kind::Dir, tree.items@.len() as int),
            o.errors == fail_count(tree.items@, failures@, tree.items@.len() as int),
            o.files + o.dirs + o.errors == tree.files + tree.dirs,
            o.symlinks == tree.symlinks,
            o.unreadable == tree.unreadable,
            crate::config::opt_view(o.first_error) == first_failure(
                tree.items@,
                failures@,
                tree.items@.len() as int,
            ),
    {
        let ghost items = tree.items@;
        let ghost fs = failures@;
        let ghost n = items.len() as int;
        let mut o = TreeOutcome::for_tree(tree);
        let mut i: usize = 0;
        while i < tree.items.len()
            invariant
                items == tree.items@,
                fs == failures@,
                n == items.len(),
                fs.len() == n,
                i <= n,
                tree.counts_agree(),
                tree.files + tree.dirs < u32::MAX,
                o.files == ok_count(items, fs, Kind::File, i as int),
                o.dirs == ok_count(items, fs, Kind::Dir, i as int),
                o.errors == fail_count(items, fs, i as int),
                o.files + o.dirs + o.errors == count_kind(items, Kind::File, i as int) + count_kind(
                    items,
                    Kind::Dir,
                    i as int,
                ),
                o.symlinks == tree.symlinks,
                o.unreadable == tree.unreadable,
                crate::config::opt_view(o.first_error) == first_failure(items, fs, i as int),
            decreases n - i,
        {
            proof {
                lemma_count_kind_grows(items, Kind::File, i + 1, n);
                lemma_count_kind_grows(items, Kind::Dir, i + 1, n);
            }
            let f = clone_label(&failures[i]);
            o.record(tree.items[i].kind, tree.items[i].rel.as_str(), f);
            i = i + 1;
        }
        o
    }
}

} // verus!
