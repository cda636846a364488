//! Keeping the tree current while the file system changes: what a change
//! reported for one path does to the tree, and the bookkeeping of which
//! directories are watched.

use vstd::prelude::*;
use crate::color::{default_hash, default_hash_of, spec_file_color, ColorClass};
use crate::paths::{
    is_virtual_or_special_fs, path_components, path_components_of, relative_components, same_path, spec_is_virtual_or_special_fs,
    spec_relative_components,
};
use crate::sizes::{decimal, push_decimal};
use crate::text::{contains_text, push_char, spec_contains};
use crate::tree::{
    first_named, lemma_first_named, lemma_replace_same, lemma_view_nodes, node_at, path_names, replace_at, resized, size_delta,
    update_fits, view_node, view_nodes, FileNode, NodeView,
};

verus! {

/// What the file system shows at a changed path now.
pub enum Observed {
    /// Nothing is there any more.
    Missing,
    Directory,
    /// A regular file of this many bytes.
    File(u64),
    /// Something else, or its metadata could not be read.
    Other,
}

/// What applying a change did to the tree.
#[derive(Clone, Copy, Debug, PartialEq, Eq, Structural)]
pub enum ChangeEffect {
    /// The tree is unchanged.
    Ignored,
    /// The first child of that name was removed from its parent.
    Removed,
    /// A new, empty directory node was added; it still has to be scanned.
    DirectoryAdded,
    /// The node at the path took the new size; this is the change.
    FileResized(i64),
    /// A new file node was added.
    FileAdded,
}

/// The view of a freshly made node (see `FileNode::new`).
pub open spec fn fresh_view<P, A>(name: Seq<char>, is_dir: bool, size: u64, placement: P, activity: A) -> NodeView<P, A> {
    NodeView {
        name,
        is_dir,
        size,
        children: Seq::empty(),
        is_sorted: false,
        color: if is_dir { ColorClass::Directory } else { spec_file_color(name) },
        placement,
        activity,
    }
}

/// The tree after the node at `parent_path` (which exists) gets `children`
/// as its new child list and is marked unsorted.
pub open spec fn with_children<P, A>(
    root: NodeView<P, A>,
    parent_path: Seq<Seq<char>>,
    children: Seq<NodeView<P, A>>,
) -> NodeView<P, A> {
    let p = node_at(root, parent_path)->0;
    replace_at(root, parent_path, NodeView { children, is_sorted: false, ..p })
}

/// What a change at `path` (child names from the root, at least one) does:
/// the tree afterwards and the effect.
pub open spec fn spec_apply_change<P, A>(
    root: NodeView<P, A>,
    path: Seq<Seq<char>>,
    observed: Observed,
    placement: P,
    activity: A,
) -> (NodeView<P, A>, ChangeEffect) {
    let parent_path = path.drop_last();
    let item = path.last();
    let parent = node_at(root, parent_path);
    match observed {
        Observed::Missing => match parent {
            Some(p) => match first_named(p.children, item) {
                Some(i) => (with_children(root, parent_path, p.children.remove(i)), ChangeEffect::Removed),
                None => (root, ChangeEffect::Ignored),
            },
            None => (root, ChangeEffect::Ignored),
        },
        Observed::Directory => match parent {
            Some(p) => match first_named(p.children, item) {
                Some(_) => (root, ChangeEffect::Ignored),
                None => (
                    with_children(root, parent_path, p.children.push(fresh_view(item, true, 0, placement, activity))),
                    ChangeEffect::DirectoryAdded,
                ),
            },
            None => (root, ChangeEffect::Ignored),
        },
        Observed::File(size) => match size_delta(root, path, size) {
            Some(d) => (resized(root, path, size, d), ChangeEffect::FileResized(d as i64)),
            None => match parent {
                Some(p) => (
                    with_children(root, parent_path, p.children.push(fresh_view(item, false, size, placement, activity))),
                    ChangeEffect::FileAdded,
                ),
                None => (root, ChangeEffect::Ignored),
            },
        },
        Observed::Other => (root, ChangeEffect::Ignored),
    }
}

/// Brings the tree in line with what the file system shows at `components`
/// (child names from the root): a vanished entry is removed, a new
/// directory or file is added under its parent, a known node takes a
/// file's new size.  New nodes get `placement` and `activity`.
pub fn apply_change<P: Copy, A: Copy>(
    root: &mut FileNode<P, A>,
    components: &[String],
    observed: Observed,
    placement: P,
    activity: A,
) -> (effect: ChangeEffect)
    requires
        components@.len() >= 1,
        observed matches Observed::File(size) ==> update_fits(old(root)@, path_names(components@), size),
    ensures
        (final(root)@, effect) == spec_apply_change(old(root)@, path_names(components@), observed, placement, activity),
{
    let ghost path = path_names(components@);
    let n = components.len();
    let mut parent_comps: Vec<String> = Vec::new();
    let mut k: usize = 0;
    while k + 1 < n
        invariant
            n == components@.len(),
            n >= 1,
            k < n,
            parent_comps@.len() == k,
            forall|j: int| 0 <= j < k ==> #[trigger] parent_comps@[j]@ == components@[j]@,
        decreases n - k,
    {
        parent_comps.push(components[k].clone());
        k = k + 1;
    }
    assert(path_names(parent_comps@) =~= path.drop_last());
    let item = &components[n - 1];
    assert(item@ == path.last());
    match observed {
        Observed::Missing => {
            match root.find_mut(parent_comps.as_slice()) {
                None => ChangeEffect::Ignored,
                Some(parent) => {
                    proof {
                        lemma_first_named(parent@.children, item@);
                        lemma_view_nodes(parent.children@);
                    }
                    match parent.position_named(item) {
                        None => {
                            proof {
                                lemma_replace_same(old(root)@, path.drop_last());
                            }
                            ChangeEffect::Ignored
                        },
                        Some(i) => {
                            let ghost before = parent.children@;
                            let ghost p0 = parent@;
                            let _removed = parent.children.remove(i);
                            parent.is_sorted = false;
                            proof {
                                lemma_view_nodes(parent.children@);
                                assert(view_nodes(parent.children@) =~= p0.children.remove(i as int));
                                assert(parent@ == (NodeView { children: p0.children.remove(i as int), is_sorted: false, ..p0 }));
                            }
                            ChangeEffect::Removed
                        },
                    }
                },
            }
        },
        Observed::Directory => {
            match root.find_mut(parent_comps.as_slice()) {
                None => ChangeEffect::Ignored,
                Some(parent) => {
                    match parent.position_named(item) {
                        Some(_) => {
                            proof {
                                lemma_replace_same(old(root)@, path.drop_last());
                            }
                            ChangeEffect::Ignored
                        },
                        None => {
                            let ghost p0 = parent@;
                            let ghost before = parent.children@;
                            let node = FileNode::new(item.clone(), true, 0, placement, activity);
                            parent.children.push(node);
                            parent.is_sorted = false;
                            proof {
                                lemma_view_nodes(before);
                                lemma_view_nodes(parent.children@);
                                assert(view_nodes(parent.children@) =~= p0.children.push(view_node(node)));
                                assert(view_node(node) == fresh_view(item@, true, 0, placement, activity));
                                assert(parent@ == (NodeView {
                                    children: p0.children.push(fresh_view(item@, true, 0, placement, activity)),
                                    is_sorted: false,
                                    ..p0
                                }));
                            }
                            ChangeEffect::DirectoryAdded
                        },
                    }
                },
            }
        },
        Observed::File(size) => {
            match root.update_file_size(components, size) {
                Some(diff) => ChangeEffect::FileResized(diff),
                None => {
                    match root.find_mut(parent_comps.as_slice()) {
                        None => ChangeEffect::Ignored,
                        Some(parent) => {
                            let ghost p0 = parent@;
                            let ghost before = parent.children@;
                            let node = FileNode::new(item.clone(), false, size, placement, activity);
                            parent.children.push(node);
                            parent.is_sorted = false;
                            proof {
                                lemma_view_nodes(before);
                                lemma_view_nodes(parent.children@);
                                assert(view_nodes(parent.children@) =~= p0.children.push(view_node(node)));
                                assert(view_node(node) == fresh_view(item@, false, size, placement, activity));
                                assert(parent@ == (NodeView {
                                    children: p0.children.push(fresh_view(item@, false, size, placement, activity)),
                                    is_sorted: false,
                                    ..p0
                                }));
                            }
                            ChangeEffect::FileAdded
                        },
                    }
                },
            }
        },
        Observed::Other => ChangeEffect::Ignored,
    }
}

/// Where a change reported at `path` falls in the tree shown for
/// `target_dir`: its child names from the root, when the path lies strictly
/// inside `target_dir` and, with `skip_virtual`, outside the virtual trees.
pub open spec fn spec_change_path(path: Seq<char>, target_dir: Seq<char>, skip_virtual: bool) -> Option<Seq<Seq<char>>> {
    if skip_virtual && spec_is_virtual_or_special_fs(path) {
        None
    } else {
        match spec_relative_components(path, target_dir) {
            Some(c) => if c.len() > 0 {
                Some(c)
            } else {
                None
            },
            None => None,
        }
    }
}

/// The child names from the root of a changed `path` (see
/// [`spec_change_path`]), or `None` when the change is not the tree's.
pub fn change_path(path: &str, target_dir: &str, skip_virtual: bool) -> (r: Option<Vec<String>>)
    ensures
        r is None <==> spec_change_path(path@, target_dir@, skip_virtual) is None,
        r matches Some(v) ==> path_names(v@) == spec_change_path(path@, target_dir@, skip_virtual)->0
            && v@.len() >= 1,
{
    if skip_virtual && is_virtual_or_special_fs(path) {
        return None;
    }
    match relative_components(path, target_dir) {
        Some(v) => {
            if v.len() == 0 {
                None
            } else {
                assert(path_names(v@) =~= spec_relative_components(path@, target_dir@)->0);
                Some(v)
            }
        },
        None => None,
    }
}

/// Whether a watch error is the kernel's limit on watches being reached.
pub open spec fn spec_is_limit_error(msg: Seq<char>) -> bool {
    spec_contains(msg, "os error 28"@) || spec_contains(msg, "No space left"@)
}

/// Whether a watch error is the kernel's limit on watches being reached.
pub fn is_watch_limit_error(msg: &str) -> (r: bool)
    ensures
        r == spec_is_limit_error(msg@),
{
    contains_text(msg, "os error 28") || contains_text(msg, "No space left")
}

/// Number of hash buckets that index the watched directories.
pub const WATCH_BUCKETS: usize = 4096;

/// The components of a path written one after the other, each followed by
/// '/': the text that a watched directory is hashed by.
pub open spec fn joined(c: Seq<Seq<char>>) -> Seq<char>
    decreases c.len(),
{
    if c.len() == 0 {
        Seq::empty()
    } else {
        joined(c.drop_last()) + c.last() + seq!['/']
    }
}

/// The hash that a directory is filed under: a function of its components
/// alone, so that paths with the same components share it.
pub open spec fn watch_key(path: Seq<char>) -> u64 {
    default_hash_of(joined(path_components(path)))
}

/// The hash of `path` (see [`watch_key`]).
fn watch_key_of(path: &str) -> (h: u64)
    ensures
        h == watch_key(path@),
{
    let comps = path_components_of(path);
    let ghost pc = path_components(path@);
    let mut text = String::new();
    let mut i: usize = 0;
    assert(pc.take(0) =~= Seq::<Seq<char>>::empty());
    while i < comps.len()
        invariant
            comps@.len() == pc.len(),
            forall|k: int| 0 <= k < pc.len() ==> #[trigger] comps@[k]@ == pc[k],
            i <= comps@.len(),
            text@ == joined(pc.take(i as int)),
        decreases comps@.len() - i,
    {
        assert(pc.take(i + 1).drop_last() =~= pc.take(i as int));
        text.append(comps[i].as_str());
        push_char(&mut text, '/');
        i = i + 1;
    }
    assert(pc.take(pc.len() as int) =~= pc);
    default_hash(text.as_str())
}

/// The watched directories, by their components.
pub open spec fn watched_keys(dirs: Seq<Seq<char>>) -> Seq<Seq<Seq<char>>> {
    Seq::new(dirs.len(), |i: int| path_components(dirs[i]))
}

/// The watched directories, each also filed by hash so that a lookup only
/// compares paths that share a bucket.  The buckets are made with the first
/// directory.
struct WatchedDirs {
    dirs: Vec<String>,
    keys: Vec<u64>,
    slots: Vec<usize>,
    buckets: Vec<Vec<usize>>,
}

impl WatchedDirs {
    spec fn texts(&self) -> Seq<Seq<char>> {
        Seq::new(self.dirs@.len(), |i: int| self.dirs@[i]@)
    }

    spec fn bucket_of(&self, i: int) -> int {
        (self.keys@[i] % (WATCH_BUCKETS as u64)) as int
    }

    /// No directory twice; each directory's hash recorded, its position in
    /// the bucket of that hash at its recorded slot, and every bucket entry
    /// the position of a directory filed in that bucket.
    spec fn well_formed(&self) -> bool {
        &&& watched_keys(self.texts()).no_duplicates()
        &&& (self.buckets@.len() == WATCH_BUCKETS || (self.buckets@.len() == 0 && self.dirs@.len() == 0))
        &&& self.keys@.len() == self.dirs@.len()
        &&& self.slots@.len() == self.dirs@.len()
        &&& forall|i: int| 0 <= i < self.dirs@.len() ==> {
            &&& #[trigger] self.keys@[i] == watch_key(self.dirs@[i]@)
            &&& self.slots@[i] < self.buckets@[self.bucket_of(i)]@.len()
            &&& self.buckets@[self.bucket_of(i)]@[self.slots@[i] as int] == i
        }
        &&& forall|b: int, k: int| 0 <= b < self.buckets@.len() && 0 <= k < self.buckets@[b]@.len() ==> {
            let j = #[trigger] self.buckets@[b]@[k];
            &&& j < self.dirs@.len()
            &&& self.bucket_of(j as int) == b
        }
    }

    fn new() -> (r: Self)
        ensures
            r.well_formed(),
            r.texts().len() == 0,
    {
        let r = WatchedDirs { dirs: Vec::new(), keys: Vec::new(), slots: Vec::new(), buckets: Vec::new() };
        assert(watched_keys(r.texts()) =~= Seq::<Seq<Seq<char>>>::empty());
        r
    }

    fn len(&self) -> (n: usize)
        ensures
            n == self.texts().len(),
    {
        self.dirs.len()
    }

    fn empty_buckets() -> (r: Vec<Vec<usize>>)
        ensures
            r@.len() == WATCH_BUCKETS,
            forall|b: int| 0 <= b < WATCH_BUCKETS ==> #[trigger] r@[b]@.len() == 0,
    {
        let mut buckets: Vec<Vec<usize>> = Vec::new();
        let mut b: usize = 0;
        while b < WATCH_BUCKETS
            invariant
                b <= WATCH_BUCKETS,
                buckets@.len() == b,
                forall|c: int| 0 <= c < b ==> #[trigger] buckets@[c]@.len() == 0,
            decreases WATCH_BUCKETS - b,
        {
            buckets.push(Vec::new());
            b = b + 1;
        }
        buckets
    }

    /// Whether a directory with the components of `path` is held.
    fn contains(&self, path: &str) -> (r: bool)
        requires
            self.well_formed(),
        ensures
            r == watched_keys(self.texts()).contains(path_components(path@)),
    {
        if self.buckets.len() == 0 {
            return false;
        }
        let h = watch_key_of(path);
        let b = (h % (WATCH_BUCKETS as u64)) as usize;
        let bucket = &self.buckets[b];
        let mut k: usize = 0;
        while k < bucket.len()
            invariant
                self.well_formed(),
                self.buckets@.len() == WATCH_BUCKETS,
                bucket@ == self.buckets@[b as int]@,
                b < WATCH_BUCKETS,
                h == watch_key(path@),
                b == h % (WATCH_BUCKETS as u64),
                k <= bucket@.len(),
                forall|m: int| 0 <= m < k ==> path_components(self.dirs@[#[trigger] bucket@[m] as int]@)
                    != path_components(path@),
            decreases bucket@.len() - k,
        {
            let j = bucket[k];
            assert(self.buckets@[b as int]@[k as int] == j);
            if self.keys[j] == h && same_path(self.dirs[j].as_str(), path) {
                assert(watched_keys(self.texts())[j as int] == path_components(path@));
                return true;
            }
            k = k + 1;
        }
        assert forall|i: int| 0 <= i < self.dirs@.len() implies watched_keys(self.texts())[i] != path_components(
            path@,
        ) by {
            if path_components(self.dirs@[i]@) == path_components(path@) {
                assert(self.keys@[i] == h);
                let m = self.slots@[i] as int;
                assert(bucket@[m] == i);
            }
        }
        false
    }

    /// Adds `path`, which is not held yet.
    fn insert_new(&mut self, path: String)
        requires
            old(self).well_formed(),
            !watched_keys(old(self).texts()).contains(path_components(path@)),
        ensures
            final(self).well_formed(),
            final(self).texts() == old(self).texts().push(path@),
    {
        if self.buckets.len() == 0 {
            self.buckets = Self::empty_buckets();
        }
        let h = watch_key_of(path.as_str());
        let b = (h % (WATCH_BUCKETS as u64)) as usize;
        let i = self.dirs.len();
        let slot = self.buckets[b].len();
        let ghost (dirs0, keys0, slots0, buckets0) = (self.dirs@, self.keys@, self.slots@, self.buckets@);
        let ghost texts0 = old(self).texts();
        assert(texts0 =~= Seq::new(dirs0.len(), |j: int| dirs0[j]@));
        self.dirs.push(path);
        self.keys.push(h);
        self.slots.push(slot);
        self.buckets[b].push(i);
        proof {
            assert(self.buckets@.len() == buckets0.len());
            assert(self.buckets@[b as int]@ == buckets0[b as int]@.push(i));
            assert(forall|c: int| 0 <= c < WATCH_BUCKETS && c != b ==> #[trigger] self.buckets@[c] == buckets0[c]);
            assert(self.keys@ == keys0.push(h));
            assert(self.slots@ == slots0.push(slot));
            assert(self.texts() =~= texts0.push(path@));
            assert(watched_keys(self.texts()) =~= watched_keys(texts0).push(path_components(path@)));
            assert forall|x: int, y: int| 0 <= x < y < watched_keys(self.texts()).len()
                implies watched_keys(self.texts())[x] != watched_keys(self.texts())[y] by {
                if y == dirs0.len() {
                    assert(watched_keys(texts0)[x] == watched_keys(self.texts())[x]);
                }
            }
            assert forall|j: int| 0 <= j < self.dirs@.len() implies {
                &&& #[trigger] self.keys@[j] == watch_key(self.dirs@[j]@)
                &&& self.slots@[j] < self.buckets@[self.bucket_of(j)]@.len()
                &&& self.buckets@[self.bucket_of(j)]@[self.slots@[j] as int] == j
            } by {
                if j < dirs0.len() {
                    assert(self.keys@[j] == keys0[j]);
                    assert(self.slots@[j] == slots0[j]);
                }
            }
            assert forall|c: int, k: int| 0 <= c < self.buckets@.len() && 0 <= k < self.buckets@[c]@.len() implies {
                let j = #[trigger] self.buckets@[c]@[k];
                &&& j < self.dirs@.len()
                &&& self.bucket_of(j as int) == c
            } by {
                if c != b || k < buckets0[c]@.len() {
                    let j = buckets0[c]@[k];
                    assert(self.buckets@[c]@[k] == j);
                    assert(self.keys@[j as int] == keys0[j as int]);
                }
            }
        }
    }
}

/// What [`WatchState`] stands for: the watched directories (as text, in
/// the order they were put under watch), whether the platform watches whole
/// trees at once, whether directories in virtual trees are never watched,
/// whether a watcher exists, whether the kernel's watch limit was reached,
/// and the last other error.
pub struct WatchView {
    pub dirs: Seq<Seq<char>>,
    pub is_native_recursive: bool,
    pub skip_virtual: bool,
    pub has_watcher: bool,
    pub limit_hit: bool,
    pub error_msg: Option<Seq<char>>,
}

impl WatchView {
    /// Whether a directory with the components of `path` is watched.
    pub open spec fn watches(self, path: Seq<char>) -> bool {
        watched_keys(self.dirs).contains(path_components(path))
    }
}

/// What the watcher knows of its own state (see [`WatchView`]).  Its
/// invariant: no directory is recorded twice, and the hash index agrees
/// with the directories.
pub struct WatchState {
    dirs: WatchedDirs,
    is_native_recursive: bool,
    skip_virtual: bool,
    has_watcher: bool,
    limit_hit: bool,
    error_msg: Option<String>,
}

/// How the status line presents the watcher.
#[derive(Clone, Copy, Debug, PartialEq, Eq, Structural)]
pub enum StatusKind {
    Scanning,
    LimitHit,
    Watching,
    Failed,
}

/// Which status the line shows: scanning first, then a reached watch
/// limit, then a live watcher (one that exists and has no error), else a
/// failure.
pub open spec fn spec_status(v: WatchView, scanning: bool) -> StatusKind {
    if scanning {
        StatusKind::Scanning
    } else if v.limit_hit {
        StatusKind::LimitHit
    } else if v.has_watcher && v.error_msg is None {
        StatusKind::Watching
    } else {
        StatusKind::Failed
    }
}

/// The status line's text; `backend` is the platform's description of a
/// live watcher.
pub open spec fn spec_status_text(v: WatchView, scanning: bool, backend: Seq<char>) -> Seq<char> {
    match spec_status(v, scanning) {
        StatusKind::Scanning => "SCANNING..."@,
        StatusKind::LimitHit => "WATCHING (INOTIFY LIMIT: "@ + decimal(v.dirs.len()) + " DIRS)"@,
        StatusKind::Watching => backend,
        StatusKind::Failed => "WATCHER FAILED: "@ + match v.error_msg {
            Some(m) => m,
            None => "Unknown error"@,
        },
    }
}

impl View for WatchState {
    type V = WatchView;

    closed spec fn view(&self) -> WatchView {
        WatchView {
            dirs: self.dirs.texts(),
            is_native_recursive: self.is_native_recursive,
            skip_virtual: self.skip_virtual,
            has_watcher: self.has_watcher,
            limit_hit: self.limit_hit,
            error_msg: match self.error_msg {
                Some(m) => Some(m@),
                None => None,
            },
        }
    }
}

impl WatchState {
    #[verifier::type_invariant]
    spec fn inv(self) -> bool {
        self.dirs.well_formed()
    }

    /// The state when no watcher could be made; `message` is the error.
    pub fn after_init_failure(is_native_recursive: bool, skip_virtual: bool, message: &str) -> (s: Self)
        ensures
            s@ == (WatchView {
                dirs: Seq::empty(),
                is_native_recursive,
                skip_virtual,
                has_watcher: false,
                limit_hit: false,
                error_msg: Some("Init error: "@ + message@),
            }),
    {
        let mut m = String::from_str("Init error: ");
        m.append(message);
        let s = WatchState {
            dirs: WatchedDirs::new(),
            is_native_recursive,
            skip_virtual,
            has_watcher: false,
            limit_hit: false,
            error_msg: Some(m),
        };
        assert(s.dirs.texts() =~= Seq::<Seq<char>>::empty());
        s
    }

    /// The state once the root has been put under watch with `outcome`:
    /// on success the root is the one watched directory; a limit error sets
    /// the limit flag, any other error is kept as the message.
    pub fn after_root_watch(root: String, is_native_recursive: bool, skip_virtual: bool, outcome: Result<(), String>) -> (s: Self)
        ensures
            s@.is_native_recursive == is_native_recursive,
            s@.skip_virtual == skip_virtual,
            s@.has_watcher,
            outcome is Ok ==> s@.dirs == seq![root@] && !s@.limit_hit && s@.error_msg is None,
            outcome matches Err(e) ==> s@.dirs.len() == 0 && (if spec_is_limit_error(e@) {
                s@.limit_hit && s@.error_msg is None
            } else {
                !s@.limit_hit && s@.error_msg == Some(e@)
            }),
    {
        let mut dirs = WatchedDirs::new();
        let mut limit_hit = false;
        let mut error_msg: Option<String> = None;
        match outcome {
            Ok(()) => {
                assert(watched_keys(dirs.texts()) =~= Seq::<Seq<Seq<char>>>::empty());
                dirs.insert_new(root);
                assert(dirs.texts() =~= seq![root@]);
            },
            Err(e) => {
                if is_watch_limit_error(e.as_str()) {
                    limit_hit = true;
                } else {
                    error_msg = Some(e);
                }
            },
        }
        WatchState { dirs, is_native_recursive, skip_virtual, has_watcher: true, limit_hit, error_msg }
    }

    /// Whether a directory with the components of `path` is watched; only
    /// the directories filed under the same hash are compared.
    pub fn is_watched(&self, path: &str) -> (r: bool)
        ensures
            r == self@.watches(path@),
    {
        proof {
            use_type_invariant(self);
        }
        self.dirs.contains(path)
    }

    /// Whether `path` should be put under watch now: only when each
    /// directory needs its own watch, the limit has not been reached, the
    /// path is not in a skipped virtual tree, it is not watched yet, and a
    /// watcher exists.
    pub fn wants_watch(&self, path: &str) -> (r: bool)
        ensures
            r == (!self@.is_native_recursive && !self@.limit_hit
                && !(self@.skip_virtual && spec_is_virtual_or_special_fs(path@)) && !self@.watches(path@)
                && self@.has_watcher),
    {
        if self.is_native_recursive || self.limit_hit {
            return false;
        }
        if self.skip_virtual && is_virtual_or_special_fs(path) {
            return false;
        }
        if self.is_watched(path) {
            return false;
        }
        self.has_watcher
    }

    /// Records the outcome of putting `path` under watch.  Success adds it
    /// to the watched directories (once).  A limit error sets the limit flag
    /// and returns true the first time, when the user is to be warned; any
    /// other error is kept as the message.
    pub fn record_watch(&mut self, path: String, outcome: Result<(), String>) -> (warn: bool)
        ensures
            final(self)@.is_native_recursive == old(self)@.is_native_recursive,
            final(self)@.skip_virtual == old(self)@.skip_virtual,
            final(self)@.has_watcher == old(self)@.has_watcher,
            outcome is Ok ==> !warn && final(self)@.limit_hit == old(self)@.limit_hit
                && final(self)@.error_msg == old(self)@.error_msg
                && (if old(self)@.watches(path@) {
                    final(self)@.dirs == old(self)@.dirs
                } else {
                    final(self)@.dirs == old(self)@.dirs.push(path@)
                }),
            outcome matches Err(e) ==> final(self)@.dirs == old(self)@.dirs && (if spec_is_limit_error(e@) {
                warn == !old(self)@.limit_hit && final(self)@.limit_hit && final(self)@.error_msg == old(
                    self,
                )@.error_msg
            } else {
                !warn && final(self)@.limit_hit == old(self)@.limit_hit && final(self)@.error_msg == Some(e@)
            }),
    {
        proof {
            use_type_invariant(&*self);
        }
        match outcome {
            Ok(()) => {
                if !self.dirs.contains(path.as_str()) {
                    let mut d = WatchedDirs::new();
                    std::mem::swap(&mut d, &mut self.dirs);
                    d.insert_new(path);
                    self.dirs = d;
                }
                false
            },
            Err(e) => {
                if is_watch_limit_error(e.as_str()) {
                    if !self.limit_hit {
                        self.limit_hit = true;
                        true
                    } else {
                        false
                    }
                } else {
                    self.error_msg = Some(e);
                    false
                }
            },
        }
    }

    /// The number of watched directories.
    pub fn watched_count(&self) -> (n: usize)
        ensures
            n == self@.dirs.len(),
    {
        self.dirs.len()
    }

    /// Whether the kernel's watch limit was reached.
    pub fn limit_hit(&self) -> (r: bool)
        ensures
            r == self@.limit_hit,
    {
        self.limit_hit
    }

    /// Whether a watcher exists.
    pub fn has_watcher(&self) -> (r: bool)
        ensures
            r == self@.has_watcher,
    {
        self.has_watcher
    }

    /// The last error other than the watch limit, if any.
    pub fn error_text(&self) -> (r: Option<String>)
        ensures
            match r {
                Some(m) => self@.error_msg == Some(m@),
                None => self@.error_msg is None,
            },
    {
        match &self.error_msg {
            Some(m) => Some(m.clone()),
            None => None,
        }
    }

    /// Whether the watcher is alive: it exists and has reported no error.
    pub fn is_alive(&self) -> (r: bool)
        ensures
            r == (self@.has_watcher && self@.error_msg is None),
    {
        self.has_watcher && self.error_msg.is_none()
    }

    /// Which status the line shows (see [`spec_status`]).
    pub fn status(&self, scanning: bool) -> (k: StatusKind)
        ensures
            k == spec_status(self@, scanning),
    {
        if scanning {
            StatusKind::Scanning
        } else if self.limit_hit {
            StatusKind::LimitHit
        } else if self.is_alive() {
            StatusKind::Watching
        } else {
            StatusKind::Failed
        }
    }

    /// The status line's text (see [`spec_status_text`]).
    pub fn status_text(&self, scanning: bool, backend: &str) -> (s: String)
        ensures
            s@ == spec_status_text(self@, scanning, backend@),
    {
        match self.status(scanning) {
            StatusKind::Scanning => String::from_str("SCANNING..."),
            StatusKind::LimitHit => {
                let mut s = String::from_str("WATCHING (INOTIFY LIMIT: ");
                push_decimal(&mut s, self.dirs.len() as u128);
                s.append(" DIRS)");
                s
            },
            StatusKind::Watching => String::from_str(backend),
            StatusKind::Failed => {
                let mut s = String::from_str("WATCHER FAILED: ");
                match &self.error_msg {
                    Some(m) => s.append(m.as_str()),
                    None => s.append("Unknown error"),
                }
                s
            },
        }
    }

    /// "WATCHING (INOTIFY: <n> DIRS)" with the number of watched directories.
    pub fn watching_label(&self) -> (s: String)
        ensures
            s@ == "WATCHING (INOTIFY: "@ + decimal(self@.dirs.len()) + " DIRS)"@,
    {
        let mut s = String::from_str("WATCHING (INOTIFY: ");
        push_decimal(&mut s, self.dirs.len() as u128);
        s.append(" DIRS)");
        s
    }
}

} // verus!
