//! The live file tree: nodes, lookup by path and size bookkeeping.

use vstd::prelude::*;
use crate::color::{get_color_for_filename, spec_file_color, ColorClass};
use crate::moves::{pop_last, reversed};
use crate::order::{sort_by_size_desc, sorted_by_size_desc, SizeOrdered};

verus! {

/// One file or directory.  `placement` and `activity` carry what the
/// viewer draws with (where the node sits on screen, how it is animated);
/// this crate only moves them around.
pub struct FileNode<P, A> {
    pub name: String,
    pub is_dir: bool,
    pub size_bytes: u64,
    pub children: Vec<FileNode<P, A>>,
    pub is_sorted: bool,
    pub color: ColorClass,
    pub placement: P,
    pub activity: A,
}

/// The mathematical picture of a [`FileNode`].
pub struct NodeView<P, A> {
    pub name: Seq<char>,
    pub is_dir: bool,
    pub size: u64,
    pub children: Seq<NodeView<P, A>>,
    pub is_sorted: bool,
    pub color: ColorClass,
    pub placement: P,
    pub activity: A,
}

pub open spec fn view_node<P, A>(n: FileNode<P, A>) -> NodeView<P, A>
    decreases n, 1int,
{
    NodeView {
        name: n.name@,
        is_dir: n.is_dir,
        size: n.size_bytes,
        children: view_nodes(n.children@),
        is_sorted: n.is_sorted,
        color: n.color,
        placement: n.placement,
        activity: n.activity,
    }
}

pub open spec fn view_nodes<P, A>(s: Seq<FileNode<P, A>>) -> Seq<NodeView<P, A>>
    decreases s, 0int,
{
    if s.len() == 0 {
        Seq::empty()
    } else {
        view_nodes(s.drop_last()).push(view_node(s.last()))
    }
}

} // verus!

verus! {

impl<P, A> View for FileNode<P, A> {
    type V = NodeView<P, A>;

    open spec fn view(&self) -> NodeView<P, A> {
        view_node(*self)
    }
}

/// The names along a path, as character sequences.
pub open spec fn path_names(components: Seq<String>) -> Seq<Seq<char>> {
    Seq::new(components.len(), |i: int| components[i]@)
}

/// Index of the first node in `nodes` named `name`, if any.
pub open spec fn first_named<P, A>(nodes: Seq<NodeView<P, A>>, name: Seq<char>) -> Option<int>
    decreases nodes.len(),
{
    if nodes.len() == 0 {
        None
    } else if nodes[0].name == name {
        Some(0)
    } else {
        match first_named(nodes.drop_first(), name) {
            Some(i) => Some(i + 1),
            None => None,
        }
    }
}

/// The node reached from `n` by following `path`, one child name per step;
/// at each step the first child with that name is taken.
pub open spec fn node_at<P, A>(n: NodeView<P, A>, path: Seq<Seq<char>>) -> Option<NodeView<P, A>>
    decreases path.len(),
{
    if path.len() == 0 {
        Some(n)
    } else {
        match first_named(n.children, path[0]) {
            Some(i) => node_at(n.children[i], path.drop_first()),
            None => None,
        }
    }
}

/// `n` with the node at `path` replaced by `sub` (unchanged if there is none).
pub open spec fn replace_at<P, A>(n: NodeView<P, A>, path: Seq<Seq<char>>, sub: NodeView<P, A>) -> NodeView<P, A>
    decreases path.len(),
{
    if path.len() == 0 {
        sub
    } else {
        match first_named(n.children, path[0]) {
            Some(i) => NodeView {
                children: n.children.update(i, replace_at(n.children[i], path.drop_first(), sub)),
                ..n
            },
            None => n,
        }
    }
}

pub proof fn lemma_view_nodes<P, A>(s: Seq<FileNode<P, A>>)
    ensures
        view_nodes(s).len() == s.len(),
        forall|i: int| 0 <= i < s.len() ==> #[trigger] view_nodes(s)[i] == view_node(s[i]),
    decreases s.len(),
{
    if s.len() > 0 {
        lemma_view_nodes(s.drop_last());
        assert forall|i: int| 0 <= i < s.len() implies #[trigger] view_nodes(s)[i] == view_node(s[i]) by {
            if i < s.len() - 1 {
                assert(s.drop_last()[i] == s[i]);
            }
        }
    }
}

pub proof fn lemma_first_named<P, A>(nodes: Seq<NodeView<P, A>>, name: Seq<char>)
    ensures
        match first_named(nodes, name) {
            Some(i) => 0 <= i < nodes.len() && nodes[i].name == name
                && forall|j: int| 0 <= j < i ==> nodes[j].name != name,
            None => forall|j: int| 0 <= j < nodes.len() ==> nodes[j].name != name,
        },
    decreases nodes.len(),
{
    if nodes.len() > 0 && nodes[0].name != name {
        let rest = nodes.drop_first();
        lemma_first_named(rest, name);
        assert forall|j: int| 1 <= j < nodes.len() implies nodes[j] == rest[j - 1] by {}
    }
}

/// Putting back the node found at a path changes nothing.
pub proof fn lemma_replace_same<P, A>(v: NodeView<P, A>, path: Seq<Seq<char>>)
    requires
        node_at(v, path) is Some,
    ensures
        replace_at(v, path, node_at(v, path)->0) == v,
    decreases path.len(),
{
    if path.len() > 0 {
        lemma_first_named(v.children, path[0]);
        let i = first_named(v.children, path[0])->0;
        lemma_replace_same(v.children[i], path.drop_first());
        assert(v.children.update(i, v.children[i]) =~= v.children);
    }
}

/// A node's view is the same after its children are replaced by ones with
/// equal views.
pub proof fn lemma_view_update<P, A>(s: Seq<FileNode<P, A>>, i: int)
    requires
        0 <= i < s.len(),
    ensures
        forall|c: FileNode<P, A>|
            #![trigger view_nodes(s.update(i, c))]
            #![trigger view_node(c)]
            view_nodes(s.update(i, c)) == view_nodes(s).update(i, view_node(c)),
        view_nodes(s).update(i, view_nodes(s)[i]) == view_nodes(s),
{
    lemma_view_nodes(s);
    assert(view_nodes(s).update(i, view_nodes(s)[i]) =~= view_nodes(s));
    assert forall|c: FileNode<P, A>| #[trigger] view_nodes(s.update(i, c)) == view_nodes(s).update(i, view_node(c)) by {
        lemma_view_nodes(s);
        lemma_view_nodes(s.update(i, c));
        assert(view_nodes(s.update(i, c)) =~= view_nodes(s).update(i, view_node(c)));
    }
}

impl<P, A> FileNode<P, A> {
    /// Position of the first child named `name`.
    pub fn position_named(&self, name: &String) -> (r: Option<usize>)
        ensures
            match r {
                Some(i) => first_named(self@.children, name@) == Some(i as int),
                None => first_named(self@.children, name@) is None,
            },
    {
        proof {
            lemma_view_nodes(self.children@);
            lemma_first_named(self@.children, name@);
        }
        let n = self.children.len();
        let mut i: usize = 0;
        while i < n
            invariant
                n == self.children@.len(),
                i <= n,
                view_nodes(self.children@).len() == n,
                forall|k: int| 0 <= k < n ==> #[trigger] view_nodes(self.children@)[k] == view_node(self.children@[k]),
                forall|j: int| 0 <= j < i ==> self.children@[j].name@ != name@,
                match first_named(self@.children, name@) {
                    Some(f) => 0 <= f < n && self@.children[f].name == name@
                        && forall|j: int| 0 <= j < f ==> self@.children[j].name != name@,
                    None => forall|j: int| 0 <= j < n ==> self@.children[j].name != name@,
                },
            decreases n - i,
        {
            if self.children[i].name == *name {
                assert(self@.children[i as int] == view_node(self.children@[i as int]));
                return Some(i);
            }
            i = i + 1;
        }
        None
    }

    fn find_mut_from(&mut self, components: &[String], start: usize) -> (r: Option<&mut FileNode<P, A>>)
        requires
            start <= components@.len(),
        ensures
            r matches Some(x) ==> node_at(old(self)@, path_names(components@).skip(start as int)) == Some(x@),
            r matches Some(x) ==> final(self)@ == replace_at(old(self)@, path_names(components@).skip(start as int), final(x)@),
            r is None ==> node_at(old(self)@, path_names(components@).skip(start as int)) is None,
            r is None ==> final(self)@ == old(self)@,
        decreases components@.len() - start,
    {
        let ghost path = path_names(components@).skip(start as int);
        if start == components.len() {
            assert(path.len() == 0);
            return Some(self);
        }
        assert(path[0] == components@[start as int]@);
        proof {
            lemma_first_named(self@.children, path[0]);
            lemma_view_nodes(self.children@);
        }
        match self.position_named(&components[start]) {
            None => None,
            Some(i) => {
                assert(path.drop_first() =~= path_names(components@).skip(start + 1));
                assert(first_named(self@.children, path[0]) == Some(i as int));
                assert(node_at(self@, path) == node_at(self@.children[i as int], path.drop_first()));
                assert(self@.children[i as int] == self.children@[i as int]@);
                proof {
                    lemma_view_nodes(self.children@);
                    lemma_view_update(self.children@, i as int);
                }
                let child = &mut self.children[i];
                child.find_mut_from(components, start + 1)
            },
        }
    }

    /// The node reached by following `components` from this node, each
    /// component naming a child (the first child of that name).
    pub fn find_mut(&mut self, components: &[String]) -> (r: Option<&mut FileNode<P, A>>)
        ensures
            match r {
                Some(x) => node_at(old(self)@, path_names(components@)) == Some(x@)
                    && final(self)@ == replace_at(old(self)@, path_names(components@), final(x)@),
                None => node_at(old(self)@, path_names(components@)) is None
                    && final(self)@ == old(self)@,
            },
    {
        assert(path_names(components@).skip(0) =~= path_names(components@));
        self.find_mut_from(components, 0)
    }
}

/// Number of files (non-directories) in the subtree.
pub open spec fn file_count<P, A>(v: NodeView<P, A>) -> nat
    decreases v, 1int,
{
    if !v.is_dir {
        1
    } else {
        files_in(v.children)
    }
}

/// Number of files in a list of subtrees.
pub open spec fn files_in<P, A>(s: Seq<NodeView<P, A>>) -> nat
    decreases s, 0int,
{
    if s.len() == 0 {
        0
    } else {
        files_in(s.drop_last()) + file_count(s.last())
    }
}

/// Bytes of all files in the subtree (a file counts its own size).
pub open spec fn file_bytes<P, A>(v: NodeView<P, A>) -> nat
    decreases v, 1int,
{
    if !v.is_dir {
        v.size as nat
    } else {
        bytes_in(v.children)
    }
}

/// Bytes of all files in a list of subtrees.
pub open spec fn bytes_in<P, A>(s: Seq<NodeView<P, A>>) -> nat
    decreases s, 0int,
{
    if s.len() == 0 {
        0
    } else {
        bytes_in(s.drop_last()) + file_bytes(s.last())
    }
}

/// The subtree after its directory sizes are recomputed from its files:
/// every directory's size becomes the bytes below it, and a directory whose
/// size changed is marked unsorted.
pub open spec fn restat<P, A>(v: NodeView<P, A>) -> NodeView<P, A>
    decreases v, 1int,
{
    if !v.is_dir {
        v
    } else {
        let b = file_bytes(v);
        NodeView {
            children: restat_all(v.children),
            size: b as u64,
            is_sorted: if v.size == b { v.is_sorted } else { false },
            ..v
        }
    }
}

/// [`restat`] applied to each subtree of a list.
pub open spec fn restat_all<P, A>(s: Seq<NodeView<P, A>>) -> Seq<NodeView<P, A>>
    decreases s, 0int,
{
    if s.len() == 0 {
        Seq::empty()
    } else {
        restat_all(s.drop_last()).push(restat(s.last()))
    }
}

pub proof fn lemma_restat_all<P, A>(s: Seq<NodeView<P, A>>)
    ensures
        restat_all(s).len() == s.len(),
        forall|i: int| 0 <= i < s.len() ==> #[trigger] restat_all(s)[i] == restat(s[i]),
    decreases s.len(),
{
    if s.len() > 0 {
        lemma_restat_all(s.drop_last());
        assert forall|i: int| 0 <= i < s.len() implies #[trigger] restat_all(s)[i] == restat(s[i]) by {
            if i < s.len() - 1 {
                assert(s.drop_last()[i] == s[i]);
            }
        }
    }
}

/// Counts and bytes of a prefix never exceed those of the whole list.
pub proof fn lemma_prefix_totals<P, A>(s: Seq<NodeView<P, A>>, i: int)
    requires
        0 <= i <= s.len(),
    ensures
        files_in(s.take(i)) <= files_in(s),
        bytes_in(s.take(i)) <= bytes_in(s),
        i < s.len() ==> files_in(s.take(i + 1)) == files_in(s.take(i)) + file_count(s[i]),
        i < s.len() ==> bytes_in(s.take(i + 1)) == bytes_in(s.take(i)) + file_bytes(s[i]),
    decreases s.len() - i,
{
    if i < s.len() {
        assert(s.take(i + 1).drop_last() =~= s.take(i));
        lemma_prefix_totals(s, i + 1);
    } else {
        assert(s.take(i) =~= s);
    }
}

impl<P, A> FileNode<P, A> {
    /// A node with no children, coloured as a directory or by its file name.
    pub fn new(name: String, is_dir: bool, size_bytes: u64, placement: P, activity: A) -> (n: Self)
        ensures
            n@.name == name@,
            n@.is_dir == is_dir,
            n@.size == size_bytes,
            n@.children == Seq::<NodeView<P, A>>::empty(),
            !n@.is_sorted,
            n@.color == (if is_dir { ColorClass::Directory } else { spec_file_color(name@) }),
            n@.placement == placement,
            n@.activity == activity,
    {
        let color = if is_dir {
            ColorClass::Directory
        } else {
            get_color_for_filename(name.as_str())
        };
        let n = FileNode {
            name,
            is_dir,
            size_bytes,
            children: Vec::new(),
            is_sorted: false,
            color,
            placement,
            activity,
        };
        assert(view_nodes(n.children@) =~= Seq::<NodeView<P, A>>::empty());
        n
    }
}

/// Recomputes every directory's size from the files below it and returns
/// (number of files, bytes of files).
pub fn sum_tree_stats<P, A>(node: &mut FileNode<P, A>) -> (r: (u64, u64))
    requires
        file_count(old(node)@) <= u64::MAX,
        file_bytes(old(node)@) <= u64::MAX,
    ensures
        r.0 == file_count(old(node)@),
        r.1 == file_bytes(old(node)@),
        final(node)@ == restat(old(node)@),
    decreases old(node)@,
{
    if !node.is_dir {
        return (1, node.size_bytes);
    }
    let ghost c0 = node@.children;
    proof {
        lemma_view_nodes(node.children@);
    }
    let n = node.children.len();
    let mut f: u64 = 0;
    let mut b: u64 = 0;
    let mut i: usize = 0;
    assert(c0.take(0) =~= Seq::<NodeView<P, A>>::empty());
    while i < n
        invariant
            n == node.children@.len(),
            n == c0.len(),
            i <= n,
            node.is_dir == old(node).is_dir,
            node.name == old(node).name,
            node.size_bytes == old(node).size_bytes,
            node.is_sorted == old(node).is_sorted,
            node.color == old(node).color,
            node.placement == old(node).placement,
            node.activity == old(node).activity,
            c0 == old(node)@.children,
            old(node)@.is_dir,
            files_in(c0) <= u64::MAX,
            bytes_in(c0) <= u64::MAX,
            forall|k: int| 0 <= k < i ==> #[trigger] node.children@[k]@ == restat(c0[k]),
            forall|k: int| i <= k < n ==> #[trigger] node.children@[k]@ == c0[k],
            f == files_in(c0.take(i as int)),
            b == bytes_in(c0.take(i as int)),
        decreases n - i,
    {
        proof {
            lemma_prefix_totals(c0, i as int);
            lemma_prefix_totals(c0, i + 1);
            lemma_view_nodes(node.children@);
            lemma_view_update(node.children@, i as int);
        }
        assert(node.children@[i as int]@ == c0[i as int]);
        let (cf, cb) = sum_tree_stats(&mut node.children[i]);
        f = f + cf;
        b = b + cb;
        i = i + 1;
    }
    proof {
        assert(c0.take(n as int) =~= c0);
        lemma_view_nodes(node.children@);
        lemma_restat_all(c0);
        assert forall|k: int| 0 <= k < n implies #[trigger] view_nodes(node.children@)[k] == restat_all(c0)[k] by {
            assert(node.children@[k]@ == restat(c0[k]));
        }
        assert(view_nodes(node.children@) =~= restat_all(c0));
    }
    if node.size_bytes != b {
        node.size_bytes = b;
        node.is_sorted = false;
    }
    (f, b)
}

/// A size read as a signed 64-bit number (`as i64`).
pub open spec fn as_i64(x: u64) -> int {
    (x as i64) as int
}

/// Whether `x` is a signed 64-bit value.
pub open spec fn in_i64(x: int) -> bool {
    i64::MIN <= x <= i64::MAX
}

/// The size change that setting the node at `path` to `new_size` makes.
pub open spec fn size_delta<P, A>(v: NodeView<P, A>, path: Seq<Seq<char>>, new_size: u64) -> Option<int> {
    match node_at(v, path) {
        Some(t) => Some(as_i64(new_size) - as_i64(t.size)),
        None => None,
    }
}

/// The tree after the node at `path` is set to `new_size` and every
/// directory on the way down has changed by `d` (never below zero) and been
/// marked unsorted; nothing changes when `d` is zero.
pub open spec fn resized<P, A>(v: NodeView<P, A>, path: Seq<Seq<char>>, new_size: u64, d: int) -> NodeView<P, A>
    decreases path.len(),
{
    if path.len() == 0 {
        if d != 0 {
            NodeView { size: new_size, ..v }
        } else {
            v
        }
    } else {
        match first_named(v.children, path[0]) {
            Some(i) => {
                let c = resized(v.children[i], path.drop_first(), new_size, d);
                if d != 0 {
                    let s = as_i64(v.size) + d;
                    NodeView {
                        children: v.children.update(i, c),
                        size: (if s > 0 { s } else { 0 }) as u64,
                        is_sorted: false,
                        ..v
                    }
                } else {
                    NodeView { children: v.children.update(i, c), ..v }
                }
            },
            None => v,
        }
    }
}

/// Every directory on `path` can take the change `d` in signed 64-bit arithmetic.
pub open spec fn ancestors_fit<P, A>(v: NodeView<P, A>, path: Seq<Seq<char>>, d: int) -> bool
    decreases path.len(),
{
    path.len() == 0 || ((d == 0 || in_i64(as_i64(v.size) + d)) && match first_named(v.children, path[0]) {
        Some(i) => ancestors_fit(v.children[i], path.drop_first(), d),
        None => true,
    })
}

/// Setting the node at `path` to `new_size` stays within signed 64-bit
/// arithmetic (the size change and every directory's new size).
pub open spec fn update_fits<P, A>(v: NodeView<P, A>, path: Seq<Seq<char>>, new_size: u64) -> bool {
    match size_delta(v, path, new_size) {
        Some(d) => in_i64(d) && ancestors_fit(v, path, d),
        None => true,
    }
}

impl<P, A> FileNode<P, A> {
    fn update_at(&mut self, components: &[String], start: usize, new_size: u64) -> (r: Option<i64>)
        requires
            start <= components@.len(),
            update_fits(old(self)@, path_names(components@).skip(start as int), new_size),
        ensures
            match size_delta(old(self)@, path_names(components@).skip(start as int), new_size) {
                Some(d) => r == Some(d as i64) && final(self)@ == resized(
                    old(self)@,
                    path_names(components@).skip(start as int),
                    new_size,
                    d,
                ),
                None => r is None && final(self)@ == old(self)@,
            },
        decreases components@.len() - start,
    {
        let ghost path = path_names(components@).skip(start as int);
        if start >= components.len() {
            assert(path.len() == 0);
            let old_size = self.size_bytes;
            let diff = new_size as i64 - old_size as i64;
            if diff != 0 {
                self.size_bytes = new_size;
            }
            return Some(diff);
        }
        assert(path[0] == components@[start as int]@);
        proof {
            lemma_first_named(self@.children, path[0]);
            lemma_view_nodes(self.children@);
        }
        match self.position_named(&components[start]) {
            None => None,
            Some(i) => {
                assert(path.drop_first() =~= path_names(components@).skip(start + 1));
                assert(self@.children[i as int] == self.children@[i as int]@);
                proof {
                    lemma_view_update(self.children@, i as int);
                }
                match self.children[i].update_at(components, start + 1, new_size) {
                    Some(diff) => {
                        if diff != 0 {
                            let s = self.size_bytes as i64 + diff;
                            self.size_bytes = if s > 0 {
                                s as u64
                            } else {
                                0
                            };
                            self.is_sorted = false;
                        }
                        Some(diff)
                    },
                    None => None,
                }
            },
        }
    }

    /// Sets the size of the node at `components` (a path of child names) to
    /// `new_size` and moves every directory on the way by the same amount.
    /// Returns the change, or `None` when there is no node at that path.
    pub fn update_file_size(&mut self, components: &[String], new_size: u64) -> (r: Option<i64>)
        requires
            update_fits(old(self)@, path_names(components@), new_size),
        ensures
            match size_delta(old(self)@, path_names(components@), new_size) {
                Some(d) => r == Some(d as i64) && final(self)@ == resized(
                    old(self)@,
                    path_names(components@),
                    new_size,
                    d,
                ),
                None => r is None && final(self)@ == old(self)@,
            },
    {
        assert(path_names(components@).skip(0) =~= path_names(components@));
        self.update_at(components, 0, new_size)
    }
}

/// Index of the first node in `nodes` with this name and kind, if any.
pub open spec fn first_match<P, A>(nodes: Seq<NodeView<P, A>>, name: Seq<char>, is_dir: bool) -> Option<int>
    decreases nodes.len(),
{
    if nodes.len() == 0 {
        None
    } else if nodes[0].name == name && nodes[0].is_dir == is_dir {
        Some(0)
    } else {
        match first_match(nodes.drop_first(), name, is_dir) {
            Some(i) => Some(i + 1),
            None => None,
        }
    }
}

pub proof fn lemma_first_match<P, A>(nodes: Seq<NodeView<P, A>>, name: Seq<char>, is_dir: bool)
    ensures
        match first_match(nodes, name, is_dir) {
            Some(i) => 0 <= i < nodes.len() && nodes[i].name == name && nodes[i].is_dir == is_dir
                && forall|j: int| 0 <= j < i ==> !(nodes[j].name == name && nodes[j].is_dir == is_dir),
            None => forall|j: int| 0 <= j < nodes.len() ==> !(nodes[j].name == name && nodes[j].is_dir == is_dir),
        },
    decreases nodes.len(),
{
    if nodes.len() > 0 && !(nodes[0].name == name && nodes[0].is_dir == is_dir) {
        let rest = nodes.drop_first();
        lemma_first_match(rest, name, is_dir);
        assert forall|j: int| 1 <= j < nodes.len() implies nodes[j] == rest[j - 1] by {}
    }
}

/// `p` after the scanned node `c` is merged into its children: an existing
/// child with the same name and kind is kept (a directory takes in `c`'s
/// children the same way, a file takes `c`'s size); otherwise `c` is added
/// at the end, placed where `p` is, and `p` is marked unsorted.
pub open spec fn merged<P, A>(p: NodeView<P, A>, c: NodeView<P, A>) -> NodeView<P, A>
    decreases c, 1int,
{
    match first_match(p.children, c.name, c.is_dir) {
        Some(i) => {
            let e = p.children[i];
            if e.is_dir {
                NodeView { children: p.children.update(i, merged_all(e, c.children)), ..p }
            } else {
                NodeView { children: p.children.update(i, NodeView { size: c.size, ..e }), ..p }
            }
        },
        None => NodeView {
            children: p.children.push(NodeView { placement: p.placement, ..c }),
            is_sorted: false,
            ..p
        },
    }
}

/// `p` after each node of `cs` is merged in, in order.
pub open spec fn merged_all<P, A>(p: NodeView<P, A>, cs: Seq<NodeView<P, A>>) -> NodeView<P, A>
    decreases cs, 0int,
{
    if cs.len() == 0 {
        p
    } else {
        merged(merged_all(p, cs.drop_last()), cs.last())
    }
}

impl<P, A> FileNode<P, A> {
    /// Position of the first child with this name and kind.
    pub fn position_matching(&self, name: &String, is_dir: bool) -> (r: Option<usize>)
        ensures
            match r {
                Some(i) => first_match(self@.children, name@, is_dir) == Some(i as int),
                None => first_match(self@.children, name@, is_dir) is None,
            },
    {
        proof {
            lemma_view_nodes(self.children@);
            lemma_first_match(self@.children, name@, is_dir);
        }
        let n = self.children.len();
        let mut i: usize = 0;
        while i < n
            invariant
                n == self.children@.len(),
                i <= n,
                view_nodes(self.children@).len() == n,
                forall|k: int| 0 <= k < n ==> #[trigger] view_nodes(self.children@)[k] == view_node(self.children@[k]),
                forall|j: int| 0 <= j < i ==> !(self.children@[j].name@ == name@ && self.children@[j].is_dir == is_dir),
                match first_match(self@.children, name@, is_dir) {
                    Some(f) => 0 <= f < n && self@.children[f].name == name@ && self@.children[f].is_dir == is_dir
                        && forall|j: int| 0 <= j < f ==> !(self@.children[j].name == name@ && self@.children[j].is_dir == is_dir),
                    None => forall|j: int| 0 <= j < n ==> !(self@.children[j].name == name@ && self@.children[j].is_dir == is_dir),
                },
            decreases n - i,
        {
            if self.children[i].is_dir == is_dir && self.children[i].name == *name {
                assert(self@.children[i as int] == view_node(self.children@[i as int]));
                return Some(i);
            }
            assert(self@.children[i as int] == view_node(self.children@[i as int]));
            i = i + 1;
        }
        None
    }
}

/// Merges a scanned node into `parent`'s children (see [`merged`]).
pub fn merge_scanned_node<P: Copy, A>(parent: &mut FileNode<P, A>, new_child: FileNode<P, A>)
    ensures
        final(parent)@ == merged(old(parent)@, new_child@),
    decreases new_child,
{
    proof {
        lemma_view_nodes(parent.children@);
        lemma_first_match(parent@.children, new_child@.name, new_child@.is_dir);
    }
    match parent.position_matching(&new_child.name, new_child.is_dir) {
        Some(i) => {
            proof {
                lemma_view_update(parent.children@, i as int);
            }
            assert(parent@.children[i as int] == parent.children@[i as int]@);
            if parent.children[i].is_dir {
                let ghost e0 = parent@.children[i as int];
                let ghost p0 = parent@;
                let ghost cv = new_child@;
                let ghost nc = new_child;
                let FileNode { children: given, .. } = new_child;
                let nk = given.len();
                let ghost ks = given@;
                let mut kids = reversed(given);
                proof {
                    lemma_view_nodes(ks);
                }
                assert(cv.children == view_nodes(ks));
                let mut k: usize = 0;
                assert(view_nodes(ks).take(0) =~= Seq::<NodeView<P, A>>::empty());
                #[verifier::loop_isolation(false)]
                while kids.len() > 0
                    invariant
                        kids@.len() + k == nk,
                        nk == ks.len(),
                        forall|j: int| 0 <= j < kids@.len() ==> #[trigger] kids@[j] == ks[nk - 1 - j],
                        k <= ks.len(),
                        parent.children@.len() == p0.children.len(),
                        i < parent.children@.len(),
                        parent@ == (NodeView { children: p0.children.update(i as int, parent.children@[i as int]@), ..p0 }),
                        parent.children@[i as int]@ == merged_all(e0, view_nodes(ks).take(k as int)),
                        view_nodes(ks).len() == ks.len(),
                        forall|j: int| 0 <= j < ks.len() ==> #[trigger] view_nodes(ks)[j] == view_node(ks[j]),
                        nc.children@ == ks,
                        cv.children == view_nodes(ks),
                        ks.len() <= usize::MAX,
                    decreases kids@.len(),
                {
                    let g = pop_last(&mut kids);
                    assert(g == ks[k as int]);
                    proof {
                        lemma_view_nodes(parent.children@);
                        lemma_view_update(parent.children@, i as int);
                        assert(view_nodes(ks).take(k + 1).drop_last() =~= view_nodes(ks).take(k as int));
                        assert(decreases_to!(nc => nc.children));
                        assert(decreases_to!(nc.children => nc.children@));
                        assert(decreases_to!(nc.children@ => nc.children@[k as int]));
                        assert(decreases_to!(nc => g));
                    }
                    merge_scanned_node(&mut parent.children[i], g);
                    k = k + 1;
                    proof {
                        lemma_view_nodes(parent.children@);
                        assert(view_nodes(parent.children@) =~= p0.children.update(i as int, parent.children@[i as int]@));
                    }
                }
                assert(view_nodes(ks).take(ks.len() as int) =~= view_nodes(ks));
            } else {
                let s = new_child.size_bytes;
                parent.children[i].size_bytes = s;
                proof {
                    lemma_view_nodes(parent.children@);
                }
                assert(view_nodes(parent.children@) =~= old(parent)@.children.update(
                    i as int,
                    NodeView { size: s, ..old(parent)@.children[i as int] },
                ));
            }
        },
        None => {
            let mut c = new_child;
            c.placement = parent.placement;
            let ghost before = parent.children@;
            parent.children.push(c);
            parent.is_sorted = false;
            proof {
                lemma_view_nodes(before);
                lemma_view_nodes(parent.children@);
                assert(view_nodes(parent.children@) =~= view_nodes(before).push(view_node(c)));
            }
        },
    }
}

broadcast use vstd::seq_lib::group_to_multiset_ensures;

/// Views of two lists that hold the same nodes hold the same views.
pub proof fn lemma_view_nodes_multiset<P, A>(s1: Seq<FileNode<P, A>>, s2: Seq<FileNode<P, A>>)
    requires
        s1.to_multiset() == s2.to_multiset(),
    ensures
        view_nodes(s1).to_multiset() == view_nodes(s2).to_multiset(),
    decreases s1.len(),
{
    lemma_view_nodes(s1);
    lemma_view_nodes(s2);
    if s1.len() == 0 {
        assert(s1.to_multiset().len() == 0);
        assert(s2.to_multiset().len() == s2.len());
        assert(s2.len() == 0);
        assert(view_nodes(s1) =~= view_nodes(s2));
    } else {
        let x = s1.last();
        let a = s1.drop_last();
        assert(s1 =~= a.push(x));
        assert(s2.to_multiset().count(x) > 0);
        assert(s2.contains(x));
        let j = choose|j: int| 0 <= j < s2.len() && s2[j] == x;
        let b = s2.remove(j);
        assert(b.to_multiset() =~= a.to_multiset());
        lemma_view_nodes_multiset(a, b);
        lemma_view_nodes(a);
        lemma_view_nodes(b);
        assert(view_nodes(b) =~= view_nodes(s2).remove(j));
        assert(view_nodes(s1) =~= view_nodes(a).push(view_node(x)));
        assert(view_nodes(s2)[j] == view_node(x));
        assert(view_nodes(s2).to_multiset() =~= view_nodes(b).to_multiset().insert(view_node(x)));
    }
}

/// Sizes never increase along the list.
pub open spec fn views_sorted_desc<P, A>(s: Seq<NodeView<P, A>>) -> bool {
    forall|i: int, j: int| 0 <= i < j < s.len() ==> s[i].size >= s[j].size
}

impl<P, A> SizeOrdered for FileNode<P, A> {
    open spec fn size_key(&self) -> u64 {
        self.size_bytes
    }

    fn size_value(&self) -> (r: u64) {
        self.size_bytes
    }
}

impl<P, A> FileNode<P, A> {
    /// Orders the children by size, largest first.
    pub fn sort_children_by_size(&mut self)
        ensures
            final(self)@ == (NodeView { children: final(self)@.children, ..old(self)@ }),
            final(self)@.children.to_multiset() == old(self)@.children.to_multiset(),
            views_sorted_desc(final(self)@.children),
    {
        let ghost before = self.children@;
        sort_by_size_desc(&mut self.children);
        proof {
            lemma_view_nodes_multiset(self.children@, before);
            lemma_view_nodes(self.children@);
            assert forall|i: int, j: int| 0 <= i < j < self@.children.len()
                implies self@.children[i].size >= self@.children[j].size by {
                assert(sorted_by_size_desc(self.children@));
                assert(self.children@[i].size_key() >= self.children@[j].size_key());
            }
        }
    }

    /// Orders the children by size unless they are marked sorted, and marks
    /// them sorted.
    pub fn ensure_children_sorted(&mut self)
        ensures
            old(self).is_sorted ==> final(self)@ == old(self)@,
            !old(self).is_sorted ==> final(self)@ == (NodeView {
                children: final(self)@.children,
                is_sorted: true,
                ..old(self)@
            }) && final(self)@.children.to_multiset() == old(self)@.children.to_multiset()
                && views_sorted_desc(final(self)@.children),
    {
        if !self.is_sorted {
            self.sort_children_by_size();
            self.is_sorted = true;
        }
    }
}

impl<P, A> FileNode<P, A> {
    fn size_at(&self, components: &[String], start: usize) -> (r: Option<u64>)
        requires
            start <= components@.len(),
        ensures
            match node_at(self@, path_names(components@).skip(start as int)) {
                Some(t) => r == Some(t.size),
                None => r is None,
            },
        decreases components@.len() - start,
    {
        let ghost path = path_names(components@).skip(start as int);
        if start >= components.len() {
            assert(path.len() == 0);
            return Some(self.size_bytes);
        }
        assert(path[0] == components@[start as int]@);
        proof {
            lemma_first_named(self@.children, path[0]);
            lemma_view_nodes(self.children@);
        }
        match self.position_named(&components[start]) {
            None => None,
            Some(i) => {
                assert(path.drop_first() =~= path_names(components@).skip(start + 1));
                assert(self@.children[i as int] == self.children@[i as int]@);
                self.children[i].size_at(components, start + 1)
            },
        }
    }

    fn ancestors_fit_from(&self, components: &[String], start: usize, d: i128) -> (r: bool)
        requires
            start <= components@.len(),
            in_i64(d as int),
        ensures
            r == ancestors_fit(self@, path_names(components@).skip(start as int), d as int),
        decreases components@.len() - start,
    {
        let ghost path = path_names(components@).skip(start as int);
        if start >= components.len() {
            assert(path.len() == 0);
            return true;
        }
        assert(path[0] == components@[start as int]@);
        let s = (self.size_bytes as i64) as i128 + d;
        let here = d == 0 || (-0x8000_0000_0000_0000i128 <= s && s <= 0x7fff_ffff_ffff_ffffi128);
        if !here {
            return false;
        }
        proof {
            lemma_first_named(self@.children, path[0]);
            lemma_view_nodes(self.children@);
        }
        match self.position_named(&components[start]) {
            None => true,
            Some(i) => {
                assert(path.drop_first() =~= path_names(components@).skip(start + 1));
                assert(self@.children[i as int] == self.children@[i as int]@);
                self.children[i].ancestors_fit_from(components, start + 1, d)
            },
        }
    }

    /// Whether [`update_file_size`](Self::update_file_size) can set the node
    /// at `components` to `new_size` within signed 64-bit arithmetic.
    pub fn update_fits(&self, components: &[String], new_size: u64) -> (r: bool)
        ensures
            r == update_fits(self@, path_names(components@), new_size),
    {
        assert(path_names(components@).skip(0) =~= path_names(components@));
        match self.size_at(components, 0) {
            None => true,
            Some(old_size) => {
                let d = (new_size as i64) as i128 - (old_size as i64) as i128;
                if d < -0x8000_0000_0000_0000i128 || d > 0x7fff_ffff_ffff_ffffi128 {
                    return false;
                }
                self.ancestors_fit_from(components, 0, d)
            },
        }
    }
}

/// The number of files and their bytes in the subtree, or `None` when
/// either does not fit in 64 bits (where [`sum_tree_stats`] would overflow).
pub fn checked_totals<P, A>(node: &FileNode<P, A>) -> (r: Option<(u64, u64)>)
    ensures
        match r {
            Some((f, b)) => f == file_count(node@) && b == file_bytes(node@),
            None => file_count(node@) > u64::MAX || file_bytes(node@) > u64::MAX,
        },
    decreases node@,
{
    if !node.is_dir {
        return Some((1, node.size_bytes));
    }
    let ghost c0 = node@.children;
    proof {
        lemma_view_nodes(node.children@);
    }
    let n = node.children.len();
    let mut f: u64 = 0;
    let mut b: u64 = 0;
    let mut i: usize = 0;
    assert(c0.take(0) =~= Seq::<NodeView<P, A>>::empty());
    while i < n
        invariant
            n == node.children@.len(),
            n == c0.len(),
            i <= n,
            c0 == node@.children,
            node@.is_dir,
            forall|k: int| 0 <= k < n ==> #[trigger] node.children@[k]@ == c0[k],
            f == files_in(c0.take(i as int)),
            b == bytes_in(c0.take(i as int)),
        decreases n - i,
    {
        proof {
            lemma_prefix_totals(c0, i as int);
            lemma_prefix_totals(c0, i + 1);
        }
        match checked_totals(&node.children[i]) {
            None => {
                return None;
            },
            Some((cf, cb)) => {
                if cf > u64::MAX - f || cb > u64::MAX - b {
                    return None;
                }
                f = f + cf;
                b = b + cb;
            },
        }
        i = i + 1;
    }
    assert(c0.take(n as int) =~= c0);
    Some((f, b))
}

} // verus!
