//! Directory batches: what one directory listing adds to the tree.

use vstd::prelude::*;
use crate::color::{spec_file_color, ColorClass};
use crate::moves::{pop_last, reversed};
use crate::paths::{is_virtual_or_special_fs, relative_components, spec_is_virtual_or_special_fs, spec_relative_components};
use crate::tree::{
    lemma_view_nodes, merge_scanned_node, merged_all, node_at, path_names, replace_at, view_node, view_nodes, FileNode,
    NodeView,
};

verus! {

/// The children found in one directory, as fresh nodes.
pub struct DirectoryBatch<P, A> {
    pub parent_path: String,
    pub children: Vec<FileNode<P, A>>,
}

/// A message from a scanner to the tree's owner.
pub enum ScanEvent<P, A> {
    Batch(DirectoryBatch<P, A>),
}

/// What a directory listing says of one entry.
pub enum EntryKind {
    Directory,
    /// A regular file of this many bytes.
    File(u64),
    /// A symbolic link, something that is neither file nor directory, or an
    /// entry whose type could not be read.
    Skipped,
}

/// One entry of a directory listing.
pub struct ScannedEntry {
    pub name: String,
    pub path: String,
    pub kind: EntryKind,
}

/// Files larger than this (2^48 bytes) are taken for bogus sizes and left out.
pub open spec fn size_limit() -> u64 {
    0x1_0000_0000_0000
}

/// Whether `e` becomes a node of the batch.
pub open spec fn entry_kept(e: ScannedEntry, skip_virtual_subdirs: bool) -> bool {
    match e.kind {
        EntryKind::Directory => !(skip_virtual_subdirs && spec_is_virtual_or_special_fs(e.path@)),
        EntryKind::File(size) => size <= size_limit(),
        EntryKind::Skipped => false,
    }
}

/// The node that a kept entry becomes.
pub open spec fn entry_node<P, A>(e: ScannedEntry, placement: P, activity: A) -> NodeView<P, A> {
    let is_dir = e.kind is Directory;
    NodeView {
        name: e.name@,
        is_dir,
        size: match e.kind {
            EntryKind::File(size) => size,
            _ => 0,
        },
        children: Seq::empty(),
        is_sorted: false,
        color: if is_dir { ColorClass::Directory } else { spec_file_color(e.name@) },
        placement,
        activity,
    }
}

/// The nodes of the kept entries, in listing order.
pub open spec fn batch_nodes<P, A>(es: Seq<ScannedEntry>, skip_virtual_subdirs: bool, placement: P, activity: A) -> Seq<NodeView<P, A>>
    decreases es.len(),
{
    if es.len() == 0 {
        Seq::empty()
    } else {
        let before = batch_nodes(es.drop_last(), skip_virtual_subdirs, placement, activity);
        if entry_kept(es.last(), skip_virtual_subdirs) {
            before.push(entry_node(es.last(), placement, activity))
        } else {
            before
        }
    }
}

/// Positions of the kept directory entries, in listing order: the
/// directories to scan next.
pub open spec fn subdir_positions(es: Seq<ScannedEntry>, skip_virtual_subdirs: bool) -> Seq<int>
    decreases es.len(),
{
    if es.len() == 0 {
        Seq::empty()
    } else {
        let before = subdir_positions(es.drop_last(), skip_virtual_subdirs);
        if es.last().kind is Directory && entry_kept(es.last(), skip_virtual_subdirs) {
            before.push(es.len() - 1)
        } else {
            before
        }
    }
}

/// Turns the listing of `dir_path` into a batch of fresh nodes and the
/// positions of the entries to descend into.  Directories become empty
/// nodes of size 0; files keep their size unless it exceeds 2^48;
/// everything else is left out.  When `skip_virtual_subdirs` holds,
/// directories inside /proc, /sys, /dev or /run are left out too.
pub fn build_directory_batch<P: Copy, A: Copy>(
    dir_path: String,
    entries: Vec<ScannedEntry>,
    skip_virtual_subdirs: bool,
    placement: P,
    activity: A,
) -> (r: (DirectoryBatch<P, A>, Vec<usize>))
    ensures
        r.0.parent_path@ == dir_path@,
        view_nodes(r.0.children@) == batch_nodes(entries@, skip_virtual_subdirs, placement, activity),
        r.1@.len() == subdir_positions(entries@, skip_virtual_subdirs).len(),
        forall|k: int| 0 <= k < r.1@.len() ==> #[trigger] r.1@[k] as int == subdir_positions(entries@, skip_virtual_subdirs)[k],
{
    let ghost es = entries@;
    let mut children: Vec<FileNode<P, A>> = Vec::new();
    let mut subdirs: Vec<usize> = Vec::new();
    let n = entries.len();
    let mut rest = reversed(entries);
    let mut i: usize = 0;
    assert(es.take(0) =~= Seq::<ScannedEntry>::empty());
    while rest.len() > 0
        invariant
            rest@.len() + i == n,
            forall|j: int| 0 <= j < rest@.len() ==> #[trigger] rest@[j] == es[n - 1 - j],
            i <= es.len(),
            n == es.len(),
            view_nodes(children@) == batch_nodes(es.take(i as int), skip_virtual_subdirs, placement, activity),
            subdirs@.len() == subdir_positions(es.take(i as int), skip_virtual_subdirs).len(),
            forall|k: int| 0 <= k < subdirs@.len() ==> #[trigger] subdirs@[k] as int
                == subdir_positions(es.take(i as int), skip_virtual_subdirs)[k],
        decreases rest@.len(),
    {
        let e = pop_last(&mut rest);
        assert(e == es[i as int]);
        let ghost pre = es.take(i as int);
        let ghost post = es.take(i + 1);
        assert(post.drop_last() =~= pre);
        assert(post.last() == e);
        let ghost before = children@;
        let ScannedEntry { name, path, kind } = e;
        match kind {
            EntryKind::Directory => {
                let skip = skip_virtual_subdirs && is_virtual_or_special_fs(path.as_str());
                if !skip {
                    let node = FileNode::new(name, true, 0, placement, activity);
                    children.push(node);
                    subdirs.push(i);
                    proof {
                        lemma_view_nodes(before);
                        lemma_view_nodes(children@);
                        assert(view_nodes(children@) =~= view_nodes(before).push(view_node(node)));
                    }
                }
            },
            EntryKind::File(size) => {
                if size <= 0x1_0000_0000_0000 {
                    let node = FileNode::new(name, false, size, placement, activity);
                    children.push(node);
                    proof {
                        lemma_view_nodes(before);
                        lemma_view_nodes(children@);
                        assert(view_nodes(children@) =~= view_nodes(before).push(view_node(node)));
                    }
                }
            },
            EntryKind::Skipped => {},
        }
        i = i + 1;
    }
    assert(es.take(n as int) =~= es);
    (DirectoryBatch { parent_path: dir_path, children }, subdirs)
}

/// What merging a batch under `target_dir` makes of the tree: when the
/// batch's directory lies inside `target_dir` and the tree has a node for
/// it, the batch's nodes are merged into that node; otherwise nothing.
pub open spec fn spec_merge_batch<P, A>(
    root: NodeView<P, A>,
    target_dir: Seq<char>,
    parent_path: Seq<char>,
    children: Seq<NodeView<P, A>>,
) -> Option<NodeView<P, A>> {
    match spec_relative_components(parent_path, target_dir) {
        Some(rel) => match node_at(root, rel) {
            Some(p) => Some(replace_at(root, rel, merged_all(p, children))),
            None => None,
        },
        None => None,
    }
}

/// Merges a scanner's batch into the tree rooted at `root`, which stands
/// for `target_dir`.  Returns whether the batch found its directory.
pub fn merge_scan_batch<P: Copy, A>(root: &mut FileNode<P, A>, target_dir: &str, batch: DirectoryBatch<P, A>) -> (changed: bool)
    ensures
        match spec_merge_batch(old(root)@, target_dir@, batch.parent_path@, view_nodes(batch.children@)) {
            Some(t) => changed && final(root)@ == t,
            None => !changed && final(root)@ == old(root)@,
        },
{
    let ghost cs = view_nodes(batch.children@);
    let rel = match relative_components(batch.parent_path.as_str(), target_dir) {
        Some(rel) => rel,
        None => return false,
    };
    let ghost relp = spec_relative_components(batch.parent_path@, target_dir@)->0;
    assert(path_names(rel@) =~= relp);
    let DirectoryBatch { parent_path: _, children } = batch;
    match root.find_mut(rel.as_slice()) {
        None => false,
        Some(parent) => {
            let ghost p0 = parent@;
            let ghost ks = children@;
            proof {
                lemma_view_nodes(ks);
            }
            let nk = children.len();
            let mut kids = reversed(children);
            let mut k: usize = 0;
            assert(cs.take(0) =~= Seq::<NodeView<P, A>>::empty());
            while kids.len() > 0
                invariant
                    kids@.len() + k == nk,
                    forall|j: int| 0 <= j < kids@.len() ==> #[trigger] kids@[j] == ks[nk - 1 - j],
                    k <= ks.len(),
                    nk == ks.len(),
                    cs == view_nodes(ks),
                    view_nodes(ks).len() == ks.len(),
                    forall|j: int| 0 <= j < ks.len() ==> #[trigger] view_nodes(ks)[j] == view_node(ks[j]),
                    parent@ == merged_all(p0, cs.take(k as int)),
                decreases kids@.len(),
            {
                let g = pop_last(&mut kids);
                assert(g == ks[k as int]);
                assert(cs.take(k + 1).drop_last() =~= cs.take(k as int));
                merge_scanned_node(parent, g);
                k = k + 1;
            }
            assert(cs.take(nk as int) =~= cs);
            true
        },
    }
}

/// A batch listing the scanned directory itself is merged into the root.
pub proof fn law_root_batch_merges_into_root<P, A>(root: NodeView<P, A>, target_dir: Seq<char>, children: Seq<NodeView<P, A>>)
    ensures
        spec_merge_batch(root, target_dir, target_dir, children) == Some(merged_all(root, children)),
{
    crate::paths::law_relative_to_itself(target_dir);
}

} // verus!
