//! Properties that tie the tree operations together.

use vstd::prelude::*;
use crate::tree::{
    as_i64, bytes_in, file_bytes, file_count, files_in, first_match, first_named, in_i64, lemma_first_match,
    lemma_first_named, lemma_replace_same, merged, merged_all, node_at, replace_at, resized, restat, restat_all, size_delta, update_fits,
    NodeView,
};
use crate::scan::spec_merge_batch;
use crate::watch::{spec_apply_change, spec_status, spec_status_text, ChangeEffect, Observed, StatusKind, WatchView};
use crate::color::{full_extension_class, ColorClass};

verus! {

/// Sum of the sizes recorded on a list of nodes.
pub open spec fn sizes_in<P, A>(s: Seq<NodeView<P, A>>) -> nat
    decreases s.len(),
{
    if s.len() == 0 {
        0
    } else {
        sizes_in(s.drop_last()) + s.last().size as nat
    }
}

/// Every directory's recorded size is the sum of its children's sizes
/// (what hangs below a file is not looked at).
pub open spec fn sizes_consistent<P, A>(v: NodeView<P, A>) -> bool
    decreases v, 1int,
{
    v.is_dir ==> v.size as nat == sizes_in(v.children) && all_consistent(v.children)
}

/// [`sizes_consistent`] for every node of a list.
pub open spec fn all_consistent<P, A>(s: Seq<NodeView<P, A>>) -> bool
    decreases s, 0int,
{
    s.len() == 0 || (all_consistent(s.drop_last()) && sizes_consistent(s.last()))
}

proof fn lemma_restat_props<P, A>(v: NodeView<P, A>)
    requires
        file_bytes(v) <= u64::MAX,
    ensures
        sizes_consistent(restat(v)),
        restat(v).size == file_bytes(v),
        file_bytes(restat(v)) == file_bytes(v),
        file_count(restat(v)) == file_count(v),
        restat(v).is_dir == v.is_dir,
    decreases v, 1int,
{
    if v.is_dir {
        lemma_restat_all_props(v.children);
    }
}

proof fn lemma_restat_all_props<P, A>(s: Seq<NodeView<P, A>>)
    requires
        bytes_in(s) <= u64::MAX,
    ensures
        all_consistent(restat_all(s)),
        sizes_in(restat_all(s)) == bytes_in(s),
        bytes_in(restat_all(s)) == bytes_in(s),
        files_in(restat_all(s)) == files_in(s),
    decreases s, 0int,
{
    if s.len() > 0 {
        lemma_restat_all_props(s.drop_last());
        lemma_restat_props(s.last());
        assert(restat_all(s).drop_last() =~= restat_all(s.drop_last()));
    }
}

/// Recomputing the sizes leaves the tree consistent: each directory's size
/// is then the sum of its children's sizes and the root's size is the
/// total of the files, while the file total and count stay what they were.
pub proof fn law_stats_make_sizes_consistent<P, A>(v: NodeView<P, A>)
    requires
        file_bytes(v) <= u64::MAX,
    ensures
        sizes_consistent(restat(v)),
        restat(v).size == file_bytes(v),
        file_bytes(restat(v)) == file_bytes(v),
        file_count(restat(v)) == file_count(v),
{
    lemma_restat_props(v);
}

/// Recomputing the sizes of a tree whose sizes are already consistent
/// changes nothing at all: sizes, sorted flags and every other field stay.
pub proof fn law_stats_leave_consistent_tree_alone<P, A>(v: NodeView<P, A>)
    requires
        sizes_consistent(v),
    ensures
        restat(v) == v,
    decreases v, 1int,
{
    if v.is_dir {
        lemma_all_consistent_sizes(v.children);
        lemma_restat_all_fixed(v.children);
    }
}

proof fn lemma_restat_all_fixed<P, A>(s: Seq<NodeView<P, A>>)
    requires
        all_consistent(s),
    ensures
        restat_all(s) == s,
    decreases s, 0int,
{
    if s.len() > 0 {
        lemma_restat_all_fixed(s.drop_last());
        law_stats_leave_consistent_tree_alone(s.last());
        assert(s.drop_last().push(s.last()) =~= s);
    } else {
        assert(restat_all(s) =~= s);
    }
}

/// Recomputing the sizes twice is recomputing them once: the whole tree,
/// sorted flags included, is what the first recomputation left.
pub proof fn law_stats_idempotent<P, A>(v: NodeView<P, A>)
    requires
        file_bytes(v) <= u64::MAX,
    ensures
        restat(restat(v)) == restat(v),
{
    lemma_restat_props(v);
    law_stats_leave_consistent_tree_alone(restat(v));
}

proof fn lemma_consistent_size<P, A>(v: NodeView<P, A>)
    requires
        sizes_consistent(v),
    ensures
        v.size as nat == file_bytes(v),
    decreases v, 1int,
{
    if v.is_dir {
        lemma_all_consistent_sizes(v.children);
    }
}

proof fn lemma_all_consistent_sizes<P, A>(s: Seq<NodeView<P, A>>)
    requires
        all_consistent(s),
    ensures
        sizes_in(s) == bytes_in(s),
    decreases s, 0int,
{
    if s.len() > 0 {
        lemma_all_consistent_sizes(s.drop_last());
        lemma_consistent_size(s.last());
    }
}

/// Replacing one node of a list moves the list's size sum by the
/// difference, keeps the others' consistency, and no element's size
/// exceeds the sum.
proof fn lemma_update_list<P, A>(s: Seq<NodeView<P, A>>, i: int, x: NodeView<P, A>)
    requires
        0 <= i < s.len(),
    ensures
        sizes_in(s.update(i, x)) + s[i].size == sizes_in(s) + x.size,
        s[i].size <= sizes_in(s),
        all_consistent(s) && sizes_consistent(x) ==> all_consistent(s.update(i, x)),
        all_consistent(s) ==> sizes_consistent(s[i]),
    decreases s.len(),
{
    let t = s.update(i, x);
    assert(t.drop_last() =~= if i == s.len() - 1 { s.drop_last() } else { s.drop_last().update(i, x) });
    if i < s.len() - 1 {
        lemma_update_list(s.drop_last(), i, x);
    }
}

/// The path leads through directories only.
pub open spec fn dirs_along<P, A>(v: NodeView<P, A>, path: Seq<Seq<char>>) -> bool
    decreases path.len(),
{
    path.len() == 0 || (v.is_dir && match first_named(v.children, path[0]) {
        Some(i) => dirs_along(v.children[i], path.drop_first()),
        None => true,
    })
}

proof fn lemma_resize_consistent<P, A>(v: NodeView<P, A>, path: Seq<Seq<char>>, new_size: u64, t: NodeView<P, A>)
    requires
        sizes_consistent(v),
        dirs_along(v, path),
        node_at(v, path) == Some(t),
        !t.is_dir,
        v.size <= i64::MAX,
        new_size <= i64::MAX,
        update_fits(v, path, new_size),
    ensures
        sizes_consistent(resized(v, path, new_size, new_size - t.size)),
        resized(v, path, new_size, new_size - t.size).size == v.size + new_size - t.size,
        t.size <= v.size,
    decreases path.len(),
{
    let d = new_size - t.size;
    if path.len() > 0 {
        lemma_first_named(v.children, path[0]);
        let i = first_named(v.children, path[0])->0;
        let c = v.children[i];
        lemma_update_list(v.children, i, c);
        lemma_resize_consistent(c, path.drop_first(), new_size, t);
        let c2 = resized(c, path.drop_first(), new_size, d);
        lemma_update_list(v.children, i, c2);
    }
}

/// Setting a file's size keeps a consistent tree consistent, moves every
/// directory on the way by the same amount, and moves the total bytes by
/// the file's change.
pub proof fn law_resize_keeps_sizes_consistent<P, A>(v: NodeView<P, A>, path: Seq<Seq<char>>, new_size: u64)
    requires
        sizes_consistent(v),
        dirs_along(v, path),
        node_at(v, path) matches Some(t) && !t.is_dir,
        v.size <= i64::MAX,
        new_size <= i64::MAX,
        update_fits(v, path, new_size),
    ensures
        size_delta(v, path, new_size) == Some(new_size - node_at(v, path)->0.size),
        sizes_consistent(resized(v, path, new_size, new_size - node_at(v, path)->0.size)),
        file_bytes(resized(v, path, new_size, new_size - node_at(v, path)->0.size)) + node_at(v, path)->0.size
            == file_bytes(v) + new_size,
{
    let t = node_at(v, path)->0;
    lemma_resize_consistent(v, path, new_size, t);
    lemma_consistent_size(v);
    lemma_consistent_size(resized(v, path, new_size, new_size - t.size));
}

/// Every directory on the way down `path` (the node at its end excluded)
/// has the sum of its children's sizes as its size.
pub open spec fn consistent_along<P, A>(v: NodeView<P, A>, path: Seq<Seq<char>>) -> bool
    decreases path.len(),
{
    path.len() == 0 || (v.size as nat == sizes_in(v.children) && match first_named(v.children, path[0]) {
        Some(i) => consistent_along(v.children[i], path.drop_first()),
        None => true,
    })
}

proof fn lemma_resize_along<P, A>(v: NodeView<P, A>, path: Seq<Seq<char>>, new_size: u64, t: NodeView<P, A>)
    requires
        consistent_along(v, path),
        node_at(v, path) == Some(t),
        v.size <= i64::MAX,
        new_size <= i64::MAX,
        update_fits(v, path, new_size),
    ensures
        consistent_along(resized(v, path, new_size, new_size - t.size), path),
        resized(v, path, new_size, new_size - t.size).size == v.size + new_size - t.size,
        t.size <= v.size,
    decreases path.len(),
{
    let d = new_size - t.size;
    if path.len() > 0 {
        lemma_first_named(v.children, path[0]);
        let i = first_named(v.children, path[0])->0;
        let c = v.children[i];
        lemma_update_list(v.children, i, c);
        lemma_resize_along(c, path.drop_first(), new_size, t);
        let c2 = resized(c, path.drop_first(), new_size, d);
        lemma_update_list(v.children, i, c2);
        lemma_first_named_update(v.children, i, c2, path[0]);
    }
}

/// Setting a node's size keeps the nodes on its path consistent, whatever
/// holds elsewhere in the tree and whatever kind each node is: where each of them had the sum of
/// its children's sizes, each still has it, every one having moved by the
/// file's change.
pub proof fn law_resize_keeps_path_consistent<P, A>(v: NodeView<P, A>, path: Seq<Seq<char>>, new_size: u64)
    requires
        consistent_along(v, path),
        node_at(v, path) is Some,
        v.size <= i64::MAX,
        new_size <= i64::MAX,
        update_fits(v, path, new_size),
    ensures
        size_delta(v, path, new_size) == Some(new_size - node_at(v, path)->0.size),
        consistent_along(resized(v, path, new_size, new_size - node_at(v, path)->0.size), path),
        resized(v, path, new_size, new_size - node_at(v, path)->0.size).size == v.size + new_size - node_at(
            v,
            path,
        )->0.size,
{
    let t = node_at(v, path)->0;
    lemma_resize_along(v, path, new_size, t);
}

proof fn lemma_first_match_update<P, A>(s: Seq<NodeView<P, A>>, i: int, x: NodeView<P, A>, name: Seq<char>, is_dir: bool)
    requires
        0 <= i < s.len(),
        x.name == s[i].name,
        x.is_dir == s[i].is_dir,
    ensures
        first_match(s.update(i, x), name, is_dir) == first_match(s, name, is_dir),
    decreases s.len(),
{
    if i > 0 {
        assert(s.update(i, x).drop_first() =~= s.drop_first().update(i - 1, x));
        lemma_first_match_update(s.drop_first(), i - 1, x, name, is_dir);
    } else {
        assert(s.update(i, x).drop_first() =~= s.drop_first());
    }
}

proof fn lemma_first_match_push<P, A>(s: Seq<NodeView<P, A>>, x: NodeView<P, A>)
    requires
        first_match(s, x.name, x.is_dir) is None,
    ensures
        first_match(s.push(x), x.name, x.is_dir) == Some(s.len() as int),
    decreases s.len(),
{
    if s.len() > 0 {
        assert(s.push(x).drop_first() =~= s.drop_first().push(x));
        lemma_first_match_push(s.drop_first(), x);
    }
}

/// After a scanned node is merged in, the parent has a child of that name
/// and kind, and a child of that name and kind that was there before stays
/// where it was.
pub proof fn law_merge_makes_child_present<P, A>(p: NodeView<P, A>, c: NodeView<P, A>)
    ensures
        first_match(merged(p, c).children, c.name, c.is_dir) is Some,
        first_match(p.children, c.name, c.is_dir) is Some ==> first_match(merged(p, c).children, c.name, c.is_dir)
            == first_match(p.children, c.name, c.is_dir),
        merged(p, c).children.len() == p.children.len() + if first_match(p.children, c.name, c.is_dir) is Some {
            0int
        } else {
            1int
        },
{
    lemma_first_match(p.children, c.name, c.is_dir);
    match first_match(p.children, c.name, c.is_dir) {
        Some(i) => {
            let e = p.children[i];
            if e.is_dir {
                let m = merged_all(e, c.children);
                assert(m.name == e.name && m.is_dir == e.is_dir) by {
                    lemma_merged_all_keeps_identity(e, c.children);
                }
                lemma_first_match_update(p.children, i, m, c.name, c.is_dir);
            } else {
                lemma_first_match_update(p.children, i, NodeView { size: c.size, ..e }, c.name, c.is_dir);
            }
        },
        None => {
            lemma_first_match_push(p.children, NodeView { placement: p.placement, ..c });
        },
    }
}

/// Merging never changes the node's own name or kind.
pub proof fn lemma_merged_all_keeps_identity<P, A>(p: NodeView<P, A>, cs: Seq<NodeView<P, A>>)
    ensures
        merged_all(p, cs).name == p.name,
        merged_all(p, cs).is_dir == p.is_dir,
    decreases cs.len(),
{
    if cs.len() > 0 {
        lemma_merged_all_keeps_identity(p, cs.drop_last());
        let q = merged_all(p, cs.drop_last());
        let c = cs.last();
        assert(merged_all(p, cs) == merged(q, c));
        match first_match(q.children, c.name, c.is_dir) {
            Some(i) => {},
            None => {},
        }
    }
}

/// Merging the same entry again changes nothing: a node without children
/// that has just been merged into a parent, merged once more, leaves the
/// parent as it is (a re-scan does not duplicate what it found).
pub proof fn law_merge_twice_is_merge_once<P, A>(p: NodeView<P, A>, c: NodeView<P, A>)
    requires
        c.children.len() == 0,
    ensures
        merged(merged(p, c), c) == merged(p, c),
{
    lemma_first_match(p.children, c.name, c.is_dir);
    let q = merged(p, c);
    assert(c.children =~= Seq::<NodeView<P, A>>::empty());
    match first_match(p.children, c.name, c.is_dir) {
        Some(i) => {
            let e = p.children[i];
            if e.is_dir {
                assert(merged_all(e, c.children) == e);
                assert(p.children.update(i, e) =~= p.children);
                assert(q == p);
            } else {
                let e2 = NodeView { size: c.size, ..e };
                lemma_first_match_update(p.children, i, e2, c.name, c.is_dir);
                assert(q.children[i] == e2);
                assert(q.children.update(i, NodeView { size: c.size, ..e2 }) =~= q.children);
            }
        },
        None => {
            let c2 = NodeView { placement: p.placement, ..c };
            lemma_first_match_push(p.children, c2);
            let j = p.children.len() as int;
            assert(q.children[j] == c2);
            if c.is_dir {
                assert(merged_all(c2, c.children) == c2);
                assert(q.children.update(j, c2) =~= q.children);
            } else {
                assert(q.children.update(j, NodeView { size: c.size, ..c2 }) =~= q.children);
            }
        },
    }
}

broadcast use vstd::seq_lib::group_to_multiset_ensures;

proof fn lemma_sizes_in_remove<P, A>(s: Seq<NodeView<P, A>>, j: int)
    requires
        0 <= j < s.len(),
    ensures
        sizes_in(s) == sizes_in(s.remove(j)) + s[j].size,
    decreases s.len(),
{
    if j == s.len() - 1 {
        assert(s.remove(j) =~= s.drop_last());
    } else {
        assert(s.remove(j).drop_last() =~= s.drop_last().remove(j));
        assert(s.remove(j).last() == s.last());
        lemma_sizes_in_remove(s.drop_last(), j);
    }
}

/// Lists holding the same nodes in any order have the same size sum.
pub proof fn lemma_sizes_in_permutation<P, A>(s1: Seq<NodeView<P, A>>, s2: Seq<NodeView<P, A>>)
    requires
        s1.to_multiset() == s2.to_multiset(),
    ensures
        sizes_in(s1) == sizes_in(s2),
    decreases s1.len(),
{
    if s1.len() == 0 {
        assert(s1.to_multiset().len() == 0);
        assert(s2.to_multiset().len() == s2.len());
    } else {
        let x = s1.last();
        let a = s1.drop_last();
        assert(s1 =~= a.push(x));
        assert(s2.to_multiset().count(x) > 0);
        assert(s2.contains(x));
        let j = choose|j: int| 0 <= j < s2.len() && s2[j] == x;
        let b = s2.remove(j);
        assert(b.to_multiset() =~= a.to_multiset());
        lemma_sizes_in_permutation(a, b);
        lemma_sizes_in_remove(s2, j);
    }
}

/// In the text summary the top-level entries add up to the total: whatever
/// order the recomputed top level is listed in, its sizes sum to the bytes
/// of all files below the root.
pub proof fn law_summary_entries_add_up<P, A>(root: NodeView<P, A>, listed: Seq<NodeView<P, A>>)
    requires
        root.is_dir,
        file_bytes(root) <= u64::MAX,
        listed.to_multiset() == restat(root).children.to_multiset(),
    ensures
        sizes_in(listed) == file_bytes(root),
{
    lemma_restat_props(root);
    lemma_sizes_in_permutation(listed, restat(root).children);
}

/// Replacing one node of a list by one of the same name does not change
/// where a name is first found.
proof fn lemma_first_named_update<P, A>(s: Seq<NodeView<P, A>>, i: int, y: NodeView<P, A>, name: Seq<char>)
    requires
        0 <= i < s.len(),
        y.name == s[i].name,
    ensures
        first_named(s.update(i, y), name) == first_named(s, name),
{
    let t = s.update(i, y);
    lemma_first_named(s, name);
    lemma_first_named(t, name);
    assert(forall|j: int| 0 <= j < s.len() ==> #[trigger] t[j].name == s[j].name);
    match first_named(s, name) {
        Some(k) => {
            assert(t[k].name == name);
            match first_named(t, name) {
                Some(k2) => {
                    if k2 < k {
                        assert(s[k2].name == name);
                    }
                    if k < k2 {
                        assert(t[k].name == name);
                    }
                },
                None => {},
            }
        },
        None => {
            match first_named(t, name) {
                Some(k2) => {
                    assert(s[k2].name == name);
                },
                None => {},
            }
        },
    }
}

/// A node appended under a name no earlier node has is the first of that
/// name.
proof fn lemma_first_named_push_new<P, A>(s: Seq<NodeView<P, A>>, y: NodeView<P, A>)
    requires
        first_named(s, y.name) is None,
    ensures
        first_named(s.push(y), y.name) == Some(s.len() as int),
{
    lemma_first_named(s, y.name);
    lemma_first_named(s.push(y), y.name);
    let t = s.push(y);
    assert(t[s.len() as int] == y);
    match first_named(t, y.name) {
        Some(k) => {
            if k < s.len() {
                assert(t[k] == s[k]);
            }
        },
        None => {},
    }
}

/// The node at a path one name longer is the first child of that name of
/// the node at the path.
proof fn lemma_node_at_push<P, A>(v: NodeView<P, A>, pp: Seq<Seq<char>>, x: Seq<char>)
    ensures
        node_at(v, pp.push(x)) == match node_at(v, pp) {
            Some(p) => match first_named(p.children, x) {
                Some(i) => Some(p.children[i]),
                None => None,
            },
            None => None,
        },
    decreases pp.len(),
{
    if pp.len() == 0 {
        assert(pp.push(x)[0] == x);
        assert(pp.push(x).drop_first() =~= Seq::<Seq<char>>::empty());
        lemma_first_named(v.children, x);
        match first_named(v.children, x) {
            Some(i) => {
                assert(node_at(v.children[i], Seq::<Seq<char>>::empty()) == Some(v.children[i]));
            },
            None => {},
        }
    } else {
        assert(pp.push(x)[0] == pp[0]);
        assert(pp.push(x).drop_first() =~= pp.drop_first().push(x));
        lemma_first_named(v.children, pp[0]);
        match first_named(v.children, pp[0]) {
            Some(i) => lemma_node_at_push(v.children[i], pp.drop_first(), x),
            None => {},
        }
    }
}

/// Replacing the node at a path by one of the same name keeps the path
/// leading to it, now to the replacement, and keeps the root's name.
proof fn lemma_node_at_replace<P, A>(v: NodeView<P, A>, path: Seq<Seq<char>>, sub: NodeView<P, A>)
    requires
        node_at(v, path) is Some,
        sub.name == node_at(v, path)->0.name,
    ensures
        node_at(replace_at(v, path, sub), path) == Some(sub),
        replace_at(v, path, sub).name == v.name,
    decreases path.len(),
{
    if path.len() > 0 {
        lemma_first_named(v.children, path[0]);
        let i = first_named(v.children, path[0])->0;
        let c = v.children[i];
        lemma_node_at_replace(c, path.drop_first(), sub);
        let c2 = replace_at(c, path.drop_first(), sub);
        lemma_first_named_update(v.children, i, c2, path[0]);
    }
}

/// A size update whose change is zero leaves the whole tree as it is
/// (no size, sorted flag or other field moves).
pub proof fn law_zero_resize_changes_nothing<P, A>(v: NodeView<P, A>, path: Seq<Seq<char>>, new_size: u64)
    ensures
        resized(v, path, new_size, 0) == v,
    decreases path.len(),
{
    if path.len() > 0 {
        match first_named(v.children, path[0]) {
            Some(i) => {
                lemma_first_named(v.children, path[0]);
                law_zero_resize_changes_nothing(v.children[i], path.drop_first(), new_size);
                assert(v.children.update(i, v.children[i]) =~= v.children);
            },
            None => {},
        }
    }
}

/// After a resize by a nonzero amount, the path leads to the same node with
/// the new size, and the root keeps its name.
proof fn lemma_node_at_resized<P, A>(v: NodeView<P, A>, path: Seq<Seq<char>>, new_size: u64, d: int)
    requires
        node_at(v, path) is Some,
        d != 0,
    ensures
        node_at(resized(v, path, new_size, d), path) == Some(NodeView { size: new_size, ..node_at(v, path)->0 }),
        resized(v, path, new_size, d).name == v.name,
    decreases path.len(),
{
    if path.len() > 0 {
        lemma_first_named(v.children, path[0]);
        let i = first_named(v.children, path[0])->0;
        let c = v.children[i];
        lemma_node_at_resized(c, path.drop_first(), new_size, d);
        lemma_first_named_update(v.children, i, resized(c, path.drop_first(), new_size, d), path[0]);
    }
}

/// A new directory reported twice is added once: applying the same
/// directory observation to the tree it produced leaves that tree as it is
/// and reports nothing done.
pub proof fn law_directory_change_applies_once<P, A>(root: NodeView<P, A>, path: Seq<Seq<char>>, placement: P, activity: A)
    requires
        path.len() >= 1,
    ensures
        ({
            let t = spec_apply_change(root, path, Observed::Directory, placement, activity).0;
            spec_apply_change(t, path, Observed::Directory, placement, activity) == (t, ChangeEffect::Ignored)
        }),
{
    let pp = path.drop_last();
    let item = path.last();
    match node_at(root, pp) {
        Some(p) => match first_named(p.children, item) {
            Some(_) => {},
            None => {
                let fresh = crate::watch::fresh_view(item, true, 0, placement, activity);
                let sub = NodeView { children: p.children.push(fresh), is_sorted: false, ..p };
                lemma_node_at_replace(root, pp, sub);
                lemma_first_named_push_new(p.children, fresh);
            },
        },
        None => {},
    }
}

/// A file size reported twice is applied once: applying the same file
/// observation to the tree it produced leaves that tree as it is, and the
/// second application reports a change of zero bytes (or, where the first
/// found no parent directory, that nothing was done).
pub proof fn law_file_change_applies_once<P, A>(
    root: NodeView<P, A>,
    path: Seq<Seq<char>>,
    size: u64,
    placement: P,
    activity: A,
)
    requires
        path.len() >= 1,
    ensures
        ({
            let (t, e) = spec_apply_change(root, path, Observed::File(size), placement, activity);
            let (t2, e2) = spec_apply_change(t, path, Observed::File(size), placement, activity);
            &&& t2 == t
            &&& e2 == if e is Ignored {
                ChangeEffect::Ignored
            } else {
                ChangeEffect::FileResized(0)
            }
        }),
{
    let pp = path.drop_last();
    let item = path.last();
    assert(pp.push(item) =~= path);
    lemma_node_at_push(root, pp, item);
    match size_delta(root, path, size) {
        Some(d) => {
            let t = resized(root, path, size, d);
            if d != 0 {
                lemma_node_at_resized(root, path, size, d);
            } else {
                law_zero_resize_changes_nothing(root, path, size);
            }
            assert(size_delta(t, path, size) == Some(0int));
            law_zero_resize_changes_nothing(t, path, size);
        },
        None => {
            match node_at(root, pp) {
                Some(p) => {
                    let fresh = crate::watch::fresh_view(item, false, size, placement, activity);
                    let sub = NodeView { children: p.children.push(fresh), is_sorted: false, ..p };
                    let t = replace_at(root, pp, sub);
                    lemma_node_at_replace(root, pp, sub);
                    lemma_first_named_push_new(p.children, fresh);
                    lemma_node_at_push(t, pp, item);
                    assert(node_at(t, path) == Some(fresh));
                    assert(size_delta(t, path, size) == Some(0int));
                    law_zero_resize_changes_nothing(t, path, size);
                },
                None => {},
            }
        },
    }
}

/// A node that is found by its name and kind stays found, at the same
/// place, when something is appended.
proof fn lemma_first_match_push_other<P, A>(s: Seq<NodeView<P, A>>, x: NodeView<P, A>, name: Seq<char>, is_dir: bool)
    requires
        first_match(s, name, is_dir) is Some,
    ensures
        first_match(s.push(x), name, is_dir) == first_match(s, name, is_dir),
    decreases s.len(),
{
    if !(s[0].name == name && s[0].is_dir == is_dir) {
        assert(s.push(x).drop_first() =~= s.drop_first().push(x));
        lemma_first_match_push_other(s.drop_first(), x, name, is_dir);
    }
}

/// Merging a node of another name or kind leaves where a node is found,
/// and that node, as they were.
proof fn lemma_merge_frame<P, A>(q: NodeView<P, A>, c: NodeView<P, A>, name: Seq<char>, is_dir: bool)
    requires
        first_match(q.children, name, is_dir) is Some,
        !(c.name == name && c.is_dir == is_dir),
    ensures
        first_match(merged(q, c).children, name, is_dir) == first_match(q.children, name, is_dir),
        merged(q, c).children[first_match(q.children, name, is_dir)->0] == q.children[first_match(
            q.children,
            name,
            is_dir,
        )->0],
{
    lemma_first_match(q.children, name, is_dir);
    lemma_first_match(q.children, c.name, c.is_dir);
    let i1 = first_match(q.children, name, is_dir)->0;
    match first_match(q.children, c.name, c.is_dir) {
        Some(i2) => {
            let e = q.children[i2];
            assert(i2 != i1);
            if e.is_dir {
                lemma_merged_all_keeps_identity(e, c.children);
                lemma_first_match_update(q.children, i2, merged_all(e, c.children), name, is_dir);
            } else {
                lemma_first_match_update(q.children, i2, NodeView { size: c.size, ..e }, name, is_dir);
            }
        },
        None => {
            lemma_first_match_push_other(q.children, NodeView { placement: q.placement, ..c }, name, is_dir);
        },
    }
}

/// A childless node that the parent already reflects (a child of its name
/// and kind, of its size if it is a file) merges in as no change.
proof fn lemma_merge_reflected<P, A>(q: NodeView<P, A>, c: NodeView<P, A>)
    requires
        c.children.len() == 0,
        first_match(q.children, c.name, c.is_dir) is Some,
        !c.is_dir ==> q.children[first_match(q.children, c.name, c.is_dir)->0].size == c.size,
    ensures
        merged(q, c) == q,
{
    lemma_first_match(q.children, c.name, c.is_dir);
    let i = first_match(q.children, c.name, c.is_dir)->0;
    let e = q.children[i];
    assert(c.children =~= Seq::<NodeView<P, A>>::empty());
    if e.is_dir {
        assert(merged_all(e, c.children) == e);
        assert(q.children.update(i, e) =~= q.children);
    } else {
        assert(NodeView { size: c.size, ..e } == e);
        assert(q.children.update(i, e) =~= q.children);
    }
}

/// Nodes that a directory listing gives: no children, and no two with the
/// same name and kind.
pub open spec fn listing_like<P, A>(cs: Seq<NodeView<P, A>>) -> bool {
    &&& forall|k: int| 0 <= k < cs.len() ==> #[trigger] cs[k].children.len() == 0
    &&& forall|a: int, b: int| 0 <= a < b < cs.len() ==> !(#[trigger] cs[a].name == #[trigger] cs[b].name
        && cs[a].is_dir == cs[b].is_dir)
}

/// After the first `j` nodes of a listing are merged, each of them is
/// reflected by the parent.
proof fn lemma_merged_reflects<P, A>(p: NodeView<P, A>, cs: Seq<NodeView<P, A>>, j: int)
    requires
        listing_like(cs),
        0 <= j <= cs.len(),
    ensures
        forall|k: int| 0 <= k < j ==> {
            let q = merged_all(p, cs.take(j));
            &&& first_match(q.children, #[trigger] cs[k].name, cs[k].is_dir) is Some
            &&& !cs[k].is_dir ==> q.children[first_match(q.children, cs[k].name, cs[k].is_dir)->0].size
                == cs[k].size
        },
    decreases j,
{
    if j > 0 {
        lemma_merged_reflects(p, cs, j - 1);
        let q0 = merged_all(p, cs.take(j - 1));
        let c = cs[j - 1];
        assert(cs.take(j).drop_last() =~= cs.take(j - 1));
        assert(cs.take(j).last() == c);
        let q = merged_all(p, cs.take(j));
        assert(q == merged(q0, c));
        assert forall|k: int| 0 <= k < j implies {
            &&& first_match(q.children, #[trigger] cs[k].name, cs[k].is_dir) is Some
            &&& !cs[k].is_dir ==> q.children[first_match(q.children, cs[k].name, cs[k].is_dir)->0].size
                == cs[k].size
        } by {
            if k == j - 1 {
                law_merge_makes_child_present(q0, c);
                lemma_first_match(q0.children, c.name, c.is_dir);
                lemma_first_match(q.children, c.name, c.is_dir);
                match first_match(q0.children, c.name, c.is_dir) {
                    Some(i) => {},
                    None => {
                        lemma_first_match_push(q0.children, NodeView { placement: q0.placement, ..c });
                    },
                }
            } else {
                assert(!(cs[k].name == c.name && cs[k].is_dir == c.is_dir));
                lemma_merge_frame(q0, c, cs[k].name, cs[k].is_dir);
            }
        }
    }
}

/// Merging a listing again changes nothing: once a directory's listing has
/// been merged into it, merging the same listing once more leaves it as it
/// is (a directory scanned twice ends as if scanned once).
pub proof fn law_listing_merged_twice_is_merged_once<P, A>(p: NodeView<P, A>, cs: Seq<NodeView<P, A>>)
    requires
        listing_like(cs),
    ensures
        merged_all(merged_all(p, cs), cs) == merged_all(p, cs),
{
    let q = merged_all(p, cs);
    lemma_merged_reflects(p, cs, cs.len() as int);
    assert(cs.take(cs.len() as int) =~= cs);
    lemma_merged_all_reflected(q, cs, cs.len() as int);
    assert(merged_all(q, cs.take(cs.len() as int)) == q);
}

proof fn lemma_merged_all_reflected<P, A>(q: NodeView<P, A>, cs: Seq<NodeView<P, A>>, j: int)
    requires
        listing_like(cs),
        0 <= j <= cs.len(),
        forall|k: int| 0 <= k < cs.len() ==> {
            &&& first_match(q.children, #[trigger] cs[k].name, cs[k].is_dir) is Some
            &&& !cs[k].is_dir ==> q.children[first_match(q.children, cs[k].name, cs[k].is_dir)->0].size
                == cs[k].size
        },
    ensures
        merged_all(q, cs.take(j)) == q,
    decreases j,
{
    if j > 0 {
        lemma_merged_all_reflected(q, cs, j - 1);
        assert(cs.take(j).drop_last() =~= cs.take(j - 1));
        assert(cs.take(j).last() == cs[j - 1]);
        assert(cs[j - 1].children.len() == 0);
        lemma_merge_reflected(q, cs[j - 1]);
    } else {
        assert(cs.take(0) =~= Seq::<NodeView<P, A>>::empty());
    }
}

/// A directory's batch merged twice leaves the tree as one merge did: when
/// the batch is a directory listing and found its directory, merging it
/// again finds the directory again and changes nothing.
pub proof fn law_batch_merged_twice_is_merged_once<P, A>(
    root: NodeView<P, A>,
    target_dir: Seq<char>,
    parent_path: Seq<char>,
    children: Seq<NodeView<P, A>>,
)
    requires
        listing_like(children),
    ensures
        match spec_merge_batch(root, target_dir, parent_path, children) {
            Some(t) => spec_merge_batch(t, target_dir, parent_path, children) == Some(t),
            None => true,
        },
{
    match spec_merge_batch(root, target_dir, parent_path, children) {
        Some(t) => {
            let rel = crate::paths::spec_relative_components(parent_path, target_dir)->0;
            let p = node_at(root, rel)->0;
            let m = merged_all(p, children);
            lemma_merged_all_keeps_identity(p, children);
            lemma_node_at_replace(root, rel, m);
            law_listing_merged_twice_is_merged_once(p, children);
            lemma_replace_same(t, rel);
        },
        None => {},
    }
}

/// A vanished entry is removed: when the parent of a path that is now
/// missing holds a child of that name (a file or a directory alike), the
/// change is reported as a removal, and the parent afterwards holds the same
/// children less the first one of that name, one fewer than before.
pub proof fn law_vanished_entry_is_removed<P, A>(root: NodeView<P, A>, path: Seq<Seq<char>>, placement: P, activity: A)
    requires
        path.len() >= 1,
        node_at(root, path.drop_last()) is Some,
        exists|j: int|
            0 <= j < node_at(root, path.drop_last())->0.children.len() && #[trigger] node_at(
                root,
                path.drop_last(),
            )->0.children[j].name == path.last(),
    ensures
        ({
            let p = node_at(root, path.drop_last())->0;
            let (t, e) = spec_apply_change(root, path, Observed::Missing, placement, activity);
            &&& e == ChangeEffect::Removed
            &&& exists|i: int|
                0 <= i < p.children.len() && #[trigger] p.children[i].name == path.last() && (forall|k: int|
                    0 <= k < i ==> p.children[k].name != path.last()) && node_at(t, path.drop_last()) == Some(
                    NodeView { children: p.children.remove(i), is_sorted: false, ..p },
                ) && p.children.remove(i).len() + 1 == p.children.len()
        }),
{
    let pp = path.drop_last();
    let item = path.last();
    let p = node_at(root, pp)->0;
    lemma_first_named(p.children, item);
    let j = choose|j: int| 0 <= j < p.children.len() && #[trigger] p.children[j].name == item;
    assert(p.children[j].name == item);
    let i = first_named(p.children, item)->0;
    let sub = NodeView { children: p.children.remove(i), is_sorted: false, ..p };
    lemma_node_at_replace(root, pp, sub);
    assert(p.children[i].name == item);
}

proof fn lemma_files_only<P, A>(s: Seq<NodeView<P, A>>)
    requires
        forall|k: int| 0 <= k < s.len() ==> !(#[trigger] s[k]).is_dir,
    ensures
        files_in(s) == s.len(),
        bytes_in(s) == sizes_in(s),
    decreases s.len(),
{
    if s.len() > 0 {
        assert forall|k: int| 0 <= k < s.drop_last().len() implies !(#[trigger] s.drop_last()[k]).is_dir by {
            assert(s.drop_last()[k] == s[k]);
        }
        lemma_files_only(s.drop_last());
        assert(!s.last().is_dir);
        assert(file_count(s.last()) == 1);
        assert(file_bytes(s.last()) == s.last().size);
        assert(files_in(s) == files_in(s.drop_last()) + file_count(s.last()));
        assert(bytes_in(s) == bytes_in(s.drop_last()) + file_bytes(s.last()));
    }
}

/// Every file counts as exactly one file, whatever its size (an empty file
/// too), and brings its own size to the bytes; so a directory that holds
/// only files counts as many files as it has children, and its bytes are
/// their sizes added up.
pub proof fn law_each_file_counts_once<P, A>(v: NodeView<P, A>)
    ensures
        !v.is_dir ==> file_count(v) == 1 && file_bytes(v) == v.size,
        v.is_dir && (forall|k: int| 0 <= k < v.children.len() ==> !(#[trigger] v.children[k]).is_dir) ==> file_count(
            v,
        ) == v.children.len() && file_bytes(v) == sizes_in(v.children),
{
    if v.is_dir && (forall|k: int| 0 <= k < v.children.len() ==> !(#[trigger] v.children[k]).is_dir) {
        lemma_files_only(v.children);
    }
}

/// A batch lands in its own directory, at any depth: when the batch's path
/// lies inside the target and the tree has the node that its relative
/// components lead to, the merge succeeds, that same node afterwards is the
/// batch merged into it, and the tree around it is as before.
pub proof fn law_batch_lands_at_its_directory<P, A>(
    root: NodeView<P, A>,
    target_dir: Seq<char>,
    parent_path: Seq<char>,
    children: Seq<NodeView<P, A>>,
)
    requires
        crate::paths::spec_relative_components(parent_path, target_dir) is Some,
        node_at(root, crate::paths::spec_relative_components(parent_path, target_dir)->0) is Some,
    ensures
        ({
            let rel = crate::paths::spec_relative_components(parent_path, target_dir)->0;
            let p = node_at(root, rel)->0;
            &&& spec_merge_batch(root, target_dir, parent_path, children) is Some
            &&& node_at(spec_merge_batch(root, target_dir, parent_path, children)->0, rel) == Some(
                merged_all(p, children),
            )
            &&& spec_merge_batch(root, target_dir, parent_path, children)->0 == replace_at(
                root,
                rel,
                merged_all(p, children),
            )
        }),
{
    let rel = crate::paths::spec_relative_components(parent_path, target_dir)->0;
    let p = node_at(root, rel)->0;
    lemma_merged_all_keeps_identity(p, children);
    lemma_node_at_replace(root, rel, merged_all(p, children));
}

/// While a scan runs the status line says so, whatever the watcher's state
/// (a reached limit, an error, no watcher at all); once it is done, a
/// reached limit comes before everything else.
pub proof fn law_scanning_status_comes_first(v: WatchView, backend: Seq<char>)
    ensures
        spec_status(v, true) == StatusKind::Scanning,
        spec_status_text(v, true, backend) == "SCANNING..."@,
        v.limit_hit ==> spec_status(v, false) == StatusKind::LimitHit,
        v.limit_hit ==> spec_status_text(v, false, backend) == "WATCHING (INOTIFY LIMIT: "@ + crate::sizes::decimal(
            v.dirs.len(),
        ) + " DIRS)"@,
        !v.limit_hit && v.has_watcher && v.error_msg is None ==> spec_status(v, false) == StatusKind::Watching
            && spec_status_text(v, false, backend) == backend,
        !v.limit_hit && !v.has_watcher ==> spec_status(v, false) == StatusKind::Failed,
        !v.limit_hit && v.error_msg is Some ==> spec_status(v, false) == StatusKind::Failed
            && spec_status_text(v, false, backend) == "WATCHER FAILED: "@ + v.error_msg->0,
        !v.limit_hit && !v.has_watcher && v.error_msg is None ==> spec_status_text(v, false, backend)
            == "WATCHER FAILED: Unknown error"@,
{
    reveal_strlit("WATCHER FAILED: ");
    reveal_strlit("Unknown error");
    reveal_strlit("WATCHER FAILED: Unknown error");
    assert("WATCHER FAILED: "@ + "Unknown error"@ =~= "WATCHER FAILED: Unknown error"@);
}

proof fn lemma_table_literals_apart()
    ensures
        "mp3"@ != "mp4"@,
        "mp3"@ != "mkv"@,
        "mp3"@ != "avi"@,
        "mp3"@ != "mov"@,
        "flac"@ != "mp4"@,
        "flac"@ != "mkv"@,
        "flac"@ != "avi"@,
        "flac"@ != "mov"@,
        "wav"@ != "mp4"@,
        "wav"@ != "mkv"@,
        "wav"@ != "avi"@,
        "wav"@ != "mov"@,
        "ogg"@ != "mp4"@,
        "ogg"@ != "mkv"@,
        "ogg"@ != "avi"@,
        "ogg"@ != "mov"@,
        "png"@ != "mp4"@,
        "png"@ != "mkv"@,
        "png"@ != "avi"@,
        "png"@ != "mov"@,
        "png"@ != "mp3"@,
        "png"@ != "flac"@,
        "png"@ != "wav"@,
        "png"@ != "ogg"@,
        "jpg"@ != "mp4"@,
        "jpg"@ != "mkv"@,
        "jpg"@ != "avi"@,
        "jpg"@ != "mov"@,
        "jpg"@ != "mp3"@,
        "jpg"@ != "flac"@,
        "jpg"@ != "wav"@,
        "jpg"@ != "ogg"@,
        "jpeg"@ != "mp4"@,
        "jpeg"@ != "mkv"@,
        "jpeg"@ != "avi"@,
        "jpeg"@ != "mov"@,
        "jpeg"@ != "mp3"@,
        "jpeg"@ != "flac"@,
        "jpeg"@ != "wav"@,
        "jpeg"@ != "ogg"@,
        "webp"@ != "mp4"@,
        "webp"@ != "mkv"@,
        "webp"@ != "avi"@,
        "webp"@ != "mov"@,
        "webp"@ != "mp3"@,
        "webp"@ != "flac"@,
        "webp"@ != "wav"@,
        "webp"@ != "ogg"@,
        "gif"@ != "mp4"@,
        "gif"@ != "mkv"@,
        "gif"@ != "avi"@,
        "gif"@ != "mov"@,
        "gif"@ != "mp3"@,
        "gif"@ != "flac"@,
        "gif"@ != "wav"@,
        "gif"@ != "ogg"@,
        "zip"@ != "mp4"@,
        "zip"@ != "mkv"@,
        "zip"@ != "avi"@,
        "zip"@ != "mov"@,
        "zip"@ != "mp3"@,
        "zip"@ != "flac"@,
        "zip"@ != "wav"@,
        "zip"@ != "ogg"@,
        "zip"@ != "png"@,
        "zip"@ != "jpg"@,
        "zip"@ != "jpeg"@,
        "zip"@ != "webp"@,
        "zip"@ != "gif"@,
        "rar"@ != "mp4"@,
        "rar"@ != "mkv"@,
        "rar"@ != "avi"@,
        "rar"@ != "mov"@,
        "rar"@ != "mp3"@,
        "rar"@ != "flac"@,
        "rar"@ != "wav"@,
        "rar"@ != "ogg"@,
        "rar"@ != "png"@,
        "rar"@ != "jpg"@,
        "rar"@ != "jpeg"@,
        "rar"@ != "webp"@,
        "rar"@ != "gif"@,
        "7z"@ != "mp4"@,
        "7z"@ != "mkv"@,
        "7z"@ != "avi"@,
        "7z"@ != "mov"@,
        "7z"@ != "mp3"@,
        "7z"@ != "flac"@,
        "7z"@ != "wav"@,
        "7z"@ != "ogg"@,
        "7z"@ != "png"@,
        "7z"@ != "jpg"@,
        "7z"@ != "jpeg"@,
        "7z"@ != "webp"@,
        "7z"@ != "gif"@,
        "tar"@ != "mp4"@,
        "tar"@ != "mkv"@,
        "tar"@ != "avi"@,
        "tar"@ != "mov"@,
        "tar"@ != "mp3"@,
        "tar"@ != "flac"@,
        "tar"@ != "wav"@,
        "tar"@ != "ogg"@,
        "tar"@ != "png"@,
        "tar"@ != "jpg"@,
        "tar"@ != "jpeg"@,
        "tar"@ != "webp"@,
        "tar"@ != "gif"@,
        "gz"@ != "mp4"@,
        "gz"@ != "mkv"@,
        "gz"@ != "avi"@,
        "gz"@ != "mov"@,
        "gz"@ != "mp3"@,
        "gz"@ != "flac"@,
        "gz"@ != "wav"@,
        "gz"@ != "ogg"@,
        "gz"@ != "png"@,
        "gz"@ != "jpg"@,
        "gz"@ != "jpeg"@,
        "gz"@ != "webp"@,
        "gz"@ != "gif"@,
        "rs"@ != "mp4"@,
        "rs"@ != "mkv"@,
        "rs"@ != "avi"@,
        "rs"@ != "mov"@,
        "rs"@ != "mp3"@,
        "rs"@ != "flac"@,
        "rs"@ != "wav"@,
        "rs"@ != "ogg"@,
        "rs"@ != "png"@,
        "rs"@ != "jpg"@,
        "rs"@ != "jpeg"@,
        "rs"@ != "webp"@,
        "rs"@ != "gif"@,
        "rs"@ != "zip"@,
        "rs"@ != "rar"@,
        "rs"@ != "7z"@,
        "rs"@ != "tar"@,
        "rs"@ != "gz"@,
        "cpp"@ != "mp4"@,
        "cpp"@ != "mkv"@,
        "cpp"@ != "avi"@,
        "cpp"@ != "mov"@,
        "cpp"@ != "mp3"@,
        "cpp"@ != "flac"@,
        "cpp"@ != "wav"@,
        "cpp"@ != "ogg"@,
        "cpp"@ != "png"@,
        "cpp"@ != "jpg"@,
        "cpp"@ != "jpeg"@,
        "cpp"@ != "webp"@,
        "cpp"@ != "gif"@,
        "cpp"@ != "zip"@,
        "cpp"@ != "rar"@,
        "cpp"@ != "7z"@,
        "cpp"@ != "tar"@,
        "cpp"@ != "gz"@,
        "c"@ != "mp4"@,
        "c"@ != "mkv"@,
        "c"@ != "avi"@,
        "c"@ != "mov"@,
        "c"@ != "mp3"@,
        "c"@ != "flac"@,
        "c"@ != "wav"@,
        "c"@ != "ogg"@,
        "c"@ != "png"@,
        "c"@ != "jpg"@,
        "c"@ != "jpeg"@,
        "c"@ != "webp"@,
        "c"@ != "gif"@,
        "c"@ != "zip"@,
        "c"@ != "rar"@,
        "c"@ != "7z"@,
        "c"@ != "tar"@,
        "c"@ != "gz"@,
        "h"@ != "mp4"@,
        "h"@ != "mkv"@,
        "h"@ != "avi"@,
        "h"@ != "mov"@,
        "h"@ != "mp3"@,
        "h"@ != "flac"@,
        "h"@ != "wav"@,
        "h"@ != "ogg"@,
        "h"@ != "png"@,
        "h"@ != "jpg"@,
        "h"@ != "jpeg"@,
        "h"@ != "webp"@,
        "h"@ != "gif"@,
        "h"@ != "zip"@,
        "h"@ != "rar"@,
        "h"@ != "7z"@,
        "h"@ != "tar"@,
        "h"@ != "gz"@,
        "py"@ != "mp4"@,
        "py"@ != "mkv"@,
        "py"@ != "avi"@,
        "py"@ != "mov"@,
        "py"@ != "mp3"@,
        "py"@ != "flac"@,
        "py"@ != "wav"@,
        "py"@ != "ogg"@,
        "py"@ != "png"@,
        "py"@ != "jpg"@,
        "py"@ != "jpeg"@,
        "py"@ != "webp"@,
        "py"@ != "gif"@,
        "py"@ != "zip"@,
        "py"@ != "rar"@,
        "py"@ != "7z"@,
        "py"@ != "tar"@,
        "py"@ != "gz"@,
        "js"@ != "mp4"@,
        "js"@ != "mkv"@,
        "js"@ != "avi"@,
        "js"@ != "mov"@,
        "js"@ != "mp3"@,
        "js"@ != "flac"@,
        "js"@ != "wav"@,
        "js"@ != "ogg"@,
        "js"@ != "png"@,
        "js"@ != "jpg"@,
        "js"@ != "jpeg"@,
        "js"@ != "webp"@,
        "js"@ != "gif"@,
        "js"@ != "zip"@,
        "js"@ != "rar"@,
        "js"@ != "7z"@,
        "js"@ != "tar"@,
        "js"@ != "gz"@,
        "ts"@ != "mp4"@,
        "ts"@ != "mkv"@,
        "ts"@ != "avi"@,
        "ts"@ != "mov"@,
        "ts"@ != "mp3"@,
        "ts"@ != "flac"@,
        "ts"@ != "wav"@,
        "ts"@ != "ogg"@,
        "ts"@ != "png"@,
        "ts"@ != "jpg"@,
        "ts"@ != "jpeg"@,
        "ts"@ != "webp"@,
        "ts"@ != "gif"@,
        "ts"@ != "zip"@,
        "ts"@ != "rar"@,
        "ts"@ != "7z"@,
        "ts"@ != "tar"@,
        "ts"@ != "gz"@,
        "txt"@ != "mp4"@,
        "txt"@ != "mkv"@,
        "txt"@ != "avi"@,
        "txt"@ != "mov"@,
        "txt"@ != "mp3"@,
        "txt"@ != "flac"@,
        "txt"@ != "wav"@,
        "txt"@ != "ogg"@,
        "txt"@ != "png"@,
        "txt"@ != "jpg"@,
        "txt"@ != "jpeg"@,
        "txt"@ != "webp"@,
        "txt"@ != "gif"@,
        "txt"@ != "zip"@,
        "txt"@ != "rar"@,
        "txt"@ != "7z"@,
        "txt"@ != "tar"@,
        "txt"@ != "gz"@,
        "md"@ != "mp4"@,
        "md"@ != "mkv"@,
        "md"@ != "avi"@,
        "md"@ != "mov"@,
        "md"@ != "mp3"@,
        "md"@ != "flac"@,
        "md"@ != "wav"@,
        "md"@ != "ogg"@,
        "md"@ != "png"@,
        "md"@ != "jpg"@,
        "md"@ != "jpeg"@,
        "md"@ != "webp"@,
        "md"@ != "gif"@,
        "md"@ != "zip"@,
        "md"@ != "rar"@,
        "md"@ != "7z"@,
        "md"@ != "tar"@,
        "md"@ != "gz"@,
        "exe"@ != "mp4"@,
        "exe"@ != "mkv"@,
        "exe"@ != "avi"@,
        "exe"@ != "mov"@,
        "exe"@ != "mp3"@,
        "exe"@ != "flac"@,
        "exe"@ != "wav"@,
        "exe"@ != "ogg"@,
        "exe"@ != "png"@,
        "exe"@ != "jpg"@,
        "exe"@ != "jpeg"@,
        "exe"@ != "webp"@,
        "exe"@ != "gif"@,
        "exe"@ != "zip"@,
        "exe"@ != "rar"@,
        "exe"@ != "7z"@,
        "exe"@ != "tar"@,
        "exe"@ != "gz"@,
        "exe"@ != "rs"@,
        "exe"@ != "cpp"@,
        "exe"@ != "c"@,
        "exe"@ != "h"@,
        "exe"@ != "py"@,
        "exe"@ != "js"@,
        "exe"@ != "ts"@,
        "exe"@ != "txt"@,
        "exe"@ != "md"@,
        "dll"@ != "mp4"@,
        "dll"@ != "mkv"@,
        "dll"@ != "avi"@,
        "dll"@ != "mov"@,
        "dll"@ != "mp3"@,
        "dll"@ != "flac"@,
        "dll"@ != "wav"@,
        "dll"@ != "ogg"@,
        "dll"@ != "png"@,
        "dll"@ != "jpg"@,
        "dll"@ != "jpeg"@,
        "dll"@ != "webp"@,
        "dll"@ != "gif"@,
        "dll"@ != "zip"@,
        "dll"@ != "rar"@,
        "dll"@ != "7z"@,
        "dll"@ != "tar"@,
        "dll"@ != "gz"@,
        "dll"@ != "rs"@,
        "dll"@ != "cpp"@,
        "dll"@ != "c"@,
        "dll"@ != "h"@,
        "dll"@ != "py"@,
        "dll"@ != "js"@,
        "dll"@ != "ts"@,
        "dll"@ != "txt"@,
        "dll"@ != "md"@,
        "so"@ != "mp4"@,
        "so"@ != "mkv"@,
        "so"@ != "avi"@,
        "so"@ != "mov"@,
        "so"@ != "mp3"@,
        "so"@ != "flac"@,
        "so"@ != "wav"@,
        "so"@ != "ogg"@,
        "so"@ != "png"@,
        "so"@ != "jpg"@,
        "so"@ != "jpeg"@,
        "so"@ != "webp"@,
        "so"@ != "gif"@,
        "so"@ != "zip"@,
        "so"@ != "rar"@,
        "so"@ != "7z"@,
        "so"@ != "tar"@,
        "so"@ != "gz"@,
        "so"@ != "rs"@,
        "so"@ != "cpp"@,
        "so"@ != "c"@,
        "so"@ != "h"@,
        "so"@ != "py"@,
        "so"@ != "js"@,
        "so"@ != "ts"@,
        "so"@ != "txt"@,
        "so"@ != "md"@,
        "bin"@ != "mp4"@,
        "bin"@ != "mkv"@,
        "bin"@ != "avi"@,
        "bin"@ != "mov"@,
        "bin"@ != "mp3"@,
        "bin"@ != "flac"@,
        "bin"@ != "wav"@,
        "bin"@ != "ogg"@,
        "bin"@ != "png"@,
        "bin"@ != "jpg"@,
        "bin"@ != "jpeg"@,
        "bin"@ != "webp"@,
        "bin"@ != "gif"@,
        "bin"@ != "zip"@,
        "bin"@ != "rar"@,
        "bin"@ != "7z"@,
        "bin"@ != "tar"@,
        "bin"@ != "gz"@,
        "bin"@ != "rs"@,
        "bin"@ != "cpp"@,
        "bin"@ != "c"@,
        "bin"@ != "h"@,
        "bin"@ != "py"@,
        "bin"@ != "js"@,
        "bin"@ != "ts"@,
        "bin"@ != "txt"@,
        "bin"@ != "md"@,
{
    reveal_strlit("mp4");
    reveal_strlit("mkv");
    reveal_strlit("avi");
    reveal_strlit("mov");
    reveal_strlit("mp3");
    reveal_strlit("flac");
    reveal_strlit("wav");
    reveal_strlit("ogg");
    reveal_strlit("png");
    reveal_strlit("jpg");
    reveal_strlit("jpeg");
    reveal_strlit("webp");
    reveal_strlit("gif");
    reveal_strlit("zip");
    reveal_strlit("rar");
    reveal_strlit("7z");
    reveal_strlit("tar");
    reveal_strlit("gz");
    reveal_strlit("rs");
    reveal_strlit("cpp");
    reveal_strlit("c");
    reveal_strlit("h");
    reveal_strlit("py");
    reveal_strlit("js");
    reveal_strlit("ts");
    reveal_strlit("txt");
    reveal_strlit("md");
    reveal_strlit("exe");
    reveal_strlit("dll");
    reveal_strlit("so");
    reveal_strlit("bin");
    assert("mp3"@[2] != "mp4"@[2]);
    assert("mp3"@[1] != "mkv"@[1]);
    assert("mp3"@[0] != "avi"@[0]);
    assert("mp3"@[1] != "mov"@[1]);
    assert("flac"@.len() != "mp4"@.len());
    assert("flac"@.len() != "mkv"@.len());
    assert("flac"@.len() != "avi"@.len());
    assert("flac"@.len() != "mov"@.len());
    assert("wav"@[0] != "mp4"@[0]);
    assert("wav"@[0] != "mkv"@[0]);
    assert("wav"@[0] != "avi"@[0]);
    assert("wav"@[0] != "mov"@[0]);
    assert("ogg"@[0] != "mp4"@[0]);
    assert("ogg"@[0] != "mkv"@[0]);
    assert("ogg"@[0] != "avi"@[0]);
    assert("ogg"@[0] != "mov"@[0]);
    assert("png"@[0] != "mp4"@[0]);
    assert("png"@[0] != "mkv"@[0]);
    assert("png"@[0] != "avi"@[0]);
    assert("png"@[0] != "mov"@[0]);
    assert("png"@[0] != "mp3"@[0]);
    assert("png"@.len() != "flac"@.len());
    assert("png"@[0] != "wav"@[0]);
    assert("png"@[0] != "ogg"@[0]);
    assert("jpg"@[0] != "mp4"@[0]);
    assert("jpg"@[0] != "mkv"@[0]);
    assert("jpg"@[0] != "avi"@[0]);
    assert("jpg"@[0] != "mov"@[0]);
    assert("jpg"@[0] != "mp3"@[0]);
    assert("jpg"@.len() != "flac"@.len());
    assert("jpg"@[0] != "wav"@[0]);
    assert("jpg"@[0] != "ogg"@[0]);
    assert("jpeg"@.len() != "mp4"@.len());
    assert("jpeg"@.len() != "mkv"@.len());
    assert("jpeg"@.len() != "avi"@.len());
    assert("jpeg"@.len() != "mov"@.len());
    assert("jpeg"@.len() != "mp3"@.len());
    assert("jpeg"@[0] != "flac"@[0]);
    assert("jpeg"@.len() != "wav"@.len());
    assert("jpeg"@.len() != "ogg"@.len());
    assert("webp"@.len() != "mp4"@.len());
    assert("webp"@.len() != "mkv"@.len());
    assert("webp"@.len() != "avi"@.len());
    assert("webp"@.len() != "mov"@.len());
    assert("webp"@.len() != "mp3"@.len());
    assert("webp"@[0] != "flac"@[0]);
    assert("webp"@.len() != "wav"@.len());
    assert("webp"@.len() != "ogg"@.len());
    assert("gif"@[0] != "mp4"@[0]);
    assert("gif"@[0] != "mkv"@[0]);
    assert("gif"@[0] != "avi"@[0]);
    assert("gif"@[0] != "mov"@[0]);
    assert("gif"@[0] != "mp3"@[0]);
    assert("gif"@.len() != "flac"@.len());
    assert("gif"@[0] != "wav"@[0]);
    assert("gif"@[0] != "ogg"@[0]);
    assert("zip"@[0] != "mp4"@[0]);
    assert("zip"@[0] != "mkv"@[0]);
    assert("zip"@[0] != "avi"@[0]);
    assert("zip"@[0] != "mov"@[0]);
    assert("zip"@[0] != "mp3"@[0]);
    assert("zip"@.len() != "flac"@.len());
    assert("zip"@[0] != "wav"@[0]);
    assert("zip"@[0] != "ogg"@[0]);
    assert("zip"@[0] != "png"@[0]);
    assert("zip"@[0] != "jpg"@[0]);
    assert("zip"@.len() != "jpeg"@.len());
    assert("zip"@.len() != "webp"@.len());
    assert("zip"@[0] != "gif"@[0]);
    assert("rar"@[0] != "mp4"@[0]);
    assert("rar"@[0] != "mkv"@[0]);
    assert("rar"@[0] != "avi"@[0]);
    assert("rar"@[0] != "mov"@[0]);
    assert("rar"@[0] != "mp3"@[0]);
    assert("rar"@.len() != "flac"@.len());
    assert("rar"@[0] != "wav"@[0]);
    assert("rar"@[0] != "ogg"@[0]);
    assert("rar"@[0] != "png"@[0]);
    assert("rar"@[0] != "jpg"@[0]);
    assert("rar"@.len() != "jpeg"@.len());
    assert("rar"@.len() != "webp"@.len());
    assert("rar"@[0] != "gif"@[0]);
    assert("7z"@.len() != "mp4"@.len());
    assert("7z"@.len() != "mkv"@.len());
    assert("7z"@.len() != "avi"@.len());
    assert("7z"@.len() != "mov"@.len());
    assert("7z"@.len() != "mp3"@.len());
    assert("7z"@.len() != "flac"@.len());
    assert("7z"@.len() != "wav"@.len());
    assert("7z"@.len() != "ogg"@.len());
    assert("7z"@.len() != "png"@.len());
    assert("7z"@.len() != "jpg"@.len());
    assert("7z"@.len() != "jpeg"@.len());
    assert("7z"@.len() != "webp"@.len());
    assert("7z"@.len() != "gif"@.len());
    assert("tar"@[0] != "mp4"@[0]);
    assert("tar"@[0] != "mkv"@[0]);
    assert("tar"@[0] != "avi"@[0]);
    assert("tar"@[0] != "mov"@[0]);
    assert("tar"@[0] != "mp3"@[0]);
    assert("tar"@.len() != "flac"@.len());
    assert("tar"@[0] != "wav"@[0]);
    assert("tar"@[0] != "ogg"@[0]);
    assert("tar"@[0] != "png"@[0]);
    assert("tar"@[0] != "jpg"@[0]);
    assert("tar"@.len() != "jpeg"@.len());
    assert("tar"@.len() != "webp"@.len());
    assert("tar"@[0] != "gif"@[0]);
    assert("gz"@.len() != "mp4"@.len());
    assert("gz"@.len() != "mkv"@.len());
    assert("gz"@.len() != "avi"@.len());
    assert("gz"@.len() != "mov"@.len());
    assert("gz"@.len() != "mp3"@.len());
    assert("gz"@.len() != "flac"@.len());
    assert("gz"@.len() != "wav"@.len());
    assert("gz"@.len() != "ogg"@.len());
    assert("gz"@.len() != "png"@.len());
    assert("gz"@.len() != "jpg"@.len());
    assert("gz"@.len() != "jpeg"@.len());
    assert("gz"@.len() != "webp"@.len());
    assert("gz"@.len() != "gif"@.len());
    assert("rs"@.len() != "mp4"@.len());
    assert("rs"@.len() != "mkv"@.len());
    assert("rs"@.len() != "avi"@.len());
    assert("rs"@.len() != "mov"@.len());
    assert("rs"@.len() != "mp3"@.len());
    assert("rs"@.len() != "flac"@.len());
    assert("rs"@.len() != "wav"@.len());
    assert("rs"@.len() != "ogg"@.len());
    assert("rs"@.len() != "png"@.len());
    assert("rs"@.len() != "jpg"@.len());
    assert("rs"@.len() != "jpeg"@.len());
    assert("rs"@.len() != "webp"@.len());
    assert("rs"@.len() != "gif"@.len());
    assert("rs"@.len() != "zip"@.len());
    assert("rs"@.len() != "rar"@.len());
    assert("rs"@[0] != "7z"@[0]);
    assert("rs"@.len() != "tar"@.len());
    assert("rs"@[0] != "gz"@[0]);
    assert("cpp"@[0] != "mp4"@[0]);
    assert("cpp"@[0] != "mkv"@[0]);
    assert("cpp"@[0] != "avi"@[0]);
    assert("cpp"@[0] != "mov"@[0]);
    assert("cpp"@[0] != "mp3"@[0]);
    assert("cpp"@.len() != "flac"@.len());
    assert("cpp"@[0] != "wav"@[0]);
    assert("cpp"@[0] != "ogg"@[0]);
    assert("cpp"@[0] != "png"@[0]);
    assert("cpp"@[0] != "jpg"@[0]);
    assert("cpp"@.len() != "jpeg"@.len());
    assert("cpp"@.len() != "webp"@.len());
    assert("cpp"@[0] != "gif"@[0]);
    assert("cpp"@[0] != "zip"@[0]);
    assert("cpp"@[0] != "rar"@[0]);
    assert("cpp"@.len() != "7z"@.len());
    assert("cpp"@[0] != "tar"@[0]);
    assert("cpp"@.len() != "gz"@.len());
    assert("c"@.len() != "mp4"@.len());
    assert("c"@.len() != "mkv"@.len());
    assert("c"@.len() != "avi"@.len());
    assert("c"@.len() != "mov"@.len());
    assert("c"@.len() != "mp3"@.len());
    assert("c"@.len() != "flac"@.len());
    assert("c"@.len() != "wav"@.len());
    assert("c"@.len() != "ogg"@.len());
    assert("c"@.len() != "png"@.len());
    assert("c"@.len() != "jpg"@.len());
    assert("c"@.len() != "jpeg"@.len());
    assert("c"@.len() != "webp"@.len());
    assert("c"@.len() != "gif"@.len());
    assert("c"@.len() != "zip"@.len());
    assert("c"@.len() != "rar"@.len());
    assert("c"@.len() != "7z"@.len());
    assert("c"@.len() != "tar"@.len());
    assert("c"@.len() != "gz"@.len());
    assert("h"@.len() != "mp4"@.len());
    assert("h"@.len() != "mkv"@.len());
    assert("h"@.len() != "avi"@.len());
    assert("h"@.len() != "mov"@.len());
    assert("h"@.len() != "mp3"@.len());
    assert("h"@.len() != "flac"@.len());
    assert("h"@.len() != "wav"@.len());
    assert("h"@.len() != "ogg"@.len());
    assert("h"@.len() != "png"@.len());
    assert("h"@.len() != "jpg"@.len());
    assert("h"@.len() != "jpeg"@.len());
    assert("h"@.len() != "webp"@.len());
    assert("h"@.len() != "gif"@.len());
    assert("h"@.len() != "zip"@.len());
    assert("h"@.len() != "rar"@.len());
    assert("h"@.len() != "7z"@.len());
    assert("h"@.len() != "tar"@.len());
    assert("h"@.len() != "gz"@.len());
    assert("py"@.len() != "mp4"@.len());
    assert("py"@.len() != "mkv"@.len());
    assert("py"@.len() != "avi"@.len());
    assert("py"@.len() != "mov"@.len());
    assert("py"@.len() != "mp3"@.len());
    assert("py"@.len() != "flac"@.len());
    assert("py"@.len() != "wav"@.len());
    assert("py"@.len() != "ogg"@.len());
    assert("py"@.len() != "png"@.len());
    assert("py"@.len() != "jpg"@.len());
    assert("py"@.len() != "jpeg"@.len());
    assert("py"@.len() != "webp"@.len());
    assert("py"@.len() != "gif"@.len());
    assert("py"@.len() != "zip"@.len());
    assert("py"@.len() != "rar"@.len());
    assert("py"@[0] != "7z"@[0]);
    assert("py"@.len() != "tar"@.len());
    assert("py"@[0] != "gz"@[0]);
    assert("js"@.len() != "mp4"@.len());
    assert("js"@.len() != "mkv"@.len());
    assert("js"@.len() != "avi"@.len());
    assert("js"@.len() != "mov"@.len());
    assert("js"@.len() != "mp3"@.len());
    assert("js"@.len() != "flac"@.len());
    assert("js"@.len() != "wav"@.len());
    assert("js"@.len() != "ogg"@.len());
    assert("js"@.len() != "png"@.len());
    assert("js"@.len() != "jpg"@.len());
    assert("js"@.len() != "jpeg"@.len());
    assert("js"@.len() != "webp"@.len());
    assert("js"@.len() != "gif"@.len());
    assert("js"@.len() != "zip"@.len());
    assert("js"@.len() != "rar"@.len());
    assert("js"@[0] != "7z"@[0]);
    assert("js"@.len() != "tar"@.len());
    assert("js"@[0] != "gz"@[0]);
    assert("ts"@.len() != "mp4"@.len());
    assert("ts"@.len() != "mkv"@.len());
    assert("ts"@.len() != "avi"@.len());
    assert("ts"@.len() != "mov"@.len());
    assert("ts"@.len() != "mp3"@.len());
    assert("ts"@.len() != "flac"@.len());
    assert("ts"@.len() != "wav"@.len());
    assert("ts"@.len() != "ogg"@.len());
    assert("ts"@.len() != "png"@.len());
    assert("ts"@.len() != "jpg"@.len());
    assert("ts"@.len() != "jpeg"@.len());
    assert("ts"@.len() != "webp"@.len());
    assert("ts"@.len() != "gif"@.len());
    assert("ts"@.len() != "zip"@.len());
    assert("ts"@.len() != "rar"@.len());
    assert("ts"@[0] != "7z"@[0]);
    assert("ts"@.len() != "tar"@.len());
    assert("ts"@[0] != "gz"@[0]);
    assert("txt"@[0] != "mp4"@[0]);
    assert("txt"@[0] != "mkv"@[0]);
    assert("txt"@[0] != "avi"@[0]);
    assert("txt"@[0] != "mov"@[0]);
    assert("txt"@[0] != "mp3"@[0]);
    assert("txt"@.len() != "flac"@.len());
    assert("txt"@[0] != "wav"@[0]);
    assert("txt"@[0] != "ogg"@[0]);
    assert("txt"@[0] != "png"@[0]);
    assert("txt"@[0] != "jpg"@[0]);
    assert("txt"@.len() != "jpeg"@.len());
    assert("txt"@.len() != "webp"@.len());
    assert("txt"@[0] != "gif"@[0]);
    assert("txt"@[0] != "zip"@[0]);
    assert("txt"@[0] != "rar"@[0]);
    assert("txt"@.len() != "7z"@.len());
    assert("txt"@[1] != "tar"@[1]);
    assert("txt"@.len() != "gz"@.len());
    assert("md"@.len() != "mp4"@.len());
    assert("md"@.len() != "mkv"@.len());
    assert("md"@.len() != "avi"@.len());
    assert("md"@.len() != "mov"@.len());
    assert("md"@.len() != "mp3"@.len());
    assert("md"@.len() != "flac"@.len());
    assert("md"@.len() != "wav"@.len());
    assert("md"@.len() != "ogg"@.len());
    assert("md"@.len() != "png"@.len());
    assert("md"@.len() != "jpg"@.len());
    assert("md"@.len() != "jpeg"@.len());
    assert("md"@.len() != "webp"@.len());
    assert("md"@.len() != "gif"@.len());
    assert("md"@.len() != "zip"@.len());
    assert("md"@.len() != "rar"@.len());
    assert("md"@[0] != "7z"@[0]);
    assert("md"@.len() != "tar"@.len());
    assert("md"@[0] != "gz"@[0]);
    assert("exe"@[0] != "mp4"@[0]);
    assert("exe"@[0] != "mkv"@[0]);
    assert("exe"@[0] != "avi"@[0]);
    assert("exe"@[0] != "mov"@[0]);
    assert("exe"@[0] != "mp3"@[0]);
    assert("exe"@.len() != "flac"@.len());
    assert("exe"@[0] != "wav"@[0]);
    assert("exe"@[0] != "ogg"@[0]);
    assert("exe"@[0] != "png"@[0]);
    assert("exe"@[0] != "jpg"@[0]);
    assert("exe"@.len() != "jpeg"@.len());
    assert("exe"@.len() != "webp"@.len());
    assert("exe"@[0] != "gif"@[0]);
    assert("exe"@[0] != "zip"@[0]);
    assert("exe"@[0] != "rar"@[0]);
    assert("exe"@.len() != "7z"@.len());
    assert("exe"@[0] != "tar"@[0]);
    assert("exe"@.len() != "gz"@.len());
    assert("exe"@.len() != "rs"@.len());
    assert("exe"@[0] != "cpp"@[0]);
    assert("exe"@.len() != "c"@.len());
    assert("exe"@.len() != "h"@.len());
    assert("exe"@.len() != "py"@.len());
    assert("exe"@.len() != "js"@.len());
    assert("exe"@.len() != "ts"@.len());
    assert("exe"@[0] != "txt"@[0]);
    assert("exe"@.len() != "md"@.len());
    assert("dll"@[0] != "mp4"@[0]);
    assert("dll"@[0] != "mkv"@[0]);
    assert("dll"@[0] != "avi"@[0]);
    assert("dll"@[0] != "mov"@[0]);
    assert("dll"@[0] != "mp3"@[0]);
    assert("dll"@.len() != "flac"@.len());
    assert("dll"@[0] != "wav"@[0]);
    assert("dll"@[0] != "ogg"@[0]);
    assert("dll"@[0] != "png"@[0]);
    assert("dll"@[0] != "jpg"@[0]);
    assert("dll"@.len() != "jpeg"@.len());
    assert("dll"@.len() != "webp"@.len());
    assert("dll"@[0] != "gif"@[0]);
    assert("dll"@[0] != "zip"@[0]);
    assert("dll"@[0] != "rar"@[0]);
    assert("dll"@.len() != "7z"@.len());
    assert("dll"@[0] != "tar"@[0]);
    assert("dll"@.len() != "gz"@.len());
    assert("dll"@.len() != "rs"@.len());
    assert("dll"@[0] != "cpp"@[0]);
    assert("dll"@.len() != "c"@.len());
    assert("dll"@.len() != "h"@.len());
    assert("dll"@.len() != "py"@.len());
    assert("dll"@.len() != "js"@.len());
    assert("dll"@.len() != "ts"@.len());
    assert("dll"@[0] != "txt"@[0]);
    assert("dll"@.len() != "md"@.len());
    assert("so"@.len() != "mp4"@.len());
    assert("so"@.len() != "mkv"@.len());
    assert("so"@.len() != "avi"@.len());
    assert("so"@.len() != "mov"@.len());
    assert("so"@.len() != "mp3"@.len());
    assert("so"@.len() != "flac"@.len());
    assert("so"@.len() != "wav"@.len());
    assert("so"@.len() != "ogg"@.len());
    assert("so"@.len() != "png"@.len());
    assert("so"@.len() != "jpg"@.len());
    assert("so"@.len() != "jpeg"@.len());
    assert("so"@.len() != "webp"@.len());
    assert("so"@.len() != "gif"@.len());
    assert("so"@.len() != "zip"@.len());
    assert("so"@.len() != "rar"@.len());
    assert("so"@[0] != "7z"@[0]);
    assert("so"@.len() != "tar"@.len());
    assert("so"@[0] != "gz"@[0]);
    assert("so"@[0] != "rs"@[0]);
    assert("so"@.len() != "cpp"@.len());
    assert("so"@.len() != "c"@.len());
    assert("so"@.len() != "h"@.len());
    assert("so"@[0] != "py"@[0]);
    assert("so"@[0] != "js"@[0]);
    assert("so"@[0] != "ts"@[0]);
    assert("so"@.len() != "txt"@.len());
    assert("so"@[0] != "md"@[0]);
    assert("bin"@[0] != "mp4"@[0]);
    assert("bin"@[0] != "mkv"@[0]);
    assert("bin"@[0] != "avi"@[0]);
    assert("bin"@[0] != "mov"@[0]);
    assert("bin"@[0] != "mp3"@[0]);
    assert("bin"@.len() != "flac"@.len());
    assert("bin"@[0] != "wav"@[0]);
    assert("bin"@[0] != "ogg"@[0]);
    assert("bin"@[0] != "png"@[0]);
    assert("bin"@[0] != "jpg"@[0]);
    assert("bin"@.len() != "jpeg"@.len());
    assert("bin"@.len() != "webp"@.len());
    assert("bin"@[0] != "gif"@[0]);
    assert("bin"@[0] != "zip"@[0]);
    assert("bin"@[0] != "rar"@[0]);
    assert("bin"@.len() != "7z"@.len());
    assert("bin"@[0] != "tar"@[0]);
    assert("bin"@.len() != "gz"@.len());
    assert("bin"@.len() != "rs"@.len());
    assert("bin"@[0] != "cpp"@[0]);
    assert("bin"@.len() != "c"@.len());
    assert("bin"@.len() != "h"@.len());
    assert("bin"@.len() != "py"@.len());
    assert("bin"@.len() != "js"@.len());
    assert("bin"@.len() != "ts"@.len());
    assert("bin"@[0] != "txt"@[0]);
    assert("bin"@.len() != "md"@.len());
}

/// The full viewer's extension table, entry by entry: mp4, mkv, avi and
/// mov are video; mp3, flac, wav and ogg are audio; png, jpg, jpeg, webp
/// and gif are images; zip, rar, 7z, tar and gz are archives; rs, cpp, c, h,
/// py, js, ts, txt and md are source; exe, dll, so and bin are executables.
/// Any other text has no class, and whatever has a class is one of these.
pub proof fn law_extension_table(e: Seq<char>)
    ensures
        full_extension_class("mp4"@) == Some(ColorClass::Video),
        full_extension_class("mkv"@) == Some(ColorClass::Video),
        full_extension_class("avi"@) == Some(ColorClass::Video),
        full_extension_class("mov"@) == Some(ColorClass::Video),
        full_extension_class("mp3"@) == Some(ColorClass::Audio),
        full_extension_class("flac"@) == Some(ColorClass::Audio),
        full_extension_class("wav"@) == Some(ColorClass::Audio),
        full_extension_class("ogg"@) == Some(ColorClass::Audio),
        full_extension_class("png"@) == Some(ColorClass::Image),
        full_extension_class("jpg"@) == Some(ColorClass::Image),
        full_extension_class("jpeg"@) == Some(ColorClass::Image),
        full_extension_class("webp"@) == Some(ColorClass::Image),
        full_extension_class("gif"@) == Some(ColorClass::Image),
        full_extension_class("zip"@) == Some(ColorClass::Archive),
        full_extension_class("rar"@) == Some(ColorClass::Archive),
        full_extension_class("7z"@) == Some(ColorClass::Archive),
        full_extension_class("tar"@) == Some(ColorClass::Archive),
        full_extension_class("gz"@) == Some(ColorClass::Archive),
        full_extension_class("rs"@) == Some(ColorClass::Source),
        full_extension_class("cpp"@) == Some(ColorClass::Source),
        full_extension_class("c"@) == Some(ColorClass::Source),
        full_extension_class("h"@) == Some(ColorClass::Source),
        full_extension_class("py"@) == Some(ColorClass::Source),
        full_extension_class("js"@) == Some(ColorClass::Source),
        full_extension_class("ts"@) == Some(ColorClass::Source),
        full_extension_class("txt"@) == Some(ColorClass::Source),
        full_extension_class("md"@) == Some(ColorClass::Source),
        full_extension_class("exe"@) == Some(ColorClass::Executable),
        full_extension_class("dll"@) == Some(ColorClass::Executable),
        full_extension_class("so"@) == Some(ColorClass::Executable),
        full_extension_class("bin"@) == Some(ColorClass::Executable),
        full_extension_class(e) is Some ==> (e == "mp4"@ || e == "mkv"@ || e == "avi"@ || e == "mov"@ || e
            == "mp3"@ || e == "flac"@ || e == "wav"@ || e == "ogg"@ || e == "png"@ || e == "jpg"@ || e == "jpeg"@
            || e == "webp"@ || e == "gif"@ || e == "zip"@ || e == "rar"@ || e == "7z"@ || e == "tar"@ || e
            == "gz"@ || e == "rs"@ || e == "cpp"@ || e == "c"@ || e == "h"@ || e == "py"@ || e == "js"@ || e
            == "ts"@ || e == "txt"@ || e == "md"@ || e == "exe"@ || e == "dll"@ || e == "so"@ || e == "bin"@),
{
    lemma_table_literals_apart();
}

proof fn lemma_basic_table_literals_apart()
    ensures
        "png"@ != "rs"@,
        "png"@ != "c"@,
        "png"@ != "cpp"@,
        "png"@ != "py"@,
        "png"@ != "js"@,
        "png"@ != "txt"@,
        "png"@ != "md"@,
        "png"@ != "ts"@,
        "jpg"@ != "rs"@,
        "jpg"@ != "c"@,
        "jpg"@ != "cpp"@,
        "jpg"@ != "py"@,
        "jpg"@ != "js"@,
        "jpg"@ != "txt"@,
        "jpg"@ != "md"@,
        "jpg"@ != "ts"@,
        "jpeg"@ != "rs"@,
        "jpeg"@ != "c"@,
        "jpeg"@ != "cpp"@,
        "jpeg"@ != "py"@,
        "jpeg"@ != "js"@,
        "jpeg"@ != "txt"@,
        "jpeg"@ != "md"@,
        "jpeg"@ != "ts"@,
        "svg"@ != "rs"@,
        "svg"@ != "c"@,
        "svg"@ != "cpp"@,
        "svg"@ != "py"@,
        "svg"@ != "js"@,
        "svg"@ != "txt"@,
        "svg"@ != "md"@,
        "svg"@ != "ts"@,
        "webp"@ != "rs"@,
        "webp"@ != "c"@,
        "webp"@ != "cpp"@,
        "webp"@ != "py"@,
        "webp"@ != "js"@,
        "webp"@ != "txt"@,
        "webp"@ != "md"@,
        "webp"@ != "ts"@,
        "mp4"@ != "rs"@,
        "mp4"@ != "c"@,
        "mp4"@ != "cpp"@,
        "mp4"@ != "py"@,
        "mp4"@ != "js"@,
        "mp4"@ != "txt"@,
        "mp4"@ != "md"@,
        "mp4"@ != "png"@,
        "mp4"@ != "jpg"@,
        "mp4"@ != "jpeg"@,
        "mp4"@ != "svg"@,
        "mp4"@ != "webp"@,
        "mp4"@ != "ts"@,
        "mkv"@ != "rs"@,
        "mkv"@ != "c"@,
        "mkv"@ != "cpp"@,
        "mkv"@ != "py"@,
        "mkv"@ != "js"@,
        "mkv"@ != "txt"@,
        "mkv"@ != "md"@,
        "mkv"@ != "png"@,
        "mkv"@ != "jpg"@,
        "mkv"@ != "jpeg"@,
        "mkv"@ != "svg"@,
        "mkv"@ != "webp"@,
        "mkv"@ != "ts"@,
        "mov"@ != "rs"@,
        "mov"@ != "c"@,
        "mov"@ != "cpp"@,
        "mov"@ != "py"@,
        "mov"@ != "js"@,
        "mov"@ != "txt"@,
        "mov"@ != "md"@,
        "mov"@ != "png"@,
        "mov"@ != "jpg"@,
        "mov"@ != "jpeg"@,
        "mov"@ != "svg"@,
        "mov"@ != "webp"@,
        "mov"@ != "ts"@,
        "mp3"@ != "rs"@,
        "mp3"@ != "c"@,
        "mp3"@ != "cpp"@,
        "mp3"@ != "py"@,
        "mp3"@ != "js"@,
        "mp3"@ != "txt"@,
        "mp3"@ != "md"@,
        "mp3"@ != "png"@,
        "mp3"@ != "jpg"@,
        "mp3"@ != "jpeg"@,
        "mp3"@ != "svg"@,
        "mp3"@ != "webp"@,
        "mp3"@ != "ts"@,
        "flac"@ != "rs"@,
        "flac"@ != "c"@,
        "flac"@ != "cpp"@,
        "flac"@ != "py"@,
        "flac"@ != "js"@,
        "flac"@ != "txt"@,
        "flac"@ != "md"@,
        "flac"@ != "png"@,
        "flac"@ != "jpg"@,
        "flac"@ != "jpeg"@,
        "flac"@ != "svg"@,
        "flac"@ != "webp"@,
        "flac"@ != "ts"@,
        "zip"@ != "rs"@,
        "zip"@ != "c"@,
        "zip"@ != "cpp"@,
        "zip"@ != "py"@,
        "zip"@ != "js"@,
        "zip"@ != "txt"@,
        "zip"@ != "md"@,
        "zip"@ != "png"@,
        "zip"@ != "jpg"@,
        "zip"@ != "jpeg"@,
        "zip"@ != "svg"@,
        "zip"@ != "webp"@,
        "zip"@ != "mp4"@,
        "zip"@ != "mkv"@,
        "zip"@ != "mov"@,
        "zip"@ != "mp3"@,
        "zip"@ != "flac"@,
        "zip"@ != "ts"@,
        "tar"@ != "rs"@,
        "tar"@ != "c"@,
        "tar"@ != "cpp"@,
        "tar"@ != "py"@,
        "tar"@ != "js"@,
        "tar"@ != "txt"@,
        "tar"@ != "md"@,
        "tar"@ != "png"@,
        "tar"@ != "jpg"@,
        "tar"@ != "jpeg"@,
        "tar"@ != "svg"@,
        "tar"@ != "webp"@,
        "tar"@ != "mp4"@,
        "tar"@ != "mkv"@,
        "tar"@ != "mov"@,
        "tar"@ != "mp3"@,
        "tar"@ != "flac"@,
        "tar"@ != "ts"@,
        "gz"@ != "rs"@,
        "gz"@ != "c"@,
        "gz"@ != "cpp"@,
        "gz"@ != "py"@,
        "gz"@ != "js"@,
        "gz"@ != "txt"@,
        "gz"@ != "md"@,
        "gz"@ != "png"@,
        "gz"@ != "jpg"@,
        "gz"@ != "jpeg"@,
        "gz"@ != "svg"@,
        "gz"@ != "webp"@,
        "gz"@ != "mp4"@,
        "gz"@ != "mkv"@,
        "gz"@ != "mov"@,
        "gz"@ != "mp3"@,
        "gz"@ != "flac"@,
        "gz"@ != "ts"@,
        "7z"@ != "rs"@,
        "7z"@ != "c"@,
        "7z"@ != "cpp"@,
        "7z"@ != "py"@,
        "7z"@ != "js"@,
        "7z"@ != "txt"@,
        "7z"@ != "md"@,
        "7z"@ != "png"@,
        "7z"@ != "jpg"@,
        "7z"@ != "jpeg"@,
        "7z"@ != "svg"@,
        "7z"@ != "webp"@,
        "7z"@ != "mp4"@,
        "7z"@ != "mkv"@,
        "7z"@ != "mov"@,
        "7z"@ != "mp3"@,
        "7z"@ != "flac"@,
        "7z"@ != "ts"@,
        "ts"@ != "rs"@,
        "ts"@ != "c"@,
        "ts"@ != "cpp"@,
        "ts"@ != "py"@,
        "ts"@ != "js"@,
        "ts"@ != "txt"@,
        "ts"@ != "md"@,
{
    reveal_strlit("rs");
    reveal_strlit("c");
    reveal_strlit("cpp");
    reveal_strlit("py");
    reveal_strlit("js");
    reveal_strlit("txt");
    reveal_strlit("md");
    reveal_strlit("png");
    reveal_strlit("jpg");
    reveal_strlit("jpeg");
    reveal_strlit("svg");
    reveal_strlit("webp");
    reveal_strlit("mp4");
    reveal_strlit("mkv");
    reveal_strlit("mov");
    reveal_strlit("mp3");
    reveal_strlit("flac");
    reveal_strlit("zip");
    reveal_strlit("tar");
    reveal_strlit("gz");
    reveal_strlit("7z");
    reveal_strlit("ts");
    assert("png"@.len() != "rs"@.len());
    assert("png"@.len() != "c"@.len());
    assert("png"@[0] != "cpp"@[0]);
    assert("png"@.len() != "py"@.len());
    assert("png"@.len() != "js"@.len());
    assert("png"@[0] != "txt"@[0]);
    assert("png"@.len() != "md"@.len());
    assert("png"@.len() != "ts"@.len());
    assert("jpg"@.len() != "rs"@.len());
    assert("jpg"@.len() != "c"@.len());
    assert("jpg"@[0] != "cpp"@[0]);
    assert("jpg"@.len() != "py"@.len());
    assert("jpg"@.len() != "js"@.len());
    assert("jpg"@[0] != "txt"@[0]);
    assert("jpg"@.len() != "md"@.len());
    assert("jpg"@.len() != "ts"@.len());
    assert("jpeg"@.len() != "rs"@.len());
    assert("jpeg"@.len() != "c"@.len());
    assert("jpeg"@.len() != "cpp"@.len());
    assert("jpeg"@.len() != "py"@.len());
    assert("jpeg"@.len() != "js"@.len());
    assert("jpeg"@.len() != "txt"@.len());
    assert("jpeg"@.len() != "md"@.len());
    assert("jpeg"@.len() != "ts"@.len());
    assert("svg"@.len() != "rs"@.len());
    assert("svg"@.len() != "c"@.len());
    assert("svg"@[0] != "cpp"@[0]);
    assert("svg"@.len() != "py"@.len());
    assert("svg"@.len() != "js"@.len());
    assert("svg"@[0] != "txt"@[0]);
    assert("svg"@.len() != "md"@.len());
    assert("svg"@.len() != "ts"@.len());
    assert("webp"@.len() != "rs"@.len());
    assert("webp"@.len() != "c"@.len());
    assert("webp"@.len() != "cpp"@.len());
    assert("webp"@.len() != "py"@.len());
    assert("webp"@.len() != "js"@.len());
    assert("webp"@.len() != "txt"@.len());
    assert("webp"@.len() != "md"@.len());
    assert("webp"@.len() != "ts"@.len());
    assert("mp4"@.len() != "rs"@.len());
    assert("mp4"@.len() != "c"@.len());
    assert("mp4"@[0] != "cpp"@[0]);
    assert("mp4"@.len() != "py"@.len());
    assert("mp4"@.len() != "js"@.len());
    assert("mp4"@[0] != "txt"@[0]);
    assert("mp4"@.len() != "md"@.len());
    assert("mp4"@[0] != "png"@[0]);
    assert("mp4"@[0] != "jpg"@[0]);
    assert("mp4"@.len() != "jpeg"@.len());
    assert("mp4"@[0] != "svg"@[0]);
    assert("mp4"@.len() != "webp"@.len());
    assert("mp4"@.len() != "ts"@.len());
    assert("mkv"@.len() != "rs"@.len());
    assert("mkv"@.len() != "c"@.len());
    assert("mkv"@[0] != "cpp"@[0]);
    assert("mkv"@.len() != "py"@.len());
    assert("mkv"@.len() != "js"@.len());
    assert("mkv"@[0] != "txt"@[0]);
    assert("mkv"@.len() != "md"@.len());
    assert("mkv"@[0] != "png"@[0]);
    assert("mkv"@[0] != "jpg"@[0]);
    assert("mkv"@.len() != "jpeg"@.len());
    assert("mkv"@[0] != "svg"@[0]);
    assert("mkv"@.len() != "webp"@.len());
    assert("mkv"@.len() != "ts"@.len());
    assert("mov"@.len() != "rs"@.len());
    assert("mov"@.len() != "c"@.len());
    assert("mov"@[0] != "cpp"@[0]);
    assert("mov"@.len() != "py"@.len());
    assert("mov"@.len() != "js"@.len());
    assert("mov"@[0] != "txt"@[0]);
    assert("mov"@.len() != "md"@.len());
    assert("mov"@[0] != "png"@[0]);
    assert("mov"@[0] != "jpg"@[0]);
    assert("mov"@.len() != "jpeg"@.len());
    assert("mov"@[0] != "svg"@[0]);
    assert("mov"@.len() != "webp"@.len());
    assert("mov"@.len() != "ts"@.len());
    assert("mp3"@.len() != "rs"@.len());
    assert("mp3"@.len() != "c"@.len());
    assert("mp3"@[0] != "cpp"@[0]);
    assert("mp3"@.len() != "py"@.len());
    assert("mp3"@.len() != "js"@.len());
    assert("mp3"@[0] != "txt"@[0]);
    assert("mp3"@.len() != "md"@.len());
    assert("mp3"@[0] != "png"@[0]);
    assert("mp3"@[0] != "jpg"@[0]);
    assert("mp3"@.len() != "jpeg"@.len());
    assert("mp3"@[0] != "svg"@[0]);
    assert("mp3"@.len() != "webp"@.len());
    assert("mp3"@.len() != "ts"@.len());
    assert("flac"@.len() != "rs"@.len());
    assert("flac"@.len() != "c"@.len());
    assert("flac"@.len() != "cpp"@.len());
    assert("flac"@.len() != "py"@.len());
    assert("flac"@.len() != "js"@.len());
    assert("flac"@.len() != "txt"@.len());
    assert("flac"@.len() != "md"@.len());
    assert("flac"@.len() != "png"@.len());
    assert("flac"@.len() != "jpg"@.len());
    assert("flac"@[0] != "jpeg"@[0]);
    assert("flac"@.len() != "svg"@.len());
    assert("flac"@[0] != "webp"@[0]);
    assert("flac"@.len() != "ts"@.len());
    assert("zip"@.len() != "rs"@.len());
    assert("zip"@.len() != "c"@.len());
    assert("zip"@[0] != "cpp"@[0]);
    assert("zip"@.len() != "py"@.len());
    assert("zip"@.len() != "js"@.len());
    assert("zip"@[0] != "txt"@[0]);
    assert("zip"@.len() != "md"@.len());
    assert("zip"@[0] != "png"@[0]);
    assert("zip"@[0] != "jpg"@[0]);
    assert("zip"@.len() != "jpeg"@.len());
    assert("zip"@[0] != "svg"@[0]);
    assert("zip"@.len() != "webp"@.len());
    assert("zip"@[0] != "mp4"@[0]);
    assert("zip"@[0] != "mkv"@[0]);
    assert("zip"@[0] != "mov"@[0]);
    assert("zip"@[0] != "mp3"@[0]);
    assert("zip"@.len() != "flac"@.len());
    assert("zip"@.len() != "ts"@.len());
    assert("tar"@.len() != "rs"@.len());
    assert("tar"@.len() != "c"@.len());
    assert("tar"@[0] != "cpp"@[0]);
    assert("tar"@.len() != "py"@.len());
    assert("tar"@.len() != "js"@.len());
    assert("tar"@[1] != "txt"@[1]);
    assert("tar"@.len() != "md"@.len());
    assert("tar"@[0] != "png"@[0]);
    assert("tar"@[0] != "jpg"@[0]);
    assert("tar"@.len() != "jpeg"@.len());
    assert("tar"@[0] != "svg"@[0]);
    assert("tar"@.len() != "webp"@.len());
    assert("tar"@[0] != "mp4"@[0]);
    assert("tar"@[0] != "mkv"@[0]);
    assert("tar"@[0] != "mov"@[0]);
    assert("tar"@[0] != "mp3"@[0]);
    assert("tar"@.len() != "flac"@.len());
    assert("tar"@.len() != "ts"@.len());
    assert("gz"@[0] != "rs"@[0]);
    assert("gz"@.len() != "c"@.len());
    assert("gz"@.len() != "cpp"@.len());
    assert("gz"@[0] != "py"@[0]);
    assert("gz"@[0] != "js"@[0]);
    assert("gz"@.len() != "txt"@.len());
    assert("gz"@[0] != "md"@[0]);
    assert("gz"@.len() != "png"@.len());
    assert("gz"@.len() != "jpg"@.len());
    assert("gz"@.len() != "jpeg"@.len());
    assert("gz"@.len() != "svg"@.len());
    assert("gz"@.len() != "webp"@.len());
    assert("gz"@.len() != "mp4"@.len());
    assert("gz"@.len() != "mkv"@.len());
    assert("gz"@.len() != "mov"@.len());
    assert("gz"@.len() != "mp3"@.len());
    assert("gz"@.len() != "flac"@.len());
    assert("gz"@[0] != "ts"@[0]);
    assert("7z"@[0] != "rs"@[0]);
    assert("7z"@.len() != "c"@.len());
    assert("7z"@.len() != "cpp"@.len());
    assert("7z"@[0] != "py"@[0]);
    assert("7z"@[0] != "js"@[0]);
    assert("7z"@.len() != "txt"@.len());
    assert("7z"@[0] != "md"@[0]);
    assert("7z"@.len() != "png"@.len());
    assert("7z"@.len() != "jpg"@.len());
    assert("7z"@.len() != "jpeg"@.len());
    assert("7z"@.len() != "svg"@.len());
    assert("7z"@.len() != "webp"@.len());
    assert("7z"@.len() != "mp4"@.len());
    assert("7z"@.len() != "mkv"@.len());
    assert("7z"@.len() != "mov"@.len());
    assert("7z"@.len() != "mp3"@.len());
    assert("7z"@.len() != "flac"@.len());
    assert("7z"@[0] != "ts"@[0]);
    assert("ts"@[0] != "rs"@[0]);
    assert("ts"@.len() != "c"@.len());
    assert("ts"@.len() != "cpp"@.len());
    assert("ts"@[0] != "py"@[0]);
    assert("ts"@[0] != "js"@[0]);
    assert("ts"@.len() != "txt"@.len());
    assert("ts"@[0] != "md"@[0]);
}

/// The basic viewers' extension table, entry by entry: rs, c, cpp, py, js,
/// txt and md are source (and ts too, in the path-keyed viewer only); png,
/// jpg, jpeg, svg and webp are images; mp4, mkv, mov, mp3 and flac are
/// media; zip, tar, gz and 7z are archives.  Whatever has a class is one of
/// these.
pub proof fn law_basic_extension_table(e: Seq<char>, ts_is_source: bool)
    ensures
        crate::color::basic_extension_class("rs"@, ts_is_source) == Some(ColorClass::Source),
        crate::color::basic_extension_class("c"@, ts_is_source) == Some(ColorClass::Source),
        crate::color::basic_extension_class("cpp"@, ts_is_source) == Some(ColorClass::Source),
        crate::color::basic_extension_class("py"@, ts_is_source) == Some(ColorClass::Source),
        crate::color::basic_extension_class("js"@, ts_is_source) == Some(ColorClass::Source),
        crate::color::basic_extension_class("txt"@, ts_is_source) == Some(ColorClass::Source),
        crate::color::basic_extension_class("md"@, ts_is_source) == Some(ColorClass::Source),
        crate::color::basic_extension_class("png"@, ts_is_source) == Some(ColorClass::Image),
        crate::color::basic_extension_class("jpg"@, ts_is_source) == Some(ColorClass::Image),
        crate::color::basic_extension_class("jpeg"@, ts_is_source) == Some(ColorClass::Image),
        crate::color::basic_extension_class("svg"@, ts_is_source) == Some(ColorClass::Image),
        crate::color::basic_extension_class("webp"@, ts_is_source) == Some(ColorClass::Image),
        crate::color::basic_extension_class("mp4"@, ts_is_source) == Some(ColorClass::Media),
        crate::color::basic_extension_class("mkv"@, ts_is_source) == Some(ColorClass::Media),
        crate::color::basic_extension_class("mov"@, ts_is_source) == Some(ColorClass::Media),
        crate::color::basic_extension_class("mp3"@, ts_is_source) == Some(ColorClass::Media),
        crate::color::basic_extension_class("flac"@, ts_is_source) == Some(ColorClass::Media),
        crate::color::basic_extension_class("zip"@, ts_is_source) == Some(ColorClass::Archive),
        crate::color::basic_extension_class("tar"@, ts_is_source) == Some(ColorClass::Archive),
        crate::color::basic_extension_class("gz"@, ts_is_source) == Some(ColorClass::Archive),
        crate::color::basic_extension_class("7z"@, ts_is_source) == Some(ColorClass::Archive),
        crate::color::basic_extension_class("ts"@, true) == Some(ColorClass::Source),
        crate::color::basic_extension_class("ts"@, false) is None,
        crate::color::basic_extension_class(e, ts_is_source) is Some ==> (e == "rs"@ || e == "c"@ || e == "cpp"@ || e == "py"@ || e == "js"@ || e == "txt"@ || e == "md"@ || e == "png"@ || e == "jpg"@ || e == "jpeg"@ || e == "svg"@ || e == "webp"@ || e == "mp4"@ || e == "mkv"@ || e == "mov"@ || e == "mp3"@ || e == "flac"@ || e == "zip"@ || e == "tar"@ || e == "gz"@ || e == "7z"@ || (ts_is_source && e == "ts"@)),
{
    lemma_basic_table_literals_apart();
}

} // verus!
