//! The full viewer's text output: sizes with two decimals and the summary
//! that a scan without a display prints.

use vstd::prelude::*;
use crate::sizes::{decimal, format_size, push_decimal, spec_format_size};
use crate::text::push_char;
use crate::tree::{
    file_bytes, file_count, lemma_view_nodes, restat, sum_tree_stats, view_node, view_nodes, views_sorted_desc,
    FileNode, NodeView,
};

verus! {

/// `b` bytes as text with two decimals, e.g. "5.00 MB".
pub fn format_bytes(b: u64) -> (res: String)
    ensures
        res@ == spec_format_size(b as nat, 2),
{
    format_size(b, 2)
}

/// The first line of the summary: "<root>: <size> in <n> files".
pub open spec fn summary_line(root_name: Seq<char>, bytes: nat, files: nat) -> Seq<char> {
    root_name + ": "@ + spec_format_size(bytes, 2) + " in "@ + decimal(files) + " files"@
}

/// The line for one top-level entry: "<size>\t<name>", with a trailing "/"
/// for a directory.
pub open spec fn entry_line<P, A>(v: NodeView<P, A>) -> Seq<char> {
    spec_format_size(v.size as nat, 2) + seq!['\t'] + v.name + if v.is_dir {
        seq!['/']
    } else {
        Seq::<char>::empty()
    }
}

fn entry_text<P, A>(n: &FileNode<P, A>) -> (s: String)
    ensures
        s@ == entry_line(n@),
{
    let mut s = format_bytes(n.size_bytes);
    push_char(&mut s, '\t');
    s.append(n.name.as_str());
    if n.is_dir {
        push_char(&mut s, '/');
    }
    assert(s@ =~= entry_line(n@));
    s
}

/// Recomputes the tree's sizes, orders the top level by size (largest
/// first) and returns the summary: the total line, then one line per
/// top-level entry in that order.
pub fn headless_report<P, A>(root_name: &str, root: &mut FileNode<P, A>) -> (lines: Vec<String>)
    requires
        file_count(old(root)@) <= u64::MAX,
        file_bytes(old(root)@) <= u64::MAX,
    ensures
        final(root)@ == (NodeView { children: final(root)@.children, ..restat(old(root)@) }),
        final(root)@.children.to_multiset() == restat(old(root)@).children.to_multiset(),
        views_sorted_desc(final(root)@.children),
        lines@.len() == final(root)@.children.len() + 1,
        lines@[0]@ == summary_line(root_name@, file_bytes(old(root)@), file_count(old(root)@)),
        forall|k: int| 0 <= k < final(root)@.children.len() ==> #[trigger] lines@[k + 1]@ == entry_line(
            final(root)@.children[k],
        ),
{
    let (files, bytes) = sum_tree_stats(root);
    root.sort_children_by_size();
    let mut first = String::from_str(root_name);
    first.append(": ");
    let size_text = format_bytes(bytes);
    first.append(size_text.as_str());
    first.append(" in ");
    push_decimal(&mut first, files as u128);
    first.append(" files");
    assert(first@ =~= summary_line(root_name@, bytes as nat, files as nat));
    let mut lines: Vec<String> = Vec::new();
    lines.push(first);
    let n = root.children.len();
    let mut k: usize = 0;
    proof {
        lemma_view_nodes(root.children@);
    }
    while k < n
        invariant
            n == root.children@.len(),
            k <= n,
            lines@.len() == k + 1,
            lines@[0]@ == summary_line(root_name@, file_bytes(old(root)@), file_count(old(root)@)),
            forall|j: int| 0 <= j < n ==> #[trigger] root@.children[j] == view_node(root.children@[j]),
            view_nodes(root.children@).len() == n,
            forall|j: int| 0 <= j < k ==> #[trigger] lines@[j + 1]@ == entry_line(root@.children[j]),
        decreases n - k,
    {
        let line = entry_text(&root.children[k]);
        lines.push(line);
        assert(lines@[k + 1]@ == entry_line(root@.children[k as int]));
        k = k + 1;
    }
    lines
}

} // verus!
