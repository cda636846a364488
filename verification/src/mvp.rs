//! The basic viewer's tree: built once by a scan, directories summing the
//! sizes of what they hold (whether nodes are keyed by name or by full
//! path), sizes shown with one decimal.

use vstd::prelude::*;
use crate::color::{
    color_for_name, color_for_path, name_colourable, path_colourable, spec_color_for_name, spec_color_for_path,
    ColorClass,
};
use crate::order::SizeOrdered;
use crate::sizes::{format_size, spec_format_size};

verus! {

/// A scanned file or directory.  `rect` is where the viewer draws it.
pub struct Node<R> {
    pub name: String,
    pub size: u64,
    pub is_dir: bool,
    pub children: Vec<Node<R>>,
    pub color: ColorClass,
    pub rect: R,
}

/// Sum of the sizes of `nodes`.
pub open spec fn sizes_of<R>(nodes: Seq<Node<R>>) -> nat
    decreases nodes.len(),
{
    if nodes.len() == 0 {
        0
    } else {
        sizes_of(nodes.drop_last()) + nodes.last().size as nat
    }
}

/// Files larger than this are taken for bogus sizes.
pub open spec fn size_limit() -> u64 {
    0x1_0000_0000_0000
}

/// Whether the basic scan keeps a file of `size` bytes (empty files and
/// sizes from 2^48 on are left out).
pub open spec fn keeps_file(size: u64) -> bool {
    0 < size < size_limit()
}

/// Whether the basic scan keeps a file of `size` bytes (see
/// [`keeps_file`]).
pub fn file_is_kept(size: u64) -> (r: bool)
    ensures
        r == keeps_file(size),
{
    size > 0 && size < 0x1_0000_0000_0000
}

impl<R> SizeOrdered for Node<R> {
    open spec fn size_key(&self) -> u64 {
        self.size
    }

    fn size_value(&self) -> (r: u64) {
        self.size
    }
}

impl<R> Node<R> {
    /// An empty directory node.
    pub fn new_dir(name: String, rect: R) -> (n: Self)
        ensures
            n.name@ == name@,
            n.size == 0,
            n.is_dir,
            n.children@.len() == 0,
            n.color == ColorClass::Directory,
            n.rect == rect,
    {
        Node { name, size: 0, is_dir: true, children: Vec::new(), color: ColorClass::Directory, rect }
    }

    /// Takes in a scanned subdirectory: kept, and counted in this
    /// directory's size, only when it holds some bytes.
    pub fn absorb_dir(&mut self, child: Node<R>)
        requires
            old(self).size + child.size <= u64::MAX,
        ensures
            child.size > 0 ==> final(self).size == old(self).size + child.size
                && final(self).children@ == old(self).children@.push(child),
            child.size == 0 ==> final(self).size == old(self).size
                && final(self).children@ == old(self).children@,
            old(self).size == sizes_of(old(self).children@) ==> final(self).size == sizes_of(final(self).children@),
            final(self).name == old(self).name,
            final(self).is_dir == old(self).is_dir,
            final(self).color == old(self).color,
            final(self).rect == old(self).rect,
    {
        if child.size > 0 {
            self.size = self.size + child.size;
            self.children.push(child);
            assert(self.children@.drop_last() =~= old(self).children@);
        }
    }

    /// Takes in a scanned file: kept, coloured by its name and counted in
    /// this directory's size, when [`keeps_file`] holds.
    pub fn absorb_file(&mut self, name: String, size: u64, rect: R)
        requires
            keeps_file(size) ==> old(self).size + size <= u64::MAX && name_colourable(name@),
        ensures
            keeps_file(size) ==> final(self).size == old(self).size + size
                && final(self).children@.len() == old(self).children@.len() + 1
                && final(self).children@.drop_last() == old(self).children@
                && final(self).children@.last().name@ == name@
                && final(self).children@.last().size == size
                && !final(self).children@.last().is_dir
                && final(self).children@.last().children@.len() == 0
                && final(self).children@.last().color == spec_color_for_name(name@)
                && final(self).children@.last().rect == rect,
            !keeps_file(size) ==> final(self).size == old(self).size
                && final(self).children@ == old(self).children@,
            old(self).size == sizes_of(old(self).children@) ==> final(self).size == sizes_of(final(self).children@),
            final(self).name == old(self).name,
            final(self).is_dir == old(self).is_dir,
            final(self).color == old(self).color,
            final(self).rect == old(self).rect,
    {
        if file_is_kept(size) {
            self.size = self.size + size;
            let color = color_for_name(name.as_str());
            self.children.push(Node { name, size, is_dir: false, children: Vec::new(), color, rect });
            assert(self.children@.drop_last() =~= old(self).children@);
        }
    }

    /// The path-keyed variant: a kept file (see [`keeps_file`]) is added
    /// under its full path, coloured by it, and counted in this directory's
    /// size, as [`absorb_file`](Self::absorb_file) does.
    pub fn attach_file(&mut self, path: String, size: u64, rect: R)
        requires
            keeps_file(size) ==> old(self).size + size <= u64::MAX && path_colourable(path@),
        ensures
            keeps_file(size) ==> final(self).size == old(self).size + size
                && final(self).children@.len() == old(self).children@.len() + 1
                && final(self).children@.drop_last() == old(self).children@
                && final(self).children@.last().name@ == path@
                && final(self).children@.last().size == size
                && !final(self).children@.last().is_dir
                && final(self).children@.last().children@.len() == 0
                && final(self).children@.last().color == spec_color_for_path(path@)
                && final(self).children@.last().rect == rect,
            !keeps_file(size) ==> final(self).size == old(self).size
                && final(self).children@ == old(self).children@,
            old(self).size == sizes_of(old(self).children@) ==> final(self).size == sizes_of(final(self).children@),
            final(self).name == old(self).name,
            final(self).is_dir == old(self).is_dir,
            final(self).color == old(self).color,
            final(self).rect == old(self).rect,
    {
        if file_is_kept(size) {
            self.size = self.size + size;
            let color = color_for_path(path.as_str());
            self.children.push(Node { name: path, size, is_dir: false, children: Vec::new(), color, rect });
            assert(self.children@.drop_last() =~= old(self).children@);
        }
    }
}

/// `b` bytes as text with one decimal, e.g. "2.0 KB".
pub fn format_bytes(b: u64) -> (res: String)
    ensures
        res@ == spec_format_size(b as nat, 1),
{
    format_size(b, 1)
}

} // verus!
