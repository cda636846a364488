//! Verified core of a disk-usage treemap viewer: the file tree and the
//! rules that keep it up to date while a directory is scanned and watched,
//! size and label formatting, path handling, colour classes and the
//! command-line decisions.  Drawing, the float geometry of the layout and
//! all file-system access live in the application around this crate.

pub mod args;
pub mod color;
pub mod laws;
mod moves;
pub mod mvp;
pub mod order;
pub mod paths;
pub mod report;
pub mod scan;
pub mod sizes;
pub mod text;
pub mod tree;
pub mod watch;
