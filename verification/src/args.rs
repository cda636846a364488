//! Command-line decisions: which directory to show and whether to run
//! without a window.

use vstd::prelude::*;
use crate::paths::{file_name_of, same_text, spec_file_name};

verus! {

/// The flags that ask for the text-only scan.
pub open spec fn is_mode_flag(a: Seq<char>) -> bool {
    a == "--headless"@ || a == "--scan-only"@
}

/// The first argument from position `i` on that is not a mode flag, or "."
/// when there is none.
pub open spec fn target_from(args: Seq<String>, i: int) -> Seq<char>
    decreases args.len() - i,
{
    if i >= args.len() {
        "."@
    } else if !is_mode_flag(args[i]@) {
        args[i]@
    } else {
        target_from(args, i + 1)
    }
}

fn mode_flag(a: &String) -> (r: bool)
    ensures
        r == is_mode_flag(a@),
{
    same_text(a.as_str(), "--headless") || same_text(a.as_str(), "--scan-only")
}

/// The directory to show: the first argument after the program name that
/// is not a mode flag, or "." when there is none.
pub fn target_from_args(args: &[String]) -> (t: String)
    ensures
        t@ == target_from(args@, 1),
{
    let mut i: usize = 1;
    while i < args.len()
        invariant
            1 <= i,
            target_from(args@, i as int) == target_from(args@, 1),
        decreases args@.len() - i,
    {
        if !mode_flag(&args[i]) {
            return args[i].clone();
        }
        i = i + 1;
    }
    String::from_str(".")
}

/// Whether any argument (the program name included) is a mode flag.
pub fn wants_headless(args: &[String]) -> (r: bool)
    ensures
        r == exists|i: int| 0 <= i < args@.len() && is_mode_flag(#[trigger] args@[i]@),
{
    let mut i: usize = 0;
    while i < args.len()
        invariant
            i <= args@.len(),
            forall|j: int| 0 <= j < i ==> !is_mode_flag(#[trigger] args@[j]@),
        decreases args@.len() - i,
    {
        if mode_flag(&args[i]) {
            return true;
        }
        i = i + 1;
    }
    false
}

/// The name the tree's root is shown under: the target's file name, or the
/// whole target when it has none (such as "/").
pub open spec fn spec_root_name(target: Seq<char>) -> Seq<char> {
    match spec_file_name(target) {
        Some(f) => f,
        None => target,
    }
}

/// The name the tree's root is shown under (see [`spec_root_name`]).
pub fn root_name(target_dir: &str) -> (name: String)
    ensures
        name@ == spec_root_name(target_dir@),
{
    match file_name_of(target_dir) {
        Some(f) => f,
        None => String::from_str(target_dir),
    }
}

} // verus!
