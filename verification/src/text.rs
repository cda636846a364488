//! Character-level string helpers and label truncation.

use vstd::prelude::*;

verus! {

/// Appends one character to a `String` (`String::push`).
/// Claims: the new contents are the old contents followed by `c`.
#[verifier::external_body]
pub(crate) fn push_char(s: &mut String, c: char)
    ensures
        final(s)@ == old(s)@.push(c),
{
    s.push(c);
}

/// The characters of `s` in order, read in one pass.
pub fn chars_of(s: &str) -> (v: Vec<char>)
    ensures
        v@ == s@,
{
    broadcast use vstd::string::axiom_spec_iter;
    let mut v: Vec<char> = Vec::new();
    for c in it: s.chars()
        invariant
            v@ == it.seq().take(it.index()),
    {
        v.push(c);
    }
    assert(v@ =~= s@);
    v
}

/// The label as it is shown in a cell `max_chars` characters wide.
pub open spec fn spec_truncate_label(label: Seq<char>, max_chars: nat) -> Seq<char> {
    if max_chars <= 3 || label.len() <= max_chars {
        label
    } else {
        label.subrange(0, max_chars - 2) + seq!['.', '.']
    }
}

/// A shortened label fits its width and keeps the label's beginning: for
/// widths above three it has at most `max_chars` characters, and it is
/// either the whole label or a prefix of it followed by "..".
pub proof fn law_truncated_label_fits(label: Seq<char>, max_chars: nat)
    ensures
        max_chars > 3 ==> spec_truncate_label(label, max_chars).len() <= max_chars,
        spec_truncate_label(label, max_chars) == label || (max_chars > 3
            && spec_truncate_label(label, max_chars).len() == max_chars
            && spec_truncate_label(label, max_chars).take(max_chars - 2) == label.take(max_chars - 2)
            && spec_truncate_label(label, max_chars).skip(max_chars - 2) == seq!['.', '.']),
{
    if !(max_chars <= 3 || label.len() <= max_chars) {
        let r = spec_truncate_label(label, max_chars);
        assert(r.take(max_chars - 2) =~= label.take(max_chars - 2));
        assert(r.skip(max_chars - 2) =~= seq!['.', '.']);
    }
}

/// Shortens `label` to at most `max_chars` characters, cutting only at
/// character boundaries and marking the cut with "..".  Widths of three
/// characters or less leave the label unchanged.
pub fn truncate_label(label: &str, max_chars: usize) -> (res: String)
    ensures
        res@ == spec_truncate_label(label@, max_chars as nat),
{
    let n = label.unicode_len();
    if max_chars <= 3 || n <= max_chars {
        return String::from_str(label);
    }
    let prefix = label.substring_char(0, max_chars - 2);
    let mut res = String::from_str(prefix);
    push_char(&mut res, '.');
    push_char(&mut res, '.');
    assert(res@ =~= label@.subrange(0, max_chars - 2) + seq!['.', '.']);
    res
}

} // verus!

verus! {

/// Whether `pattern` occurs in `s`.
pub open spec fn spec_contains(s: Seq<char>, pattern: Seq<char>) -> bool {
    exists|i: int| 0 <= i && i + pattern.len() <= s.len() && #[trigger] s.subrange(i, i + pattern.len()) == pattern
}

/// Whether `pattern` occurs in `s`.
pub fn contains_text(s: &str, pattern: &str) -> (r: bool)
    ensures
        r == spec_contains(s@, pattern@),
{
    let sc = chars_of(s);
    let pc = chars_of(pattern);
    let n = sc.len();
    let m = pc.len();
    if m > n {
        return false;
    }
    let mut i: usize = 0;
    while i <= n - m
        invariant
            sc@ == s@,
            pc@ == pattern@,
            n == s@.len(),
            m == pattern@.len(),
            m <= n,
            i <= n - m + 1,
            forall|k: int| 0 <= k < i ==> #[trigger] s@.subrange(k, k + m) != pattern@,
        decreases n - i,
    {
        let mut j: usize = 0;
        let mut same = true;
        while j < m
            invariant
                sc@ == s@,
                pc@ == pattern@,
                n == s@.len(),
                m == pattern@.len(),
                i + m <= n,
                j <= m,
                same == forall|k: int| 0 <= k < j ==> s@[i + k] == pattern@[k],
            decreases m - j,
        {
            if sc[i + j] != pc[j] {
                same = false;
            }
            j = j + 1;
        }
        if same {
            assert(s@.subrange(i as int, i + m) =~= pattern@);
            return true;
        }
        assert(s@.subrange(i as int, i + m) != pattern@) by {
            let k = choose|k: int| 0 <= k < m && s@[i + k] != pattern@[k];
            assert(s@.subrange(i as int, i + m)[k] == s@[i + k]);
        }
        i = i + 1;
    }
    false
}

} // verus!
