//! Unix path handling on text: components, prefixes, file names and
//! extensions, and the system trees that a disk scan skips.

use vstd::prelude::*;
use crate::text::{chars_of, push_char};

verus! {

/// The pieces of `s` between '/' separators (an empty piece where two
/// separators meet or at either end).
pub open spec fn segments(s: Seq<char>) -> Seq<Seq<char>>
    decreases s.len(),
{
    if s.len() == 0 {
        seq![Seq::empty()]
    } else {
        let before = segments(s.drop_last());
        if s.last() == '/' {
            before.push(Seq::empty())
        } else {
            before.update(before.len() - 1, before.last().push(s.last()))
        }
    }
}

/// A piece that names something: neither empty nor ".".
pub open spec fn is_named_segment(seg: Seq<char>) -> bool {
    seg.len() != 0 && seg != seq!['.']
}

/// The named pieces, in order.
pub open spec fn named_segments(segs: Seq<Seq<char>>) -> Seq<Seq<char>>
    decreases segs.len(),
{
    if segs.len() == 0 {
        Seq::empty()
    } else {
        let before = named_segments(segs.drop_last());
        if is_named_segment(segs.last()) {
            before.push(segs.last())
        } else {
            before
        }
    }
}

/// The components of a Unix path: "/" for a leading root, "." for a leading
/// current-directory piece of a relative path, then every named piece
/// ("." pieces elsewhere and empty pieces are dropped).
pub open spec fn path_components(s: Seq<char>) -> Seq<Seq<char>> {
    if s.len() > 0 && s[0] == '/' {
        seq![seq!['/']] + named_segments(segments(s))
    } else if segments(s)[0] == seq!['.'] {
        seq![seq!['.']] + named_segments(segments(s))
    } else {
        named_segments(segments(s))
    }
}

proof fn lemma_segments_nonempty(s: Seq<char>)
    ensures
        segments(s).len() >= 1,
    decreases s.len(),
{
    if s.len() > 0 {
        lemma_segments_nonempty(s.drop_last());
    }
}

fn is_dot_segment(seg: &String) -> (r: bool)
    ensures
        r == (seg@ == seq!['.']),
{
    let r = seg.unicode_len() == 1 && seg.as_str().get_char(0) == '.';
    assert(r == (seg@ == seq!['.'])) by {
        if seg@.len() == 1 {
            assert(seg@ =~= seq![seg@[0]]);
        }
    }
    r
}

/// Splits `s` into its path components.
pub fn path_components_of(s: &str) -> (res: Vec<String>)
    ensures
        res@.len() == path_components(s@).len(),
        forall|i: int| 0 <= i < res@.len() ==> #[trigger] res@[i]@ == path_components(s@)[i],
{
    let cs = chars_of(s);
    let n = cs.len();
    let mut named: Vec<String> = Vec::new();
    let mut cur = String::new();
    let mut seen_slash = false;
    let mut first_is_dot = false;
    let mut i: usize = 0;
    proof {
        assert(s@.take(0) =~= Seq::<char>::empty());
    }
    while i < n
        invariant
            n == s@.len(),
            cs@ == s@,
            i <= n,
            segments(s@.take(i as int)).len() >= 1,
            cur@ == segments(s@.take(i as int)).last(),
            !seen_slash ==> segments(s@.take(i as int)).len() == 1,
            seen_slash ==> segments(s@.take(i as int)).len() >= 2
                && first_is_dot == (segments(s@.take(i as int))[0] == seq!['.']),
            named@.len() == named_segments(segments(s@.take(i as int)).drop_last()).len(),
            forall|k: int| 0 <= k < named@.len() ==> #[trigger] named@[k]@
                == named_segments(segments(s@.take(i as int)).drop_last())[k],
        decreases n - i,
    {
        let c = cs[i];
        let ghost pre = s@.take(i as int);
        let ghost post = s@.take(i + 1);
        proof {
            assert(post.drop_last() =~= pre);
            assert(post.last() == c);
            lemma_segments_nonempty(pre);
        }
        if c == '/' {
            let ghost segs = segments(pre);
            assert(segments(post) == segs.push(Seq::empty()));
            assert(segments(post).drop_last() =~= segs);
            assert(segs =~= segs.drop_last().push(segs.last()));
            let keep = cur.unicode_len() != 0 && !is_dot_segment(&cur);
            if !seen_slash {
                first_is_dot = is_dot_segment(&cur);
                seen_slash = true;
            }
            let finished = cur;
            cur = String::new();
            if keep {
                named.push(finished);
            }
            assert(named_segments(segs) == if is_named_segment(segs.last()) {
                named_segments(segs.drop_last()).push(segs.last())
            } else {
                named_segments(segs.drop_last())
            });
            assert(cur@ =~= segments(post).last());
        } else {
            push_char(&mut cur, c);
            let ghost segs = segments(pre);
            assert(segments(post) == segs.update(segs.len() - 1, segs.last().push(c)));
            assert(segments(post).drop_last() =~= segs.drop_last());
        }
        i = i + 1;
    }
    proof {
        assert(s@.take(n as int) =~= s@);
        lemma_segments_nonempty(s@);
    }
    let ghost segs = segments(s@);
    assert(segs =~= segs.drop_last().push(segs.last()));
    let keep = cur.unicode_len() != 0 && !is_dot_segment(&cur);
    if !seen_slash {
        first_is_dot = is_dot_segment(&cur);
    }
    if keep {
        named.push(cur);
    }
    let ghost all = named_segments(segs);
    assert(named@.len() == all.len());
    assert(first_is_dot == (segs[0] == seq!['.']));
    let rooted = n > 0 && cs[0] == '/';
    let mut res: Vec<String> = Vec::new();
    if rooted {
        let mut root = String::new();
        push_char(&mut root, '/');
        res.push(root);
    } else if first_is_dot {
        let mut dot = String::new();
        push_char(&mut dot, '.');
        res.push(dot);
    }
    let ghost lead = res@.len();
    assert(forall|k: int| 0 <= k < lead ==> #[trigger] res@[k]@ == path_components(s@)[k]);
    let mut j: usize = 0;
    let total = named.len();
    while j < total
        invariant
            total == named@.len(),
            j <= total,
            res@.len() == lead + j,
            lead <= 1,
            forall|k: int| 0 <= k < lead ==> #[trigger] res@[k]@ == path_components(s@)[k],
            forall|k: int| 0 <= k < j ==> #[trigger] res@[lead + k]@ == named@[k]@,
        decreases total - j,
    {
        res.push(named[j].clone());
        j = j + 1;
    }
    assert forall|k: int| 0 <= k < res@.len() implies #[trigger] res@[k]@ == path_components(s@)[k] by {
        if k >= lead {
            assert(res@[lead + (k - lead)]@ == named@[k - lead]@);
        }
    }
    res
}

/// Whether `s` and `w` hold the same characters.
pub fn same_text(s: &str, w: &str) -> (r: bool)
    ensures
        r == (s@ == w@),
{
    let a = chars_of(s);
    let b = chars_of(w);
    let n = a.len();
    if n != b.len() {
        return false;
    }
    let mut i: usize = 0;
    while i < n
        invariant
            a@ == s@,
            b@ == w@,
            n == s@.len(),
            n == w@.len(),
            i <= n,
            forall|k: int| 0 <= k < i ==> s@[k] == w@[k],
        decreases n - i,
    {
        if a[i] != b[i] {
            return false;
        }
        i = i + 1;
    }
    assert(s@ =~= w@);
    true
}

/// Whether `s` begins with the characters of `prefix`.
pub fn starts_with_text(s: &str, prefix: &str) -> (r: bool)
    ensures
        r == (prefix@.len() <= s@.len() && s@.take(prefix@.len() as int) == prefix@),
{
    let a = chars_of(s);
    let b = chars_of(prefix);
    let m = b.len();
    if m > a.len() {
        return false;
    }
    let mut i: usize = 0;
    while i < m
        invariant
            a@ == s@,
            b@ == prefix@,
            m == prefix@.len(),
            m <= s@.len(),
            i <= m,
            forall|k: int| 0 <= k < i ==> s@[k] == prefix@[k],
        decreases m - i,
    {
        if a[i] != b[i] {
            assert(s@.take(m as int)[i as int] != prefix@[i as int]);
            return false;
        }
        i = i + 1;
    }
    assert(s@.take(m as int) =~= prefix@);
    true
}

/// The last component of a path when it names a file or directory (not the
/// root, ".", or "..").
pub open spec fn spec_file_name(s: Seq<char>) -> Option<Seq<char>> {
    let c = path_components(s);
    if c.len() > 0 && c.last() != seq!['/'] && c.last() != seq!['.'] && c.last() != seq!['.', '.'] {
        Some(c.last())
    } else {
        None
    }
}

/// Index of the last '.' in `f`.
pub open spec fn last_dot(f: Seq<char>) -> Option<int>
    decreases f.len(),
{
    if f.len() == 0 {
        None
    } else if f.last() == '.' {
        Some(f.len() - 1)
    } else {
        last_dot(f.drop_last())
    }
}

/// The extension of a path: what follows the last '.' of its file name,
/// when that '.' is not the name's first character.
pub open spec fn spec_extension(s: Seq<char>) -> Option<Seq<char>> {
    match spec_file_name(s) {
        Some(f) => match last_dot(f) {
            Some(d) => if d > 0 {
                Some(f.subrange(d + 1, f.len() as int))
            } else {
                None
            },
            None => None,
        },
        None => None,
    }
}

proof fn lemma_last_dot(f: Seq<char>)
    ensures
        match last_dot(f) {
            Some(d) => 0 <= d < f.len() && f[d] == '.' && forall|k: int| d < k < f.len() ==> f[k] != '.',
            None => forall|k: int| 0 <= k < f.len() ==> f[k] != '.',
        },
    decreases f.len(),
{
    if f.len() > 0 && f.last() != '.' {
        let g = f.drop_last();
        lemma_last_dot(g);
        assert forall|k: int| 0 <= k < g.len() implies g[k] == f[k] by {}
    }
}

/// The file name of a path (see [`spec_file_name`]).
pub fn file_name_of(path: &str) -> (r: Option<String>)
    ensures
        match r {
            Some(f) => spec_file_name(path@) == Some(f@),
            None => spec_file_name(path@) is None,
        },
{
    let comps = path_components_of(path);
    let n = comps.len();
    if n == 0 {
        return None;
    }
    let last = &comps[n - 1];
    let ghost lv = path_components(path@).last();
    assert(last@ == lv);
    proof {
        reveal_strlit("/");
        reveal_strlit(".");
        reveal_strlit("..");
        assert(seq!['/'] =~= "/"@);
        assert(seq!['.'] =~= "."@);
        assert(seq!['.', '.'] =~= ".."@);
    }
    if same_text(last.as_str(), "/") || same_text(last.as_str(), ".") || same_text(last.as_str(), "..") {
        return None;
    }
    Some(last.clone())
}

/// The extension of a path (see [`spec_extension`]).
pub fn extension_of(path: &str) -> (r: Option<String>)
    ensures
        match r {
            Some(e) => spec_extension(path@) == Some(e@),
            None => spec_extension(path@) is None,
        },
{
    let name = file_name_of(path);
    match name {
        None => None,
        Some(f) => {
            assert(spec_file_name(path@) == Some(f@));
            let fc = chars_of(f.as_str());
            let n = fc.len();
            let mut i: usize = n;
            proof {
                lemma_last_dot(f@);
            }
            while i > 0
                invariant
                    n == f@.len(),
                    fc@ == f@,
                    i <= n,
                    spec_file_name(path@) == Some(f@),
                    forall|k: int| i <= k < n ==> f@[k] != '.',
                decreases i,
            {
                if fc[i - 1] == '.' {
                    proof {
                        lemma_last_dot(f@);
                        match last_dot(f@) {
                            Some(d) => {
                                assert(d >= i - 1);
                                assert(d <= i - 1);
                            },
                            None => {
                                assert(f@[i - 1] == '.');
                            },
                        }
                    }
                    assert(last_dot(f@) == Some((i - 1) as int));
                    if i - 1 == 0 {
                        return None;
                    }
                    return Some(String::from_str(f.as_str().substring_char(i, n)));
                }
                i = i - 1;
            }
            assert(last_dot(f@) is None) by {
                lemma_last_dot(f@);
            }
            None
        },
    }
}

/// The components of `path` after those of `base`, when `base`'s components
/// begin `path`'s.
pub open spec fn spec_relative_components(path: Seq<char>, base: Seq<char>) -> Option<Seq<Seq<char>>> {
    let p = path_components(path);
    let b = path_components(base);
    if b.len() <= p.len() && p.take(b.len() as int) == b {
        Some(p.skip(b.len() as int))
    } else {
        None
    }
}

/// Strips `base` from the front of `path`, component by component.
pub fn relative_components(path: &str, base: &str) -> (r: Option<Vec<String>>)
    ensures
        r is None <==> spec_relative_components(path@, base@) is None,
        r matches Some(v) ==> v@.len() == spec_relative_components(path@, base@)->0.len(),
        r matches Some(v) ==> forall|i: int| 0 <= i < v@.len()
            ==> #[trigger] v@[i]@ == spec_relative_components(path@, base@)->0[i],
{
    let p = path_components_of(path);
    let b = path_components_of(base);
    let ghost ps = path_components(path@);
    let ghost bs = path_components(base@);
    if b.len() > p.len() {
        return None;
    }
    let mut i: usize = 0;
    while i < b.len()
        invariant
            b@.len() <= p@.len(),
            p@.len() == ps.len(),
            b@.len() == bs.len(),
            forall|k: int| 0 <= k < p@.len() ==> #[trigger] p@[k]@ == ps[k],
            forall|k: int| 0 <= k < b@.len() ==> #[trigger] b@[k]@ == bs[k],
            i <= b@.len(),
            forall|k: int| 0 <= k < i ==> ps[k] == bs[k],
            ps == path_components(path@),
            bs == path_components(base@),
        decreases b@.len() - i,
    {
        if !same_text(p[i].as_str(), b[i].as_str()) {
            assert(ps.take(bs.len() as int)[i as int] != bs[i as int]);
            assert(ps.take(bs.len() as int) != bs);
            return None;
        }
        i = i + 1;
    }
    assert(ps.take(bs.len() as int) =~= bs);
    let mut rest: Vec<String> = Vec::new();
    let mut j: usize = b.len();
    while j < p.len()
        invariant
            b@.len() <= j <= p@.len(),
            p@.len() == ps.len(),
            b@.len() == bs.len(),
            forall|k: int| 0 <= k < p@.len() ==> #[trigger] p@[k]@ == ps[k],
            rest@.len() == j - b@.len(),
            forall|k: int| 0 <= k < rest@.len() ==> #[trigger] rest@[k]@ == ps[b@.len() + k],
        decreases p@.len() - j,
    {
        rest.push(p[j].clone());
        j = j + 1;
    }
    Some(rest)
}

/// Whether a path lies in one of Linux's virtual or device trees
/// (/proc, /sys, /dev, /run), compared component by component.
pub open spec fn spec_is_virtual_or_special_fs(s: Seq<char>) -> bool {
    let c = path_components(s);
    c.len() >= 2 && c[0] == seq!['/'] && (c[1] == seq!['p', 'r', 'o', 'c'] || c[1] == seq!['s', 'y', 's']
        || c[1] == seq!['d', 'e', 'v'] || c[1] == seq!['r', 'u', 'n'])
}

/// Whether the scanner should stay out of `path` on Linux.
pub fn is_virtual_or_special_fs(path: &str) -> (r: bool)
    ensures
        r == spec_is_virtual_or_special_fs(path@),
{
    let c = path_components_of(path);
    proof {
        reveal_strlit("/");
        reveal_strlit("proc");
        reveal_strlit("sys");
        reveal_strlit("dev");
        reveal_strlit("run");
        assert(seq!['/'] =~= "/"@);
        assert(seq!['p', 'r', 'o', 'c'] =~= "proc"@);
        assert(seq!['s', 'y', 's'] =~= "sys"@);
        assert(seq!['d', 'e', 'v'] =~= "dev"@);
        assert(seq!['r', 'u', 'n'] =~= "run"@);
    }
    if c.len() < 2 || !same_text(c[0].as_str(), "/") {
        return false;
    }
    let second = c[1].as_str();
    same_text(second, "proc") || same_text(second, "sys") || same_text(second, "dev") || same_text(second, "run")
}

/// Whether the text of a path begins with "/proc", "/sys" or "/dev".
pub open spec fn spec_has_virtual_prefix(s: Seq<char>) -> bool {
    let starts = |p: Seq<char>| p.len() <= s.len() && s.take(p.len() as int) == p;
    starts(seq!['/', 'p', 'r', 'o', 'c']) || starts(seq!['/', 's', 'y', 's']) || starts(seq!['/', 'd', 'e', 'v'])
}

/// Whether the basic scanner skips `path` (a plain text-prefix test).
pub fn has_virtual_prefix(path: &str) -> (r: bool)
    ensures
        r == spec_has_virtual_prefix(path@),
{
    proof {
        reveal_strlit("/proc");
        reveal_strlit("/sys");
        reveal_strlit("/dev");
        assert(seq!['/', 'p', 'r', 'o', 'c'] =~= "/proc"@);
        assert(seq!['/', 's', 'y', 's'] =~= "/sys"@);
        assert(seq!['/', 'd', 'e', 'v'] =~= "/dev"@);
    }
    starts_with_text(path, "/proc") || starts_with_text(path, "/sys") || starts_with_text(path, "/dev")
}

/// Whether two paths have the same components (as `Path` equality has it).
pub fn same_path(a: &str, b: &str) -> (r: bool)
    ensures
        r == (path_components(a@) == path_components(b@)),
{
    let ca = path_components_of(a);
    let cb = path_components_of(b);
    let ghost sa = path_components(a@);
    let ghost sb = path_components(b@);
    if ca.len() != cb.len() {
        return false;
    }
    let mut i: usize = 0;
    while i < ca.len()
        invariant
            ca@.len() == cb@.len(),
            ca@.len() == sa.len(),
            cb@.len() == sb.len(),
            forall|k: int| 0 <= k < ca@.len() ==> #[trigger] ca@[k]@ == sa[k],
            forall|k: int| 0 <= k < cb@.len() ==> #[trigger] cb@[k]@ == sb[k],
            i <= ca@.len(),
            forall|k: int| 0 <= k < i ==> sa[k] == sb[k],
            sa == path_components(a@),
            sb == path_components(b@),
        decreases ca@.len() - i,
    {
        if !same_text(ca[i].as_str(), cb[i].as_str()) {
            assert(sa[i as int] != sb[i as int]);
            return false;
        }
        i = i + 1;
    }
    assert(sa =~= sb);
    true
}

/// A path taken relative to itself has no components left.
pub proof fn law_relative_to_itself(s: Seq<char>)
    ensures
        spec_relative_components(s, s) == Some(Seq::<Seq<char>>::empty()),
{
    let c = path_components(s);
    assert(c.take(c.len() as int) =~= c);
    assert(c.skip(c.len() as int) =~= Seq::<Seq<char>>::empty());
}

} // verus!
