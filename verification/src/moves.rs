//! Moving the items out of a vector one by one, each in constant time.

use vstd::prelude::*;

verus! {

proof fn lemma_pop_multiset<T>(s: Seq<T>)
    requires
        s.len() > 0,
    ensures
        s.to_multiset() =~= s.drop_last().to_multiset().insert(s.last()),
{
    broadcast use vstd::seq_lib::group_to_multiset_ensures;

    assert(s.drop_last().push(s.last()) =~= s);
}

/// Takes the last item of `v`, which is not empty.
pub(crate) fn pop_last<T>(v: &mut Vec<T>) -> (x: T)
    requires
        old(v)@.len() > 0,
    ensures
        final(v)@ == old(v)@.drop_last(),
        x == old(v)@.last(),
        old(v)@.to_multiset() =~= final(v)@.to_multiset().insert(x),
{
    proof {
        lemma_pop_multiset(old(v)@);
    }
    v.pop().unwrap()
}

/// The items of `v` in the opposite order, so that popping them yields
/// them front to back.
pub(crate) fn reversed<T>(v: Vec<T>) -> (r: Vec<T>)
    ensures
        r@.len() == v@.len(),
        forall|j: int| 0 <= j < v@.len() ==> #[trigger] r@[j] == v@[v@.len() - 1 - j],
{
    let ghost s = v@;
    let n = v.len();
    let mut v = v;
    let mut r: Vec<T> = Vec::new();
    while v.len() > 0
        invariant
            n == s.len(),
            v@ == s.take(v@.len() as int),
            r@.len() + v@.len() == n,
            forall|j: int| 0 <= j < r@.len() ==> #[trigger] r@[j] == s[n - 1 - j],
        decreases v@.len(),
    {
        let ghost m = v@.len();
        let x = pop_last(&mut v);
        assert(x == s[m - 1]);
        assert(v@ =~= s.take(m - 1));
        r.push(x);
    }
    r
}

} // verus!
