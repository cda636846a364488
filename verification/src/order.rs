//! Ordering nodes by size, largest first.

use vstd::prelude::*;
use crate::moves::pop_last;

verus! {

broadcast use vstd::seq_lib::group_to_multiset_ensures;

/// Something with a byte size to order by.
pub trait SizeOrdered {
    spec fn size_key(&self) -> u64;

    fn size_value(&self) -> (r: u64)
        ensures
            r == self.size_key();
}

/// Sizes never increase along `s`.
pub open spec fn sorted_by_size_desc<T: SizeOrdered>(s: Seq<T>) -> bool {
    forall|i: int, j: int| 0 <= i < j < s.len() ==> s[i].size_key() >= s[j].size_key()
}

/// Sizes never decrease along `s`.
pub open spec fn sorted_by_size_asc<T: SizeOrdered>(s: Seq<T>) -> bool {
    forall|i: int, j: int| 0 <= i < j < s.len() ==> s[i].size_key() <= s[j].size_key()
}

/// Merges two vectors ordered largest first into one such vector, taking
/// the smaller of the two last elements each time (so each step is a pop)
/// and reversing at the end.
fn merge_desc<T: SizeOrdered>(a: Vec<T>, b: Vec<T>) -> (r: Vec<T>)
    requires
        sorted_by_size_desc(a@),
        sorted_by_size_desc(b@),
    ensures
        r@.to_multiset() == a@.to_multiset().add(b@.to_multiset()),
        r@.len() == a@.len() + b@.len(),
        sorted_by_size_desc(r@),
{
    broadcast use vstd::multiset::group_multiset_axioms;

    let ghost total = a@.to_multiset().add(b@.to_multiset());
    let ghost n = a@.len() + b@.len();
    let mut a = a;
    let mut b = b;
    let mut asc: Vec<T> = Vec::new();
    assert(asc@.to_multiset() =~= vstd::multiset::Multiset::empty());
    while a.len() > 0 || b.len() > 0
        invariant
            sorted_by_size_desc(a@),
            sorted_by_size_desc(b@),
            sorted_by_size_asc(asc@),
            forall|x: int, y: int| 0 <= x < asc@.len() && 0 <= y < a@.len() ==> asc@[x].size_key() <= a@[y].size_key(),
            forall|x: int, y: int| 0 <= x < asc@.len() && 0 <= y < b@.len() ==> asc@[x].size_key() <= b@[y].size_key(),
            asc@.to_multiset().add(a@.to_multiset()).add(b@.to_multiset()) == total,
            asc@.len() + a@.len() + b@.len() == n,
        decreases a@.len() + b@.len(),
    {
        let take_a = if a.len() == 0 {
            false
        } else if b.len() == 0 {
            true
        } else {
            a[a.len() - 1].size_value() <= b[b.len() - 1].size_value()
        };
        let ghost (a0, b0, asc0) = (a@, b@, asc@);
        let x = if take_a {
            pop_last(&mut a)
        } else {
            pop_last(&mut b)
        };
        asc.push(x);
        proof {
            assert(asc@.to_multiset() =~= asc0.to_multiset().insert(x));
            if take_a {
                assert(x == a0[a0.len() - 1]);
                assert forall|y: int| 0 <= y < b@.len() implies x.size_key() <= b@[y].size_key() by {
                    assert(b@[y].size_key() >= b@[b@.len() - 1].size_key());
                }
                assert(asc@.to_multiset().add(a@.to_multiset()) =~= asc0.to_multiset().add(a0.to_multiset()));
            } else {
                assert(x == b0[b0.len() - 1]);
                assert forall|y: int| 0 <= y < a@.len() implies x.size_key() <= a@[y].size_key() by {
                    assert(a@[y].size_key() >= a@[a@.len() - 1].size_key());
                }
                assert(asc@.to_multiset().add(a@.to_multiset()).add(b@.to_multiset())
                    =~= asc0.to_multiset().add(a@.to_multiset()).add(b0.to_multiset()));
            }
            assert forall|i: int, j: int| 0 <= i < j < asc@.len() implies asc@[i].size_key() <= asc@[j].size_key() by {
                if j == asc@.len() - 1 {
                    if take_a {
                        assert(asc@[i] == asc0[i]);
                        assert(asc0[i].size_key() <= a0[a0.len() - 1].size_key());
                    } else {
                        assert(asc@[i] == asc0[i]);
                        assert(asc0[i].size_key() <= b0[b0.len() - 1].size_key());
                    }
                }
            }
        }
    }
    assert(a@.to_multiset() =~= vstd::multiset::Multiset::empty());
    assert(b@.to_multiset() =~= vstd::multiset::Multiset::empty());
    let mut r: Vec<T> = Vec::new();
    assert(r@.to_multiset() =~= vstd::multiset::Multiset::empty());
    while asc.len() > 0
        invariant
            sorted_by_size_desc(r@),
            sorted_by_size_asc(asc@),
            forall|x: int, y: int| 0 <= x < r@.len() && 0 <= y < asc@.len() ==> r@[x].size_key() >= asc@[y].size_key(),
            r@.to_multiset().add(asc@.to_multiset()) == total,
            r@.len() + asc@.len() == n,
        decreases asc@.len(),
    {
        let ghost (r0, asc0) = (r@, asc@);
        let x = pop_last(&mut asc);
        r.push(x);
        proof {
            assert(r@.to_multiset() =~= r0.to_multiset().insert(x));
            assert(r@.to_multiset().add(asc@.to_multiset()) =~= r0.to_multiset().add(asc0.to_multiset()));
            assert forall|y: int| 0 <= y < asc@.len() implies x.size_key() >= asc@[y].size_key() by {
                assert(asc@[y] == asc0[y]);
            }
        }
    }
    assert(asc@.to_multiset() =~= vstd::multiset::Multiset::empty());
    r
}

/// `v` ordered largest first, by merge sort.
fn merge_sort_desc<T: SizeOrdered>(v: Vec<T>) -> (r: Vec<T>)
    ensures
        r@.to_multiset() == v@.to_multiset(),
        r@.len() == v@.len(),
        sorted_by_size_desc(r@),
    decreases v@.len(),
{
    if v.len() <= 1 {
        return v;
    }
    let mut left = v;
    let ghost whole = left@;
    let mid = left.len() / 2;
    let right = left.split_off(mid);
    proof {
        assert(whole =~= left@ + right@);
        vstd::seq_lib::lemma_multiset_commutative(left@, right@);
    }
    let l = merge_sort_desc(left);
    let r = merge_sort_desc(right);
    merge_desc(l, r)
}

/// Reorders `v` so that sizes never increase.
pub fn sort_by_size_desc<T: SizeOrdered>(v: &mut Vec<T>)
    ensures
        final(v)@.to_multiset() == old(v)@.to_multiset(),
        final(v)@.len() == old(v)@.len(),
        sorted_by_size_desc(final(v)@),
{
    let mut items: Vec<T> = Vec::new();
    std::mem::swap(v, &mut items);
    *v = merge_sort_desc(items);
}

} // verus!
