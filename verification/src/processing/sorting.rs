//! Sorting of `(value, position)` pairs.

use vstd::prelude::*;

verus! {

/// Order of `(value, position)` pairs: by value, then by position.
pub open spec fn pair_le(a: (i64, usize), b: (i64, usize)) -> bool {
    a.0 < b.0 || (a.0 == b.0 && a.1 <= b.1)
}

/// `slice::sort` on pairs of integers: afterwards the vector holds the same
/// pairs, each as often as before, in ascending order by first component and
/// then by second, which is how the standard library orders tuples.
#[verifier::external_body]
pub(crate) fn sort_pairs(v: &mut Vec<(i64, usize)>)
    ensures
        final(v)@.to_multiset() == old(v)@.to_multiset(),
        forall|i: int, j: int|
            0 <= i <= j < final(v)@.len() ==> pair_le(#[trigger] final(v)@[i], #[trigger] final(v)@[j]),
{
    v.sort();
}

} // verus!
