//! The keys of an ordered map come out in increasing order.

use vstd::prelude::*;
use vstd::std_specs::cmp::OrdSpec;

verus! {

/// In a sequence of `u32` that the ordered map calls increasing, an
/// earlier element is smaller than a later one.
pub proof fn lemma_increasing_keys(keys: Seq<u32>, i: int, j: int)
    requires
        vstd::std_specs::btree::increasing_seq(keys),
        0 <= i < j < keys.len(),
    ensures
        keys[i] < keys[j],
{
    assert(vstd::laws_cmp::obeys_cmp::<u32>());
    assert(keys[i].cmp_spec(&keys[j]) is Less);
}

} // verus!
