//! The order in which a `BTreeMap` is walked.

use vstd::prelude::*;
use vstd::std_specs::cmp::OrdSpec;

verus! {

/// What a map says of the order in which it is walked: the keys ascend.
pub proof fn lemma_increasing_is_ascending(keys: Seq<i32>)
    requires
        vstd::std_specs::btree::increasing_seq(keys),
    ensures
        forall|i: int, j: int| 0 <= i < j < keys.len() ==> keys[i] < keys[j],
{
    broadcast use vstd::std_specs::btree::group_btree_axioms;

    assert(vstd::laws_cmp::obeys_cmp::<i32>());
    assert forall|i: int, j: int| 0 <= i < j < keys.len() implies keys[i] < keys[j] by {
        assert(keys[i].cmp_spec(&keys[j]) is Less);
    }
}

} // verus!
