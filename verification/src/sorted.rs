//! Sets of addresses in increasing order.
use std::collections::BTreeSet;
use vstd::prelude::*;
use vstd::std_specs::btree::*;
use vstd::std_specs::cmp::OrdSpec;
use vstd::std_specs::iter::IteratorSpec;

verus! {

/// The numbers increase strictly.
pub open spec fn increasing(s: Seq<u64>) -> bool {
    forall|i: int, j: int| 0 <= i < j < s.len() ==> s[i] < s[j]
}

/// The numbers of a set in increasing order.
pub fn in_order(set: &BTreeSet<u64>) -> (r: Vec<u64>)
    ensures
        increasing(r@),
        r@.to_set() == set@,
{
    broadcast use vstd::std_specs::btree::group_btree_axioms;
    let mut out: Vec<u64> = Vec::new();
    let ghost all = set.iter().remaining();
    for a in iter: set.iter()
        invariant
            iter.seq() == all,
            out@.len() == iter.index(),
            forall|i: int| 0 <= i < iter.index() ==> out@[i] == *all[i],
    {
        out.push(*a);
    }
    proof {
        assert(out@ =~= all.unref());
        assert(increasing_seq(all));
        reveal(vstd::laws_cmp::obeys_cmp_partial_ord);
        reveal(vstd::laws_cmp::obeys_cmp_ord);
        reveal(vstd::laws_eq::obeys_eq);
        assert(vstd::laws_cmp::obeys_cmp::<&u64>());
        assert forall|i: int, j: int| 0 <= i < j < all.len() implies *all[i] < *all[j] by {
            assert(OrdSpec::cmp_spec(&all[i], &all[j]) is Less);
        }
    }
    out
}

} // verus!
