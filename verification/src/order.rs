//! Random playing orders.

use crate::script::{id_range, ids_between, ids_valid};
use rand::seq::SliceRandom;
use vstd::prelude::*;
use vstd::seq_lib::*;

verus! {

/// `order` holds every index below `count` exactly once.
pub open spec fn is_order(order: Seq<usize>, count: nat) -> bool {
    order.to_multiset() == id_range(0, count).to_multiset()
}

/// Calls `SliceRandom::shuffle` of the crate `rand` with its thread-local generator
/// `rand::rng`, which moves the items of the slice around.
///
/// Every outcome is a permutation of the items. Which one comes is left to chance, and
/// nothing is said of it.
#[verifier::external_body]
fn shuffle_items(items: &mut Vec<usize>)
    ensures
        final(items)@.to_multiset() == old(items)@.to_multiset(),
{
    items.shuffle(&mut rand::rng());
}

/// Draws an order of `count` songs.
pub fn random_order(count: usize) -> (r: Vec<usize>)
    ensures
        is_order(r@, count as nat),
{
    let mut order: Vec<usize> = ids_between(0, count);
    shuffle_items(&mut order);
    order
}

/// In an order of `count` songs each index below `count` occurs, none occurs twice, and no
/// other index occurs.
pub proof fn law_order_is_complete(order: Seq<usize>, count: nat)
    requires
        is_order(order, count),
        count <= usize::MAX + 1,
    ensures
        order.len() == count,
        ids_valid(order, count),
        order.no_duplicates(),
        forall|id: usize| id < count ==> #[trigger] order.contains(id),
{
    let sorted = id_range(0, count);
    order.to_multiset_ensures();
    sorted.to_multiset_ensures();
    sorted.lemma_multiset_has_no_duplicates();
    assert forall|x: usize| order.to_multiset().contains(x) implies order.to_multiset().count(x)
        == 1 by {
        assert(sorted.to_multiset().contains(x));
    }
    order.lemma_multiset_has_no_duplicates_conv();
    assert forall|i: int| 0 <= i < order.len() implies #[trigger] order[i] < count by {
        assert(order.contains(order[i]));
        assert(order.to_multiset().count(order[i]) > 0);
        assert(sorted.contains(order[i]));
    }
    assert forall|id: usize| id < count implies #[trigger] order.contains(id) by {
        assert(sorted[id as int] == id);
        assert(sorted.contains(id));
        assert(order.to_multiset().count(id) > 0);
    }
}

} // verus!
