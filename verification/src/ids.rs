//! Ids in order.

use std::collections::HashMap;
use vstd::prelude::*;
use vstd::seq_lib::to_multiset_insert;

verus! {

broadcast use vstd::std_specs::hash::group_hash_axioms;

/// Ids in ascending order.
pub open spec fn ids_sorted(ids: Seq<i64>) -> bool {
    forall|i: int, j: int| 0 <= i <= j < ids.len() ==> ids[i] <= ids[j]
}

/// Put ids in ascending order.
pub fn sort_ids(ids: &Vec<i64>) -> (sorted: Vec<i64>)
    ensures
        ids_sorted(sorted@),
        sorted@.to_multiset() == ids@.to_multiset(),
        sorted@.len() == ids@.len(),
{
    let mut sorted: Vec<i64> = Vec::new();
    let mut i: usize = 0;
    assert(ids@.take(0) =~= sorted@);
    while i < ids.len()
        invariant
            i <= ids.len(),
            sorted@.len() == i,
            ids_sorted(sorted@),
            sorted@.to_multiset() == ids@.take(i as int).to_multiset(),
        decreases ids.len() - i,
    {
        let x: i64 = ids[i];
        let mut k: usize = sorted.len();
        while k > 0 && sorted[k - 1] > x
            invariant
                k <= sorted.len(),
                ids_sorted(sorted@),
                forall|j: int| k <= j < sorted@.len() ==> #[trigger] sorted@[j] > x,
            decreases k,
        {
            k -= 1;
        }
        proof {
            to_multiset_insert(sorted@, k as int, x);
            let before = ids@.take(i as int);
            to_multiset_insert(before, i as int, x);
            assert(before.insert(i as int, x) =~= ids@.take(i + 1));
        }
        sorted.insert(k, x);
        i += 1;
    }
    assert(ids@.take(i as int) =~= ids@);
    sorted
}

/// Every id has a place, and places ascend with the ids.
pub open spec fn places_of(places: Map<i64, usize>, ids: Seq<i64>) -> bool {
    &&& places.dom() == ids.to_set()
    &&& forall|a: i64| #[trigger] places.dom().contains(a) ==> places[a] < ids.len()
    &&& forall|a: i64, b: i64| #[trigger]
        places.dom().contains(a) && #[trigger] places.dom().contains(b) ==> (a < b <==> places[a]
            < places[b])
}

/// The place of each image in the ascending order of ids.
pub fn image_places(ids: &Vec<i64>) -> (places: HashMap<i64, usize>)
    ensures
        places_of(places@, ids@),
{
    let sorted = sort_ids(ids);
    let mut places: HashMap<i64, usize> = HashMap::new();
    let mut i: usize = 0;
    assert(places@.dom() =~= sorted@.take(0).to_set());
    while i < sorted.len()
        invariant
            i <= sorted.len(),
            places@.dom() == sorted@.take(i as int).to_set(),
            forall|a: i64| #[trigger]
                places@.dom().contains(a) ==> places@[a] < i && sorted@[places@[a] as int] == a,
        decreases sorted.len() - i,
    {
        proof {
            let before = sorted@.take(i as int);
            let after = sorted@.take(i + 1);
            assert(after =~= before.push(sorted@[i as int]));
            assert forall|a: i64| #[trigger]
                after.to_set().contains(a) implies before.to_set().insert(
                sorted@[i as int],
            ).contains(a) by {
                let k = choose|k: int| 0 <= k < after.len() && after[k] == a;
                if k < i {
                    assert(before[k] == a);
                }
            }
            assert forall|a: i64| #[trigger]
                before.to_set().insert(sorted@[i as int]).contains(a) implies after.to_set().contains(
                a,
            ) by {
                if before.contains(a) {
                    let k = choose|k: int| 0 <= k < before.len() && before[k] == a;
                    assert(after[k] == a);
                } else {
                    assert(after[i as int] == a);
                }
            }
            assert(after.to_set() =~= before.to_set().insert(sorted@[i as int]));
        }
        places.insert(sorted[i], i);
        i += 1;
    }
    proof {
        assert(sorted@.take(i as int) =~= sorted@);
        broadcast use vstd::seq_lib::group_to_multiset_ensures;

        assert forall|a: i64| sorted@.contains(a) == #[trigger] ids@.contains(a) by {
            assert(sorted@.contains(a) == (sorted@.to_multiset().count(a) > 0));
            assert(ids@.contains(a) == (ids@.to_multiset().count(a) > 0));
        }
        assert(sorted@.to_set() =~= ids@.to_set());
    }
    places
}

/// Ids in order ascend, and two lists in order with the same ids are one.
pub proof fn law_order_is_one(a: Seq<i64>, b: Seq<i64>, i: int, j: int)
    requires
        ids_sorted(a),
        ids_sorted(b),
        a.to_multiset() == b.to_multiset(),
    ensures
        0 <= i <= j < a.len() ==> a[i] <= a[j],
        a == b,
{
    let leq = |x: i64, y: i64| x <= y;
    assert(vstd::relations::total_ordering(leq));
    assert(vstd::relations::sorted_by(a, leq));
    assert(vstd::relations::sorted_by(b, leq));
    vstd::seq_lib::lemma_sorted_unique(a, b, leq);
}

/// Every id has a place of its own, and a smaller id a smaller place.
pub proof fn law_places_ascend_with_the_ids(places: Map<i64, usize>, ids: Seq<i64>, i: int, j: int)
    requires
        places_of(places, ids),
        0 <= i < ids.len(),
        0 <= j < ids.len(),
    ensures
        places.dom().contains(ids[i]),
        places[ids[i]] < ids.len(),
        ids[i] < ids[j] <==> places[ids[i]] < places[ids[j]],
        ids[i] == ids[j] <==> places[ids[i]] == places[ids[j]],
{
    assert(ids.contains(ids[i]) && ids.contains(ids[j]));
    assert(places.dom().contains(ids[i]) && places.dom().contains(ids[j]));
}

} // verus!
