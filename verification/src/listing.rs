//! What a filtered list holds: the fitting items, in their order.
use vstd::prelude::*;

verus! {

/// `found` is made of the items of `all` at these places, in order, and these are
/// exactly the places where an item fits.
pub open spec fn picked_at<A>(
    all: Seq<A>,
    fits: spec_fn(A) -> bool,
    found: Seq<A>,
    places: Seq<int>,
) -> bool {
    &&& places.len() == found.len()
    &&& forall|i: int|
        0 <= i < places.len() ==> 0 <= #[trigger] places[i] < all.len() && found[i]
            == all[places[i]] && fits(all[places[i]])
    &&& forall|i: int, j: int|
        0 <= i < j < places.len() ==> #[trigger] places[i] < #[trigger] places[j]
    &&& forall|k: int| 0 <= k < all.len() && fits(#[trigger] all[k]) ==> places.contains(k)
}

/// A filter picks every fitting item and no other, and keeps their order.
pub proof fn filter_picks<A>(all: Seq<A>, fits: spec_fn(A) -> bool) -> (places: Seq<int>)
    ensures
        picked_at(all, fits, all.filter(fits), places),
    decreases all.len(),
{
    reveal(Seq::filter);
    if all.len() == 0 {
        seq![]
    } else {
        let shorter = all.drop_last();
        let before = filter_picks(shorter, fits);
        let last = all.len() - 1;
        let places = if fits(all.last()) {
            before.push(last)
        } else {
            before
        };
        assert forall|k: int| 0 <= k < all.len() && fits(#[trigger] all[k]) implies
            places.contains(k) by {
            if k < last {
                assert(shorter[k] == all[k]);
                assert(before.contains(k));
                let i = choose|i: int| 0 <= i < before.len() && before[i] == k;
                assert(places[i] == k);
            } else {
                assert(places[before.len() as int] == k);
            }
        }
        assert forall|i: int| 0 <= i < places.len() implies 0 <= #[trigger] places[i] < all.len()
            && all.filter(fits)[i] == all[places[i]] && fits(all[places[i]]) by {
            if i < before.len() {
                assert(places[i] == before[i]);
                assert(shorter[before[i]] == all[before[i]]);
            }
        }
        places
    }
}

} // verus!
