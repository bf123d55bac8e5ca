//! What the service promises, stated of its inputs and results alone: of the fields of
//! payments and payouts, of blocks and their transactions, and of the members of what
//! is written. The laws of `calls`, `wallets` and `peers` speak of the operations
//! themselves; the others of the models by which their contracts are stated.

pub mod calls;
pub mod counting;
pub mod deciding;
pub mod following;
pub mod modelling;
pub mod owing;
pub mod paying;
pub mod peers;
pub mod reading;
pub mod serving;
pub mod settling;
pub mod stepping;
pub mod stopping;
pub mod syncing;
pub mod telling;
pub mod vouching;
pub mod wallets;

use vstd::prelude::*;

verus! {

/// Whether a list of places is in order and names exactly the elements of a list that
/// are wanted.
pub open spec fn picks<A>(places: Seq<int>, list: Seq<A>, wanted: spec_fn(A) -> bool) -> bool {
    &&& forall|i: int| 0 <= i < places.len() ==> 0 <= #[trigger] places[i] < list.len() && wanted(list[places[i]])
    &&& forall|i: int, j: int| 0 <= i < j < places.len() ==> #[trigger] places[i] < #[trigger] places[j]
    &&& forall|k: int| 0 <= k < list.len() && wanted(#[trigger] list[k]) ==> places.contains(k)
}

/// The places of the elements that a filter keeps.
pub proof fn lemma_filter_places<A>(list: Seq<A>, wanted: spec_fn(A) -> bool) -> (places: Seq<int>)
    ensures
        picks(places, list, wanted),
        list.filter(wanted).len() == places.len(),
        forall|i: int| 0 <= i < places.len() ==> list.filter(wanted)[i] == list[#[trigger] places[i]],
    decreases list.len(),
{
    reveal(Seq::filter);
    if list.len() == 0 {
        Seq::empty()
    } else {
        let before = list.drop_last();
        let last = list.len() - 1;
        let some = lemma_filter_places(before, wanted);
        let places = if wanted(list[last]) {
            some.push(last)
        } else {
            some
        };
        assert forall|i: int| 0 <= i < places.len() implies 0 <= #[trigger] places[i] < list.len() && wanted(
            list[places[i]],
        ) && list.filter(wanted)[i] == list[places[i]] by {
            if i < some.len() {
                assert(places[i] == some[i]);
                assert(before[some[i]] == list[some[i]]);
            }
        }
        assert forall|i: int, j: int| 0 <= i < j < places.len() implies #[trigger] places[i] < #[trigger] places[j] by {
            assert(places[i] == some[i]);
            if j < some.len() {
                assert(places[j] == some[j]);
            }
        }
        assert forall|k: int| 0 <= k < list.len() && wanted(#[trigger] list[k]) implies places.contains(k) by {
            if k < last {
                assert(before[k] == list[k]);
                assert(some.contains(k));
                let i = choose|i: int| 0 <= i < some.len() && some[i] == k;
                assert(places[i] == k);
            } else {
                assert(places[some.len() as int] == k);
            }
        }
        places
    }
}

} // verus!
