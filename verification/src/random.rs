//! Random choice among candidates.
use vstd::prelude::*;
use rand::seq::SliceRandom;

verus! {

/// Picks one element of `items` at random with
/// `rand::seq::SliceRandom::choose` and the thread-local generator. The rand
/// crate returns `None` exactly when the slice is empty, and otherwise a
/// reference to one of its elements; which one is chance, and the contract
/// says only that it is one of them.
#[verifier::external_body]
pub(crate) fn choose_random(items: &Vec<u128>) -> (r: Option<u128>)
    ensures
        r is None <==> items@.len() == 0,
        r matches Some(x) ==> items@.contains(x),
{
    items.as_slice().choose(&mut rand::thread_rng()).copied()
}

} // verus!
