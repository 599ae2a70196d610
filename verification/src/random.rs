//! Choices made by chance.

use rand::seq::SliceRandom;
use vstd::prelude::*;

verus! {

/// Calls `rand::seq::SliceRandom::choose` with `rand::thread_rng`. Whatever
/// the generator draws, the result is one of the items, and there is none
/// only where there are no items. Which item it is, is left unsaid.
#[verifier::external_body]
pub(crate) fn choose_one(items: &[usize]) -> (r: Option<usize>)
    ensures
        r is None <==> items@.len() == 0,
        r matches Some(x) ==> items@.contains(x),
{
    items.choose(&mut rand::thread_rng()).copied()
}

/// Calls `rand::random` for a 16-bit number. Every number is possible, so
/// nothing is claimed of it.
#[verifier::external_body]
pub(crate) fn random_u16() -> (r: u16) {
    rand::random::<u16>()
}

} // verus!
