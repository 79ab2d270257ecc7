//! The random draws the planners make, from a generator that the caller
//! seeds for each planning session, so that a session can be replayed.
use vstd::prelude::*;
use rand::rngs::StdRng;
use rand::Rng;

verus! {

/// The seedable generator of rand: the same seed gives the same draws.
#[verifier::external_type_specification]
#[verifier::external_body]
pub struct ExStdRng(StdRng);

/// Relies on rand::Rng::gen::<bool> on the given generator: a fair coin.
/// Nothing is known of the value.
#[verifier::external_body]
pub(crate) fn random_bool(rng: &mut StdRng) -> bool {
    rng.gen::<bool>()
}

/// Relies on rand::Rng::gen_range on the given generator: a value in
/// `[low, high)`. It panics when `low >= high`, which `requires` excludes.
#[verifier::external_body]
pub(crate) fn random_in_range(rng: &mut StdRng, low: usize, high: usize) -> (r: usize)
    requires
        low < high,
    ensures
        low <= r < high,
{
    rng.gen_range(low, high)
}

} // verus!
