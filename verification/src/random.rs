//! Random choices among peers.

use vstd::prelude::*;
use rand::Rng;
use crate::primitives::PeerId;

verus! {

/// The generator of `rand` that each thread keeps for itself.
#[verifier::external_type_specification]
#[verifier::external_body]
pub struct ExThreadRng(rand::ThreadRng);

/// Calls `rand::thread_rng`: the generator of the current thread. Nothing is claimed of the
/// numbers that it will give. Whether there is a generator is not up to the caller: the first call
/// in a thread panics on a system without any source of entropy.
#[verifier::external_body]
pub fn new() -> (rng: rand::ThreadRng) {
    rand::thread_rng()
}

/// Calls `rand::Rng::shuffle`: permutes the list in place, so that it holds the same items as
/// often as before. Nothing is claimed of their order. Drawing the numbers for it panics where the
/// generator has to be seeded anew and the system has no source of entropy.
#[verifier::external_body]
pub(crate) fn shuffle(rng: &mut rand::ThreadRng, peers: &mut Vec<(PeerId, u8)>)
    ensures
        final(peers)@.to_multiset() == old(peers)@.to_multiset(),
{
    rng.shuffle(peers)
}

/// Calls `rand::Rng::gen_range`: some number from `low` on and below `high`. The call panics on
/// an empty range, which `requires` leaves out; it also panics where the generator has to be seeded
/// anew and the system has no source of entropy.
#[verifier::external_body]
pub(crate) fn gen_range(rng: &mut rand::ThreadRng, low: usize, high: usize) -> (n: usize)
    requires
        low < high,
    ensures
        low <= n < high,
{
    rng.gen_range(low, high)
}

} // verus!
