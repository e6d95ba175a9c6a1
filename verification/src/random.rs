//! The random draws of the ship: from `rand`'s thread-local generator.
use rand::rngs::ThreadRng;
use rand::seq::{IndexedRandom, SliceRandom};
use rand::RngExt;
use vstd::prelude::*;

use crate::ship::VulnerabilityType;

verus! {

/// `rand`'s handle to the thread-local generator.
#[verifier::external_type_specification]
#[verifier::external_body]
pub struct ExThreadRng(ThreadRng);

/// Calls `rand::rng`, which hands out the thread-local generator. Nothing is
/// stated of it: what it draws is up to chance.
#[verifier::external_body]
pub(crate) fn thread_rng() -> ThreadRng {
    rand::rng()
}

/// Calls `RngExt::random_range` on the range `lo..hi`: the number drawn lies
/// in that range. The range is not empty, on which the call would panic.
#[verifier::external_body]
pub(crate) fn random_in(rng: &mut ThreadRng, lo: u32, hi: u32) -> (r: u32)
    requires
        lo < hi,
    ensures
        lo <= r < hi,
{
    rng.random_range(lo..hi)
}

/// Calls `SliceRandom::shuffle`: the vector ends up holding the same
/// elements, each as often as before, in an order drawn by chance.
#[verifier::external_body]
pub(crate) fn shuffle_indices(rng: &mut ThreadRng, v: &mut Vec<usize>)
    ensures
        final(v)@.len() == old(v)@.len(),
        final(v)@.to_multiset() == old(v)@.to_multiset(),
{
    v.shuffle(rng)
}

/// Calls `IndexedRandom::choose`: nothing for an empty vector, and
/// otherwise one of its elements, drawn by chance.
#[verifier::external_body]
pub(crate) fn choose_vulnerability(rng: &mut ThreadRng, v: &Vec<VulnerabilityType>) -> (r:
    Option<VulnerabilityType>)
    ensures
        r is None <==> v@.len() == 0,
        r matches Some(x) ==> v@.contains(x),
{
    v.choose(rng).copied()
}

} // verus!
