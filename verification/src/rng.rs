//! Randomness for seeding and mutation, behind a seeded generator.
//!
//! Every random draw the optimizer makes goes through one of the wrappers
//! here, so the rest of the crate is verified for every value a draw can
//! take.

use vstd::prelude::*;
use rand::Rng;
use rand::seq::SliceRandom;

verus! {

/// The seedable generator of the rand crate that every draw goes through.
#[verifier::external_type_specification]
#[verifier::external_body]
pub struct ExStdRng(rand::rngs::StdRng);

/// Relies on rand::Rng::gen over u32: some 32-bit value; nothing more is promised.
#[verifier::external_body]
pub(crate) fn rand_u32(rng: &mut rand::rngs::StdRng) -> u32 {
    rng.gen::<u32>()
}

/// Relies on rand::Rng::gen_range over `0..n`: a value below `n`. The call
/// panics on an empty range, which the precondition rules out.
#[verifier::external_body]
pub(crate) fn rand_below(rng: &mut rand::rngs::StdRng, n: usize) -> (r: usize)
    requires
        n >= 1,
    ensures
        r < n,
{
    rng.gen_range(0..n)
}

/// Relies on rand::seq::SliceRandom::shuffle: permutes the slice in place,
/// so the elements afterwards are the same multiset as before.
#[verifier::external_body]
pub(crate) fn shuffle_bytes(v: &mut Vec<u8>, rng: &mut rand::rngs::StdRng)
    ensures
        final(v)@.to_multiset() == old(v)@.to_multiset(),
{
    v.shuffle(rng)
}

} // verus!
