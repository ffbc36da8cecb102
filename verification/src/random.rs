//! Trusted boundary to the `rand` crate: a thread-local generator handle,
//! a uniform index draw, and an in-place shuffle. Everything downstream is
//! proved for every outcome these calls may produce.

use vstd::prelude::*;
use rand::Rng;
use rand::seq::SliceRandom;

verus! {

#[verifier::external_type_specification]
#[verifier::external_body]
pub struct ExThreadRng(rand::rngs::ThreadRng);

/// Relies on rand::thread_rng: hands out the lazily-initialized
/// thread-local random number generator. Nothing is promised of the
/// values it will produce.
#[verifier::external_body]
pub(crate) fn fresh_rng() -> rand::rngs::ThreadRng {
    rand::thread_rng()
}

/// Relies on rand::Rng::gen_range over the half-open range `0..bound`:
/// the result is an index drawn uniformly from that range, hence strictly
/// below `bound`. The call panics on an empty range, so the bound must be
/// positive.
#[verifier::external_body]
pub(crate) fn draw_index(rng: &mut rand::rngs::ThreadRng, bound: usize) -> (i: usize)
    requires
        bound > 0,
    ensures
        i < bound,
{
    rng.gen_range(0..bound)
}

/// Relies on rand::seq::SliceRandom::shuffle: permutes the vector in
/// place (a Fisher-Yates shuffle built from swaps), so the symbols it
/// holds, and with them its length, are unchanged; only their order may
/// change. Nothing is promised about which permutation comes out.
#[verifier::external_body]
pub(crate) fn shuffle(rng: &mut rand::rngs::ThreadRng, v: &mut Vec<char>)
    ensures
        final(v)@.to_multiset() == old(v)@.to_multiset(),
        final(v)@.len() == old(v)@.len(),
{
    v.shuffle(rng)
}

} // verus!
