//! Random draws, taken from the `rand` crate.

use rand::Rng;
use vstd::prelude::*;

verus! {

/// The thread-local generator of `rand`; opaque to the proofs.
#[verifier::external_type_specification]
#[verifier::external_body]
pub struct ExThreadRng(rand::rngs::ThreadRng);

/// Calls `rand::thread_rng`, which hands out a handle to the generator of the
/// current thread. Nothing is claimed of the handle: what it will produce
/// depends on the operating system's entropy.
#[verifier::external_body]
pub(crate) fn new_thread_rng() -> rand::rngs::ThreadRng {
    rand::thread_rng()
}

/// Calls `Rng::gen_range(low, high)` on the generator. `rand` documents the
/// result as lying in `[low, high)` and panics when `low >= high`, which the
/// `requires` rules out. Which value in the range comes out is left open.
#[verifier::external_body]
pub(crate) fn gen_range_i16(rng: &mut rand::rngs::ThreadRng, low: i16, high: i16) -> (r: i16)
    requires
        low < high,
    ensures
        low <= r < high,
{
    rng.gen_range(low, high)
}

} // verus!
