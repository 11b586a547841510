//! The source of chance: the calling thread's random number generator.

use rand::Rng;
use vstd::prelude::*;

verus! {

/// `rand::rngs::ThreadRng`, a handle to the generator of a thread. Nothing
/// is known of what is inside.
#[verifier::external_type_specification]
#[verifier::external_body]
pub struct ExThreadRng(rand::rngs::ThreadRng);

/// `rand::thread_rng` hands out a handle to the generator of the calling
/// thread. Nothing is claimed of the handle.
pub assume_specification[ rand::thread_rng ]() -> (rng: rand::rngs::ThreadRng)
;

/// `rand::Rng::gen_range` on the half-open range from zero to `bound`. It
/// panics on an empty range, hence the precondition; the number it returns
/// lies in the range, and nothing else is claimed of it.
#[verifier::external_body]
pub(crate) fn gen_below(rng: &mut rand::rngs::ThreadRng, bound: usize) -> (n: usize)
    requires
        bound > 0,
    ensures
        n < bound,
{
    rng.gen_range(0..bound)
}

/// `rand::random` for a `u32`. Any value may come back.
#[verifier::external_body]
pub(crate) fn random_u32() -> (n: u32) {
    rand::random::<u32>()
}

} // verus!
