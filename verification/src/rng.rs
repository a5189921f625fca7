//! The source of uniform randomness: a thread-local generator of the `rand`
//! crate, behind trusted declarations. Nothing is assumed of which value
//! comes back beyond its range, so every caller is verified for every
//! possible draw.

use vstd::prelude::*;
use rand::RngExt;

verus! {

#[verifier::external_type_specification]
#[verifier::external_body]
pub struct ExThreadRng(rand::rngs::ThreadRng);

/// Relies on rand::rng: a handle to the thread-local generator.
#[verifier::external_body]
pub(crate) fn fresh_rng() -> rand::rngs::ThreadRng {
    rand::rng()
}

/// Relies on rand::RngExt::random_range: a value uniform in
/// [0, width); it panics only on an empty range, which the
/// precondition rules out.
#[verifier::external_body]
pub(crate) fn uniform_below(rng: &mut rand::rngs::ThreadRng, width: i64) -> (r: i64)
    requires
        width > 0,
    ensures
        0 <= r < width,
{
    rng.random_range(0..width)
}

} // verus!
