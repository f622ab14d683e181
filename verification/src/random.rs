//! Access to the external pseudo-random generator used for parameter
//! initialization.  The generator is passed in explicitly by the caller, so
//! that runs are reproducible for a fixed seed.

use vstd::prelude::*;
use rand::RngCore;
use crate::fixed::SCALE;

verus! {

#[verifier::external_type_specification]
#[verifier::external_body]
pub struct ExStdRng(rand::rngs::StdRng);

/// Relies on rand's `RngCore::next_u64` for `StdRng`: one pseudo-random draw,
/// of which nothing is promised.
#[verifier::external_body]
fn next_random(rng: &mut rand::rngs::StdRng) -> u64 {
    rng.next_u64()
}

/// One draw reduced to `[0, SCALE)`: a fixed-point value uniform over `[0, 1)`
/// when the generator is uniform over `u64`.
pub fn random_unit(rng: &mut rand::rngs::StdRng) -> (r: i64)
    ensures
        0 <= r < SCALE,
{
    let d: u64 = next_random(rng);
    (d % 65536) as i64
}

} // verus!
