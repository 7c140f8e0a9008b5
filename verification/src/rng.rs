//! The per-worker random-number generator: a fast generator seeded once
//! per worker from the operating system's entropy source.

use vstd::prelude::*;

use rand::RngCore;
use rand::SeedableRng;

verus! {

#[verifier::external_type_specification]
#[verifier::external_body]
pub struct ExXoshiro256Plus(rand_xoshiro::Xoshiro256Plus);

/// Relies on rand::rngs::OsRng::next_u64 for one word of operating-system
/// entropy. Nothing can be promised of the value drawn; the call aborts
/// the process when the entropy source is unavailable, which is fatal by
/// design.
#[verifier::external_body]
pub(crate) fn os_entropy_u64() -> u64 {
    rand::rngs::OsRng.next_u64()
}

/// Relies on rand_xoshiro::Xoshiro256Plus::seed_from_u64 (SeedableRng):
/// builds a generator whose state is a function of the seed alone.
#[verifier::external_body]
pub(crate) fn rng_from_seed(seed: u64) -> rand_xoshiro::Xoshiro256Plus {
    rand_xoshiro::Xoshiro256Plus::seed_from_u64(seed)
}

/// Relies on RngCore::fill_bytes for Xoshiro256Plus, which fills the whole
/// buffer with generator output; nothing is promised of the bytes drawn.
#[verifier::external_body]
pub(crate) fn random_bytes_32(rng: &mut rand_xoshiro::Xoshiro256Plus) -> (r: Vec<u8>)
    ensures
        r@.len() == 32,
{
    let mut buf = [0u8; 32];
    rng.fill_bytes(&mut buf);
    buf.to_vec()
}

} // verus!
