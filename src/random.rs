//! Randomness drawn from the operating system's generator.

use vstd::prelude::*;

verus! {

/// Relies on rand::thread_rng, a cryptographically secure generator seeded
/// from the operating system, and on RngCore::fill_bytes, which overwrites
/// the whole buffer. Nothing is promised about the values.
#[verifier::external_body]
pub(crate) fn random_bytes(n: usize) -> (r: Vec<u8>)
    ensures
        r@.len() == n,
{
    let mut buf = vec![0u8; n];
    rand::RngCore::fill_bytes(&mut rand::thread_rng(), &mut buf);
    buf
}

} // verus!
