//! Random bytes from the operating system's generator.

use vstd::prelude::*;

verus! {

/// Fills `n` bytes from `rand::thread_rng`, the thread-local
/// cryptographically secure generator, with `rand::RngCore::fill_bytes`.
/// Only the length is claimed: what the bytes are differs from call to call.
#[verifier::external_body]
pub(crate) fn random_bytes(n: usize) -> (bytes: Vec<u8>)
    ensures
        bytes@.len() == n,
{
    let mut bytes = vec![0u8; n];
    rand::RngCore::fill_bytes(&mut rand::thread_rng(), &mut bytes);
    bytes
}

} // verus!
