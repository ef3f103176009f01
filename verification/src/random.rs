//! Randomness from the operating system.

use vstd::prelude::*;
use aes_gcm::aead::rand_core::RngCore;

verus! {

/// Fills `buf` from the operating system's random source
/// (`RngCore::fill_bytes` on `OsRng`, as `aes-gcm` re-exports it). Only the
/// length is claimed: the bytes are random.
#[verifier::external_body]
pub(crate) fn fill_random(buf: &mut [u8])
    ensures
        final(buf)@.len() == old(buf)@.len(),
{
    aes_gcm::aead::OsRng.fill_bytes(buf)
}

} // verus!
