//! Core primitives: 32-byte hashes and the wall clock.
use vstd::prelude::*;
use crate::hashing::{keccak_shake256, tk_shake256};

verus! {

/// A 32-byte hash.
pub type Hash32 = [u8; 32];

/// SHAKE256 of `data`, 32 bytes.
pub fn shake256_bytes(data: &[u8]) -> (h: Hash32)
    ensures
        h@ == keccak_shake256(data@, 32),
{
    let v = tk_shake256(data, 32);
    let h = crate::bytes::to_array32(v.as_slice());
    assert(h@ =~= v@);
    h
}

/// The 32-byte hash of `data` (SHAKE256).
pub fn bytes32(data: &[u8]) -> (h: Hash32)
    ensures
        h@ == keccak_shake256(data@, 32),
{
    shake256_bytes(data)
}

/// Seconds since the Unix epoch.
pub fn now_ts() -> (t: u64) {
    crate::time::unix_now_secs()
}

} // verus!
