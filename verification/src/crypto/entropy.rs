//! Random bytes from the operating system.
use vstd::prelude::*;
use rand::rngs::OsRng;
use rand::RngCore;

verus! {

/// `OsRng::fill_bytes` from `rand` into `len` fresh bytes.
/// Trusted: only the length; the bytes are random.
#[verifier::external_body]
pub(crate) fn os_random_bytes(len: usize) -> (v: Vec<u8>)
    ensures
        v@.len() == len,
{
    let mut v = vec![0u8; len];
    OsRng.fill_bytes(&mut v);
    v
}

} // verus!
