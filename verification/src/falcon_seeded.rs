//! The source of random bytes that seeded Falcon-512 key generation and signing
//! draw from, so that a deterministic generator can drive them.
use vstd::prelude::*;

verus! {

/// A source of random bytes; implement it for a deterministic generator.
pub trait FillBytes: Send + Sync {
    /// Fills `out` with the source's next bytes.
    fn fill(&self, out: &mut [u8]);
}

} // verus!
