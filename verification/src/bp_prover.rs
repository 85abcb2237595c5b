//! Counters kept by the range-proof prover.
use vstd::prelude::*;

verus! {

/// How many proofs were made, how the cache served them, and the time spent.
#[derive(Clone, Copy, Debug)]
pub struct ProverStats {
    pub proofs_generated: u64,
    pub cache_hits: u64,
    pub cache_misses: u64,
    pub total_prove_time_ms: u64,
}

impl Default for ProverStats {
    /// All counters at zero.
    fn default() -> (s: Self)
        ensures
            s.proofs_generated == 0,
            s.cache_hits == 0,
            s.cache_misses == 0,
            s.total_prove_time_ms == 0,
    {
        ProverStats { proofs_generated: 0, cache_hits: 0, cache_misses: 0, total_prove_time_ms: 0 }
    }
}

} // verus!
