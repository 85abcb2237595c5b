//! Proof-of-work target comparison, and the handles and errors of the RandomX
//! library binding.
use vstd::prelude::*;

verus! {

/// `a` precedes `b` in the lexicographic byte order from position `i` on.
pub open spec fn lex_less_from(a: Seq<u8>, b: Seq<u8>, i: int) -> bool
    decreases 32 - i,
{
    if i >= 32 || i < 0 {
        false
    } else if a[i] < b[i] {
        true
    } else if a[i] > b[i] {
        false
    } else {
        lex_less_from(a, b, i + 1)
    }
}

/// Whether hash `a` is below hash `b`, both read as big-endian numbers: the first
/// differing byte decides; equal hashes are not below each other.
pub fn hash_less_than(a: &[u8; 32], b: &[u8; 32]) -> (r: bool)
    ensures
        r == lex_less_from(a@, b@, 0),
{
    let mut i: usize = 0;
    while i < 32
        invariant
            i <= 32,
            lex_less_from(a@, b@, 0) == lex_less_from(a@, b@, i as int),
        decreases 32 - i,
    {
        if a[i] < b[i] {
            return true;
        } else if a[i] > b[i] {
            return false;
        }
        i = i + 1;
    }
    false
}

/// No hash is below itself.
pub proof fn lemma_hash_less_irreflexive(a: Seq<u8>, i: int)
    requires
        a.len() == 32,
    ensures
        !lex_less_from(a, a, i),
    decreases 32 - i,
{
    if 0 <= i < 32 {
        lemma_hash_less_irreflexive(a, i + 1);
    }
}

/// Of two different hashes exactly one is below the other.
pub proof fn lemma_hash_less_total(a: Seq<u8>, b: Seq<u8>, i: int)
    requires
        a.len() == 32,
        b.len() == 32,
        0 <= i <= 32,
        a.subrange(i, 32) != b.subrange(i, 32),
    ensures
        lex_less_from(a, b, i) != lex_less_from(b, a, i),
    decreases 32 - i,
{
    if i < 32 && a[i] == b[i] {
        assert(a.subrange(i + 1, 32) != b.subrange(i + 1, 32)) by {
            if a.subrange(i + 1, 32) == b.subrange(i + 1, 32) {
                assert(a.subrange(i, 32) =~= b.subrange(i, 32)) by {
                    assert forall|k: int| 0 <= k < 32 - i implies a.subrange(i, 32)[k] == b.subrange(i, 32)[k] by {
                        if k > 0 {
                            assert(a.subrange(i, 32)[k] == a.subrange(i + 1, 32)[k - 1]);
                            assert(b.subrange(i, 32)[k] == b.subrange(i + 1, 32)[k - 1]);
                        }
                    }
                }
            }
        }
        lemma_hash_less_total(a, b, i + 1);
    } else if i == 32 {
        assert(a.subrange(32, 32) =~= b.subrange(32, 32));
    }
}

/// Why the RandomX binding failed to set up.
#[derive(Clone, Copy, Debug, PartialEq, Eq)]
pub enum RandomxError {
    CacheAllocFailed,
    DatasetAllocFailed,
    VmCreateFailed,
}

/// An opaque RandomX cache handle.
pub struct randomx_cache {
    _private: [u8; 0],
}

/// An opaque RandomX dataset handle.
pub struct randomx_dataset {
    _private: [u8; 0],
}

/// An opaque RandomX virtual machine handle.
pub struct randomx_vm {
    _private: [u8; 0],
}

} // verus!
