//! The consensus hash: KMAC256 over a domain label and concatenated inputs.
use vstd::prelude::*;
use crate::bytes::append_bytes;
use crate::crypto::kmac::{kmac256_xof, spec_kmac256_xof};

verus! {

/// Concatenation of a sequence of byte strings, in order.
pub open spec fn concat_parts(parts: Seq<Seq<u8>>) -> Seq<u8>
    decreases parts.len(),
{
    if parts.len() == 0 {
        Seq::empty()
    } else {
        concat_parts(parts.drop_last()) + parts.last()
    }
}

/// The consensus hash of `data` under `domain`: the 32-byte KMAC256 output keyed by
/// the data, with the domain as label and an empty context.
pub open spec fn spec_consensus_hash(domain: Seq<u8>, data: Seq<u8>) -> Seq<u8> {
    spec_kmac256_xof(data, domain, Seq::empty(), 32)
}

/// The views of a slice of byte slices.
pub open spec fn views_of(inputs: Seq<&[u8]>) -> Seq<Seq<u8>> {
    inputs.map_values(|s: &[u8]| s@)
}

/// The consensus hash of the already-concatenated `data` under `domain`.
pub fn kmac256_hash_data(domain: &[u8], data: &[u8]) -> (out: [u8; 32])
    ensures
        out@ == spec_consensus_hash(domain@, data@),
{
    let empty: Vec<u8> = Vec::new();
    let h = kmac256_xof(data, domain, empty.as_slice(), 32);
    let out = crate::bytes::to_array32(h.as_slice());
    assert(empty@ =~= Seq::<u8>::empty());
    assert(out@ =~= h@);
    out
}

/// KMAC256 hash of the concatenation of `inputs` under the domain label `domain`.
pub fn kmac256_hash(domain: &[u8], inputs: &[&[u8]]) -> (out: [u8; 32])
    ensures
        out@ == spec_consensus_hash(domain@, concat_parts(views_of(inputs@))),
{
    let mut combined: Vec<u8> = Vec::new();
    let mut i: usize = 0;
    while i < inputs.len()
        invariant
            i <= inputs@.len(),
            combined@ == concat_parts(views_of(inputs@.subrange(0, i as int))),
        decreases inputs@.len() - i,
    {
        let part: &[u8] = inputs[i];
        append_bytes(&mut combined, part);
        proof {
            let prefix = views_of(inputs@.subrange(0, i as int + 1));
            assert(prefix.drop_last() =~= views_of(inputs@.subrange(0, i as int)));
            assert(prefix.last() == part@);
        }
        i = i + 1;
    }
    assert(inputs@.subrange(0, inputs@.len() as int) =~= inputs@);
    kmac256_hash_data(domain, combined.as_slice())
}

} // verus!
