//! Cryptographic building blocks: KMAC256-style keyed derivations and the
//! consensus hash.
pub mod aead;
pub mod entropy;
pub mod falcon_integration;
pub mod falcon_ops;
pub mod hint_transcript;
pub mod hints;
pub mod kmac;
pub mod kmac_drbg;
pub mod kmac_falcon_integration;
pub mod keysearch_quantum;
pub mod kmac_mlkem_integration;
pub mod quantum_hint_v2;

use vstd::prelude::*;
use crate::bytes::{append_bytes, append_u64_le, le64, to_array32};
use crate::crypto_kmac_consensus::{concat_parts, views_of};
use crate::hashing::{sha3_sha3_512, sha3_512_digest, sha3_shake256, shake256_xof};
use crate::tags::{
    consensus_key_v2, consensus_key_v2_bytes, kmac_hash_v2, kmac_hash_v2_bytes, consensus_key_v1,
    consensus_key_v1_bytes, kmac_hash_v1, kmac_hash_v1_bytes,
};
pub use kmac::kmac256_derive_key;

verus! {

/// Why a hint or key operation failed.
#[derive(Clone, Copy, Debug, PartialEq, Eq)]
pub enum FalconError {
    KeyGenerationFailed,
    EncryptionFailed,
    DecryptionFailed,
    SerializationFailed,
    DeserializationFailed,
    SigningFailed,
    VerificationFailed,
    InvalidKey,
}

/// Each part prefixed by its little-endian `u64` length.
pub open spec fn length_prefixed(parts: Seq<Seq<u8>>) -> Seq<u8>
    decreases parts.len(),
{
    if parts.len() == 0 {
        Seq::empty()
    } else {
        length_prefixed(parts.drop_last()) + le64(parts.last().len() as u64) + parts.last()
    }
}

/// The absorbed input of the keyed consensus hash: tag, key, label, then each input,
/// all length-prefixed but the tag.
pub open spec fn keyed_hash_input(tag: Seq<u8>, key: Seq<u8>, label: Seq<u8>, inputs: Seq<Seq<u8>>) -> Seq<u8> {
    tag + le64(key.len() as u64) + key + le64(label.len() as u64) + label + length_prefixed(inputs)
}

/// The SHA3-512-based keyed hash of `inputs` under `label`: the first 32 digest bytes.
pub open spec fn spec_kmac256_hash_v2(label: Seq<u8>, inputs: Seq<Seq<u8>>) -> Seq<u8> {
    sha3_512_digest(keyed_hash_input(kmac_hash_v2(), consensus_key_v2(), label, inputs)).subrange(0, 32)
}

/// The SHAKE256-based keyed hash of `inputs` under `label`.
pub open spec fn spec_kmac256_hash_v1(label: Seq<u8>, inputs: Seq<Seq<u8>>) -> Seq<u8> {
    shake256_xof(keyed_hash_input(kmac_hash_v1(), consensus_key_v1(), label, inputs), 32)
}

fn keyed_input(tag: &[u8], key: &[u8], label: &[u8], inputs: &[&[u8]]) -> (v: Vec<u8>)
    ensures
        v@ == keyed_hash_input(tag@, key@, label@, views_of(inputs@)),
{
    let mut v: Vec<u8> = Vec::new();
    append_bytes(&mut v, tag);
    append_u64_le(&mut v, key.len() as u64);
    append_bytes(&mut v, key);
    append_u64_le(&mut v, label.len() as u64);
    append_bytes(&mut v, label);
    let ghost head = v@;
    let mut i: usize = 0;
    while i < inputs.len()
        invariant
            i <= inputs@.len(),
            v@ == head + length_prefixed(views_of(inputs@.subrange(0, i as int))),
        decreases inputs@.len() - i,
    {
        let part: &[u8] = inputs[i];
        append_u64_le(&mut v, part.len() as u64);
        append_bytes(&mut v, part);
        proof {
            let pre = views_of(inputs@.subrange(0, i as int + 1));
            assert(pre.drop_last() =~= views_of(inputs@.subrange(0, i as int)));
            assert(pre.last() == part@);
            assert(v@ =~= head + length_prefixed(pre));
        }
        i = i + 1;
    }
    assert(inputs@.subrange(0, inputs@.len() as int) =~= inputs@);
    assert(v@ =~= keyed_hash_input(tag@, key@, label@, views_of(inputs@)));
    v
}

/// Keyed consensus hash (SHA3-512, truncated to 32 bytes) of `inputs` under `label`.
pub fn kmac256_hash(label: &[u8], inputs: &[&[u8]]) -> (out: [u8; 32])
    ensures
        out@ == spec_kmac256_hash_v2(label@, views_of(inputs@)),
{
    let tag = kmac_hash_v2_bytes();
    let key = consensus_key_v2_bytes();
    let v = keyed_input(tag.as_slice(), key.as_slice(), label, inputs);
    let d = sha3_sha3_512(v.as_slice());
    to_array32(&d)
}

/// Keyed consensus hash (SHAKE256, first version) of `inputs` under `label`.
pub fn kmac256_hash_v1(label: &[u8], inputs: &[&[u8]]) -> (out: [u8; 32])
    ensures
        out@ == spec_kmac256_hash_v1(label@, views_of(inputs@)),
{
    let tag = kmac_hash_v1_bytes();
    let key = consensus_key_v1_bytes();
    let v = keyed_input(tag.as_slice(), key.as_slice(), label, inputs);
    let h = sha3_shake256(v.as_slice(), 32);
    let out = to_array32(h.as_slice());
    assert(out@ =~= h@);
    out
}

} // verus!
