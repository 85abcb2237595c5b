//! The transcript that binds every parameter of a quantum-safe hint, and the
//! authenticated encryption of a hint payload under keys derived from the
//! shared secret.
//!
//! The payload travels here as bytes: its encoding into and out of the wire
//! format is the caller's.
use vstd::prelude::*;
use vstd::bytes::{spec_u32_to_le_bytes, u32_to_le_bytes};
use crate::bytes::{append_bytes, append_u64_le, le64};
use crate::crypto::FalconError;
use crate::crypto::aead::{opens_to, sealable, xchacha_decrypt, xchacha_encrypt, xchacha_open, xchacha_seal};
use crate::crypto::kmac::{kmac256_derive_key, kmac256_xof, spec_kmac256_derive_key, spec_kmac256_xof};
use crate::tags::{qh_aead_key, qh_aead_key_bytes, qh_aead_nonce24, qh_aead_nonce24_bytes, qhint_v1, qhint_v1_bytes};

verus! {

/// The transcript: the label `QHINT.v1`, the output commitment, the epoch and the
/// timestamp (little-endian), the KEM ciphertext's length as a little-endian `u32`
/// (truncated), the KEM ciphertext, the X25519 ephemeral key and the sender's Falcon key.
pub open spec fn spec_transcript(
    epoch: u64,
    timestamp: u64,
    c_out: Seq<u8>,
    kem_ct: Seq<u8>,
    x25519_eph_pub: Seq<u8>,
    sender_falcon_pk: Seq<u8>,
) -> Seq<u8> {
    qhint_v1() + c_out + le64(epoch) + le64(timestamp) + spec_u32_to_le_bytes(kem_ct.len() as u32) + kem_ct
        + x25519_eph_pub + sender_falcon_pk
}

/// The transcript binding all hint parameters.
pub fn transcript(
    epoch: u64,
    timestamp: u64,
    c_out: &[u8; 32],
    kem_ct: &[u8],
    x25519_eph_pub: &[u8; 32],
    sender_falcon_pk: &[u8],
) -> (t: Vec<u8>)
    ensures
        t@ == spec_transcript(epoch, timestamp, c_out@, kem_ct@, x25519_eph_pub@, sender_falcon_pk@),
{
    let mut t = qhint_v1_bytes();
    append_bytes(&mut t, c_out);
    append_u64_le(&mut t, epoch);
    append_u64_le(&mut t, timestamp);
    let n: u32 = #[verifier::truncate] (kem_ct.len() as u32);
    let nb = u32_to_le_bytes(n);
    append_bytes(&mut t, nb.as_slice());
    append_bytes(&mut t, kem_ct);
    append_bytes(&mut t, x25519_eph_pub);
    append_bytes(&mut t, sender_falcon_pk);
    t
}

/// The payload key derived from the shared secret.
pub open spec fn hint_key(ss_h: Seq<u8>) -> Seq<u8> {
    spec_kmac256_derive_key(ss_h, qh_aead_key(), Seq::empty())
}

/// The 24-byte payload nonce derived from the shared secret.
pub open spec fn hint_nonce(ss_h: Seq<u8>) -> Seq<u8> {
    spec_kmac256_xof(ss_h, qh_aead_nonce24(), Seq::empty(), 24)
}

fn derive_key_nonce(ss_h: &[u8; 32]) -> (r: ([u8; 32], [u8; 24]))
    ensures
        r.0@ == hint_key(ss_h@),
        r.1@ == hint_nonce(ss_h@),
{
    let empty: Vec<u8> = Vec::new();
    let kl = qh_aead_key_bytes();
    let key = kmac256_derive_key(ss_h, kl.as_slice(), empty.as_slice());
    let nl = qh_aead_nonce24_bytes();
    let nv = kmac256_xof(ss_h, nl.as_slice(), empty.as_slice(), 24);
    let mut nonce = [0u8; 24];
    let mut i: usize = 0;
    while i < 24
        invariant
            nv@.len() == 24,
            i <= 24,
            forall|j: int| 0 <= j < i ==> nonce@[j] == nv@[j],
        decreases 24 - i,
    {
        nonce[i] = nv[i];
        i = i + 1;
    }
    assert(nonce@ =~= nv@);
    assert(empty@ =~= Seq::<u8>::empty());
    (key, nonce)
}

/// Seals an encoded payload under the key and nonce derived from `ss_h`, binding `aad`.
/// An over-long payload is refused with `SerializationFailed`.
pub fn aead_encrypt(ss_h: &[u8; 32], aad: &[u8], plaintext: &[u8]) -> (r: Result<Vec<u8>, FalconError>)
    ensures
        !sealable(plaintext@.len()) ==> r == Err::<Vec<u8>, FalconError>(FalconError::SerializationFailed),
        sealable(plaintext@.len()) ==> (r matches Ok(c) && c@ == xchacha_seal(
            hint_key(ss_h@),
            hint_nonce(ss_h@),
            plaintext@,
            aad@,
        )),
        r matches Ok(c) ==> xchacha_open(hint_key(ss_h@), hint_nonce(ss_h@), c@, aad@) == Some(plaintext@),
{
    let (key, nonce) = derive_key_nonce(ss_h);
    match xchacha_encrypt(&key, &nonce, plaintext, aad) {
        Some(ct) => Ok(ct),
        None => Err(FalconError::SerializationFailed),
    }
}

/// Opens a sealed payload under the key and nonce derived from `ss_h` and `aad`:
/// the encoded payload, or `None` where it does not authenticate. A payload sealed by
/// [`aead_encrypt`] with the same secret and associated data opens to itself.
pub fn aead_decrypt(ss_h: &[u8; 32], aad: &[u8], ciphertext: &[u8]) -> (r: Option<Vec<u8>>)
    ensures
        r is Some <==> xchacha_open(hint_key(ss_h@), hint_nonce(ss_h@), ciphertext@, aad@) is Some,
        r matches Some(p) ==> xchacha_open(hint_key(ss_h@), hint_nonce(ss_h@), ciphertext@, aad@) == Some(p@),
        forall|m: Seq<u8>|
            sealable(m.len()) && ciphertext@ == #[trigger] xchacha_seal(hint_key(ss_h@), hint_nonce(ss_h@), m, aad@)
                ==> (r matches Some(p) && p@ == m),
{
    let (key, nonce) = derive_key_nonce(ss_h);
    let r = xchacha_decrypt(&key, &nonce, ciphertext, aad);
    proof {
        assert forall|m: Seq<u8>|
            sealable(m.len()) && ciphertext@ == #[trigger] xchacha_seal(hint_key(ss_h@), hint_nonce(ss_h@), m, aad@)
                implies (r matches Some(p) && p@ == m) by {
            assert(opens_to(r, key@, nonce@, ciphertext@, aad@, m));
        }
    }
    r
}

} // verus!
