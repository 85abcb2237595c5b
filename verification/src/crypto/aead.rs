//! The authenticated ciphers this library builds on: XChaCha20-Poly1305 and
//! AES-256-GCM-SIV.
use vstd::prelude::*;
use chacha20poly1305::aead::{Aead, KeyInit, Payload};
use chacha20poly1305::{XChaCha20Poly1305, XNonce};
use aes_gcm_siv::Aes256GcmSiv;

verus! {

/// The XChaCha20-Poly1305 ciphertext (with its appended tag) of `msg` under `key`,
/// `nonce` and associated data `aad`.
pub uninterp spec fn xchacha_seal(key: Seq<u8>, nonce: Seq<u8>, msg: Seq<u8>, aad: Seq<u8>) -> Seq<u8>;

/// The XChaCha20-Poly1305 opening of `ct`: the plaintext, or `None` where the tag
/// does not authenticate.
pub uninterp spec fn xchacha_open(key: Seq<u8>, nonce: Seq<u8>, ct: Seq<u8>, aad: Seq<u8>) -> Option<Seq<u8>>;

/// The largest plaintext the cipher takes is below `64 * u32::MAX` bytes.
pub open spec fn sealable(len: nat) -> bool {
    len / 64 < u32::MAX
}

/// `XChaCha20Poly1305::new` and `Aead::encrypt` from `chacha20poly1305`.
/// Trusted: it fails exactly on a plaintext of `64 * u32::MAX` bytes or more; otherwise
/// it returns the named ciphertext, which is the plaintext's length plus a 16-byte tag
/// and opens to the plaintext under the same key, nonce and associated data.
#[verifier::external_body]
pub(crate) fn xchacha_encrypt(key: &[u8; 32], nonce: &[u8; 24], msg: &[u8], aad: &[u8]) -> (r: Option<Vec<u8>>)
    ensures
        r is Some <==> sealable(msg@.len()),
        r matches Some(c) ==> c@ == xchacha_seal(key@, nonce@, msg@, aad@) && c@.len() == msg@.len() + 16,
        r matches Some(c) ==> xchacha_open(key@, nonce@, c@, aad@) == Some(msg@),
{
    let cipher = XChaCha20Poly1305::new(key.as_slice().into());
    cipher.encrypt(XNonce::from_slice(nonce), Payload { msg, aad }).ok()
}

/// `XChaCha20Poly1305::new` and `Aead::decrypt` from `chacha20poly1305`.
/// Trusted: the result is the named opening, and the opening of a ciphertext sealed
/// under the same key, nonce and associated data is the sealed plaintext.
#[verifier::external_body]
pub(crate) fn xchacha_decrypt(key: &[u8; 32], nonce: &[u8; 24], ct: &[u8], aad: &[u8]) -> (r: Option<Vec<u8>>)
    ensures
        r is Some <==> xchacha_open(key@, nonce@, ct@, aad@) is Some,
        r matches Some(p) ==> xchacha_open(key@, nonce@, ct@, aad@) == Some(p@),
        forall|m: Seq<u8>| #[trigger] opens_to(r, key@, nonce@, ct@, aad@, m),
{
    let cipher = XChaCha20Poly1305::new(key.as_slice().into());
    cipher.decrypt(XNonce::from_slice(nonce), Payload { msg: ct, aad }).ok()
}

/// Where `ct` is `m` sealed under `key`, `nonce` and `aad`, the opening `r` is `m`.
pub open spec fn opens_to(r: Option<Vec<u8>>, key: Seq<u8>, nonce: Seq<u8>, ct: Seq<u8>, aad: Seq<u8>, m: Seq<u8>) -> bool {
    sealable(m.len()) && ct == xchacha_seal(key, nonce, m, aad) ==> (r matches Some(p) && p@ == m)
}

/// The AES-256-GCM-SIV ciphertext (with its appended tag) of `msg` under `key`,
/// `nonce` and associated data `aad`.
pub uninterp spec fn siv_seal(key: Seq<u8>, nonce: Seq<u8>, msg: Seq<u8>, aad: Seq<u8>) -> Seq<u8>;

/// The AES-256-GCM-SIV opening of `ct`: the plaintext, or `None` where the tag does
/// not authenticate.
pub uninterp spec fn siv_open(key: Seq<u8>, nonce: Seq<u8>, ct: Seq<u8>, aad: Seq<u8>) -> Option<Seq<u8>>;

/// The largest plaintext AES-256-GCM-SIV takes is `2^36` bytes.
pub open spec fn siv_sealable(len: nat) -> bool {
    len <= 0x10_0000_0000
}

/// `Aes256GcmSiv::new` and `Aead::encrypt` from `aes-gcm-siv`.
/// Trusted: it fails exactly on a plaintext of more than `2^36` bytes (the associated
/// data is short); otherwise it returns the named ciphertext.
#[verifier::external_body]
pub(crate) fn siv_encrypt(key: &[u8; 32], nonce: &[u8; 12], msg: &[u8], aad: &[u8; 32]) -> (r: Option<Vec<u8>>)
    ensures
        r is Some <==> siv_sealable(msg@.len()),
        r matches Some(c) ==> c@ == siv_seal(key@, nonce@, msg@, aad@),
{
    let cipher = Aes256GcmSiv::new(key.as_slice().into());
    cipher.encrypt(aes_gcm_siv::Nonce::from_slice(nonce), aes_gcm_siv::aead::Payload { msg, aad }).ok()
}

/// `Aes256GcmSiv::new` and `Aead::decrypt` from `aes-gcm-siv`.
/// Trusted: the result is the named opening, and the opening of a ciphertext sealed
/// under the same key, nonce and associated data is the sealed plaintext.
#[verifier::external_body]
pub(crate) fn siv_decrypt(key: &[u8; 32], nonce: &[u8; 12], ct: &[u8], aad: &[u8; 32]) -> (r: Option<Vec<u8>>)
    ensures
        r is Some <==> siv_open(key@, nonce@, ct@, aad@) is Some,
        r matches Some(p) ==> siv_open(key@, nonce@, ct@, aad@) == Some(p@),
        forall|m: Seq<u8>| #[trigger] siv_opens_to(r, key@, nonce@, ct@, aad@, m),
{
    let cipher = Aes256GcmSiv::new(key.as_slice().into());
    cipher.decrypt(aes_gcm_siv::Nonce::from_slice(nonce), aes_gcm_siv::aead::Payload { msg: ct, aad }).ok()
}

/// Where `ct` is `m` sealed under `key`, `nonce` and `aad`, the opening `r` is `m`.
pub open spec fn siv_opens_to(r: Option<Vec<u8>>, key: Seq<u8>, nonce: Seq<u8>, ct: Seq<u8>, aad: Seq<u8>, m: Seq<u8>) -> bool {
    siv_sealable(m.len()) && ct == siv_seal(key, nonce, m, aad) ==> (r matches Some(p) && p@ == m)
}

} // verus!
