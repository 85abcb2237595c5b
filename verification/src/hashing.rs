//! The outside hash primitives this library builds on.
//!
//! Every function here is a thin, trusted bridge to a hash implementation of
//! an outside crate.  A hash output is a function of its input alone, so each
//! one is given a name over plain byte sequences; the verified code of the
//! library states its own contracts over these names.
use vstd::prelude::*;
use sha3::digest::{ExtendableOutput, Update, XofReader};
use sha3::Digest;
use tiny_keccak::Hasher;

verus! {

/// The SHAKE256 output of `len` bytes for `data` (as computed by the `sha3` crate).
pub uninterp spec fn shake256_xof(data: Seq<u8>, len: nat) -> Seq<u8>;

/// The SHAKE256 output of `len` bytes for `data` (as computed by the `tiny-keccak` crate).
pub uninterp spec fn keccak_shake256(data: Seq<u8>, len: nat) -> Seq<u8>;

/// The SHA-256 digest of `data` (as computed by the `sha2` crate).
pub uninterp spec fn sha256_digest(data: Seq<u8>) -> Seq<u8>;

/// The SHA3-256 digest of `data` (as computed by the `sha3` crate).
pub uninterp spec fn sha3_256_digest(data: Seq<u8>) -> Seq<u8>;

/// The SHA3-512 digest of `data` (as computed by the `sha3` crate).
pub uninterp spec fn sha3_512_digest(data: Seq<u8>) -> Seq<u8>;

/// The KMAC256 output of `len` bytes under `key` and customization `custom` for `data`
/// (as computed by the `tiny-keccak` crate).
pub uninterp spec fn kmac256_output(key: Seq<u8>, custom: Seq<u8>, data: Seq<u8>, len: nat) -> Seq<u8>;

/// The cSHAKE256 output of `len` bytes for function name `name`, customization `custom`
/// and no further input (as computed by the `tiny-keccak` crate).
pub uninterp spec fn cshake256_output(name: Seq<u8>, custom: Seq<u8>, len: nat) -> Seq<u8>;

/// `sha3::Shake256`: absorbs `data` and squeezes `out_len` bytes.
/// Trusted: the output is the named SHAKE256 value of `data`, of the requested length.
#[verifier::external_body]
pub fn sha3_shake256(data: &[u8], out_len: usize) -> (out: Vec<u8>)
    ensures
        out@ == shake256_xof(data@, out_len as nat),
        out@.len() == out_len,
{
    let mut hasher = sha3::Shake256::default();
    Update::update(&mut hasher, data);
    let mut reader = hasher.finalize_xof();
    let mut out = vec![0u8; out_len];
    XofReader::read(&mut reader, &mut out);
    out
}

/// `tiny_keccak::Shake::v256`: absorbs `data` and finalizes into `out_len` bytes.
/// Trusted: the output is the named SHAKE256 value of `data`, of the requested length.
#[verifier::external_body]
pub fn tk_shake256(data: &[u8], out_len: usize) -> (out: Vec<u8>)
    ensures
        out@ == keccak_shake256(data@, out_len as nat),
        out@.len() == out_len,
{
    let mut sh = tiny_keccak::Shake::v256();
    sh.update(data);
    let mut out = vec![0u8; out_len];
    sh.finalize(&mut out);
    out
}

/// `sha2::Sha256`: the 32-byte digest of `data`.
/// Trusted: the output is the named SHA-256 digest of `data`.
#[verifier::external_body]
pub fn sha2_sha256(data: &[u8]) -> (out: [u8; 32])
    ensures
        out@ == sha256_digest(data@),
{
    let d = sha2::Sha256::digest(data);
    let mut out = [0u8; 32];
    out.copy_from_slice(&d);
    out
}

/// `sha3::Sha3_256`: the 32-byte digest of `data`.
/// Trusted: the output is the named SHA3-256 digest of `data`.
#[verifier::external_body]
pub fn sha3_sha3_256(data: &[u8]) -> (out: [u8; 32])
    ensures
        out@ == sha3_256_digest(data@),
{
    let d = sha3::Sha3_256::digest(data);
    let mut out = [0u8; 32];
    out.copy_from_slice(&d);
    out
}

/// `sha3::Sha3_512`: the 64-byte digest of `data`.
/// Trusted: the output is the named SHA3-512 digest of `data`.
#[verifier::external_body]
pub fn sha3_sha3_512(data: &[u8]) -> (out: [u8; 64])
    ensures
        out@ == sha3_512_digest(data@),
{
    let d = sha3::Sha3_512::digest(data);
    let mut out = [0u8; 64];
    out.copy_from_slice(&d);
    out
}

/// `tiny_keccak::Kmac::v256`: keyed hash of `data` finalized into `out_len` bytes.
/// Trusted: the output is the named KMAC256 value, of the requested length.
#[verifier::external_body]
pub fn tk_kmac256(key: &[u8], custom: &[u8], data: &[u8], out_len: usize) -> (out: Vec<u8>)
    ensures
        out@ == kmac256_output(key@, custom@, data@, out_len as nat),
        out@.len() == out_len,
{
    let mut km = tiny_keccak::Kmac::v256(key, custom);
    km.update(data);
    let mut out = vec![0u8; out_len];
    km.finalize(&mut out);
    out
}

/// `tiny_keccak::CShake::v256`: finalizes an empty cSHAKE256 instance into `out_len` bytes.
/// Trusted: the output is the named cSHAKE256 value, of the requested length.
#[verifier::external_body]
pub fn tk_cshake256(name: &[u8], custom: &[u8], out_len: usize) -> (out: Vec<u8>)
    ensures
        out@ == cshake256_output(name@, custom@, out_len as nat),
        out@.len() == out_len,
{
    let cs = tiny_keccak::CShake::v256(name, custom);
    let mut out = vec![0u8; out_len];
    cs.finalize(&mut out);
    out
}

} // verus!
