//! The zero-knowledge host interface used by the wallet: keyed SHAKE256
//! derivations, private claims, the key index with its Bloom filter, header
//! hints, claim scanning and the hint key search.
//!
//! Proof verification, index loading, header parsing, scanning and hint
//! decryption are not implemented here: they return empty results.
use vstd::prelude::*;
use std::path::PathBuf;
use crate::bytes::{append_bytes, to_array32};
use crate::hashing::{sha3_shake256, shake256_xof};
use crate::tags::{host_kdf, host_kdf_bytes, host_mac, host_mac_bytes, host_xof, host_xof_bytes};

verus! {

#[verifier::external_type_specification]
#[verifier::external_body]
pub struct ExPathBuf(PathBuf);

/// `PathBuf::clone`.
/// Trusted: only that it returns; a path is opaque here.
#[verifier::external_body]
fn clone_path(p: &PathBuf) -> (r: PathBuf) {
    p.clone()
}

/// SHAKE256 of a tag, the label, the key and the context, `len` bytes.
pub open spec fn host_derive(tag: Seq<u8>, key: Seq<u8>, label: Seq<u8>, context: Seq<u8>, len: nat) -> Seq<u8> {
    shake256_xof(tag + label + key + context, len)
}

fn derive_bytes(tag: &[u8], key: &[u8], label: &[u8], context: &[u8], len: usize) -> (out: Vec<u8>)
    ensures
        out@ == host_derive(tag@, key@, label@, context@, len as nat),
        out@.len() == len,
{
    let mut v: Vec<u8> = Vec::new();
    append_bytes(&mut v, tag);
    append_bytes(&mut v, label);
    append_bytes(&mut v, key);
    append_bytes(&mut v, context);
    assert(v@ =~= tag@ + label@ + key@ + context@);
    sha3_shake256(v.as_slice(), len)
}

/// A 32-byte key derived from `key` under `label` and `context`.
pub fn kmac256_derive_key(key: &[u8], label: &[u8], context: &[u8]) -> (out: [u8; 32])
    ensures
        out@ == host_derive(host_kdf(), key@, label@, context@, 32),
{
    let t = host_kdf_bytes();
    let v = derive_bytes(t.as_slice(), key, label, context, 32);
    let out = to_array32(v.as_slice());
    assert(out@ =~= v@);
    out
}

/// A 32-byte tag of `data` under `key` and `label`.
pub fn kmac256_tag(key: &[u8], label: &[u8], data: &[u8]) -> (out: [u8; 32])
    ensures
        out@ == host_derive(host_mac(), key@, label@, data@, 32),
{
    let t = host_mac_bytes();
    let v = derive_bytes(t.as_slice(), key, label, data, 32);
    let out = to_array32(v.as_slice());
    assert(out@ =~= v@);
    out
}

/// `out_len` bytes of extendable output for `key`, `label` and `context`.
pub fn kmac256_xof(key: &[u8], label: &[u8], context: &[u8], out_len: usize) -> (out: Vec<u8>)
    ensures
        out@ == host_derive(host_xof(), key@, label@, context@, out_len as nat),
        out@.len() == out_len,
{
    let t = host_xof_bytes();
    derive_bytes(t.as_slice(), key, label, context, out_len)
}

/// Why a host operation failed.
#[derive(Clone, Copy, Debug, PartialEq, Eq)]
pub enum HostError {
    /// The operation is not available.
    NotImplemented,
}

/// The public outputs of a private transaction proof.
#[derive(Debug, Clone)]
pub struct PrivClaim {
    pub outputs: Vec<[u8; 32]>,
}

/// Accepts any receipt, with a claim of no outputs.
pub fn verify_priv_receipt(bytes: &[u8]) -> (r: Result<PrivClaim, HostError>)
    ensures
        r matches Ok(c) && c.outputs@.len() == 0,
{
    Ok(PrivClaim { outputs: Vec::new() })
}

/// The Bloom filter of a key index.
pub struct BloomFilter {
    pub m_bits: u64,
    pub k_hashes: u32,
}

impl BloomFilter {
    /// Reports no tag as present.
    pub fn contains(&self, tag: &u16) -> (b: bool)
        ensures
            !b,
    {
        false
    }
}

/// A key index for scanning.
pub struct KeyIndex {
    pub epoch: u64,
    pub bloom: BloomFilter,
    pub path: PathBuf,
}

impl KeyIndex {
    /// An index at epoch 0 with a filter of 1024 bits and 3 hash functions, located at `dir`.
    pub fn load_latest(dir: &PathBuf) -> (r: Result<Self, HostError>)
        ensures
            r matches Ok(k) && k.epoch == 0 && k.bloom.m_bits == 1024 && k.bloom.k_hashes == 3,
    {
        Ok(KeyIndex { epoch: 0, bloom: BloomFilter { m_bits: 1024, k_hashes: 3 }, path: clone_path(dir) })
    }
}

/// A header entry.
pub struct HeaderEntry {
    pub filter_tag16: u16,
}

/// The hints of a block header.
pub struct HeaderHints {
    pub entries: Vec<HeaderEntry>,
}

impl HeaderHints {
    /// Unpacks any input into no entries.
    pub fn unpack(bytes: &[u8]) -> (r: Result<Self, HostError>)
        ensures
            r matches Ok(h) && h.entries@.len() == 0,
    {
        Ok(HeaderHints { entries: Vec::new() })
    }
}

/// A scan hit.
pub struct ScanHit {
    pub filter_tag16: u16,
    pub out_idx: usize,
    pub enc_hint32: [u8; 32],
    pub note_commit_point: [u8; 32],
}

/// Finds no hits.
pub fn scan_claim_with_index(claim: &PrivClaim, idx: &KeyIndex) -> (r: Result<Vec<ScanHit>, HostError>)
    ensures
        r matches Ok(v) && v@.len() == 0,
{
    Ok(Vec::new())
}

/// The largest encrypted hint.
pub const MAX_ENC_HINT_BYTES: usize = 1024;

/// What the associated data of a hint covers.
pub enum AadMode {
    COutOnly,
    NetIdAndCOut(u32),
}

/// How a hint carries its value.
pub enum ValueConceal {
    /// No value (the variant `None` of the wire format).
    Absent,
    Plain(u64),
    Masked(u64),
}

/// A memo item.
pub enum Item {
    Ascii(String),
    CiphertextToSpend(Vec<u8>),
}

/// A decrypted hint.
pub struct DecryptedHint {
    pub value: Option<u64>,
    pub memo_items: Vec<Item>,
    pub r_blind: [u8; 32],
}

/// The hint key-search context of a view key.
pub struct KeySearchCtx {
    view_key: [u8; 32],
}

impl KeySearchCtx {
    /// The view key.
    pub closed spec fn spec_view_key(&self) -> Seq<u8> {
        self.view_key@
    }

    /// A context for `view_key`.
    pub fn new(view_key: [u8; 32]) -> (c: Self)
        ensures
            c.spec_view_key() == view_key@,
    {
        Self { view_key }
    }

    /// Matches no hint.
    pub fn try_match_and_decrypt_ext(
        &self,
        c_out: &[u8; 32],
        enc: &[u8],
        aad_mode: AadMode,
    ) -> (r: Option<([u8; 32], Option<DecryptedHint>)>)
        ensures
            r is None,
    {
        None
    }

    /// Matches no hint.
    pub fn try_match_stateless(&self, c_out: &[u8; 32], eph_pub: &[u8; 32], enc_hint32: &[u8; 32]) -> (r: Option<[u8; 32]>)
        ensures
            r is None,
    {
        None
    }

    /// Reports no header hit.
    pub fn header_hit(&self, eph_pub: &[u8; 32], tag16: &[u8; 16]) -> (b: bool)
        ensures
            !b,
    {
        false
    }

    /// Builds an empty hint for the recipient's X25519 key `scan_pk`.
    pub fn build_enc_hint_ext(
        scan_pk: &[u8; 32],
        c_out: &[u8; 32],
        aad_mode: AadMode,
        r_blind: Option<[u8; 32]>,
        value: ValueConceal,
        items: &[Item],
    ) -> (v: Vec<u8>)
        ensures
            v@.len() == 0,
    {
        Vec::new()
    }
}

} // verus!
