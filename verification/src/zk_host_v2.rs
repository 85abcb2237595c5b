//! The second zero-knowledge host interface: SHAKE256 derivations framed by a
//! domain label, and the claim, key index, header and key-search types of the
//! wallet scanner.
//!
//! Receipt verification, index loading, header unpacking and claim scanning are
//! not available here and fail with their own error; hint matching finds nothing
//! and hint building gives an empty hint.
use vstd::prelude::*;
use std::path::PathBuf;
use crate::bytes::{append_bytes, to_array32};
use crate::hashing::{sha3_shake256, shake256_xof};
use crate::tags::{zk_kdf, zk_kdf_bytes, zk_mac, zk_mac_bytes, zk_xof, zk_xof_bytes};

verus! {

/// SHAKE256 of the domain label, the key, the label and the context, `len` bytes.
pub open spec fn zk_derive(domain: Seq<u8>, key: Seq<u8>, label: Seq<u8>, context: Seq<u8>, len: nat) -> Seq<u8> {
    shake256_xof(domain + key + label + context, len)
}

fn framed_shake(domain: &[u8], key: &[u8], label: &[u8], context: &[u8], len: usize) -> (out: Vec<u8>)
    ensures
        out@ == zk_derive(domain@, key@, label@, context@, len as nat),
        out@.len() == len,
{
    let mut v: Vec<u8> = Vec::new();
    append_bytes(&mut v, domain);
    append_bytes(&mut v, key);
    append_bytes(&mut v, label);
    append_bytes(&mut v, context);
    assert(v@ =~= domain@ + key@ + label@ + context@);
    sha3_shake256(v.as_slice(), len)
}

/// A 32-byte key derived from `key`, `label` and `context` under `KMAC256-DERIVE`.
pub fn kmac256_derive_key(key: &[u8], label: &[u8], context: &[u8]) -> (out: [u8; 32])
    ensures
        out@ == zk_derive(zk_kdf(), key@, label@, context@, 32),
{
    let d = zk_kdf_bytes();
    let v = framed_shake(d.as_slice(), key, label, context, 32);
    let out = to_array32(v.as_slice());
    assert(out@ =~= v@);
    out
}

/// `len` bytes derived from `key`, `label` and `context` under `KMAC256-XOF`.
pub fn kmac256_xof(key: &[u8], label: &[u8], context: &[u8], len: usize) -> (out: Vec<u8>)
    ensures
        out@ == zk_derive(zk_xof(), key@, label@, context@, len as nat),
        out@.len() == len,
{
    let d = zk_xof_bytes();
    framed_shake(d.as_slice(), key, label, context, len)
}

/// A 32-byte tag of `msg` under `key` and `label`, framed by `KMAC256-TAG`.
pub fn kmac256_tag(key: &[u8], label: &[u8], msg: &[u8]) -> (out: [u8; 32])
    ensures
        out@ == zk_derive(zk_mac(), key@, label@, msg@, 32),
{
    let d = zk_mac_bytes();
    let v = framed_shake(d.as_slice(), key, label, msg, 32);
    let out = to_array32(v.as_slice());
    assert(out@ =~= v@);
    out
}

/// Which host operation is not available.
#[derive(Clone, Copy, Debug, PartialEq, Eq)]
pub enum ZkHostError {
    ZkNotImplemented,
    KeyIndexNotImplemented,
    HeaderHintsNotImplemented,
    ScannerNotImplemented,
}

/// The claim of a private transaction proof.
#[derive(Debug)]
pub struct Claim {}

/// Receipt verification is not available: every receipt is refused.
pub fn verify_priv_receipt(bytes: &[u8]) -> (r: Result<Claim, ZkHostError>)
    ensures
        r == Err::<Claim, ZkHostError>(ZkHostError::ZkNotImplemented),
{
    Err(ZkHostError::ZkNotImplemented)
}

/// The Bloom filter of a key index.
pub struct BloomFilter {
    pub m_bits: usize,
    pub k_hashes: usize,
}

impl BloomFilter {
    /// Reports no tag as present.
    pub fn contains(&self, tag: &[u8; 2]) -> (b: bool)
        ensures
            !b,
    {
        false
    }
}

/// A key index for scanning.
pub struct KeyIndex {
    pub epoch: u64,
    pub bloom: BloomFilter,
    pub path: PathBuf,
}

impl KeyIndex {
    /// Loading an index is not available.
    pub fn load_latest(dir: &PathBuf) -> (r: Result<Self, ZkHostError>)
        ensures
            r matches Err(e) && e == ZkHostError::KeyIndexNotImplemented,
    {
        Err(ZkHostError::KeyIndexNotImplemented)
    }
}

/// A header entry.
pub struct HeaderEntry {
    pub filter_tag16: [u8; 2],
}

/// The hints of a block header.
pub struct HeaderHints {
    pub entries: Vec<HeaderEntry>,
}

impl HeaderHints {
    /// Unpacking header hints is not available.
    pub fn unpack(bytes: &[u8]) -> (r: Result<Self, ZkHostError>)
        ensures
            r matches Err(e) && e == ZkHostError::HeaderHintsNotImplemented,
    {
        Err(ZkHostError::HeaderHintsNotImplemented)
    }
}

/// A scan hit.
pub struct ScanHit {
    pub filter_tag16: u16,
    pub out_idx: usize,
    pub enc_hint32: [u8; 32],
    pub note_commit_point: Vec<u8>,
}

/// Scanning a claim is not available.
pub fn scan_claim_with_index(claim: &Claim, index: &KeyIndex) -> (r: Result<Vec<ScanHit>, ZkHostError>)
    ensures
        r matches Err(e) && e == ZkHostError::ScannerNotImplemented,
{
    Err(ZkHostError::ScannerNotImplemented)
}

/// The largest encrypted hint.
pub const MAX_ENC_HINT_BYTES: usize = 1024;

/// What the associated data of a hint covers.
pub enum AadMode {
    COutOnly,
    NetIdAndCOut(u32),
}

/// How a hint carries its value.
pub enum ValueConceal {
    /// No value (the variant `None` of the wire format).
    Absent,
    Plain(u64),
    Masked(u64),
}

/// A memo item.
pub enum Item {
    Ascii(String),
    CiphertextToSpend(Vec<u8>),
}

/// A decrypted hint payload.
pub struct DecryptedPayload {
    pub value: Option<u64>,
    pub memo_items: Vec<Item>,
    pub r_blind: [u8; 32],
}

/// The hint key-search context of a view key.
pub struct KeySearchCtx {
    view_key: [u8; 32],
}

impl KeySearchCtx {
    /// The view key.
    pub closed spec fn spec_view_key(&self) -> Seq<u8> {
        self.view_key@
    }

    /// A context for `view_key`.
    pub fn new(view_key: [u8; 32]) -> (c: Self)
        ensures
            c.spec_view_key() == view_key@,
    {
        Self { view_key }
    }

    /// Matches no hint.
    pub fn try_match_and_decrypt_ext(
        &self,
        c_out: &[u8; 32],
        enc: &[u8],
        aad_mode: AadMode,
    ) -> (r: Option<([u8; 32], Option<DecryptedPayload>)>)
        ensures
            r is None,
    {
        None
    }

    /// Matches no hint.
    pub fn try_match_stateless(&self, c_out: &[u8; 32], eph_pub: &[u8; 32], enc_hint32: &[u8; 32]) -> (r: Option<[u8; 32]>)
        ensures
            r is None,
    {
        None
    }

    /// Reports no header hit.
    pub fn header_hit(&self, eph_pub: &[u8; 32], tag16: &[u8; 16]) -> (b: bool)
        ensures
            !b,
    {
        false
    }

    /// Builds an empty hint for the recipient's X25519 key `scan_pk`.
    pub fn build_enc_hint_ext(
        scan_pk: &[u8; 32],
        c_out: &[u8; 32],
        aad_mode: AadMode,
        r_blind: Option<[u8; 32]>,
        value: ValueConceal,
        items: &[Item],
    ) -> (v: Vec<u8>)
        ensures
            v@.len() == 0,
    {
        Vec::new()
    }
}

} // verus!
