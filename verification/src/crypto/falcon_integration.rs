//! Falcon-512 signed hints: a shared secret combined from a Falcon-key exchange and
//! an X25519 exchange, the payload sealed with AES-256-GCM-SIV under it, and a
//! Falcon-512 signature by an ephemeral key over the hint's parameters.
//!
//! Key pairs are kept per epoch in a cache of the ten most recently used epochs;
//! verdicts on hints are kept in a cache of the thousand most recently seen hints,
//! and a hint whose verdict was negative is refused from then on.
//!
//! The key exchange derives the secret from the holder's own secret key and the
//! other side's public key, so the sender and the recipient derive different
//! secrets; the signature is taken as the bytes of the signed message after the
//! length of the signed parameters.
use vstd::prelude::*;
use lru::LruCache;
use std::collections::hash_map::RandomState;
use std::num::NonZeroUsize;
use vstd::bytes::spec_u64_from_le_bytes;
use crate::bytes::{append_bytes, append_u64_le, copy_bytes, eq32, le64, to_array32};
use crate::crypto::FalconError;
use crate::crypto::aead::{siv_decrypt, siv_encrypt, siv_open, siv_seal, siv_sealable};
use crate::crypto::entropy::os_random_bytes;
use crate::crypto::kmac::{kmac256_derive_key, spec_kmac256_derive_key};
use crate::crypto::kmac_mlkem_integration::{bytes_equal, x25519_base, x25519_dh, x25519_public_of, x25519_shared};
use crate::falcon_sigs::{falcon_key_match, falcon_open, falcon_signed, pqc_keypair, pqc_open, pqc_pk_parses, pqc_sign, FALCON_PK_BYTES, FALCON_SK_BYTES};
use crate::hashing::{sha2_sha256, sha256_digest, sha3_shake256, shake256_xof};
use crate::keysearch::slice_copy;
use crate::time::unix_now_secs;
use crate::tags::{
    falcon_kex, falcon_kex_bytes, hint_cache_label, hint_cache_label_bytes, hybrid_keysearch_ctx,
    hybrid_keysearch_ctx_bytes, hybrid_secret_label, hybrid_secret_label_bytes, quantum_hint_prefix,
    quantum_hint_prefix_bytes, x25519_session_v1, x25519_session_v1_bytes,
};

verus! {

#[verifier::external_type_specification]
#[verifier::external_body]
#[verifier::reject_recursive_types(K)]
#[verifier::reject_recursive_types(V)]
#[verifier::reject_recursive_types(S)]
pub struct ExLruCache<K, V, S>(LruCache<K, V, S>);

/// The epoch key pairs (secret key, public key) a cache holds, most recently used
/// first.
pub uninterp spec fn epoch_cache_entries(c: LruCache<u64, (Vec<u8>, Vec<u8>), RandomState>) -> Seq<(u64, (Seq<u8>, Seq<u8>))>;

/// The capacity a cache of epoch key pairs was made with.
pub uninterp spec fn epoch_cache_cap(c: LruCache<u64, (Vec<u8>, Vec<u8>), RandomState>) -> nat;

/// The hint verdicts a cache holds, most recently used first.
pub uninterp spec fn verdict_cache_entries(c: LruCache<[u8; 32], bool, RandomState>) -> Seq<(Seq<u8>, bool)>;

/// The capacity a cache of hint verdicts was made with.
pub uninterp spec fn verdict_cache_cap(c: LruCache<[u8; 32], bool, RandomState>) -> nat;

/// The position of key `k` in a recency list, or `-1`.
pub open spec fn lru_index<K, V>(s: Seq<(K, V)>, k: K) -> int
    decreases s.len(),
{
    if s.len() == 0 {
        -1
    } else if s[0].0 == k {
        0
    } else {
        let i = lru_index(s.drop_first(), k);
        if i < 0 { -1 } else { i + 1 }
    }
}

/// The recency list after a lookup of `k`: a present entry moves to the front.
pub open spec fn lru_touched<K, V>(s: Seq<(K, V)>, k: K) -> Seq<(K, V)> {
    let i = lru_index(s, k);
    if i < 0 { s } else { seq![s[i]] + s.remove(i) }
}

/// The recency list after storing `v` under `k`: the entry goes to the front,
/// replacing the old entry of `k`, or else evicting the least recent entry of a
/// full list.
pub open spec fn lru_put<K, V>(s: Seq<(K, V)>, cap: nat, k: K, v: V) -> Seq<(K, V)> {
    let i = lru_index(s, k);
    if i >= 0 {
        seq![(k, v)] + s.remove(i)
    } else if s.len() == cap {
        seq![(k, v)] + s.drop_last()
    } else {
        seq![(k, v)] + s
    }
}

proof fn lemma_lru_index<K, V>(s: Seq<(K, V)>, k: K)
    ensures
        -1 <= lru_index(s, k) < s.len(),
        lru_index(s, k) >= 0 ==> s[lru_index(s, k)].0 == k,
    decreases s.len(),
{
    if s.len() > 0 && s[0].0 != k {
        lemma_lru_index(s.drop_first(), k);
    }
}

/// `LruCache::with_hasher` with a capacity of ten epoch key pairs.
/// Trusted: the cache is empty and has that capacity.
#[verifier::external_body]
fn epoch_cache_new() -> (c: LruCache<u64, (Vec<u8>, Vec<u8>), RandomState>)
    ensures
        epoch_cache_entries(c) == Seq::<(u64, (Seq<u8>, Seq<u8>))>::empty(),
        epoch_cache_cap(c) == 10,
{
    LruCache::with_hasher(NonZeroUsize::new(10).unwrap(), RandomState::new())
}

/// `LruCache::get` on an epoch-key cache, the pair copied out.
/// Trusted: the pair stored under `k` if any, which becomes the most recent entry.
#[verifier::external_body]
fn epoch_cache_get(c: &mut LruCache<u64, (Vec<u8>, Vec<u8>), RandomState>, k: u64) -> (r: Option<(Vec<u8>, Vec<u8>)>)
    ensures
        r is Some <==> lru_index(epoch_cache_entries(*old(c)), k) >= 0,
        r matches Some(p) ==> (p.0@, p.1@) == epoch_cache_entries(*old(c))[lru_index(epoch_cache_entries(*old(c)), k)].1,
        epoch_cache_entries(*final(c)) == lru_touched(epoch_cache_entries(*old(c)), k),
        epoch_cache_cap(*final(c)) == epoch_cache_cap(*old(c)),
{
    match c.get(&k) {
        Some(v) => Some((v.0.clone(), v.1.clone())),
        None => None,
    }
}

/// `LruCache::put` on an epoch-key cache.
/// Trusted: the pair becomes the most recent entry under `k`, replacing the old one or
/// evicting the least recent entry of a full cache.
#[verifier::external_body]
fn epoch_cache_put(c: &mut LruCache<u64, (Vec<u8>, Vec<u8>), RandomState>, k: u64, v: (Vec<u8>, Vec<u8>))
    ensures
        epoch_cache_entries(*final(c)) == lru_put(epoch_cache_entries(*old(c)), epoch_cache_cap(*old(c)), k, (v.0@, v.1@)),
        epoch_cache_cap(*final(c)) == epoch_cache_cap(*old(c)),
{
    c.put(k, v);
}

/// `LruCache::with_hasher` with a capacity of a thousand hint verdicts.
/// Trusted: the cache is empty and has that capacity.
#[verifier::external_body]
fn verdict_cache_new() -> (c: LruCache<[u8; 32], bool, RandomState>)
    ensures
        verdict_cache_entries(c) == Seq::<(Seq<u8>, bool)>::empty(),
        verdict_cache_cap(c) == 1000,
{
    LruCache::with_hasher(NonZeroUsize::new(1000).unwrap(), RandomState::new())
}

/// `LruCache::get` on a verdict cache.
/// Trusted: the verdict stored under `k` if any, which becomes the most recent entry.
#[verifier::external_body]
fn verdict_cache_get(c: &mut LruCache<[u8; 32], bool, RandomState>, k: &[u8; 32]) -> (r: Option<bool>)
    ensures
        r is Some <==> lru_index(verdict_cache_entries(*old(c)), k@) >= 0,
        r matches Some(b) ==> b == verdict_cache_entries(*old(c))[lru_index(verdict_cache_entries(*old(c)), k@)].1,
        verdict_cache_entries(*final(c)) == lru_touched(verdict_cache_entries(*old(c)), k@),
        verdict_cache_cap(*final(c)) == verdict_cache_cap(*old(c)),
{
    c.get(k).copied()
}

/// `LruCache::put` on a verdict cache.
/// Trusted: the verdict becomes the most recent entry under `k`, replacing the old
/// one or evicting the least recent entry of a full cache.
#[verifier::external_body]
fn verdict_cache_put(c: &mut LruCache<[u8; 32], bool, RandomState>, k: [u8; 32], v: bool)
    ensures
        verdict_cache_entries(*final(c)) == lru_put(verdict_cache_entries(*old(c)), verdict_cache_cap(*old(c)), k@, v),
        verdict_cache_cap(*final(c)) == verdict_cache_cap(*old(c)),
{
    c.put(k, v);
}

/// A Falcon-signed hint.
#[derive(Clone, Debug)]
pub struct QuantumSafeHint {
    pub eph_falcon_pk: Vec<u8>,
    pub eph_x25519_pk: [u8; 32],
    pub falcon_signature: Vec<u8>,
    pub encrypted_payload: Vec<u8>,
    pub nonce: [u8; 12],
    pub timestamp: u64,
    pub epoch: u64,
    pub version: u8,
}

/// The payload of a hint.
#[derive(Clone, Debug)]
pub struct HintPayload {
    pub r_blind: [u8; 32],
    pub value: Option<u64>,
    pub memo: Vec<u8>,
}

/// The encoding of an optional value: a zero byte for none, else a one byte and the
/// value's eight little-endian bytes.
pub open spec fn option_bytes(v: Option<u64>) -> Seq<u8> {
    match v {
        None => seq![0u8],
        Some(x) => seq![1u8] + le64(x),
    }
}

/// The wire encoding of a payload: the blinding factor, the optional value, the memo's
/// length as eight little-endian bytes, and the memo.
pub open spec fn hint_payload_bytes(p: HintPayload) -> Seq<u8> {
    p.r_blind@ + option_bytes(p.value) + le64(p.memo@.len() as u64) + p.memo@
}

/// The blinding factor, value and memo an encoding holds, or `None` where the option
/// tag is neither zero nor one or the bytes end early. Bytes after the memo are
/// ignored.
pub open spec fn decode_hint_payload(b: Seq<u8>) -> Option<(Seq<u8>, Option<u64>, Seq<u8>)> {
    if b.len() < 33 || (b[32] != 0 && b[32] != 1) {
        None
    } else {
        let off: int = if b[32] == 0 { 33 } else { 41 };
        if b.len() < off + 8 {
            None
        } else {
            let value = if b[32] == 0 { None } else { Some(spec_u64_from_le_bytes(b.subrange(33, 41))) };
            let n = spec_u64_from_le_bytes(b.subrange(off, off + 8));
            if b.len() < off + 8 + n {
                None
            } else {
                Some((b.subrange(0, 32), value, b.subrange(off + 8, off + 8 + n)))
            }
        }
    }
}

impl HintPayload {
    /// The wire encoding.
    pub fn encode(&self) -> (out: Vec<u8>)
        ensures
            out@ == hint_payload_bytes(*self),
    {
        let mut out: Vec<u8> = Vec::new();
        append_bytes(&mut out, &self.r_blind);
        match self.value {
            None => {
                out.push(0u8);
            },
            Some(x) => {
                out.push(1u8);
                append_u64_le(&mut out, x);
            },
        }
        append_u64_le(&mut out, self.memo.len() as u64);
        append_bytes(&mut out, self.memo.as_slice());
        proof {
            match self.value {
                None => {},
                Some(x) => {},
            }
            assert(out@ =~= hint_payload_bytes(*self));
        }
        out
    }

    /// Decodes a payload.
    pub fn decode(bytes: &[u8]) -> (r: Option<HintPayload>)
        ensures
            r is Some <==> decode_hint_payload(bytes@) is Some,
            r matches Some(p) ==> decode_hint_payload(bytes@) == Some((p.r_blind@, p.value, p.memo@)),
    {
        let n = bytes.len();
        if n < 33 || (bytes[32] != 0 && bytes[32] != 1) {
            return None;
        }
        let off: usize = if bytes[32] == 0 { 33 } else { 41 };
        if n < off + 8 {
            return None;
        }
        let value = if bytes[32] == 0 {
            None
        } else {
            let vb = slice_copy(bytes, 33, 8);
            Some(vstd::bytes::u64_from_le_bytes(vb.as_slice()))
        };
        let lb = slice_copy(bytes, off, 8);
        let mlen = vstd::bytes::u64_from_le_bytes(lb.as_slice());
        if mlen > (n - off - 8) as u64 {
            return None;
        }
        let memo = slice_copy(bytes, off + 8, mlen as usize);
        let r_blind = to_array32(bytes);
        Some(HintPayload { r_blind, value, memo })
    }
}

/// Decoding an encoded payload gives the payload back.
pub proof fn lemma_hint_payload_roundtrip(p: HintPayload)
    requires
        p.memo@.len() <= u64::MAX,
    ensures
        decode_hint_payload(hint_payload_bytes(p)) == Some((p.r_blind@, p.value, p.memo@)),
{
    let b = hint_payload_bytes(p);
    vstd::bytes::lemma_auto_spec_u64_to_from_le_bytes();
    assert(b.subrange(0, 32) =~= p.r_blind@);
    match p.value {
        None => {
            assert(b[32] == 0);
            assert(b.subrange(33, 41) =~= le64(p.memo@.len() as u64));
            assert(b.subrange(41, 41 + p.memo@.len() as int) =~= p.memo@);
        },
        Some(x) => {
            assert(b[32] == 1);
            assert(b.subrange(33, 41) =~= le64(x));
            assert(b.subrange(41, 49) =~= le64(p.memo@.len() as u64));
            assert(b.subrange(49, 49 + p.memo@.len() as int) =~= p.memo@);
        },
    }
}

/// The epoch of time `now` for epochs of `duration` seconds.
pub open spec fn spec_epoch_at(now: u64, duration: u64) -> u64 {
    (now / duration) as u64
}

/// A hint of epoch `h` is accepted at epoch `e`: the same one, or the one before.
pub open spec fn epoch_ok(e: u64, h: u64) -> bool {
    h == e || h == (if e == 0 { 0 } else { (e - 1) as u64 })
}

/// The epoch of time `now` for epochs of `duration` seconds.
pub fn epoch_at(now: u64, duration: u64) -> (e: u64)
    requires
        duration > 0,
    ensures
        e == spec_epoch_at(now, duration),
{
    now / duration
}

/// Falcon-512 key pairs per epoch.
pub struct FalconKeyManager {
    current_epoch: u64,
    epoch_duration_secs: u64,
    master_seed: [u8; 32],
    cache: LruCache<u64, (Vec<u8>, Vec<u8>), RandomState>,
}

impl FalconKeyManager {
    /// The epoch last read from the clock.
    pub closed spec fn spec_epoch(&self) -> u64 {
        self.current_epoch
    }

    /// The length of an epoch in seconds.
    pub closed spec fn spec_duration(&self) -> u64 {
        self.epoch_duration_secs
    }

    /// The master seed.
    pub closed spec fn spec_seed(&self) -> [u8; 32] {
        self.master_seed
    }

    /// The cached key pairs (secret key, public key), most recently used first.
    pub closed spec fn spec_cache(&self) -> Seq<(u64, (Seq<u8>, Seq<u8>))> {
        epoch_cache_entries(self.cache)
    }

    /// Epochs have a length and the cache holds ten pairs.
    pub closed spec fn wf(&self) -> bool {
        self.epoch_duration_secs > 0 && epoch_cache_cap(self.cache) == 10
    }

    /// A manager for `master_seed` with epochs of `epoch_duration_secs` seconds, at the
    /// epoch of the clock, with no cached keys.
    pub fn new(master_seed: [u8; 32], epoch_duration_secs: u64) -> (m: Self)
        requires
            epoch_duration_secs > 0,
        ensures
            m.wf(),
            m.spec_duration() == epoch_duration_secs,
            m.spec_seed() == master_seed,
            m.spec_cache() == Seq::<(u64, (Seq<u8>, Seq<u8>))>::empty(),
    {
        let now = unix_now_secs();
        Self {
            current_epoch: epoch_at(now, epoch_duration_secs),
            epoch_duration_secs,
            master_seed,
            cache: epoch_cache_new(),
        }
    }

    /// The key pair (secret key, public key) of `epoch`: the cached pair, or a fresh
    /// random pair that is cached.
    pub fn derive_epoch_keypair(&mut self, epoch: u64) -> (r: Result<(Vec<u8>, Vec<u8>), FalconError>)
        requires
            old(self).wf(),
        ensures
            final(self).wf(),
            final(self).spec_epoch() == old(self).spec_epoch(),
            final(self).spec_duration() == old(self).spec_duration(),
            final(self).spec_seed() == old(self).spec_seed(),
            ({
                let c = old(self).spec_cache();
                let i = lru_index(c, epoch);
                &&& r is Ok
                &&& i >= 0 ==> (r matches Ok(p) && (p.0@, p.1@) == c[i].1 && final(self).spec_cache() == lru_touched(c, epoch))
                &&& i < 0 ==> (r matches Ok(p) && p.0@.len() == FALCON_SK_BYTES && p.1@.len() == FALCON_PK_BYTES
                    && final(self).spec_cache() == lru_put(c, 10, epoch, (p.0@, p.1@)))
            }),
    {
        match epoch_cache_get(&mut self.cache, epoch) {
            Some(p) => Ok(p),
            None => {
                let (pk, sk) = pqc_keypair();
                epoch_cache_put(&mut self.cache, epoch, (copy_bytes(sk.as_slice()), copy_bytes(pk.as_slice())));
                Ok((sk, pk))
            },
        }
    }

    /// Sets the epoch from time `now` and returns it.
    pub fn get_current_epoch_at(&mut self, now: u64) -> (e: u64)
        requires
            old(self).wf(),
        ensures
            final(self).wf(),
            e == spec_epoch_at(now, old(self).spec_duration()),
            final(self).spec_epoch() == e,
            final(self).spec_duration() == old(self).spec_duration(),
            final(self).spec_seed() == old(self).spec_seed(),
            final(self).spec_cache() == old(self).spec_cache(),
    {
        self.current_epoch = epoch_at(now, self.epoch_duration_secs);
        self.current_epoch
    }

    /// Sets the epoch from the clock and returns it.
    pub fn get_current_epoch(&mut self) -> (e: u64)
        requires
            old(self).wf(),
        ensures
            final(self).wf(),
            final(self).spec_epoch() == e,
            final(self).spec_duration() == old(self).spec_duration(),
            final(self).spec_seed() == old(self).spec_seed(),
            final(self).spec_cache() == old(self).spec_cache(),
    {
        let now = unix_now_secs();
        self.get_current_epoch_at(now)
    }

    /// Sets the epoch from time `now`; whether `hint_epoch` is that epoch or the one
    /// before.
    pub fn verify_epoch_at(&mut self, hint_epoch: u64, now: u64) -> (b: bool)
        requires
            old(self).wf(),
        ensures
            final(self).wf(),
            final(self).spec_epoch() == spec_epoch_at(now, old(self).spec_duration()),
            b == epoch_ok(final(self).spec_epoch(), hint_epoch),
            final(self).spec_duration() == old(self).spec_duration(),
            final(self).spec_seed() == old(self).spec_seed(),
            final(self).spec_cache() == old(self).spec_cache(),
    {
        let current = self.get_current_epoch_at(now);
        hint_epoch == current || hint_epoch == current.saturating_sub(1)
    }

    /// Sets the epoch from the clock; whether `hint_epoch` is that epoch or the one
    /// before.
    pub fn verify_epoch(&mut self, hint_epoch: u64) -> (b: bool)
        requires
            old(self).wf(),
        ensures
            final(self).wf(),
            b == epoch_ok(final(self).spec_epoch(), hint_epoch),
            final(self).spec_duration() == old(self).spec_duration(),
            final(self).spec_seed() == old(self).spec_seed(),
            final(self).spec_cache() == old(self).spec_cache(),
    {
        let now = unix_now_secs();
        self.verify_epoch_at(hint_epoch, now)
    }
}

/// The Falcon-key exchange: a key derived from the secret key `sk` under
/// `FALCON_KEX_v1` over the other side's public key, `c_out` and the epoch.
pub open spec fn spec_falcon_kex(sk: Seq<u8>, pk: Seq<u8>, c_out: Seq<u8>, epoch: u64) -> Seq<u8> {
    spec_kmac256_derive_key(sk, falcon_kex(), pk + c_out + le64(epoch))
}

/// The combined secret of the two exchanges for `c_out`.
pub open spec fn spec_combine(fs: Seq<u8>, xs: Seq<u8>, c_out: Seq<u8>) -> Seq<u8> {
    spec_kmac256_derive_key(fs, hybrid_secret_label(), fs + xs + c_out)
}

/// The signed parameters of a hint.
pub open spec fn spec_signing_message(c_out: Seq<u8>, ss: Seq<u8>, eph_pk: Seq<u8>, nonce: Seq<u8>, ts: u64, epoch: u64) -> Seq<u8> {
    quantum_hint_prefix() + c_out + ss + eph_pk + nonce + le64(ts) + le64(epoch)
}

/// The verdict-cache key of a hint for `c_out`: SHA-256 over `HINT_CACHE_v1`, `c_out`,
/// both ephemeral keys, the timestamp and the epoch.
pub open spec fn spec_hint_cache_key(h: QuantumSafeHint, c_out: Seq<u8>) -> Seq<u8> {
    sha256_digest(hint_cache_label() + c_out + h.eph_falcon_pk@ + h.eph_x25519_pk@ + le64(h.timestamp) + le64(h.epoch))
}

/// The secret a holder of Falcon secret key `sk` and X25519 secret `x` derives for
/// hint `h` at epoch `e`.
pub open spec fn hint_secret(sk: Seq<u8>, x: Seq<u8>, h: QuantumSafeHint, c_out: Seq<u8>, e: u64) -> Seq<u8> {
    spec_combine(spec_falcon_kex(sk, h.eph_falcon_pk@, c_out, e), x25519_dh(x, h.eph_x25519_pk@), c_out)
}

/// The parameters such a holder expects to be signed in `h`.
pub open spec fn hint_message(sk: Seq<u8>, x: Seq<u8>, h: QuantumSafeHint, c_out: Seq<u8>, e: u64) -> Seq<u8> {
    spec_signing_message(c_out, hint_secret(sk, x, h, c_out, e), h.eph_falcon_pk@, h.nonce@, h.timestamp, h.epoch)
}

/// What verifying `h` gives once its version and epoch are accepted, with the verdict
/// cache `oc` before: the payload's fields or `None`, and the cache after. A hint with
/// a cached negative verdict, a malformed ephemeral key or a signature that does not
/// open is refused with the cache only touched; otherwise the verdict (the opened
/// message is the expected one) is stored, and an accepted hint's payload is opened
/// and decoded.
pub open spec fn verify_outcome(
    sk: Seq<u8>,
    x: Seq<u8>,
    h: QuantumSafeHint,
    c_out: Seq<u8>,
    e: u64,
    oc: Seq<(Seq<u8>, bool)>,
) -> (Option<(Seq<u8>, Option<u64>, Seq<u8>)>, Seq<(Seq<u8>, bool)>) {
    let key = spec_hint_cache_key(h, c_out);
    let i = lru_index(oc, key);
    let tc = lru_touched(oc, key);
    if i >= 0 && !oc[i].1 {
        (None, tc)
    } else if h.eph_falcon_pk@.len() != FALCON_PK_BYTES {
        (None, tc)
    } else {
        let msg = hint_message(sk, x, h, c_out, e);
        match falcon_open(msg + h.falcon_signature@, h.eph_falcon_pk@) {
            None => (None, tc),
            Some(m) => {
                let nc = lru_put(tc, 1000, key, m == msg);
                if m != msg {
                    (None, nc)
                } else {
                    match siv_open(hint_secret(sk, x, h, c_out, e), h.nonce@, h.encrypted_payload@, c_out) {
                        None => (None, nc),
                        Some(pt) => (decode_hint_payload(pt), nc),
                    }
                }
            },
        }
    }
}

fn falcon_key_exchange(sk: &[u8], pk: &[u8], context: &[u8; 32], epoch: u64) -> (k: [u8; 32])
    ensures
        k@ == spec_falcon_kex(sk@, pk@, context@, epoch),
{
    let mut input: Vec<u8> = Vec::new();
    append_bytes(&mut input, pk);
    append_bytes(&mut input, context);
    append_u64_le(&mut input, epoch);
    let l = falcon_kex_bytes();
    kmac256_derive_key(sk, l.as_slice(), input.as_slice())
}

fn combine_shared_secrets(fs: &[u8; 32], xs: &[u8; 32], context: &[u8; 32]) -> (k: [u8; 32])
    ensures
        k@ == spec_combine(fs@, xs@, context@),
{
    let mut input: Vec<u8> = Vec::new();
    append_bytes(&mut input, fs);
    append_bytes(&mut input, xs);
    append_bytes(&mut input, context);
    let l = hybrid_secret_label_bytes();
    kmac256_derive_key(fs, l.as_slice(), input.as_slice())
}

fn build_signing_message(c_out: &[u8; 32], ss: &[u8; 32], eph_pk: &[u8], nonce: &[u8; 12], ts: u64, epoch: u64) -> (m: Vec<u8>)
    ensures
        m@ == spec_signing_message(c_out@, ss@, eph_pk@, nonce@, ts, epoch),
{
    let mut m = quantum_hint_prefix_bytes();
    append_bytes(&mut m, c_out);
    append_bytes(&mut m, ss);
    append_bytes(&mut m, eph_pk);
    append_bytes(&mut m, nonce);
    append_u64_le(&mut m, ts);
    append_u64_le(&mut m, epoch);
    m
}

fn compute_hint_hash(h: &QuantumSafeHint, c_out: &[u8; 32]) -> (k: [u8; 32])
    ensures
        k@ == spec_hint_cache_key(*h, c_out@),
{
    let mut d = hint_cache_label_bytes();
    append_bytes(&mut d, c_out);
    append_bytes(&mut d, h.eph_falcon_pk.as_slice());
    append_bytes(&mut d, &h.eph_x25519_pk);
    append_u64_le(&mut d, h.timestamp);
    append_u64_le(&mut d, h.epoch);
    sha2_sha256(d.as_slice())
}

fn to_array12(s: &[u8]) -> (out: [u8; 12])
    requires
        s@.len() == 12,
    ensures
        out@ == s@,
{
    let mut out = [0u8; 12];
    let mut i: usize = 0;
    while i < 12
        invariant
            s@.len() == 12,
            i <= 12,
            forall|j: int| 0 <= j < i ==> out@[j] == s@[j],
        decreases 12 - i,
    {
        out[i] = s[i];
        i = i + 1;
    }
    assert(out@ =~= s@);
    out
}

/// The hint key-search context of a wallet.
pub struct QuantumKeySearchCtx {
    falcon_sk: Vec<u8>,
    falcon_pk: Vec<u8>,
    x25519_secret: [u8; 32],
    x25519_public: [u8; 32],
    key_manager: FalconKeyManager,
    verified_cache: LruCache<[u8; 32], bool, RandomState>,
}

impl QuantumKeySearchCtx {
    /// The Falcon secret key.
    pub closed spec fn spec_falcon_sk(&self) -> Seq<u8> {
        self.falcon_sk@
    }

    /// The Falcon public key.
    pub closed spec fn spec_falcon_pk(&self) -> Seq<u8> {
        self.falcon_pk@
    }

    /// The X25519 secret.
    pub closed spec fn spec_x25519_secret(&self) -> Seq<u8> {
        self.x25519_secret@
    }

    /// The X25519 public key.
    pub closed spec fn spec_x25519_public(&self) -> Seq<u8> {
        self.x25519_public@
    }

    /// The key manager.
    pub closed spec fn spec_key_manager(&self) -> FalconKeyManager {
        self.key_manager
    }

    /// The verdicts on hints seen, most recent first.
    pub closed spec fn spec_verdicts(&self) -> Seq<(Seq<u8>, bool)> {
        verdict_cache_entries(self.verified_cache)
    }

    /// Key lengths, the X25519 public key of the secret, and the caches' capacities.
    pub closed spec fn wf(&self) -> bool {
        &&& self.key_manager.wf()
        &&& self.falcon_sk@.len() == FALCON_SK_BYTES
        &&& self.falcon_pk@.len() == FALCON_PK_BYTES
        &&& self.x25519_public@ == x25519_base(self.x25519_secret@)
        &&& verdict_cache_cap(self.verified_cache) == 1000
    }

    /// A context for `master_seed`: a key manager with one-day epochs at the clock's
    /// epoch holding that epoch's fresh Falcon key pair, the X25519 secret derived from
    /// the seed under `X25519_SESSION_v1` and `hybrid_keysearch`, and no verdicts.
    pub fn new(master_seed: [u8; 32]) -> (r: Result<Self, FalconError>)
        ensures
            r matches Ok(c) && {
                let km = c.spec_key_manager();
                &&& c.wf()
                &&& km.spec_seed() == master_seed
                &&& km.spec_duration() == 86400
                &&& km.spec_cache() == seq![(km.spec_epoch(), (c.spec_falcon_sk(), c.spec_falcon_pk()))]
                &&& c.spec_x25519_secret() == spec_kmac256_derive_key(master_seed@, x25519_session_v1(), hybrid_keysearch_ctx())
                &&& c.spec_verdicts() == Seq::<(Seq<u8>, bool)>::empty()
            },
    {
        let mut key_manager = FalconKeyManager::new(master_seed, 86400);
        let current_epoch = key_manager.get_current_epoch();
        let (falcon_sk, falcon_pk) = match key_manager.derive_epoch_keypair(current_epoch) {
            Ok(p) => p,
            Err(e) => {
                return Err(e);
            },
        };
        let l = x25519_session_v1_bytes();
        let c = hybrid_keysearch_ctx_bytes();
        let x25519_secret = kmac256_derive_key(&master_seed, l.as_slice(), c.as_slice());
        let x25519_public = x25519_public_of(&x25519_secret);
        proof {
            assert(lru_index(Seq::<(u64, (Seq<u8>, Seq<u8>))>::empty(), current_epoch) == -1);
        }
        Ok(Self { falcon_sk, falcon_pk, x25519_secret, x25519_public, key_manager, verified_cache: verdict_cache_new() })
    }

    /// The Falcon public key.
    pub fn get_falcon_public_key(&self) -> (k: &[u8])
        ensures
            k@ == self.spec_falcon_pk(),
    {
        self.falcon_pk.as_slice()
    }

    /// The X25519 public key.
    pub fn get_x25519_public_key(&self) -> (k: &[u8; 32])
        ensures
            k@ == self.spec_x25519_public(),
    {
        &self.x25519_public
    }
}

/// `h` is the hint built for the recipient's keys, `c_out` and `payload` at time
/// `now`, under epochs of `duration` seconds, with the ephemeral X25519 secret
/// `eph_seed`, the ephemeral Falcon key pair and `nonce`: the ephemeral public keys,
/// the payload sealed under the combined secret, the nonce, the time, the epoch, and
/// as signature the bytes after the signing message of an attached signature of that
/// message made with the ephemeral secret key.
pub open spec fn spec_built_hint(
    h: QuantumSafeHint,
    duration: u64,
    recipient_falcon_pk: Seq<u8>,
    recipient_x25519_pk: Seq<u8>,
    c_out: Seq<u8>,
    payload: HintPayload,
    now: u64,
    eph_seed: Seq<u8>,
    eph_falcon_pk: Seq<u8>,
    eph_falcon_sk: Seq<u8>,
    nonce: [u8; 12],
) -> bool {
    let e = spec_epoch_at(now, duration);
    let fs = spec_falcon_kex(eph_falcon_sk, recipient_falcon_pk, c_out, e);
    let ss = spec_combine(fs, x25519_dh(eph_seed, recipient_x25519_pk), c_out);
    let msg = spec_signing_message(c_out, ss, eph_falcon_pk, nonce@, now, e);
    &&& h.eph_falcon_pk@ == eph_falcon_pk
    &&& h.eph_x25519_pk@ == x25519_base(eph_seed)
    &&& h.encrypted_payload@ == siv_seal(ss, nonce@, hint_payload_bytes(payload), c_out)
    &&& h.nonce == nonce
    &&& h.timestamp == now
    &&& h.epoch == e
    &&& h.version == 1
    &&& exists|sm: Seq<u8>|
        #[trigger] falcon_signed(sm, msg, eph_falcon_sk) && sm.len() > msg.len() && h.falcon_signature@ == sm.subrange(
            msg.len() as int,
            sm.len() as int,
        )
}

/// What verifying `hint` at time `now` does to a context `pre`, leaving `post` and
/// returning `r`: a hint of another version is refused untouched; otherwise the epoch
/// is set from `now`, a hint of neither this epoch nor the one before is refused, and
/// the rest is as [`verify_outcome`] says, a payload found coming with `true`.
pub open spec fn verified_at(
    pre: QuantumKeySearchCtx,
    post: QuantumKeySearchCtx,
    hint: QuantumSafeHint,
    c_out: Seq<u8>,
    now: u64,
    r: Option<(HintPayload, bool)>,
) -> bool {
    let e = spec_epoch_at(now, pre.spec_key_manager().spec_duration());
    let out = verify_outcome(pre.spec_falcon_sk(), pre.spec_x25519_secret(), hint, c_out, e, pre.spec_verdicts());
    &&& hint.version != 1 ==> r is None && post.spec_verdicts() == pre.spec_verdicts()
        && post.spec_key_manager().spec_epoch() == pre.spec_key_manager().spec_epoch()
    &&& hint.version == 1 ==> post.spec_key_manager().spec_epoch() == e
    &&& (hint.version == 1 && !epoch_ok(e, hint.epoch)) ==> r is None && post.spec_verdicts() == pre.spec_verdicts()
    &&& (hint.version == 1 && epoch_ok(e, hint.epoch)) ==> {
        &&& post.spec_verdicts() == out.1
        &&& r is Some <==> out.0 is Some
        &&& r matches Some(pq) ==> pq.1 && out.0 == Some((pq.0.r_blind@, pq.0.value, pq.0.memo@))
    }
}

impl QuantumKeySearchCtx {
    /// Builds a hint for a recipient with the randomness given: the ephemeral X25519
    /// secret `eph_seed`, the ephemeral Falcon key pair and the nonce. The epoch is
    /// set from `now`, which is also the timestamp. The Falcon exchange uses the
    /// ephemeral secret key and the recipient's Falcon public key; the payload is
    /// sealed under the combined secret with `c_out` as associated data, refused with
    /// `EncryptionFailed` where it is too long.
    pub fn build_quantum_hint_with(
        &mut self,
        recipient_falcon_pk: &[u8],
        recipient_x25519_pk: &[u8; 32],
        c_out: &[u8; 32],
        payload: &HintPayload,
        now: u64,
        eph_seed: &[u8; 32],
        eph_falcon_pk: &[u8],
        eph_falcon_sk: &[u8],
        nonce: &[u8; 12],
    ) -> (r: Result<QuantumSafeHint, FalconError>)
        requires
            old(self).wf(),
            eph_falcon_sk@.len() == FALCON_SK_BYTES,
        ensures
            final(self).wf(),
            final(self).spec_key_manager().spec_epoch() == spec_epoch_at(now, old(self).spec_key_manager().spec_duration()),
            final(self).spec_key_manager().spec_duration() == old(self).spec_key_manager().spec_duration(),
            final(self).spec_key_manager().spec_seed() == old(self).spec_key_manager().spec_seed(),
            final(self).spec_key_manager().spec_cache() == old(self).spec_key_manager().spec_cache(),
            final(self).spec_falcon_sk() == old(self).spec_falcon_sk(),
            final(self).spec_falcon_pk() == old(self).spec_falcon_pk(),
            final(self).spec_x25519_secret() == old(self).spec_x25519_secret(),
            final(self).spec_verdicts() == old(self).spec_verdicts(),
            !siv_sealable(hint_payload_bytes(*payload).len()) ==> r == Err::<QuantumSafeHint, FalconError>(
                FalconError::EncryptionFailed,
            ),
            siv_sealable(hint_payload_bytes(*payload).len()) ==> (r matches Ok(h) && spec_built_hint(
                h,
                old(self).spec_key_manager().spec_duration(),
                recipient_falcon_pk@,
                recipient_x25519_pk@,
                c_out@,
                *payload,
                now,
                eph_seed@,
                eph_falcon_pk@,
                eph_falcon_sk@,
                *nonce,
            )),
    {
        let epoch = self.key_manager.get_current_epoch_at(now);
        let eph_x25519_pk = x25519_public_of(eph_seed);
        let falcon_shared = falcon_key_exchange(eph_falcon_sk, recipient_falcon_pk, c_out, epoch);
        let x25519_ss = x25519_shared(eph_seed, recipient_x25519_pk);
        let combined = combine_shared_secrets(&falcon_shared, &x25519_ss, c_out);
        let plaintext = payload.encode();
        let encrypted_payload = match siv_encrypt(&combined, nonce, plaintext.as_slice(), c_out) {
            Some(ct) => ct,
            None => {
                return Err(FalconError::EncryptionFailed);
            },
        };
        let msg = build_signing_message(c_out, &combined, eph_falcon_pk, nonce, now, epoch);
        let signed = pqc_sign(msg.as_slice(), eph_falcon_sk);
        let signature = slice_copy(signed.as_slice(), msg.len(), signed.len() - msg.len());
        let h = QuantumSafeHint {
            eph_falcon_pk: copy_bytes(eph_falcon_pk),
            eph_x25519_pk,
            falcon_signature: signature,
            encrypted_payload,
            nonce: *nonce,
            timestamp: now,
            epoch,
            version: 1,
        };
        proof {
            let ghost msgv = msg@;
            assert(falcon_signed(signed@, msgv, eph_falcon_sk@));
            assert(h.falcon_signature@ == signed@.subrange(msgv.len() as int, signed@.len() as int));
        }
        Ok(h)
    }

    /// Builds a hint for a recipient with fresh randomness and the clock's time.
    pub fn build_quantum_hint(
        &mut self,
        recipient_falcon_pk: &[u8],
        recipient_x25519_pk: &[u8; 32],
        c_out: &[u8; 32],
        payload: &HintPayload,
    ) -> (r: Result<QuantumSafeHint, FalconError>)
        requires
            old(self).wf(),
        ensures
            final(self).wf(),
            final(self).spec_key_manager().spec_duration() == old(self).spec_key_manager().spec_duration(),
            final(self).spec_key_manager().spec_seed() == old(self).spec_key_manager().spec_seed(),
            final(self).spec_key_manager().spec_cache() == old(self).spec_key_manager().spec_cache(),
            final(self).spec_falcon_sk() == old(self).spec_falcon_sk(),
            final(self).spec_falcon_pk() == old(self).spec_falcon_pk(),
            final(self).spec_x25519_secret() == old(self).spec_x25519_secret(),
            final(self).spec_verdicts() == old(self).spec_verdicts(),
            r is Err <==> !siv_sealable(hint_payload_bytes(*payload).len()),
            r matches Err(e) ==> e == FalconError::EncryptionFailed,
            r matches Ok(h) ==> h.version == 1 && h.epoch == final(self).spec_key_manager().spec_epoch()
                && h.eph_falcon_pk@.len() == FALCON_PK_BYTES,
            r matches Ok(h) ==> exists|eph_seed: Seq<u8>, eph_pk: Seq<u8>, eph_sk: Seq<u8>|
                #![trigger falcon_key_match(eph_pk, eph_sk), x25519_base(eph_seed)]
                eph_seed.len() == 32 && eph_sk.len() == FALCON_SK_BYTES && falcon_key_match(eph_pk, eph_sk)
                    && spec_built_hint(
                    h,
                    old(self).spec_key_manager().spec_duration(),
                    recipient_falcon_pk@,
                    recipient_x25519_pk@,
                    c_out@,
                    *payload,
                    h.timestamp,
                    eph_seed,
                    eph_pk,
                    eph_sk,
                    h.nonce,
                ),
    {
        let now = unix_now_secs();
        let seed_bytes = os_random_bytes(32);
        let eph_seed = to_array32(seed_bytes.as_slice());
        let (eph_pk, eph_sk) = pqc_keypair();
        let nonce_bytes = os_random_bytes(12);
        let nonce = to_array12(nonce_bytes.as_slice());
        let r = self.build_quantum_hint_with(
            recipient_falcon_pk,
            recipient_x25519_pk,
            c_out,
            payload,
            now,
            &eph_seed,
            eph_pk.as_slice(),
            eph_sk.as_slice(),
            &nonce,
        );
        proof {
            if r is Ok {
                let h = r.unwrap();
                assert(falcon_key_match(eph_pk@, eph_sk@));
                assert(x25519_base(eph_seed@) == h.eph_x25519_pk@);
            }
        }
        r
    }

    /// Verifies and opens a hint at time `now`: a hint of another version is refused
    /// untouched; otherwise the epoch is set from `now`, a hint of neither this epoch
    /// nor the one before is refused, and the rest is as [`verify_outcome`] says. A
    /// payload found is returned with `true`.
    pub fn verify_quantum_hint_at(&mut self, hint: &QuantumSafeHint, c_out: &[u8; 32], now: u64) -> (r: Option<(HintPayload, bool)>)
        requires
            old(self).wf(),
        ensures
            final(self).wf(),
            final(self).spec_falcon_sk() == old(self).spec_falcon_sk(),
            final(self).spec_falcon_pk() == old(self).spec_falcon_pk(),
            final(self).spec_x25519_secret() == old(self).spec_x25519_secret(),
            final(self).spec_key_manager().spec_duration() == old(self).spec_key_manager().spec_duration(),
            final(self).spec_key_manager().spec_seed() == old(self).spec_key_manager().spec_seed(),
            final(self).spec_key_manager().spec_cache() == old(self).spec_key_manager().spec_cache(),
            verified_at(*old(self), *final(self), *hint, c_out@, now, r),
    {
        if hint.version != 1 {
            return None;
        }
        if !self.key_manager.verify_epoch_at(hint.epoch, now) {
            return None;
        }
        let ghost e = self.key_manager.spec_epoch();
        let key = compute_hint_hash(hint, c_out);
        let ghost oc = verdict_cache_entries(self.verified_cache);
        proof {
            lemma_lru_index(oc, key@);
        }
        match verdict_cache_get(&mut self.verified_cache, &key) {
            Some(v) => {
                if !v {
                    return None;
                }
            },
            None => {},
        }
        if !pqc_pk_parses(hint.eph_falcon_pk.as_slice()) {
            return None;
        }
        let epoch = self.key_manager.get_current_epoch_at(now);
        let falcon_shared = falcon_key_exchange(self.falcon_sk.as_slice(), hint.eph_falcon_pk.as_slice(), c_out, epoch);
        let x25519_ss = x25519_shared(&self.x25519_secret, &hint.eph_x25519_pk);
        let combined = combine_shared_secrets(&falcon_shared, &x25519_ss, c_out);
        let msg = build_signing_message(c_out, &combined, hint.eph_falcon_pk.as_slice(), &hint.nonce, hint.timestamp, hint.epoch);
        let mut signed = copy_bytes(msg.as_slice());
        append_bytes(&mut signed, hint.falcon_signature.as_slice());
        let opened = match pqc_open(signed.as_slice(), hint.eph_falcon_pk.as_slice()) {
            Some(m) => m,
            None => {
                return None;
            },
        };
        let verified = bytes_equal(opened.as_slice(), msg.as_slice());
        verdict_cache_put(&mut self.verified_cache, key, verified);
        if !verified {
            return None;
        }
        let pt = match siv_decrypt(&combined, &hint.nonce, hint.encrypted_payload.as_slice(), c_out) {
            Some(p) => p,
            None => {
                return None;
            },
        };
        match HintPayload::decode(pt.as_slice()) {
            Some(p) => Some((p, true)),
            None => None,
        }
    }

    /// Verifies and opens a hint at the clock's time.
    pub fn verify_quantum_hint(&mut self, hint: &QuantumSafeHint, c_out: &[u8; 32]) -> (r: Option<(HintPayload, bool)>)
        requires
            old(self).wf(),
        ensures
            final(self).wf(),
            final(self).spec_falcon_sk() == old(self).spec_falcon_sk(),
            final(self).spec_falcon_pk() == old(self).spec_falcon_pk(),
            final(self).spec_x25519_secret() == old(self).spec_x25519_secret(),
            final(self).spec_key_manager().spec_seed() == old(self).spec_key_manager().spec_seed(),
            hint.version != 1 ==> r is None,
            r matches Some(pq) ==> pq.1,
            exists|now: u64| #[trigger] verified_at(*old(self), *final(self), *hint, c_out@, now, r),
    {
        let now = unix_now_secs();
        let r = self.verify_quantum_hint_at(hint, c_out, now);
        assert(verified_at(*old(self), *self, *hint, c_out@, now, r));
        r
    }
}

/// `FALCON_RNG_v1`.
pub open spec fn rng_tag() -> Seq<u8> {
    seq![70u8, 65u8, 76u8, 67u8, 79u8, 78u8, 95u8, 82u8, 78u8, 71u8, 95u8, 118u8, 49u8]
}

/// The 1024-byte block of the generator seeded with `seed`: SHAKE256 of the tag and
/// the seed.
pub open spec fn rng_block(seed: Seq<u8>) -> Seq<u8> {
    shake256_xof(rng_tag() + seed, 1024)
}

/// The offset into the block of the next byte a generator at `pos` hands out: a
/// spent buffer (`pos` 1024) is refilled from the start.
pub open spec fn rng_offset(pos: nat) -> nat {
    if pos >= 1024 { 0 } else { pos }
}

/// A byte generator drawing from SHAKE256 of `FALCON_RNG_v1 || seed`. Each refill
/// reads the stream again from its start, so the bytes handed out repeat the first
/// 1024 bytes of the stream.
pub struct DeterministicRng {
    seed: [u8; 32],
    buffer: Vec<u8>,
    pos: usize,
}

proof fn lemma_mod_step(a: int, r: int, j: int)
    requires
        a >= 0,
        a % 1024 == r,
        0 <= j,
        r + j < 1024,
    ensures
        (a + j) % 1024 == r + j,
{
    vstd::arithmetic::div_mod::lemma_fundamental_div_mod(a, 1024);
    let q = a / 1024;
    assert(a + j == q * 1024 + (r + j)) by (nonlinear_arith)
        requires
            a == 1024 * q + r,
    ;
    vstd::arithmetic::div_mod::lemma_fundamental_div_mod_converse(a + j, 1024, q, r + j);
}

impl DeterministicRng {
    /// The seed.
    pub closed spec fn spec_seed(&self) -> Seq<u8> {
        self.seed@
    }

    /// How far into the buffer the generator has handed out bytes.
    pub closed spec fn spec_pos(&self) -> nat {
        self.pos as nat
    }

    /// The buffer holds the block whenever it is not spent.
    pub closed spec fn wf(&self) -> bool {
        &&& self.buffer@.len() == 1024
        &&& self.pos <= 1024
        &&& self.pos < 1024 ==> self.buffer@ == rng_block(self.seed@)
    }

    /// A generator with a spent buffer, so the first byte comes from a refill.
    pub fn new(seed: &[u8; 32]) -> (r: Self)
        ensures
            r.wf(),
            r.spec_seed() == seed@,
            r.spec_pos() == 1024,
    {
        DeterministicRng { seed: *seed, buffer: vec![0u8; 1024], pos: 1024 }
    }

    fn refill(&mut self)
        requires
            old(self).wf(),
        ensures
            final(self).wf(),
            final(self).spec_seed() == old(self).spec_seed(),
            final(self).spec_pos() == 0,
            final(self).buffer@ == rng_block(old(self).spec_seed()),
    {
        let mut data: Vec<u8> = vec![70u8, 65u8, 76u8, 67u8, 79u8, 78u8, 95u8, 82u8, 78u8, 71u8, 95u8, 118u8, 49u8];
        assert(data@ =~= rng_tag());
        append_bytes(&mut data, &self.seed);
        self.buffer = sha3_shake256(data.as_slice(), 1024);
        self.pos = 0;
    }

    /// Fills `dest` with the next bytes: byte `i` is byte `(o + i) mod 1024` of the
    /// block, `o` being [`rng_offset`] of the position before the call.
    pub fn fill_bytes(&mut self, dest: &mut Vec<u8>)
        requires
            old(self).wf(),
        ensures
            final(self).wf(),
            final(self).spec_seed() == old(self).spec_seed(),
            final(dest)@.len() == old(dest)@.len(),
            forall|i: int|
                0 <= i < old(dest)@.len() ==> #[trigger] final(dest)@[i] == rng_block(old(self).spec_seed())[(
                rng_offset(old(self).spec_pos()) + i) % 1024],
            final(self).spec_pos() == if old(dest)@.len() == 0 {
                old(self).spec_pos()
            } else {
                ((rng_offset(old(self).spec_pos()) + old(dest)@.len() - 1) % 1024 + 1) as nat
            },
    {
        let ghost pos0 = self.pos;
        let ghost off0 = rng_offset(self.pos as nat);
        let ghost block = rng_block(self.seed@);
        let ghost seed0 = self.seed@;
        let n = dest.len();
        let mut written: usize = 0;
        while written < n
            invariant
                self.wf(),
                self.seed@ == seed0,
                block == rng_block(seed0),
                n == dest@.len(),
                written <= n,
                off0 < 1024,
                written > 0 ==> self.buffer@ == block,
                (off0 + written) % 1024 == rng_offset(self.pos as nat),
                written == 0 ==> self.pos == pos0,
                written > 0 ==> self.pos == (off0 + written - 1) % 1024 + 1,
                forall|i: int| 0 <= i < written ==> #[trigger] dest@[i] == block[(off0 + i) % 1024],
            decreases n - written,
        {
            if self.pos >= 1024 {
                self.refill();
            }
            let avail = 1024 - self.pos;
            let want = n - written;
            let to_copy = if want < avail { want } else { avail };
            let w0 = written;
            let p0 = self.pos;
            assert((off0 + w0) % 1024 == p0);
            let mut j: usize = 0;
            while j < to_copy
                invariant
                    self.wf(),
                    self.seed@ == seed0,
                    self.buffer@ == block,
                    block == rng_block(seed0),
                    self.pos == p0,
                    p0 < 1024,
                    p0 + to_copy <= 1024,
                    w0 + to_copy <= n,
                    n == dest@.len(),
                    (off0 + w0) % 1024 == p0,
                    j <= to_copy,
                    forall|i: int| 0 <= i < w0 + j ==> #[trigger] dest@[i] == block[(off0 + i) % 1024],
                decreases to_copy - j,
            {
                let b = self.buffer[p0 + j];
                dest.set(w0 + j, b);
                proof {
                    lemma_mod_step(off0 + w0, p0 as int, j as int);
                }
                j = j + 1;
            }
            written = w0 + to_copy;
            self.pos = p0 + to_copy;
            proof {
                if p0 + to_copy < 1024 {
                    lemma_mod_step(off0 + w0, p0 as int, to_copy as int);
                } else {
                    vstd::arithmetic::div_mod::lemma_fundamental_div_mod(off0 + w0, 1024);
                    let q = (off0 + w0) / 1024;
                    assert(off0 + written == (q + 1) * 1024 + 0) by (nonlinear_arith)
                        requires
                            off0 + w0 == 1024 * q + p0,
                            p0 + to_copy == 1024,
                            written == w0 + to_copy,
                    ;
                    vstd::arithmetic::div_mod::lemma_fundamental_div_mod_converse(off0 + written, 1024, q + 1, 0);
                }
                lemma_mod_step(off0 + w0, p0 as int, (to_copy - 1) as int);
            }
        }
    }

    /// Four bytes read as a little-endian `u32`.
    pub fn next_u32(&mut self) -> (x: u32)
        requires
            old(self).wf(),
        ensures
            final(self).wf(),
            final(self).spec_seed() == old(self).spec_seed(),
            x == vstd::bytes::spec_u32_from_le_bytes(
                Seq::new(4, |i: int| rng_block(old(self).spec_seed())[(rng_offset(old(self).spec_pos()) + i) % 1024]),
            ),
    {
        let mut b: Vec<u8> = vec![0u8; 4];
        self.fill_bytes(&mut b);
        proof {
            assert(b@ =~= Seq::new(4, |i: int| rng_block(old(self).spec_seed())[(rng_offset(old(self).spec_pos()) + i) % 1024]));
        }
        vstd::bytes::u32_from_le_bytes(b.as_slice())
    }

    /// Eight bytes read as a little-endian `u64`.
    pub fn next_u64(&mut self) -> (x: u64)
        requires
            old(self).wf(),
        ensures
            final(self).wf(),
            final(self).spec_seed() == old(self).spec_seed(),
            x == spec_u64_from_le_bytes(
                Seq::new(8, |i: int| rng_block(old(self).spec_seed())[(rng_offset(old(self).spec_pos()) + i) % 1024]),
            ),
    {
        let mut b: Vec<u8> = vec![0u8; 8];
        self.fill_bytes(&mut b);
        proof {
            assert(b@ =~= Seq::new(8, |i: int| rng_block(old(self).spec_seed())[(rng_offset(old(self).spec_pos()) + i) % 1024]));
        }
        vstd::bytes::u64_from_le_bytes(b.as_slice())
    }
}

} // verus!
