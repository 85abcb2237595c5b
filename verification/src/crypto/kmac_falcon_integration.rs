//! Falcon-512 hints keyed with KMAC: a secret from a Falcon-key exchange, a
//! signature by an ephemeral Falcon key over the hint's parameters and the time,
//! and a payload carried after the key and nonce derived from the secret.
//!
//! Key pairs are fresh random pairs; the exchange derives the secret from the
//! holder's own secret key and the other side's public key; the signed parameters
//! include the time of signing and of checking, so a hint checks only within the
//! same second; the signature is taken as the bytes of the signed message after the
//! length of the signed parameters. The traditional fallback goes through the
//! X25519-only key search, whose matching is not implemented.
use vstd::prelude::*;
use crate::bytes::{append_bytes, append_u64_le, copy_bytes, le64, to_array32};
use crate::crypto::FalconError;
use crate::crypto::kmac::{kmac256_derive_key, kmac256_xof_fill, spec_kmac256_derive_key, spec_kmac256_xof};
use crate::crypto::kmac_mlkem_integration::{bytes_equal, x25519_base, x25519_public_of};
use crate::falcon_sigs::{falcon_key_match, falcon_open, falcon_signed, pqc_keypair, pqc_open, pqc_pk_parses, pqc_sign, FALCON_PK_BYTES, FALCON_SK_BYTES};
use crate::keysearch::{payload_bytes, payload_decodes, memo_len_of, slice_copy, AadMode, DecodedHint, HintPayloadV1, KeySearchCtx};
use crate::time::unix_now_secs;
use crate::tags::{
    falcon_kex, falcon_kex_bytes, key_derivation_ctx, key_derivation_ctx_bytes, kf_enc_key_label, kf_enc_key_label_bytes,
    kf_enc_nonce_label, kf_enc_nonce_label_bytes, kf_fallback_tag, kf_fallback_tag_bytes, kf_k_search_label,
    kf_k_search_label_bytes, kf_signing_label, kf_signing_label_bytes, kf_transaction_id, kf_transaction_id_bytes,
    x25519_ephemeral, x25519_ephemeral_bytes, x25519_session_key, x25519_session_key_bytes,
};
use vstd::bytes::spec_u64_from_le_bytes;

verus! {

/// A Falcon-signed hint.
#[derive(Clone, Debug)]
pub struct QuantumSafeHint {
    pub eph_pub: Vec<u8>,
    pub x25519_eph_pub: [u8; 32],
    pub falcon_signature: Vec<u8>,
    pub encrypted_payload: Vec<u8>,
    pub timestamp: u64,
    pub epoch: u64,
}

/// A hint found for this wallet.
#[derive(Clone, Debug)]
pub struct QuantumFoundNote {
    pub index: usize,
    pub c_out: [u8; 32],
    pub k_search: [u8; 32],
    pub falcon_verified: bool,
    pub quantum_safe: bool,
}

/// Key epochs over a master seed.
pub struct FalconKeyManager {
    current_epoch: u64,
    epoch_duration: u64,
    master_seed: [u8; 32],
}

impl FalconKeyManager {
    /// The current epoch.
    pub closed spec fn spec_epoch(&self) -> u64 {
        self.current_epoch
    }

    /// The master seed.
    pub closed spec fn spec_seed(&self) -> [u8; 32] {
        self.master_seed
    }

    /// A manager for `master_seed` at epoch 0 with one-day epochs.
    pub fn new(master_seed: [u8; 32]) -> (m: Self)
        ensures
            m.spec_epoch() == 0,
            m.spec_seed() == master_seed,
    {
        Self { current_epoch: 0, epoch_duration: 86400, master_seed }
    }

    /// The key pair (secret key, public key) of an epoch: a fresh random pair.
    pub fn derive_epoch_keypair(&self, epoch: u64) -> (r: Result<(Vec<u8>, Vec<u8>), FalconError>)
        ensures
            r matches Ok(p) && p.0@.len() == FALCON_SK_BYTES && p.1@.len() == FALCON_PK_BYTES && falcon_key_match(
                p.1@,
                p.0@,
            ),
    {
        let (pk, sk) = pqc_keypair();
        Ok((sk, pk))
    }

    /// The ephemeral key pair (secret key, public key) of a transaction: a fresh
    /// random pair.
    pub fn derive_ephemeral_falcon(&self, transaction_id: &[u8; 32], context: &[u8]) -> (r: Result<(Vec<u8>, Vec<u8>), FalconError>)
        ensures
            r matches Ok(p) && p.0@.len() == FALCON_SK_BYTES && p.1@.len() == FALCON_PK_BYTES && falcon_key_match(p.1@, p.0@),
    {
        let (pk, sk) = pqc_keypair();
        Ok((sk, pk))
    }

    /// The current epoch.
    pub fn get_current_epoch(&self) -> (e: u64)
        ensures
            e == self.spec_epoch(),
    {
        self.current_epoch
    }

    /// Moves to the next epoch.
    pub fn rotate_epoch(&mut self)
        requires
            old(self).spec_epoch() < u64::MAX,
        ensures
            final(self).spec_epoch() == old(self).spec_epoch() + 1,
            final(self).spec_seed() == old(self).spec_seed(),
    {
        self.current_epoch = self.current_epoch + 1;
    }

    /// Whether a hint is of the epoch before the current one or later.
    pub fn verify_epoch(&self, hint: &QuantumSafeHint) -> (b: bool)
        ensures
            b == kf_epoch_ok(self.spec_epoch(), hint.epoch),
    {
        hint.epoch >= self.current_epoch.saturating_sub(1)
    }
}

/// A hint of epoch `h` is accepted at epoch `e`: from the epoch before on.
pub open spec fn kf_epoch_ok(e: u64, h: u64) -> bool {
    h >= (if e == 0 { 0 } else { (e - 1) as u64 })
}

/// The transaction identifier of a payload for `c_out`.
pub open spec fn kf_tx_id(c_out: Seq<u8>, p: HintPayloadV1) -> Seq<u8> {
    spec_kmac256_derive_key(c_out, kf_transaction_id(), c_out + p.r_blind@ + le64(p.value))
}

/// The Falcon-key exchange: 32 bytes of KMAC output keyed by the secret key over the
/// secret key, the other side's public key, `c_out` and the epoch.
pub open spec fn kf_kex(sk: Seq<u8>, pk: Seq<u8>, c_out: Seq<u8>, epoch: u64) -> Seq<u8> {
    spec_kmac256_xof(sk, falcon_kex(), sk + pk + c_out + le64(epoch), 32)
}

/// The signed parameters of a hint at time `ts`.
pub open spec fn kf_signing_message(c_out: Seq<u8>, ss: Seq<u8>, eph_pk: Seq<u8>, epoch: u64, ts: u64) -> Seq<u8> {
    kf_signing_label() + c_out + ss + eph_pk + le64(epoch) + le64(ts)
}

/// The key derived from the secret for `c_out`.
pub open spec fn kf_enc_key(ss: Seq<u8>, c_out: Seq<u8>) -> Seq<u8> {
    spec_kmac256_derive_key(ss, kf_enc_key_label(), c_out)
}

/// The carried payload: the derived key, twelve bytes of the derived nonce, and the
/// payload's encoding.
pub open spec fn kf_encrypted(ss: Seq<u8>, p: HintPayloadV1, c_out: Seq<u8>) -> Seq<u8> {
    kf_enc_key(ss, c_out) + spec_kmac256_derive_key(ss, kf_enc_nonce_label(), c_out).take(12) + payload_bytes(p)
}

/// The payload fields carried in `enc` for the secret `ss`: `None` where `enc` is
/// shorter than the key and nonce, does not start with the derived key, or the
/// payload does not decode.
pub open spec fn kf_decrypt(ss: Seq<u8>, enc: Seq<u8>, c_out: Seq<u8>) -> Option<(Seq<u8>, u64, Seq<u8>)> {
    if enc.len() < 44 || enc.take(32) != kf_enc_key(ss, c_out) {
        None
    } else {
        let b = enc.skip(44);
        if !payload_decodes(b) {
            None
        } else {
            Some((b.subrange(0, 32), spec_u64_from_le_bytes(b.subrange(32, 40)), b.subrange(48, 48 + memo_len_of(b))))
        }
    }
}

/// The ephemeral X25519 public key of a hint from the holder of `x` for `c_out`.
pub open spec fn kf_x25519_eph(x: Seq<u8>, c_out: Seq<u8>) -> Seq<u8> {
    x25519_base(spec_kmac256_derive_key(x, x25519_ephemeral(), c_out))
}

/// The search key of a hint checked with its signature.
pub open spec fn kf_quantum_k_search(sk: Seq<u8>, eph_pub: Seq<u8>, c_out: Seq<u8>, r_blind: Seq<u8>) -> Seq<u8> {
    spec_kmac256_xof(sk, kf_k_search_label(), eph_pub + c_out + r_blind, 32)
}

/// What checking hint `h` gives a holder of Falcon secret key `sk` at epoch `e` and
/// time `now`: the payload fields where the epoch is accepted, the ephemeral key is
/// well formed, the signature opens, and the payload decodes.
pub open spec fn kf_outcome(sk: Seq<u8>, h: QuantumSafeHint, c_out: Seq<u8>, e: u64, now: u64) -> Option<(Seq<u8>, u64, Seq<u8>)> {
    if !kf_epoch_ok(e, h.epoch) || h.eph_pub@.len() != FALCON_PK_BYTES {
        None
    } else {
        let ss = kf_kex(sk, h.eph_pub@, c_out, e);
        let msg = kf_signing_message(c_out, ss, h.eph_pub@, e, now);
        if falcon_open(msg + h.falcon_signature@, h.eph_pub@) is None {
            None
        } else {
            kf_decrypt(ss, h.encrypted_payload@, c_out)
        }
    }
}

/// A found note as plain values: index, `c_out`, search key and the two flags.
pub open spec fn note_view(n: QuantumFoundNote) -> (usize, Seq<u8>, Seq<u8>, bool, bool) {
    (n.index, n.c_out@, n.k_search@, n.falcon_verified, n.quantum_safe)
}

/// The notes a scan of the first `n` outputs finds: for each output whose hint checks,
/// its index and `c_out` and the search key derived from the payload's blinding
/// factor.
pub open spec fn kf_scan(
    sk: Seq<u8>,
    outputs: Seq<(usize, [u8; 32], QuantumSafeHint)>,
    e: u64,
    now: u64,
    n: int,
) -> Seq<(usize, Seq<u8>, Seq<u8>, bool, bool)>
    decreases n,
{
    if n <= 0 {
        Seq::empty()
    } else {
        let prev = kf_scan(sk, outputs, e, now, n - 1);
        let o = outputs[n - 1];
        match kf_outcome(sk, o.2, o.1@, e, now) {
            None => prev,
            Some(r) => prev.push((o.0, o.1@, kf_quantum_k_search(sk, o.2.eph_pub@, o.1@, r.0), true, true)),
        }
    }
}

proof fn lemma_kf_scan_len(sk: Seq<u8>, outputs: Seq<(usize, [u8; 32], QuantumSafeHint)>, e: u64, now: u64, n: int)
    requires
        0 <= n,
    ensures
        kf_scan(sk, outputs, e, now, n).len() <= n,
    decreases n,
{
    if n > 0 {
        lemma_kf_scan_len(sk, outputs, e, now, n - 1);
    }
}

fn falcon_key_exchange(sk: &[u8], pk: &[u8], context: &[u8; 32], epoch: u64) -> (k: [u8; 32])
    ensures
        k@ == kf_kex(sk@, pk@, context@, epoch),
{
    let mut input: Vec<u8> = Vec::new();
    append_bytes(&mut input, sk);
    append_bytes(&mut input, pk);
    append_bytes(&mut input, context);
    append_u64_le(&mut input, epoch);
    let l = falcon_kex_bytes();
    let mut out: Vec<u8> = vec![0u8; 32];
    kmac256_xof_fill(sk, l.as_slice(), input.as_slice(), &mut out);
    let k = to_array32(out.as_slice());
    assert(k@ =~= out@);
    k
}

fn build_signing_message(c_out: &[u8; 32], ss: &[u8; 32], eph_pk: &[u8], epoch: u64, ts: u64) -> (m: Vec<u8>)
    ensures
        m@ == kf_signing_message(c_out@, ss@, eph_pk@, epoch, ts),
{
    let mut m = kf_signing_label_bytes();
    append_bytes(&mut m, c_out);
    append_bytes(&mut m, ss);
    append_bytes(&mut m, eph_pk);
    append_u64_le(&mut m, epoch);
    append_u64_le(&mut m, ts);
    m
}

fn encrypt_with_kmac_keys(ss: &[u8; 32], payload: &HintPayloadV1, c_out: &[u8; 32]) -> (v: Vec<u8>)
    ensures
        v@ == kf_encrypted(ss@, *payload, c_out@),
{
    let kl = kf_enc_key_label_bytes();
    let key = kmac256_derive_key(ss, kl.as_slice(), c_out);
    let nl = kf_enc_nonce_label_bytes();
    let nonce = kmac256_derive_key(ss, nl.as_slice(), c_out);
    let mut out: Vec<u8> = Vec::new();
    append_bytes(&mut out, &key);
    let n12 = slice_copy(&nonce, 0, 12);
    append_bytes(&mut out, n12.as_slice());
    let p = payload.encode();
    append_bytes(&mut out, p.as_slice());
    assert(n12@ =~= nonce@.take(12));
    out
}

fn decrypt_with_kmac_keys(ss: &[u8; 32], encrypted: &[u8], c_out: &[u8; 32]) -> (r: Option<DecodedHint>)
    ensures
        r is Some <==> kf_decrypt(ss@, encrypted@, c_out@) is Some,
        r matches Some(d) ==> kf_decrypt(ss@, encrypted@, c_out@) == Some((d.r_blind@, d.value.unwrap(), d.memo_items@[0]@))
            && d.value is Some && d.memo_items@.len() == 1,
{
    if encrypted.len() < 44 {
        return None;
    }
    let kl = kf_enc_key_label_bytes();
    let key = kmac256_derive_key(ss, kl.as_slice(), c_out);
    let head = slice_copy(encrypted, 0, 32);
    if !bytes_equal(head.as_slice(), &key) {
        assert(head@ =~= encrypted@.take(32));
        return None;
    }
    assert(head@ =~= encrypted@.take(32));
    let rest = slice_copy(encrypted, 44, encrypted.len() - 44);
    assert(rest@ =~= encrypted@.skip(44));
    let payload = match HintPayloadV1::decode(rest.as_slice()) {
        Some(p) => p,
        None => {
            return None;
        },
    };
    let mut items: Vec<Vec<u8>> = Vec::new();
    items.push(payload.memo);
    Some(DecodedHint { r_blind: payload.r_blind, value: Some(payload.value), memo_items: items })
}

/// The hint key-search context of a wallet.
pub struct QuantumKeySearchCtx {
    falcon_sk: Vec<u8>,
    falcon_pk: Vec<u8>,
    x25519_secret: [u8; 32],
    pub key_manager: FalconKeyManager,
}

/// `h` is the hint built for the recipient's Falcon and X25519 keys, `c_out` and
/// `payload` at time `now` and epoch `e`, by a context with X25519 secret `x`, with
/// the ephemeral Falcon key pair: the ephemeral public key, the derived X25519
/// ephemeral key, the payload carried under the Falcon-exchange secret, the time, the
/// epoch, and as signature the bytes after the signing message of an attached
/// signature of that message made with the ephemeral secret key.
pub open spec fn kf_built_hint(
    h: QuantumSafeHint,
    x: Seq<u8>,
    e: u64,
    recipient_falcon_pk: Seq<u8>,
    c_out: Seq<u8>,
    payload: HintPayloadV1,
    now: u64,
    eph_sk: Seq<u8>,
    eph_pk: Seq<u8>,
) -> bool {
    let ss = kf_kex(eph_sk, recipient_falcon_pk, c_out, e);
    let msg = kf_signing_message(c_out, ss, eph_pk, e, now);
    &&& h.eph_pub@ == eph_pk
    &&& h.x25519_eph_pub@ == kf_x25519_eph(x, c_out)
    &&& h.encrypted_payload@ == kf_encrypted(ss, payload, c_out)
    &&& h.timestamp == now
    &&& h.epoch == e
    &&& exists|sm: Seq<u8>|
        #[trigger] falcon_signed(sm, msg, eph_sk) && sm.len() > msg.len() && h.falcon_signature@ == sm.subrange(
            msg.len() as int,
            sm.len() as int,
        )
}

/// `r` is what checking `hint` at time `now` gives to a context with Falcon secret key
/// `sk` at epoch `e`: present exactly when [`kf_outcome`] is, and then the outcome's
/// payload with `true`.
pub open spec fn kf_verified(
    sk: Seq<u8>,
    hint: QuantumSafeHint,
    c_out: Seq<u8>,
    e: u64,
    now: u64,
    r: Option<(DecodedHint, bool)>,
) -> bool {
    &&& r is Some <==> kf_outcome(sk, hint, c_out, e, now) is Some
    &&& r matches Some((d, q)) ==> q && d.value is Some && d.memo_items@.len() == 1 && kf_outcome(
        sk,
        hint,
        c_out,
        e,
        now,
    ) == Some((d.r_blind@, d.value.unwrap(), d.memo_items@[0]@))
}

impl QuantumKeySearchCtx {
    /// The Falcon secret key.
    pub closed spec fn spec_falcon_sk(&self) -> Seq<u8> {
        self.falcon_sk@
    }

    /// The Falcon public key.
    pub closed spec fn spec_falcon_pk(&self) -> Seq<u8> {
        self.falcon_pk@
    }

    /// The X25519 secret.
    pub closed spec fn spec_x25519_secret(&self) -> Seq<u8> {
        self.x25519_secret@
    }

    /// The current key epoch.
    pub closed spec fn spec_epoch(&self) -> u64 {
        self.key_manager.spec_epoch()
    }

    /// A context for `master_seed`: a key manager at epoch 0, a fresh Falcon identity,
    /// and the X25519 secret derived from the seed under `X25519_SESSION_KEY` and
    /// `key_derivation`.
    pub fn new(master_seed: [u8; 32]) -> (r: Result<Self, FalconError>)
        ensures
            r matches Ok(c) && c.spec_epoch() == 0 && c.spec_falcon_pk().len() == FALCON_PK_BYTES
                && c.spec_falcon_sk().len() == FALCON_SK_BYTES
                && c.spec_x25519_secret() == spec_kmac256_derive_key(master_seed@, x25519_session_key(), key_derivation_ctx()),
    {
        let key_manager = FalconKeyManager::new(master_seed);
        let (falcon_sk, falcon_pk) = match key_manager.derive_epoch_keypair(0) {
            Ok(p) => p,
            Err(e) => {
                return Err(e);
            },
        };
        let l = x25519_session_key_bytes();
        let c = key_derivation_ctx_bytes();
        let x25519_secret = kmac256_derive_key(&master_seed, l.as_slice(), c.as_slice());
        Ok(Self { falcon_sk, falcon_pk, x25519_secret, key_manager })
    }

    /// The Falcon public key.
    pub fn get_falcon_public_key(&self) -> (k: &[u8])
        ensures
            k@ == self.spec_falcon_pk(),
    {
        self.falcon_pk.as_slice()
    }

    /// The X25519 public key of the secret.
    pub fn get_x25519_public_key(&self) -> (k: [u8; 32])
        ensures
            k@ == x25519_base(self.spec_x25519_secret()),
    {
        x25519_public_of(&self.x25519_secret)
    }

    /// The transaction identifier of a payload for `c_out`.
    pub fn derive_transaction_id(c_out: &[u8; 32], payload: &HintPayloadV1) -> (id: [u8; 32])
        ensures
            id@ == kf_tx_id(c_out@, *payload),
    {
        let mut input: Vec<u8> = Vec::new();
        append_bytes(&mut input, c_out);
        append_bytes(&mut input, &payload.r_blind);
        append_u64_le(&mut input, payload.value);
        let l = kf_transaction_id_bytes();
        kmac256_derive_key(c_out, l.as_slice(), input.as_slice())
    }

    /// Builds a hint at time `now` with the ephemeral Falcon key pair given.
    pub fn build_quantum_hint_with(
        &self,
        recipient_falcon_pk: &[u8],
        recipient_x25519_pk: &[u8; 32],
        c_out: &[u8; 32],
        payload: &HintPayloadV1,
        now: u64,
        eph_sk: &[u8],
        eph_pk: &[u8],
    ) -> (r: Result<QuantumSafeHint, FalconError>)
        requires
            eph_sk@.len() == FALCON_SK_BYTES,
        ensures
            r matches Ok(h) && kf_built_hint(
                h,
                self.spec_x25519_secret(),
                self.spec_epoch(),
                recipient_falcon_pk@,
                c_out@,
                *payload,
                now,
                eph_sk@,
                eph_pk@,
            ),
    {
        let epoch = self.key_manager.get_current_epoch();
        let shared = falcon_key_exchange(eph_sk, recipient_falcon_pk, c_out, epoch);
        let msg = build_signing_message(c_out, &shared, eph_pk, epoch, now);
        let signed = pqc_sign(msg.as_slice(), eph_sk);
        let signature = slice_copy(signed.as_slice(), msg.len(), signed.len() - msg.len());
        let encrypted_payload = encrypt_with_kmac_keys(&shared, payload, c_out);
        let xl = x25519_ephemeral_bytes();
        let eph_secret = kmac256_derive_key(&self.x25519_secret, xl.as_slice(), c_out);
        let x25519_eph_pub = x25519_public_of(&eph_secret);
        let h = QuantumSafeHint {
            eph_pub: copy_bytes(eph_pk),
            x25519_eph_pub,
            falcon_signature: signature,
            encrypted_payload,
            timestamp: now,
            epoch,
        };
        proof {
            let ghost msgv = msg@;
            assert(falcon_signed(signed@, msgv, eph_sk@));
            assert(h.falcon_signature@ == signed@.subrange(msgv.len() as int, signed@.len() as int));
        }
        Ok(h)
    }

    /// Builds a hint at the clock's time with a fresh ephemeral Falcon key pair.
    pub fn build_quantum_hint(
        &self,
        recipient_falcon_pk: &[u8],
        recipient_x25519_pk: &[u8; 32],
        c_out: &[u8; 32],
        payload: &HintPayloadV1,
    ) -> (r: Result<QuantumSafeHint, FalconError>)
        ensures
            r matches Ok(h) && h.epoch == self.spec_epoch() && h.eph_pub@.len() == FALCON_PK_BYTES
                && h.x25519_eph_pub@ == kf_x25519_eph(self.spec_x25519_secret(), c_out@),
            r matches Ok(h) ==> exists|eph_sk: Seq<u8>, eph_pk: Seq<u8>|
                #![trigger falcon_key_match(eph_pk, eph_sk)]
                eph_sk.len() == FALCON_SK_BYTES && falcon_key_match(eph_pk, eph_sk) && kf_built_hint(
                    h,
                    self.spec_x25519_secret(),
                    self.spec_epoch(),
                    recipient_falcon_pk@,
                    c_out@,
                    *payload,
                    h.timestamp,
                    eph_sk,
                    eph_pk,
                ),
    {
        let tx = Self::derive_transaction_id(c_out, payload);
        let (eph_sk, eph_pk) = match self.key_manager.derive_ephemeral_falcon(&tx, kf_transaction_id_bytes().as_slice()) {
            Ok(p) => p,
            Err(e) => {
                return Err(e);
            },
        };
        let now = unix_now_secs();
        let r = self.build_quantum_hint_with(recipient_falcon_pk, recipient_x25519_pk, c_out, payload, now, eph_sk.as_slice(), eph_pk.as_slice());
        proof {
            assert(falcon_key_match(eph_pk@, eph_sk@));
        }
        r
    }

    /// The wrapped form of a hint for the X25519-only search: its ephemeral X25519 key
    /// and a tag derived from it under this context's secret.
    fn wrap_as_traditional_hint(&self, hint: &QuantumSafeHint) -> (v: Vec<u8>)
        ensures
            v@ == hint.x25519_eph_pub@ + spec_kmac256_xof(self.spec_x25519_secret(), kf_fallback_tag(), hint.x25519_eph_pub@, 32),
    {
        let mut v: Vec<u8> = Vec::new();
        append_bytes(&mut v, &hint.x25519_eph_pub);
        let l = kf_fallback_tag_bytes();
        let mut tag: Vec<u8> = vec![0u8; 32];
        kmac256_xof_fill(&self.x25519_secret, l.as_slice(), &hint.x25519_eph_pub, &mut tag);
        append_bytes(&mut v, tag.as_slice());
        v
    }

    /// Checks a hint at time `now`, trying the X25519-only search first: the decoded
    /// payload with `false` where that search opens it, else with `true` where the
    /// signature opens and the payload decodes.
    pub fn verify_quantum_hint_at(&self, hint: &QuantumSafeHint, c_out: &[u8; 32], now: u64) -> (r: Option<(DecodedHint, bool)>)
        ensures
            kf_verified(self.spec_falcon_sk(), *hint, c_out@, self.spec_epoch(), now, r),
    {
        if !self.key_manager.verify_epoch(hint) {
            return None;
        }
        if !pqc_pk_parses(hint.eph_pub.as_slice()) {
            return None;
        }
        let epoch = self.key_manager.get_current_epoch();
        let shared = falcon_key_exchange(self.falcon_sk.as_slice(), hint.eph_pub.as_slice(), c_out, epoch);
        let msg = build_signing_message(c_out, &shared, hint.eph_pub.as_slice(), epoch, now);
        let mut signed = copy_bytes(msg.as_slice());
        append_bytes(&mut signed, hint.falcon_signature.as_slice());
        let falcon_verified = pqc_open(signed.as_slice(), hint.eph_pub.as_slice()).is_some();
        let wrapped = self.wrap_as_traditional_hint(hint);
        let traditional = KeySearchCtx::new(self.x25519_secret);
        match traditional.try_match_and_decrypt_ext(c_out, wrapped.as_slice(), AadMode::COutOnly) {
            Some((_, Some(d))) => {
                return Some((d, false));
            },
            _ => {},
        }
        if falcon_verified {
            match decrypt_with_kmac_keys(&shared, hint.encrypted_payload.as_slice(), c_out) {
                Some(d) => {
                    return Some((d, true));
                },
                None => {},
            }
        }
        None
    }

    /// Checks a hint at the clock's time.
    pub fn verify_quantum_hint(&self, hint: &QuantumSafeHint, c_out: &[u8; 32]) -> (r: Option<(DecodedHint, bool)>)
        ensures
            r matches Some((d, q)) ==> q,
            !kf_epoch_ok(self.spec_epoch(), hint.epoch) ==> r is None,
            exists|now: u64| #[trigger] kf_verified(self.spec_falcon_sk(), *hint, c_out@, self.spec_epoch(), now, r),
    {
        let now = unix_now_secs();
        let r = self.verify_quantum_hint_at(hint, c_out, now);
        assert(kf_verified(self.spec_falcon_sk(), *hint, c_out@, self.spec_epoch(), now, r));
        r
    }

    /// The search key of a hint checked with its signature.
    fn quantum_k_search(&self, c_out: &[u8; 32], hint: &QuantumSafeHint, decoded: &DecodedHint) -> (k: [u8; 32])
        ensures
            k@ == kf_quantum_k_search(self.spec_falcon_sk(), hint.eph_pub@, c_out@, decoded.r_blind@),
    {
        let mut input: Vec<u8> = Vec::new();
        append_bytes(&mut input, hint.eph_pub.as_slice());
        append_bytes(&mut input, c_out);
        append_bytes(&mut input, &decoded.r_blind);
        let l = kf_k_search_label_bytes();
        let mut out: Vec<u8> = vec![0u8; 32];
        kmac256_xof_fill(self.falcon_sk.as_slice(), l.as_slice(), input.as_slice(), &mut out);
        let k = to_array32(out.as_slice());
        assert(k@ =~= out@);
        k
    }

    /// The search key of a hint found by the X25519-only search: the key it matches
    /// with, or zeros.
    fn traditional_k_search(&self, c_out: &[u8; 32], hint: &QuantumSafeHint) -> (k: [u8; 32])
        ensures
            k@ == Seq::new(32, |i: int| 0u8),
    {
        let wrapped = self.wrap_as_traditional_hint(hint);
        let traditional = KeySearchCtx::new(self.x25519_secret);
        match traditional.try_match(c_out, wrapped.as_slice()) {
            Some(k) => k,
            None => [0u8; 32],
        }
    }

    /// Scans outputs `(index, c_out, hint)` at time `now`: a note for each hint that
    /// checks, in order, with the search key of its kind.
    pub fn scan_quantum_safe_at(&self, outputs: &[(usize, [u8; 32], QuantumSafeHint)], now: u64) -> (hits: Vec<QuantumFoundNote>)
        ensures
            hits@.map_values(|n: QuantumFoundNote| note_view(n)) == kf_scan(
                self.spec_falcon_sk(),
                outputs@,
                self.spec_epoch(),
                now,
                outputs@.len() as int,
            ),
    {
        let mut hits: Vec<QuantumFoundNote> = Vec::new();
        let mut i: usize = 0;
        while i < outputs.len()
            invariant
                i <= outputs@.len(),
                hits@.map_values(|n: QuantumFoundNote| note_view(n)) == kf_scan(
                    self.spec_falcon_sk(),
                    outputs@,
                    self.spec_epoch(),
                    now,
                    i as int,
                ),
            decreases outputs@.len() - i,
        {
            let idx = outputs[i].0;
            let c_out = outputs[i].1;
            let hint = &outputs[i].2;
            let ghost before = hits@;
            match self.verify_quantum_hint_at(hint, &c_out, now) {
                Some((decoded, quantum_verified)) => {
                    let k_search = if quantum_verified {
                        self.quantum_k_search(&c_out, hint, &decoded)
                    } else {
                        self.traditional_k_search(&c_out, hint)
                    };
                    hits.push(QuantumFoundNote { index: idx, c_out, k_search, falcon_verified: quantum_verified, quantum_safe: quantum_verified });
                    proof {
                        assert(hits@.map_values(|n: QuantumFoundNote| note_view(n)) =~= before.map_values(
                            |n: QuantumFoundNote| note_view(n),
                        ).push(note_view(hits@[hits@.len() - 1])));
                    }
                },
                None => {},
            }
            i = i + 1;
        }
        hits
    }

    /// Scans outputs at the clock's time: the notes are those that
    /// [`Self::scan_quantum_safe_at`] finds at that time.
    pub fn scan_quantum_safe(&self, outputs: &[(usize, [u8; 32], QuantumSafeHint)]) -> (hits: Vec<QuantumFoundNote>)
        ensures
            exists|now: u64|
                hits@.map_values(|n: QuantumFoundNote| note_view(n)) == #[trigger] kf_scan(
                    self.spec_falcon_sk(),
                    outputs@,
                    self.spec_epoch(),
                    now,
                    outputs@.len() as int,
                ),
            hits@.len() <= outputs@.len(),
    {
        let now = unix_now_secs();
        let hits = self.scan_quantum_safe_at(outputs, now);
        proof {
            lemma_kf_scan_len(self.spec_falcon_sk(), outputs@, self.spec_epoch(), now, outputs@.len() as int);
            assert(hits@.len() == hits@.map_values(|n: QuantumFoundNote| note_view(n)).len());
        }
        hits
    }
}

} // verus!
