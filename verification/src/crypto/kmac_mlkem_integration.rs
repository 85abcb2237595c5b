//! Quantum-safe hints: an ML-KEM (Kyber768) encapsulation combined with an X25519
//! exchange into a hybrid secret, a Falcon-512 signature over the transcript of
//! all hint parameters, and XChaCha20-Poly1305 encryption of the payload with the
//! transcript as associated data.
//!
//! Hints are accepted from the current or the previous key epoch, and only within
//! a maximum age.
use vstd::prelude::*;
use pqcrypto_kyber::kyber768 as mlkem;
use pqcrypto_traits::kem::{Ciphertext as PqCiphertext, PublicKey as PqKemPublicKey, SecretKey as PqKemSecretKey, SharedSecret as PqSharedSecret};
use x25519_dalek::{PublicKey as XPublicKey, StaticSecret as XSecret};
use vstd::bytes::spec_u64_from_le_bytes;
use crate::bytes::{append_bytes, append_u64_le, copy_bytes, le64};
use crate::crypto::FalconError;
use crate::crypto::aead::{sealable, xchacha_open, xchacha_seal};
use crate::crypto::hint_transcript::{aead_decrypt, aead_encrypt, hint_key, hint_nonce, spec_transcript, transcript};
use crate::crypto::kmac::{kmac256_derive_key, spec_kmac256_derive_key};
use crate::falcon_sigs::{falcon_key_match, falcon_keypair, falcon_open, pqc_open, pqc_pk_parses, pqc_sign, FalconPublicKey, FalconSecretKey, FALCON_PK_BYTES};
use crate::keysearch::{lemma_payload_roundtrip, memo_len_of, payload_bytes, payload_decodes, DecodedHint, HintPayloadV1};
use crate::tags::{
    key_derivation_ctx, key_derivation_ctx_bytes, qh_hybrid, qh_hybrid_bytes, qh_ksearch, qh_ksearch_bytes,
    qh_transaction_id, qh_transaction_id_bytes, x25519_ephemeral, x25519_ephemeral_bytes, x25519_session_key,
    x25519_session_key_bytes,
};

verus! {

/// Bytes of an ML-KEM public key.
pub const MLKEM_PK_BYTES: usize = 1184;
/// Bytes of an ML-KEM secret key.
pub const MLKEM_SK_BYTES: usize = 2400;
/// Bytes of an ML-KEM ciphertext.
pub const MLKEM_CT_BYTES: usize = 1088;

/// The X25519 public key of `secret` (clamped scalar times the base point).
pub uninterp spec fn x25519_base(secret: Seq<u8>) -> Seq<u8>;

/// The X25519 shared secret of `secret` and the peer's public key `public`.
pub uninterp spec fn x25519_dh(secret: Seq<u8>, public: Seq<u8>) -> Seq<u8>;

/// The ML-KEM shared secret that decapsulating `ct` with `sk` gives.
pub uninterp spec fn mlkem_decap(ct: Seq<u8>, sk: Seq<u8>) -> Seq<u8>;

/// `kyber768::keypair`, with both keys taken as bytes.
/// Trusted: a fresh random key pair of 1184 and 2400 bytes. Which pair comes out is
/// not stated.
#[verifier::external_body]
pub(crate) fn mlkem_keypair() -> (r: (Vec<u8>, Vec<u8>))
    ensures
        r.0@.len() == MLKEM_PK_BYTES,
        r.1@.len() == MLKEM_SK_BYTES,
{
    let (pk, sk) = mlkem::keypair();
    (pk.as_bytes().to_vec(), sk.as_bytes().to_vec())
}

/// `kyber768::encapsulate` with the public key given as its bytes.
/// Trusted: a 32-byte shared secret and a 1088-byte ciphertext; both are random, so
/// nothing more is stated of them.
#[verifier::external_body]
pub(crate) fn mlkem_encapsulate(pk: &[u8]) -> (r: ([u8; 32], Vec<u8>))
    requires
        pk@.len() == MLKEM_PK_BYTES,
    ensures
        r.1@.len() == MLKEM_CT_BYTES,
{
    let key = mlkem::PublicKey::from_bytes(pk).unwrap();
    let (ss, ct) = mlkem::encapsulate(&key);
    let mut out = [0u8; 32];
    out.copy_from_slice(ss.as_bytes());
    (out, ct.as_bytes().to_vec())
}

/// `kyber768::Ciphertext::from_bytes`.
/// Trusted: it accepts exactly the byte strings of 1088 bytes.
#[verifier::external_body]
pub(crate) fn mlkem_ct_parses(bytes: &[u8]) -> (b: bool)
    ensures
        b == (bytes@.len() == MLKEM_CT_BYTES),
{
    mlkem::Ciphertext::from_bytes(bytes).is_ok()
}

/// `kyber768::decapsulate` with ciphertext and secret key given as bytes.
/// Trusted: the result is the named shared secret.
#[verifier::external_body]
pub(crate) fn mlkem_decapsulate(ct: &[u8], sk: &[u8]) -> (ss: [u8; 32])
    requires
        ct@.len() == MLKEM_CT_BYTES,
        sk@.len() == MLKEM_SK_BYTES,
    ensures
        ss@ == mlkem_decap(ct@, sk@),
{
    let c = mlkem::Ciphertext::from_bytes(ct).unwrap();
    let k = mlkem::SecretKey::from_bytes(sk).unwrap();
    let mut out = [0u8; 32];
    out.copy_from_slice(mlkem::decapsulate(&c, &k).as_bytes());
    out
}

/// `PublicKey::from(&StaticSecret::from(secret))` from `x25519-dalek`.
/// Trusted: the result is the named public key of the secret.
#[verifier::external_body]
pub(crate) fn x25519_public_of(secret: &[u8; 32]) -> (p: [u8; 32])
    ensures
        p@ == x25519_base(secret@),
{
    XPublicKey::from(&XSecret::from(*secret)).to_bytes()
}

/// `StaticSecret::diffie_hellman` from `x25519-dalek`.
/// Trusted: the result is the named shared secret, and where `public` is the public
/// key of another 32-byte secret, that secret with this one's public key agrees on it
/// (both are the clamped scalars' product times the base point).
#[verifier::external_body]
pub(crate) fn x25519_shared(secret: &[u8; 32], public: &[u8; 32]) -> (s: [u8; 32])
    ensures
        s@ == x25519_dh(secret@, public@),
        forall|other: Seq<u8>|
            other.len() == 32 && public@ == #[trigger] x25519_base(other) ==> x25519_dh(other, x25519_base(secret@))
                == s@,
{
    XSecret::from(*secret).diffie_hellman(&XPublicKey::from(*public)).to_bytes()
}

/// A quantum-safe hint.
#[derive(Clone, Debug)]
pub struct QuantumSafeHint {
    /// The ML-KEM ciphertext.
    pub kem_ct: Vec<u8>,
    /// The sender's ephemeral X25519 public key.
    pub x25519_eph_pub: [u8; 32],
    /// The Falcon attached signature over the transcript.
    pub falcon_signed_msg: Vec<u8>,
    /// The sender's Falcon public key.
    pub sender_falcon_pk: Vec<u8>,
    /// The encrypted payload.
    pub enc_payload: Vec<u8>,
    pub timestamp: u64,
    pub epoch: u64,
}

/// A hint found for this wallet.
#[derive(Clone, Debug)]
pub struct QuantumFoundNote {
    pub index: usize,
    pub c_out: [u8; 32],
    pub k_search: [u8; 32],
    pub falcon_verified: bool,
    pub quantum_safe: bool,
}

/// Key epochs.
pub struct FalconKeyManager {
    current_epoch: u64,
    epoch_duration: u64,
}

impl FalconKeyManager {
    /// The current epoch.
    pub closed spec fn spec_epoch(&self) -> u64 {
        self.current_epoch
    }

    /// A manager at epoch 0 with one-day epochs.
    pub fn new() -> (m: Self)
        ensures
            m.spec_epoch() == 0,
    {
        Self { current_epoch: 0, epoch_duration: 86_400 }
    }

    /// The current epoch.
    pub fn get_current_epoch(&self) -> (e: u64)
        ensures
            e == self.spec_epoch(),
    {
        self.current_epoch
    }

    /// Moves to the next epoch (saturating).
    pub fn rotate_epoch(&mut self)
        ensures
            final(self).spec_epoch() == if old(self).spec_epoch() == u64::MAX {
                u64::MAX
            } else {
                (old(self).spec_epoch() + 1) as u64
            },
    {
        self.current_epoch = self.current_epoch.saturating_add(1);
    }

    /// Whether a hint's epoch is the current one or the one before.
    pub fn verify_epoch(&self, hint: &QuantumSafeHint) -> (b: bool)
        ensures
            b == epoch_accepted(self.spec_epoch(), hint.epoch),
    {
        let e = self.current_epoch;
        hint.epoch == e || hint.epoch.saturating_add(1) == e
    }
}

/// A hint of epoch `h` is accepted at epoch `e`: the same epoch, or the one before
/// (with the successor saturating).
pub open spec fn epoch_accepted(e: u64, h: u64) -> bool {
    h == e || (if h == u64::MAX { u64::MAX } else { (h + 1) as u64 }) == e
}

/// An ML-KEM public key.
#[derive(Clone, Debug)]
pub struct MlkemPublicKey {
    bytes: Vec<u8>,
}

impl MlkemPublicKey {
    /// The key's encoding.
    pub closed spec fn spec_bytes(&self) -> Seq<u8> {
        self.bytes@
    }

    /// The encoding has the public-key length.
    pub open spec fn wf(&self) -> bool {
        self.spec_bytes().len() == MLKEM_PK_BYTES
    }

    /// The key's encoding.
    pub fn as_bytes(&self) -> (b: &[u8])
        ensures
            b@ == self.spec_bytes(),
    {
        self.bytes.as_slice()
    }

    /// The key encoded by `bytes`, where they have the public-key length.
    pub fn from_bytes(bytes: &[u8]) -> (r: Option<Self>)
        ensures
            r is Some <==> bytes@.len() == MLKEM_PK_BYTES,
            r matches Some(k) ==> k.spec_bytes() == bytes@,
    {
        if bytes.len() == MLKEM_PK_BYTES {
            Some(MlkemPublicKey { bytes: copy_bytes(bytes) })
        } else {
            None
        }
    }

    /// A key holding `bytes`.
    pub(crate) fn from_vec(bytes: Vec<u8>) -> (k: Self)
        ensures
            k.spec_bytes() == bytes@,
    {
        MlkemPublicKey { bytes }
    }
}

/// The hybrid secret of a KEM secret and an X25519 secret, bound to `c_out`.
pub open spec fn hybrid_secret(kem_ss: Seq<u8>, dh: Seq<u8>, c_out: Seq<u8>) -> Seq<u8> {
    spec_kmac256_derive_key(kem_ss + dh, qh_hybrid(), c_out)
}

/// The transaction identifier of a payload for `c_out`.
pub open spec fn transaction_id(c_out: Seq<u8>, p: HintPayloadV1) -> Seq<u8> {
    spec_kmac256_derive_key(c_out, qh_transaction_id(), c_out + p.r_blind@ + le64(p.value))
}

/// The search key of a found hint.
pub open spec fn k_search_of(ss_h: Seq<u8>, c_out: Seq<u8>, r_blind: Seq<u8>, sender_pk: Seq<u8>) -> Seq<u8> {
    spec_kmac256_derive_key(ss_h, qh_ksearch(), c_out + r_blind + sender_pk)
}

/// The memo of a decoded hint: the memo as one item, or no item for an empty memo.
pub open spec fn memo_items_of(memo: Seq<u8>) -> Seq<Seq<u8>> {
    if memo.len() == 0 { Seq::empty() } else { seq![memo] }
}

/// The hint key-search context of a wallet.
pub struct QuantumKeySearchCtx {
    falcon_sk: FalconSecretKey,
    falcon_pk: FalconPublicKey,
    kem_sk: Vec<u8>,
    kem_pk: MlkemPublicKey,
    x25519_secret: [u8; 32],
    key_manager: FalconKeyManager,
}

impl QuantumKeySearchCtx {
    /// The Falcon public key.
    pub closed spec fn spec_falcon_pk(&self) -> Seq<u8> {
        self.falcon_pk.spec_bytes()
    }

    /// The ML-KEM secret key.
    pub closed spec fn spec_kem_sk(&self) -> Seq<u8> {
        self.kem_sk@
    }

    /// The ML-KEM public key.
    pub closed spec fn spec_kem_pk(&self) -> Seq<u8> {
        self.kem_pk.spec_bytes()
    }

    /// The static X25519 secret.
    pub closed spec fn spec_x25519_secret(&self) -> Seq<u8> {
        self.x25519_secret@
    }

    /// The current key epoch.
    pub closed spec fn spec_epoch(&self) -> u64 {
        self.key_manager.spec_epoch()
    }

    /// All keys have their encoding lengths, and the Falcon public key belongs to the
    /// Falcon secret key.
    pub closed spec fn wf(&self) -> bool {
        &&& self.falcon_sk.wf()
        &&& self.falcon_pk.wf()
        &&& falcon_key_match(self.falcon_pk.spec_bytes(), self.falcon_sk.spec_bytes())
        &&& self.kem_sk@.len() == MLKEM_SK_BYTES
        &&& self.kem_pk.wf()
    }

    /// Length facts of a well-formed context.
    pub proof fn lemma_wf_lengths(&self)
        requires
            self.wf(),
        ensures
            self.spec_falcon_pk().len() == FALCON_PK_BYTES,
            self.spec_kem_sk().len() == MLKEM_SK_BYTES,
            self.spec_x25519_secret().len() == 32,
    {
    }

    /// `h` is the hint this context builds for the recipient's X25519 key `recipient_x`,
    /// `c_out` and `payload`, from the encapsulation (`kem_ss`, `kem_ct`) at `timestamp`:
    /// its fields, a signature that opens to the transcript under this context's Falcon
    /// key, and a payload sealed under the hybrid secret with the transcript as
    /// associated data. Any holder of the secret behind `recipient_x` agrees on the
    /// X25519 secret.
    pub open spec fn hint_built(
        &self,
        h: QuantumSafeHint,
        recipient_x: Seq<u8>,
        c_out: Seq<u8>,
        payload: HintPayloadV1,
        kem_ss: Seq<u8>,
        kem_ct: Seq<u8>,
        timestamp: u64,
    ) -> bool {
        let eph = spec_kmac256_derive_key(self.spec_x25519_secret(), x25519_ephemeral(), transaction_id(c_out, payload));
        let eph_pub = x25519_base(eph);
        let ss_h = hybrid_secret(kem_ss, x25519_dh(eph, recipient_x), c_out);
        let tr = spec_transcript(self.spec_epoch(), timestamp, c_out, kem_ct, eph_pub, self.spec_falcon_pk());
        &&& h.kem_ct@ == kem_ct
        &&& h.x25519_eph_pub@ == eph_pub
        &&& h.sender_falcon_pk@ == self.spec_falcon_pk()
        &&& h.timestamp == timestamp
        &&& h.epoch == self.spec_epoch()
        &&& h.enc_payload@ == xchacha_seal(hint_key(ss_h), hint_nonce(ss_h), payload_bytes(payload), tr)
        &&& xchacha_open(hint_key(ss_h), hint_nonce(ss_h), h.enc_payload@, tr) == Some(payload_bytes(payload))
        &&& falcon_open(h.falcon_signed_msg@, self.spec_falcon_pk()) == Some(tr)
        &&& forall|other: Seq<u8>|
            other.len() == 32 && recipient_x == #[trigger] x25519_base(other) ==> x25519_dh(other, eph_pub)
                == x25519_dh(eph, recipient_x)
    }

    /// The hybrid secret this context recovers from `hint` for `c_out`.
    pub open spec fn recovered_secret(&self, hint: QuantumSafeHint, c_out: Seq<u8>) -> Seq<u8> {
        hybrid_secret(
            mlkem_decap(hint.kem_ct@, self.spec_kem_sk()),
            x25519_dh(self.spec_x25519_secret(), hint.x25519_eph_pub@),
            c_out,
        )
    }

    /// The encoded payload of `hint` for `c_out` where its signature, ciphertext and
    /// encryption check out (epoch and age aside).
    pub open spec fn opened_payload(&self, hint: QuantumSafeHint, c_out: Seq<u8>) -> Option<Seq<u8>> {
        let tr = spec_transcript(
            hint.epoch,
            hint.timestamp,
            c_out,
            hint.kem_ct@,
            hint.x25519_eph_pub@,
            hint.sender_falcon_pk@,
        );
        if hint.sender_falcon_pk@.len() != FALCON_PK_BYTES {
            None
        } else if falcon_open(hint.falcon_signed_msg@, hint.sender_falcon_pk@) != Some(tr) {
            None
        } else if hint.kem_ct@.len() != MLKEM_CT_BYTES {
            None
        } else {
            let ss = self.recovered_secret(hint, c_out);
            match xchacha_open(hint_key(ss), hint_nonce(ss), hint.enc_payload@, tr) {
                Some(pb) => if payload_decodes(pb) { Some(pb) } else { None },
                None => None,
            }
        }
    }

    /// The encoded payload that `hint` yields at time `now`, if accepted.
    pub open spec fn accepted_payload(
        &self,
        hint: QuantumSafeHint,
        c_out: Seq<u8>,
        max_skew_secs: u64,
        now: u64,
    ) -> Option<Seq<u8>> {
        let age = if now >= hint.timestamp { (now - hint.timestamp) as u64 } else { 0u64 };
        if !epoch_accepted(self.spec_epoch(), hint.epoch) || age > max_skew_secs {
            None
        } else {
            self.opened_payload(hint, c_out)
        }
    }

    /// A context with fresh random Falcon and ML-KEM key pairs, and the static X25519
    /// secret derived from `master_seed`.
    pub fn new(master_seed: [u8; 32]) -> (r: Result<Self, FalconError>)
        ensures
            r matches Ok(c) && c.wf() && c.spec_epoch() == 0 && c.spec_x25519_secret() == spec_kmac256_derive_key(
                master_seed@,
                x25519_session_key(),
                key_derivation_ctx(),
            ),
    {
        let (falcon_pk, falcon_sk) = falcon_keypair();
        let (kem_pk, kem_sk) = mlkem_keypair();
        let l = x25519_session_key_bytes();
        let c = key_derivation_ctx_bytes();
        let x25519_secret = kmac256_derive_key(&master_seed, l.as_slice(), c.as_slice());
        Ok(Self {
            falcon_sk,
            falcon_pk,
            kem_sk,
            kem_pk: MlkemPublicKey { bytes: kem_pk },
            x25519_secret,
            key_manager: FalconKeyManager::new(),
        })
    }

    /// The ML-KEM public key.
    pub fn kem_public_key(&self) -> (k: &MlkemPublicKey)
        requires
            self.wf(),
        ensures
            k.spec_bytes() == self.spec_kem_pk(),
            k.wf(),
    {
        &self.kem_pk
    }

    /// The Falcon public key.
    pub fn falcon_public_key(&self) -> (k: &FalconPublicKey)
        requires
            self.wf(),
        ensures
            k.spec_bytes() == self.spec_falcon_pk(),
            k.wf(),
    {
        &self.falcon_pk
    }

    /// The X25519 public key of the static secret.
    pub fn x25519_public_key(&self) -> (k: [u8; 32])
        ensures
            k@ == x25519_base(self.spec_x25519_secret()),
    {
        x25519_public_of(&self.x25519_secret)
    }

    /// The current key epoch.
    pub fn epoch(&self) -> (e: u64)
        ensures
            e == self.spec_epoch(),
    {
        self.key_manager.get_current_epoch()
    }

    /// Builds a hint from an ML-KEM encapsulation already made (`kem_ss`, `kem_ct`),
    /// stamped `timestamp`: the ephemeral X25519 key is derived from the static secret
    /// and the transaction identifier, the hybrid secret from both shared secrets, and
    /// the payload is sealed with the transcript as associated data. The signature is
    /// randomized. A payload too long to seal is refused with `SerializationFailed`.
    pub fn build_quantum_hint_with(
        &self,
        recipient_x25519_pk: &[u8; 32],
        c_out: &[u8; 32],
        payload: &HintPayloadV1,
        kem_ss: &[u8; 32],
        kem_ct: &[u8],
        timestamp: u64,
    ) -> (r: Result<QuantumSafeHint, FalconError>)
        requires
            self.wf(),
        ensures
            !sealable(payload_bytes(*payload).len()) ==> r == Err::<QuantumSafeHint, FalconError>(
                FalconError::SerializationFailed,
            ),
            sealable(payload_bytes(*payload).len()) ==> (r matches Ok(h) && self.hint_built(
                h,
                recipient_x25519_pk@,
                c_out@,
                *payload,
                kem_ss@,
                kem_ct@,
                timestamp,
            )),
    {
        let tx = Self::derive_transaction_id(c_out, payload);
        let el = x25519_ephemeral_bytes();
        let eph_secret = kmac256_derive_key(&self.x25519_secret, el.as_slice(), &tx);
        let x25519_eph_pub = x25519_public_of(&eph_secret);
        let dh = x25519_shared(&eph_secret, recipient_x25519_pk);
        let ss_h = Self::hybrid(kem_ss, &dh, c_out);
        let epoch = self.key_manager.get_current_epoch();
        let tr = transcript(epoch, timestamp, c_out, kem_ct, &x25519_eph_pub, self.falcon_pk.as_bytes());
        let falcon_signed_msg = pqc_sign(tr.as_slice(), self.falcon_sk.as_bytes());
        let pt = payload.encode();
        let enc_payload = match aead_encrypt(&ss_h, tr.as_slice(), pt.as_slice()) {
            Ok(c) => c,
            Err(e) => return Err(e),
        };
        Ok(QuantumSafeHint {
            kem_ct: copy_bytes(kem_ct),
            x25519_eph_pub,
            falcon_signed_msg,
            sender_falcon_pk: copy_bytes(self.falcon_pk.as_bytes()),
            enc_payload,
            timestamp,
            epoch,
        })
    }

    /// Builds a hint for the recipient's ML-KEM and X25519 public keys: encapsulates
    /// to the ML-KEM key, stamps the current time and proceeds as
    /// [`Self::build_quantum_hint_with`].
    pub fn build_quantum_hint(
        &self,
        recipient_kem_pk: &MlkemPublicKey,
        recipient_x25519_pk: &[u8; 32],
        c_out: &[u8; 32],
        payload: &HintPayloadV1,
    ) -> (r: Result<QuantumSafeHint, FalconError>)
        requires
            self.wf(),
            recipient_kem_pk.wf(),
        ensures
            r is Ok <==> sealable(payload_bytes(*payload).len()),
            r matches Ok(h) ==> {
                &&& h.kem_ct@.len() == MLKEM_CT_BYTES
                &&& h.sender_falcon_pk@ == self.spec_falcon_pk()
                &&& h.epoch == self.spec_epoch()
                &&& h.x25519_eph_pub@ == x25519_base(
                    spec_kmac256_derive_key(self.spec_x25519_secret(), x25519_ephemeral(), transaction_id(c_out@, *payload)),
                )
                &&& exists|kem_ss: Seq<u8>| #[trigger]
                    self.hint_built(h, recipient_x25519_pk@, c_out@, *payload, kem_ss, h.kem_ct@, h.timestamp)
            },
    {
        let (kem_ss, kem_ct) = mlkem_encapsulate(recipient_kem_pk.as_bytes());
        let timestamp = crate::time::unix_now_secs();
        let r = self.build_quantum_hint_with(recipient_x25519_pk, c_out, payload, &kem_ss, kem_ct.as_slice(), timestamp);
        proof {
            if r is Ok {
                let h = r->Ok_0;
                assert(self.hint_built(h, recipient_x25519_pk@, c_out@, *payload, kem_ss@, h.kem_ct@, h.timestamp));
            }
        }
        r
    }

    /// Checks and opens `hint` at time `now`: its epoch must be the current or the
    /// previous one, it must be at most `max_skew_secs` old, its signature must open
    /// under the sender's key to the transcript, and its payload must decrypt under
    /// the recovered hybrid secret and decode. Returns the decoded hint and `true`.
    pub fn verify_quantum_hint_at(
        &self,
        hint: &QuantumSafeHint,
        c_out: &[u8; 32],
        max_skew_secs: u64,
        now: u64,
    ) -> (r: Option<(DecodedHint, bool)>)
        requires
            self.wf(),
        ensures
            r is Some <==> self.accepted_payload(*hint, c_out@, max_skew_secs, now) is Some,
            r matches Some((d, v)) ==> {
                let pb = self.accepted_payload(*hint, c_out@, max_skew_secs, now).unwrap();
                &&& v
                &&& d.r_blind@ == pb.subrange(0, 32)
                &&& d.value == Some(spec_u64_from_le_bytes(pb.subrange(32, 40)))
                &&& d.memo_items@.map_values(|m: Vec<u8>| m@) == memo_items_of(
                    pb.subrange(48, 48 + memo_len_of(pb)),
                )
            },
    {
        if !self.key_manager.verify_epoch(hint) {
            return None;
        }
        if now.saturating_sub(hint.timestamp) > max_skew_secs {
            return None;
        }
        let tr = transcript(
            hint.epoch,
            hint.timestamp,
            c_out,
            hint.kem_ct.as_slice(),
            &hint.x25519_eph_pub,
            hint.sender_falcon_pk.as_slice(),
        );
        if !pqc_pk_parses(hint.sender_falcon_pk.as_slice()) {
            return None;
        }
        let opened = match pqc_open(hint.falcon_signed_msg.as_slice(), hint.sender_falcon_pk.as_slice()) {
            Some(m) => m,
            None => return None,
        };
        if !bytes_equal(opened.as_slice(), tr.as_slice()) {
            return None;
        }
        if !mlkem_ct_parses(hint.kem_ct.as_slice()) {
            return None;
        }
        let ss_h = self.recover_secret(hint, c_out);
        let pt = match aead_decrypt(&ss_h, tr.as_slice(), hint.enc_payload.as_slice()) {
            Some(p) => p,
            None => return None,
        };
        let payload = match HintPayloadV1::decode(pt.as_slice()) {
            Some(p) => p,
            None => return None,
        };
        let mut memo_items: Vec<Vec<u8>> = Vec::new();
        if payload.memo.len() > 0 {
            memo_items.push(copy_bytes(payload.memo.as_slice()));
        }
        proof {
            assert(memo_items@.map_values(|m: Vec<u8>| m@) =~= memo_items_of(payload.memo@));
        }
        let decoded = DecodedHint { r_blind: payload.r_blind, value: Some(payload.value), memo_items };
        Some((decoded, true))
    }

    /// `r` is what checking and opening `hint` at time `now` gives: present exactly
    /// when the hint is accepted then, and holding its decoded payload with `true`.
    pub open spec fn check_result(
        &self,
        hint: QuantumSafeHint,
        c_out: Seq<u8>,
        max_skew_secs: u64,
        now: u64,
        r: Option<(DecodedHint, bool)>,
    ) -> bool {
        &&& r is Some <==> self.accepted_payload(hint, c_out, max_skew_secs, now) is Some
        &&& r matches Some((d, v)) ==> {
            let pb = self.accepted_payload(hint, c_out, max_skew_secs, now).unwrap();
            &&& v
            &&& d.r_blind@ == pb.subrange(0, 32)
            &&& d.value == Some(spec_u64_from_le_bytes(pb.subrange(32, 40)))
            &&& d.memo_items@.map_values(|m: Vec<u8>| m@) == memo_items_of(pb.subrange(48, 48 + memo_len_of(pb)))
        }
    }

    /// Checks and opens `hint` now, as [`Self::verify_quantum_hint_at`] does at the
    /// current time.
    pub fn verify_quantum_hint(&self, hint: &QuantumSafeHint, c_out: &[u8; 32], max_skew_secs: u64) -> (r: Option<(DecodedHint, bool)>)
        requires
            self.wf(),
        ensures
            exists|now: u64| #[trigger] self.check_result(*hint, c_out@, max_skew_secs, now, r),
            r is Some ==> self.opened_payload(*hint, c_out@) is Some,
            r is Some ==> epoch_accepted(self.spec_epoch(), hint.epoch),
    {
        let now = crate::time::unix_now_secs();
        let r = self.verify_quantum_hint_at(hint, c_out, max_skew_secs, now);
        assert(self.check_result(*hint, c_out@, max_skew_secs, now, r));
        r
    }

    /// The notes among `outputs` whose hints this wallet accepts at time `now` (with a
    /// maximum age of two hours), each with its search key, in input order.
    pub fn scan_quantum_safe_at(&self, outputs: &[(usize, [u8; 32], QuantumSafeHint)], now: u64) -> (hits: Vec<QuantumFoundNote>)
        requires
            self.wf(),
        ensures
            hits@.len() <= outputs@.len(),
            forall|i: int| 0 <= i < hits@.len() ==> {
                let n = #[trigger] hits@[i];
                &&& n.falcon_verified
                &&& n.quantum_safe
                &&& exists|j: int| 0 <= j < outputs@.len() && outputs@[j].0 == n.index && outputs@[j].1 == n.c_out
                    && self.accepted_payload(outputs@[j].2, outputs@[j].1@, 7200, now) is Some
            },
            forall|j: int| 0 <= j < outputs@.len() && (#[trigger] outputs@[j]).2.kem_ct@.len() == MLKEM_CT_BYTES
                && self.accepted_payload(outputs@[j].2, outputs@[j].1@, 7200, now) is Some
                ==> exists|i: int| 0 <= i < hits@.len() && hits@[i].index == outputs@[j].0 && hits@[i].c_out == outputs@[j].1,
    {
        let mut hits: Vec<QuantumFoundNote> = Vec::new();
        let mut i: usize = 0;
        while i < outputs.len()
            invariant
                self.wf(),
                i <= outputs@.len(),
                hits@.len() <= i,
                forall|q: int| 0 <= q < hits@.len() ==> {
                    let n = #[trigger] hits@[q];
                    &&& n.falcon_verified
                    &&& n.quantum_safe
                    &&& exists|j: int| 0 <= j < outputs@.len() && outputs@[j].0 == n.index && outputs@[j].1 == n.c_out
                        && self.accepted_payload(outputs@[j].2, outputs@[j].1@, 7200, now) is Some
                },
                forall|j: int| 0 <= j < i && (#[trigger] outputs@[j]).2.kem_ct@.len() == MLKEM_CT_BYTES
                    && self.accepted_payload(outputs@[j].2, outputs@[j].1@, 7200, now) is Some
                    ==> exists|q: int| 0 <= q < hits@.len() && hits@[q].index == outputs@[j].0 && hits@[q].c_out == outputs@[j].1,
            decreases outputs@.len() - i,
        {
            let (idx, c_out, hint) = (outputs[i].0, outputs[i].1, &outputs[i].2);
            match self.verify_quantum_hint_at(hint, &c_out, 7200, now) {
                Some((decoded, verified)) => {
                    let k_search = self.quantum_k_search(&c_out, hint, &decoded);
                    let ghost before = hits@;
                    hits.push(QuantumFoundNote { index: idx, c_out, k_search, falcon_verified: verified, quantum_safe: verified });
                    proof {
                        assert(hits@[hits@.len() - 1].index == outputs@[i as int].0);
                        assert forall|q: int| 0 <= q < hits@.len() implies {
                            let n = #[trigger] hits@[q];
                            &&& n.falcon_verified
                            &&& n.quantum_safe
                            &&& exists|j: int| 0 <= j < outputs@.len() && outputs@[j].0 == n.index && outputs@[j].1 == n.c_out
                                && self.accepted_payload(outputs@[j].2, outputs@[j].1@, 7200, now) is Some
                        } by {
                            if q < before.len() {
                                assert(hits@[q] == before[q]);
                            } else {
                                assert(outputs@[i as int].0 == hits@[q].index);
                            }
                        }
                        assert forall|j: int| 0 <= j < i + 1 && (#[trigger] outputs@[j]).2.kem_ct@.len() == MLKEM_CT_BYTES
                            && self.accepted_payload(outputs@[j].2, outputs@[j].1@, 7200, now) is Some
                            implies exists|q: int| 0 <= q < hits@.len() && hits@[q].index == outputs@[j].0 && hits@[q].c_out == outputs@[j].1 by {
                            if j < i {
                                let q = choose|q: int| 0 <= q < before.len() && before[q].index == outputs@[j].0 && before[q].c_out == outputs@[j].1;
                                assert(hits@[q] == before[q]);
                            } else {
                                assert(hits@[hits@.len() - 1].c_out == outputs@[j].1);
                            }
                        }
                    }
                },
                None => {},
            }
            i = i + 1;
        }
        hits
    }

    /// The notes among `outputs` whose hints this wallet accepts now.
    pub fn scan_quantum_safe(&self, outputs: &[(usize, [u8; 32], QuantumSafeHint)]) -> (hits: Vec<QuantumFoundNote>)
        requires
            self.wf(),
        ensures
            hits@.len() <= outputs@.len(),
    {
        let now = crate::time::unix_now_secs();
        self.scan_quantum_safe_at(outputs, now)
    }

    /// The search key of a found hint: derived from the recovered hybrid secret, the
    /// output commitment, the blinding factor and the sender's key.
    pub fn quantum_k_search(&self, c_out: &[u8; 32], hint: &QuantumSafeHint, decoded: &DecodedHint) -> (k: [u8; 32])
        requires
            self.wf(),
            hint.kem_ct@.len() == MLKEM_CT_BYTES,
        ensures
            k@ == k_search_of(self.recovered_secret(*hint, c_out@), c_out@, decoded.r_blind@, hint.sender_falcon_pk@),
    {
        let ss_h = self.recover_secret(hint, c_out);
        let mut custom: Vec<u8> = Vec::new();
        append_bytes(&mut custom, c_out);
        append_bytes(&mut custom, &decoded.r_blind);
        append_bytes(&mut custom, hint.sender_falcon_pk.as_slice());
        let l = qh_ksearch_bytes();
        kmac256_derive_key(&ss_h, l.as_slice(), custom.as_slice())
    }

    fn recover_secret(&self, hint: &QuantumSafeHint, c_out: &[u8; 32]) -> (ss: [u8; 32])
        requires
            self.wf(),
            hint.kem_ct@.len() == MLKEM_CT_BYTES,
        ensures
            ss@ == self.recovered_secret(*hint, c_out@),
    {
        let kem_ss = mlkem_decapsulate(hint.kem_ct.as_slice(), self.kem_sk.as_slice());
        let dh = x25519_shared(&self.x25519_secret, &hint.x25519_eph_pub);
        Self::hybrid(&kem_ss, &dh, c_out)
    }

    fn hybrid(kem_ss: &[u8; 32], dh: &[u8; 32], c_out: &[u8; 32]) -> (ss: [u8; 32])
        ensures
            ss@ == hybrid_secret(kem_ss@, dh@, c_out@),
    {
        let mut input: Vec<u8> = Vec::new();
        append_bytes(&mut input, kem_ss);
        append_bytes(&mut input, dh);
        let l = qh_hybrid_bytes();
        kmac256_derive_key(input.as_slice(), l.as_slice(), c_out)
    }

    fn derive_transaction_id(c_out: &[u8; 32], payload: &HintPayloadV1) -> (id: [u8; 32])
        ensures
            id@ == transaction_id(c_out@, *payload),
    {
        let mut tx_input: Vec<u8> = Vec::new();
        append_bytes(&mut tx_input, c_out);
        append_bytes(&mut tx_input, &payload.r_blind);
        append_u64_le(&mut tx_input, payload.value);
        let l = qh_transaction_id_bytes();
        kmac256_derive_key(c_out, l.as_slice(), tx_input.as_slice())
    }
}

pub(crate) fn bytes_equal(a: &[u8], b: &[u8]) -> (r: bool)
    ensures
        r == (a@ == b@),
{
    if a.len() != b.len() {
        return false;
    }
    let mut i: usize = 0;
    while i < a.len()
        invariant
            a@.len() == b@.len(),
            i <= a@.len(),
            forall|j: int| 0 <= j < i ==> a@[j] == b@[j],
        decreases a@.len() - i,
    {
        if a[i] != b[i] {
            return false;
        }
        i = i + 1;
    }
    assert(a@ =~= b@);
    true
}

/// A hint reaches its recipient: where the recipient decapsulates the hint's KEM
/// ciphertext to the secret the hint was built from, owns the X25519 key it was built
/// for, accepts the hint's epoch and sees it within the allowed age, the recipient
/// accepts the hint and opens exactly the encoded payload, from which the blinding
/// factor, the value and the memo decode.
pub proof fn lemma_hint_reaches_recipient(
    sender: QuantumKeySearchCtx,
    recipient: QuantumKeySearchCtx,
    h: QuantumSafeHint,
    c_out: Seq<u8>,
    payload: HintPayloadV1,
    kem_ss: Seq<u8>,
    max_skew_secs: u64,
    now: u64,
)
    requires
        sender.wf(),
        recipient.wf(),
        sender.hint_built(
            h,
            x25519_base(recipient.spec_x25519_secret()),
            c_out,
            payload,
            kem_ss,
            h.kem_ct@,
            h.timestamp,
        ),
        h.kem_ct@.len() == MLKEM_CT_BYTES,
        mlkem_decap(h.kem_ct@, recipient.spec_kem_sk()) == kem_ss,
        epoch_accepted(recipient.spec_epoch(), h.epoch),
        now >= h.timestamp ==> now - h.timestamp <= max_skew_secs,
        payload.memo@.len() <= u64::MAX - 48,
    ensures
        recipient.accepted_payload(h, c_out, max_skew_secs, now) == Some(payload_bytes(payload)),
        payload_decodes(payload_bytes(payload)),
        payload_bytes(payload).subrange(0, 32) == payload.r_blind@,
        spec_u64_from_le_bytes(payload_bytes(payload).subrange(32, 40)) == payload.value,
        payload_bytes(payload).subrange(48, 48 + memo_len_of(payload_bytes(payload))) == payload.memo@,
{
    sender.lemma_wf_lengths();
    recipient.lemma_wf_lengths();
    lemma_payload_roundtrip(payload);
    let secret = recipient.spec_x25519_secret();
    assert(secret.len() == 32);
    assert(x25519_base(secret) == x25519_base(secret));
}

} // verus!
