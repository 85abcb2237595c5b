//! Hints with Falcon-512 for signatures only: an ML-KEM (Kyber768) encapsulation
//! and an X25519 exchange combined into a hybrid secret, a Falcon signature over the
//! transcript of the hint's parameters, and XChaCha20-Poly1305 encryption of the
//! payload with the transcript as associated data.
//!
//! A hint is refused from an epoch more than one ahead, or older than two hours.
//! The transcript names the checking context's own Falcon key, and the signature is
//! opened under that key.
use vstd::prelude::*;
use vstd::bytes::spec_u64_from_le_bytes;
use crate::bytes::{append_bytes, copy_bytes};
use crate::crypto::FalconError;
use crate::crypto::aead::{sealable, xchacha_open, xchacha_seal};
use crate::crypto::hint_transcript::{aead_decrypt, aead_encrypt, hint_key, hint_nonce, spec_transcript, transcript};
use crate::crypto::kmac::{kmac256_derive_key, spec_kmac256_derive_key};
use crate::crypto::kmac_falcon_integration::FalconKeyManager;
use crate::crypto::kmac_mlkem_integration::{
    hybrid_secret, memo_items_of, mlkem_ct_parses, mlkem_decap, mlkem_decapsulate, mlkem_encapsulate, mlkem_keypair,
    x25519_base, x25519_dh, x25519_public_of, x25519_shared, bytes_equal, MlkemPublicKey, MLKEM_CT_BYTES, MLKEM_SK_BYTES,
};
use crate::falcon_sigs::{falcon_key_match, falcon_open, pqc_open, pqc_sign, FALCON_PK_BYTES, FALCON_SK_BYTES};
use crate::keysearch::{lemma_payload_roundtrip, memo_len_of, payload_bytes, payload_decodes, DecodedHint, HintPayloadV1};
use crate::time::unix_now_secs;
use crate::tags::{
    key_derivation_ctx, key_derivation_ctx_bytes, qh_hybrid_bytes, x25519_ephemeral, x25519_ephemeral_bytes,
    x25519_session_key, x25519_session_key_bytes,
};

verus! {

/// A quantum-safe hint.
#[derive(Clone, Debug)]
pub struct QuantumSafeHint {
    pub kem_ct: Vec<u8>,
    pub x25519_eph_pub: [u8; 32],
    pub falcon_signed_msg: Vec<u8>,
    pub enc_payload: Vec<u8>,
    pub timestamp: u64,
    pub epoch: u64,
}

/// The hint key-search context of a wallet.
pub struct QuantumKeySearchCtx {
    falcon_sk: Vec<u8>,
    falcon_pk: Vec<u8>,
    x25519_secret: [u8; 32],
    mlkem_sk: Vec<u8>,
    mlkem_pk: MlkemPublicKey,
    key_manager: FalconKeyManager,
}

impl QuantumKeySearchCtx {
    /// The Falcon public key.
    pub closed spec fn spec_falcon_pk(&self) -> Seq<u8> {
        self.falcon_pk@
    }

    /// The X25519 secret.
    pub closed spec fn spec_x25519_secret(&self) -> Seq<u8> {
        self.x25519_secret@
    }

    /// The ML-KEM secret key.
    pub closed spec fn spec_mlkem_sk(&self) -> Seq<u8> {
        self.mlkem_sk@
    }

    /// The ML-KEM public key.
    pub closed spec fn spec_mlkem_pk(&self) -> MlkemPublicKey {
        self.mlkem_pk
    }

    /// The key epoch.
    pub closed spec fn spec_epoch(&self) -> u64 {
        self.key_manager.spec_epoch()
    }

    /// Key lengths, the Falcon public key belonging to the secret key, and the key
    /// manager at its first epoch.
    pub closed spec fn wf(&self) -> bool {
        &&& self.falcon_sk@.len() == FALCON_SK_BYTES
        &&& self.falcon_pk@.len() == FALCON_PK_BYTES
        &&& falcon_key_match(self.falcon_pk@, self.falcon_sk@)
        &&& self.mlkem_sk@.len() == MLKEM_SK_BYTES
        &&& self.mlkem_pk.wf()
        &&& self.key_manager.spec_epoch() == 0
    }

    /// A context for `master_seed`: a key manager at epoch 0 with a fresh Falcon
    /// identity, a fresh ML-KEM key pair, and the X25519 secret derived from the seed
    /// under `X25519_SESSION_KEY` and `key_derivation`.
    pub fn new(master_seed: [u8; 32]) -> (r: Result<Self, FalconError>)
        ensures
            r matches Ok(c) && c.wf() && c.spec_epoch() == 0
                && c.spec_x25519_secret() == spec_kmac256_derive_key(master_seed@, x25519_session_key(), key_derivation_ctx()),
    {
        let key_manager = FalconKeyManager::new(master_seed);
        let (falcon_sk, falcon_pk) = match key_manager.derive_epoch_keypair(0) {
            Ok(p) => p,
            Err(e) => {
                return Err(e);
            },
        };
        let (kp, ks) = mlkem_keypair();
        let l = x25519_session_key_bytes();
        let c = key_derivation_ctx_bytes();
        let x25519_secret = kmac256_derive_key(&master_seed, l.as_slice(), c.as_slice());
        Ok(Self { falcon_sk, falcon_pk, x25519_secret, mlkem_sk: ks, mlkem_pk: MlkemPublicKey::from_vec(kp), key_manager })
    }

    /// The ML-KEM public key for senders.
    pub fn mlkem_public_key(&self) -> (k: &MlkemPublicKey)
        ensures
            *k == self.spec_mlkem_pk(),
    {
        &self.mlkem_pk
    }

    /// The transcript of a hint as this context checks it: it names this context's
    /// Falcon key.
    pub open spec fn hint_transcript(&self, h: QuantumSafeHint, c_out: Seq<u8>) -> Seq<u8> {
        spec_transcript(h.epoch, h.timestamp, c_out, h.kem_ct@, h.x25519_eph_pub@, self.spec_falcon_pk())
    }

    /// The encoded payload `h` yields at time `now`: `None` from an epoch more than one
    /// ahead, older than two hours, where the signature does not open under this
    /// context's key to the transcript, the ciphertext is malformed, or the payload does
    /// not decrypt or decode.
    pub open spec fn accepted_payload(&self, h: QuantumSafeHint, c_out: Seq<u8>, now: u64) -> Option<Seq<u8>> {
        let age = if now >= h.timestamp { (now - h.timestamp) as u64 } else { 0u64 };
        let tr = self.hint_transcript(h, c_out);
        if h.epoch > self.spec_epoch() + 1 || age > 7200 {
            None
        } else if falcon_open(h.falcon_signed_msg@, self.spec_falcon_pk()) != Some(tr) {
            None
        } else if h.kem_ct@.len() != MLKEM_CT_BYTES {
            None
        } else {
            let ss = hybrid_secret(
                mlkem_decap(h.kem_ct@, self.spec_mlkem_sk()),
                x25519_dh(self.spec_x25519_secret(), h.x25519_eph_pub@),
                c_out,
            );
            match xchacha_open(hint_key(ss), hint_nonce(ss), h.enc_payload@, tr) {
                Some(pb) => if payload_decodes(pb) { Some(pb) } else { None },
                None => None,
            }
        }
    }

    /// Length facts of a well-formed context.
    pub proof fn lemma_wf_lengths(&self)
        requires
            self.wf(),
        ensures
            self.spec_falcon_pk().len() == FALCON_PK_BYTES,
            self.spec_mlkem_sk().len() == MLKEM_SK_BYTES,
            self.spec_x25519_secret().len() == 32,
            self.spec_epoch() == 0,
    {
    }

    /// `h` is the hint this context builds for the X25519 key `recipient_x`, `c_out`
    /// and `payload` from the encapsulation (`kem_ss`, `kem_ct`) at `timestamp`: its
    /// fields, a signature that opens to the transcript under this context's Falcon
    /// key, and a payload sealed under the hybrid secret with the transcript as
    /// associated data. Any holder of the secret behind `recipient_x` agrees on the
    /// X25519 secret.
    pub open spec fn hint_built(
        &self,
        h: QuantumSafeHint,
        recipient_x: Seq<u8>,
        c_out: Seq<u8>,
        payload: HintPayloadV1,
        kem_ss: Seq<u8>,
        kem_ct: Seq<u8>,
        timestamp: u64,
    ) -> bool {
        let eph = spec_kmac256_derive_key(self.spec_x25519_secret(), x25519_ephemeral(), c_out);
        let eph_pub = x25519_base(eph);
        let ss_h = hybrid_secret(kem_ss, x25519_dh(eph, recipient_x), c_out);
        let tr = spec_transcript(self.spec_epoch(), timestamp, c_out, kem_ct, eph_pub, self.spec_falcon_pk());
        &&& h.kem_ct@ == kem_ct
        &&& h.x25519_eph_pub@ == eph_pub
        &&& h.timestamp == timestamp
        &&& h.epoch == self.spec_epoch()
        &&& h.enc_payload@ == xchacha_seal(hint_key(ss_h), hint_nonce(ss_h), payload_bytes(payload), tr)
        &&& xchacha_open(hint_key(ss_h), hint_nonce(ss_h), h.enc_payload@, tr) == Some(payload_bytes(payload))
        &&& falcon_open(h.falcon_signed_msg@, self.spec_falcon_pk()) == Some(tr)
        &&& forall|other: Seq<u8>|
            other.len() == 32 && recipient_x == #[trigger] x25519_base(other) ==> x25519_dh(other, eph_pub)
                == x25519_dh(eph, recipient_x)
    }

    fn hybrid(kem_ss: &[u8; 32], dh: &[u8; 32], c_out: &[u8; 32]) -> (ss: [u8; 32])
        ensures
            ss@ == hybrid_secret(kem_ss@, dh@, c_out@),
    {
        let mut input: Vec<u8> = Vec::new();
        append_bytes(&mut input, kem_ss);
        append_bytes(&mut input, dh);
        let l = qh_hybrid_bytes();
        kmac256_derive_key(input.as_slice(), l.as_slice(), c_out)
    }

    /// Builds a hint from an ML-KEM encapsulation already made, stamped `timestamp`:
    /// the ephemeral X25519 secret is derived from the static one and `c_out`, the
    /// transcript is signed with this context's Falcon key, and the payload is sealed
    /// under the hybrid secret. A payload too long to seal is refused with
    /// `SerializationFailed`.
    pub fn build_quantum_hint_with(
        &self,
        recipient_x25519_pk: &[u8; 32],
        c_out: &[u8; 32],
        payload: &HintPayloadV1,
        kem_ss: &[u8; 32],
        kem_ct: &[u8],
        timestamp: u64,
    ) -> (r: Result<QuantumSafeHint, FalconError>)
        requires
            self.wf(),
        ensures
            !sealable(payload_bytes(*payload).len()) ==> r == Err::<QuantumSafeHint, FalconError>(FalconError::SerializationFailed),
            sealable(payload_bytes(*payload).len()) ==> (r matches Ok(h) && self.hint_built(
                h,
                recipient_x25519_pk@,
                c_out@,
                *payload,
                kem_ss@,
                kem_ct@,
                timestamp,
            )),
    {
        let epoch = self.key_manager.get_current_epoch();
        let el = x25519_ephemeral_bytes();
        let eph_secret = kmac256_derive_key(&self.x25519_secret, el.as_slice(), c_out);
        let x25519_eph_pub = x25519_public_of(&eph_secret);
        let dh = x25519_shared(&eph_secret, recipient_x25519_pk);
        let ss_h = Self::hybrid(kem_ss, &dh, c_out);
        let tr = transcript(epoch, timestamp, c_out, kem_ct, &x25519_eph_pub, self.falcon_pk.as_slice());
        let falcon_signed_msg = pqc_sign(tr.as_slice(), self.falcon_sk.as_slice());
        let pt = payload.encode();
        let enc_payload = match aead_encrypt(&ss_h, tr.as_slice(), pt.as_slice()) {
            Ok(c) => c,
            Err(e) => {
                return Err(e);
            },
        };
        Ok(QuantumSafeHint { kem_ct: copy_bytes(kem_ct), x25519_eph_pub, falcon_signed_msg, enc_payload, timestamp, epoch })
    }

    /// Builds a hint for the recipient's ML-KEM and X25519 keys: encapsulates to the
    /// ML-KEM key, stamps the clock's time, and proceeds as
    /// [`Self::build_quantum_hint_with`].
    pub fn build_quantum_hint(
        &self,
        recipient_mlkem_pk: &MlkemPublicKey,
        recipient_x25519_pk: &[u8; 32],
        c_out: &[u8; 32],
        payload: &HintPayloadV1,
    ) -> (r: Result<QuantumSafeHint, FalconError>)
        requires
            self.wf(),
            recipient_mlkem_pk.wf(),
        ensures
            r is Ok <==> sealable(payload_bytes(*payload).len()),
            r matches Ok(h) ==> h.kem_ct@.len() == MLKEM_CT_BYTES && h.epoch == self.spec_epoch()
                && h.x25519_eph_pub@ == x25519_base(
                spec_kmac256_derive_key(self.spec_x25519_secret(), x25519_ephemeral(), c_out@),
            ),
    {
        let timestamp = unix_now_secs();
        let (kem_ss, kem_ct) = mlkem_encapsulate(recipient_mlkem_pk.as_bytes());
        self.build_quantum_hint_with(recipient_x25519_pk, c_out, payload, &kem_ss, kem_ct.as_slice(), timestamp)
    }

    /// Checks and opens `hint` at time `now`, as [`Self::accepted_payload`] says; the
    /// decoded hint comes with `true`, its memo as one item.
    pub fn verify_quantum_hint_at(&self, hint: &QuantumSafeHint, c_out: &[u8; 32], now: u64) -> (r: Option<(DecodedHint, bool)>)
        requires
            self.wf(),
        ensures
            r is Some <==> self.accepted_payload(*hint, c_out@, now) is Some,
            r matches Some((d, v)) ==> {
                let pb = self.accepted_payload(*hint, c_out@, now).unwrap();
                &&& v
                &&& d.r_blind@ == pb.subrange(0, 32)
                &&& d.value == Some(spec_u64_from_le_bytes(pb.subrange(32, 40)))
                &&& d.memo_items@.map_values(|m: Vec<u8>| m@) == memo_items_of(pb.subrange(48, 48 + memo_len_of(pb)))
            },
    {
        let current_epoch = self.key_manager.get_current_epoch();
        if hint.epoch > current_epoch + 1 {
            return None;
        }
        if now.saturating_sub(hint.timestamp) > 7200 {
            return None;
        }
        let tr = transcript(hint.epoch, hint.timestamp, c_out, hint.kem_ct.as_slice(), &hint.x25519_eph_pub, self.falcon_pk.as_slice());
        let opened = match pqc_open(hint.falcon_signed_msg.as_slice(), self.falcon_pk.as_slice()) {
            Some(m) => m,
            None => {
                return None;
            },
        };
        if !bytes_equal(opened.as_slice(), tr.as_slice()) {
            return None;
        }
        if !mlkem_ct_parses(hint.kem_ct.as_slice()) {
            return None;
        }
        let kem_ss = mlkem_decapsulate(hint.kem_ct.as_slice(), self.mlkem_sk.as_slice());
        let dh = x25519_shared(&self.x25519_secret, &hint.x25519_eph_pub);
        let ss_h = Self::hybrid(&kem_ss, &dh, c_out);
        let pt = match aead_decrypt(&ss_h, tr.as_slice(), hint.enc_payload.as_slice()) {
            Some(p) => p,
            None => {
                return None;
            },
        };
        let payload = match HintPayloadV1::decode(pt.as_slice()) {
            Some(p) => p,
            None => {
                return None;
            },
        };
        let mut memo_items: Vec<Vec<u8>> = Vec::new();
        if payload.memo.len() > 0 {
            memo_items.push(copy_bytes(payload.memo.as_slice()));
        }
        proof {
            assert(memo_items@.map_values(|m: Vec<u8>| m@) =~= memo_items_of(payload.memo@));
        }
        Some((DecodedHint { r_blind: payload.r_blind, value: Some(payload.value), memo_items }, true))
    }

    /// Checks and opens `hint` at the clock's time.
    pub fn verify_quantum_hint(&self, hint: &QuantumSafeHint, c_out: &[u8; 32]) -> (r: Option<(DecodedHint, bool)>)
        requires
            self.wf(),
        ensures
            r matches Some((d, v)) ==> v,
            hint.epoch > self.spec_epoch() + 1 ==> r is None,
    {
        let now = unix_now_secs();
        self.verify_quantum_hint_at(hint, c_out, now)
    }
}

/// A context opens the hints it builds for its own X25519 key: where decapsulating
/// the hint's KEM ciphertext with its ML-KEM key gives the secret the hint was built
/// from and the hint is at most two hours old, it accepts the hint and opens exactly
/// the encoded payload, from which the blinding factor, the value and the memo decode.
pub proof fn lemma_own_hint_opens(
    ctx: QuantumKeySearchCtx,
    h: QuantumSafeHint,
    c_out: Seq<u8>,
    payload: HintPayloadV1,
    kem_ss: Seq<u8>,
    now: u64,
)
    requires
        ctx.wf(),
        ctx.hint_built(h, x25519_base(ctx.spec_x25519_secret()), c_out, payload, kem_ss, h.kem_ct@, h.timestamp),
        h.kem_ct@.len() == MLKEM_CT_BYTES,
        mlkem_decap(h.kem_ct@, ctx.spec_mlkem_sk()) == kem_ss,
        now >= h.timestamp ==> now - h.timestamp <= 7200,
        payload.memo@.len() <= u64::MAX - 48,
    ensures
        ctx.accepted_payload(h, c_out, now) == Some(payload_bytes(payload)),
        payload_decodes(payload_bytes(payload)),
        payload_bytes(payload).subrange(0, 32) == payload.r_blind@,
        spec_u64_from_le_bytes(payload_bytes(payload).subrange(32, 40)) == payload.value,
        payload_bytes(payload).subrange(48, 48 + memo_len_of(payload_bytes(payload))) == payload.memo@,
{
    ctx.lemma_wf_lengths();
    lemma_payload_roundtrip(payload);
    let secret = ctx.spec_x25519_secret();
    assert(x25519_base(secret) == x25519_base(secret));
}

} // verus!
