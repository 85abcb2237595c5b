//! One key search over Falcon-signed and traditional hints: a hint is built as a
//! Falcon-signed hint where both sides have Falcon keys and that succeeds, else as a
//! traditional X25519 hint sealed with AES-256-GCM-SIV; a scan tries each output as a
//! signed hint first and as a traditional hint after.
//!
//! Hints travel in a binary layout: byte strings as an eight-byte little-endian
//! length and their bytes, fixed arrays as their bytes, integers little-endian, and
//! the kind of a hint as a four-byte little-endian index.
use vstd::prelude::*;
use vstd::bytes::spec_u64_from_le_bytes;
use crate::bytes::{append_bytes, append_u64_le, copy_bytes, le64, to_array32};
use crate::crypto::aead::{siv_decrypt, siv_encrypt, siv_open, siv_seal, siv_sealable};
use crate::crypto::entropy::os_random_bytes;
use crate::crypto::falcon_integration::{
    decode_hint_payload, hint_payload_bytes, HintPayload, QuantumKeySearchCtx, QuantumSafeHint,
};
use crate::crypto::kmac::{kmac256_derive_key, spec_kmac256_derive_key};
use crate::crypto::kmac_mlkem_integration::{x25519_base, x25519_dh, x25519_public_of, x25519_shared};
use crate::keysearch::slice_copy;
use crate::tags::{
    keysearch_ctx, keysearch_ctx_bytes, traditional_hint_label, traditional_hint_label_bytes, x25519_unified,
    x25519_unified_bytes,
};

verus! {

/// The public keys a recipient publishes.
#[derive(Clone, Debug)]
pub struct PublicKeys {
    pub falcon_pk: Option<Vec<u8>>,
    pub x25519_pk: [u8; 32],
}

/// A traditional hint: the sender's ephemeral X25519 key, the sealed payload and the
/// nonce.
#[derive(Clone, Debug)]
pub struct TraditionalHint {
    pub eph_public: [u8; 32],
    pub ciphertext: Vec<u8>,
    pub nonce: [u8; 12],
}

/// A hint of either kind.
#[derive(Clone, Debug)]
pub enum SmartHint {
    Quantum(QuantumSafeHint),
    Traditional(TraditionalHint),
}

/// A note found by a scan.
#[derive(Clone, Debug)]
pub struct FoundNote {
    pub index: usize,
    pub c_out: [u8; 32],
    pub payload: HintPayload,
    pub quantum_safe: bool,
    pub method: String,
}

/// Why a hint could not be built.
#[derive(Clone, Copy, Debug, PartialEq, Eq)]
pub enum BuildError {
    EncryptionFailed,
    SerializationFailed,
}

/// A byte string in the layout: its length, then its bytes.
pub open spec fn len_prefixed(b: Seq<u8>) -> Seq<u8> {
    le64(b.len() as u64) + b
}

/// The layout of a signed hint.
pub open spec fn quantum_hint_bytes(h: QuantumSafeHint) -> Seq<u8> {
    len_prefixed(h.eph_falcon_pk@) + h.eph_x25519_pk@ + len_prefixed(h.falcon_signature@)
        + len_prefixed(h.encrypted_payload@) + h.nonce@ + le64(h.timestamp) + le64(h.epoch) + seq![h.version]
}

/// The layout of a traditional hint.
pub open spec fn traditional_hint_bytes(h: TraditionalHint) -> Seq<u8> {
    h.eph_public@ + len_prefixed(h.ciphertext@) + h.nonce@
}

/// The layout of a hint of either kind: the kind's index, then the hint.
pub open spec fn smart_hint_bytes(h: SmartHint) -> Seq<u8> {
    match h {
        SmartHint::Quantum(q) => seq![0u8, 0u8, 0u8, 0u8] + quantum_hint_bytes(q),
        SmartHint::Traditional(t) => seq![1u8, 0u8, 0u8, 0u8] + traditional_hint_bytes(t),
    }
}

/// The byte string at `off` and the offset after it, or `None` where the bytes end
/// early.
pub open spec fn read_prefixed(b: Seq<u8>, off: int) -> Option<(Seq<u8>, int)> {
    if off < 0 || b.len() < off + 8 {
        None
    } else {
        let n = spec_u64_from_le_bytes(b.subrange(off, off + 8));
        if b.len() < off + 8 + n { None } else { Some((b.subrange(off + 8, off + 8 + n), off + 8 + n)) }
    }
}

/// The fields of a signed hint read from its layout: falcon key, X25519 key,
/// signature, sealed payload, nonce, timestamp, epoch and version; `None` where the
/// bytes end early. Bytes after the hint are ignored.
pub open spec fn decode_quantum_hint(b: Seq<u8>) -> Option<(Seq<u8>, Seq<u8>, Seq<u8>, Seq<u8>, Seq<u8>, u64, u64, u8)> {
    match read_prefixed(b, 0) {
        None => None,
        Some((pk, o1)) => if b.len() < o1 + 32 {
            None
        } else {
            match read_prefixed(b, o1 + 32) {
                None => None,
                Some((sig, o2)) => match read_prefixed(b, o2) {
                    None => None,
                    Some((ct, o3)) => if b.len() < o3 + 29 {
                        None
                    } else {
                        Some((
                            pk,
                            b.subrange(o1, o1 + 32),
                            sig,
                            ct,
                            b.subrange(o3, o3 + 12),
                            spec_u64_from_le_bytes(b.subrange(o3 + 12, o3 + 20)),
                            spec_u64_from_le_bytes(b.subrange(o3 + 20, o3 + 28)),
                            b[o3 + 28],
                        ))
                    },
                },
            }
        },
    }
}

/// The fields of a traditional hint read from its layout: ephemeral key, sealed
/// payload and nonce; `None` where the bytes end early.
pub open spec fn decode_traditional_hint(b: Seq<u8>) -> Option<(Seq<u8>, Seq<u8>, Seq<u8>)> {
    match read_prefixed(b, 32) {
        None => None,
        Some((ct, o)) => if b.len() < o + 12 { None } else { Some((b.subrange(0, 32), ct, b.subrange(o, o + 12))) },
    }
}

/// The fields of a signed hint.
pub open spec fn quantum_hint_fields(h: QuantumSafeHint) -> (Seq<u8>, Seq<u8>, Seq<u8>, Seq<u8>, Seq<u8>, u64, u64, u8) {
    (h.eph_falcon_pk@, h.eph_x25519_pk@, h.falcon_signature@, h.encrypted_payload@, h.nonce@, h.timestamp, h.epoch, h.version)
}

fn append_prefixed(v: &mut Vec<u8>, b: &[u8])
    ensures
        final(v)@ == old(v)@ + len_prefixed(b@),
{
    append_u64_le(v, b.len() as u64);
    append_bytes(v, b);
}

fn read_prefixed_exec(b: &[u8], off: usize) -> (r: Option<(Vec<u8>, usize)>)
    ensures
        r is Some <==> read_prefixed(b@, off as int) is Some,
        r matches Some((v, o)) ==> read_prefixed(b@, off as int) == Some((v@, o as int)),
{
    let n = b.len();
    if off > n || n - off < 8 {
        return None;
    }
    let lb = slice_copy(b, off, 8);
    let len = vstd::bytes::u64_from_le_bytes(lb.as_slice());
    if len > (n - off - 8) as u64 {
        return None;
    }
    let v = slice_copy(b, off + 8, len as usize);
    Some((v, off + 8 + len as usize))
}

fn u64_at(b: &[u8], off: usize) -> (x: u64)
    requires
        off + 8 <= b@.len(),
    ensures
        x == spec_u64_from_le_bytes(b@.subrange(off as int, off + 8)),
{
    let s = slice_copy(b, off, 8);
    vstd::bytes::u64_from_le_bytes(s.as_slice())
}

fn array12_at(b: &[u8], off: usize) -> (out: [u8; 12])
    requires
        off + 12 <= b@.len(),
    ensures
        out@ == b@.subrange(off as int, off + 12),
{
    let mut out = [0u8; 12];
    let mut i: usize = 0;
    let n = b.len();
    while i < 12
        invariant
            n == b@.len(),
            off + 12 <= b@.len(),
            i <= 12,
            forall|j: int| 0 <= j < i ==> out@[j] == b@[off + j],
        decreases 12 - i,
    {
        out[i] = b[off + i];
        i = i + 1;
    }
    assert(out@ =~= b@.subrange(off as int, off + 12));
    out
}

fn array32_at(b: &[u8], off: usize) -> (out: [u8; 32])
    requires
        off + 32 <= b@.len(),
    ensures
        out@ == b@.subrange(off as int, off + 32),
{
    let s = slice_copy(b, off, 32);
    let out = to_array32(s.as_slice());
    assert(out@ =~= s@);
    out
}

impl TraditionalHint {
    /// The layout of the hint.
    pub fn encode(&self) -> (out: Vec<u8>)
        ensures
            out@ == traditional_hint_bytes(*self),
    {
        let mut out: Vec<u8> = Vec::new();
        append_bytes(&mut out, &self.eph_public);
        append_prefixed(&mut out, self.ciphertext.as_slice());
        append_bytes(&mut out, &self.nonce);
        assert(out@ =~= traditional_hint_bytes(*self));
        out
    }

    /// Reads a hint from its layout.
    pub fn decode(b: &[u8]) -> (r: Option<TraditionalHint>)
        ensures
            r is Some <==> decode_traditional_hint(b@) is Some,
            r matches Some(h) ==> decode_traditional_hint(b@) == Some((h.eph_public@, h.ciphertext@, h.nonce@)),
    {
        if b.len() < 32 {
            return None;
        }
        let (ciphertext, o) = match read_prefixed_exec(b, 32) {
            Some(x) => x,
            None => {
                return None;
            },
        };
        if b.len() - o < 12 {
            return None;
        }
        let eph_public = array32_at(b, 0);
        let nonce = array12_at(b, o);
        Some(TraditionalHint { eph_public, ciphertext, nonce })
    }
}

/// The layout of a signed hint.
pub fn encode_quantum_hint(h: &QuantumSafeHint) -> (out: Vec<u8>)
    ensures
        out@ == quantum_hint_bytes(*h),
{
    let mut out: Vec<u8> = Vec::new();
    append_prefixed(&mut out, h.eph_falcon_pk.as_slice());
    append_bytes(&mut out, &h.eph_x25519_pk);
    append_prefixed(&mut out, h.falcon_signature.as_slice());
    append_prefixed(&mut out, h.encrypted_payload.as_slice());
    append_bytes(&mut out, &h.nonce);
    append_u64_le(&mut out, h.timestamp);
    append_u64_le(&mut out, h.epoch);
    out.push(h.version);
    assert(out@ =~= quantum_hint_bytes(*h));
    out
}

/// Reads a signed hint from its layout.
pub fn decode_quantum_hint_exec(b: &[u8]) -> (r: Option<QuantumSafeHint>)
    ensures
        r is Some <==> decode_quantum_hint(b@) is Some,
        r matches Some(h) ==> decode_quantum_hint(b@) == Some(quantum_hint_fields(h)),
{
    let (eph_falcon_pk, o1) = match read_prefixed_exec(b, 0) {
        Some(x) => x,
        None => {
            return None;
        },
    };
    if b.len() - o1 < 32 {
        return None;
    }
    let eph_x25519_pk = array32_at(b, o1);
    let (falcon_signature, o2) = match read_prefixed_exec(b, o1 + 32) {
        Some(x) => x,
        None => {
            return None;
        },
    };
    let (encrypted_payload, o3) = match read_prefixed_exec(b, o2) {
        Some(x) => x,
        None => {
            return None;
        },
    };
    if b.len() - o3 < 29 {
        return None;
    }
    let nonce = array12_at(b, o3);
    let timestamp = u64_at(b, o3 + 12);
    let epoch = u64_at(b, o3 + 20);
    let version = b[o3 + 28];
    Some(QuantumSafeHint { eph_falcon_pk, eph_x25519_pk, falcon_signature, encrypted_payload, nonce, timestamp, epoch, version })
}

/// The layout of a hint of either kind.
pub fn encode_smart_hint(h: &SmartHint) -> (out: Vec<u8>)
    ensures
        out@ == smart_hint_bytes(*h),
{
    match h {
        SmartHint::Quantum(q) => {
            let mut out: Vec<u8> = vec![0u8, 0u8, 0u8, 0u8];
            let b = encode_quantum_hint(q);
            append_bytes(&mut out, b.as_slice());
            assert(out@ =~= smart_hint_bytes(*h));
            out
        },
        SmartHint::Traditional(t) => {
            let mut out: Vec<u8> = vec![1u8, 0u8, 0u8, 0u8];
            let b = t.encode();
            append_bytes(&mut out, b.as_slice());
            assert(out@ =~= smart_hint_bytes(*h));
            out
        },
    }
}

/// The key sealing a traditional hint: derived from the X25519 shared secret under
/// `TRADITIONAL_HINT_v1` with `c_out` as context.
pub open spec fn traditional_key(shared: Seq<u8>, c_out: Seq<u8>) -> Seq<u8> {
    spec_kmac256_derive_key(shared, traditional_hint_label(), c_out)
}

/// The payload fields a holder of X25519 secret `x` opens from traditional hint bytes
/// `b` for `c_out`, or `None`.
pub open spec fn traditional_outcome(x: Seq<u8>, b: Seq<u8>, c_out: Seq<u8>) -> Option<(Seq<u8>, Option<u64>, Seq<u8>)> {
    match decode_traditional_hint(b) {
        None => None,
        Some((eph, ct, nonce)) => match siv_open(traditional_key(x25519_dh(x, eph), c_out), nonce, ct, c_out) {
            None => None,
            Some(pt) => decode_hint_payload(pt),
        },
    }
}

/// Hint building and scanning over both kinds.
pub struct UnifiedKeySearch {
    quantum_ctx: Option<QuantumKeySearchCtx>,
    x25519_secret: [u8; 32],
    x25519_public: [u8; 32],
}

impl UnifiedKeySearch {
    /// The X25519 secret.
    pub closed spec fn spec_x25519_secret(&self) -> Seq<u8> {
        self.x25519_secret@
    }

    /// The X25519 public key.
    pub closed spec fn spec_x25519_public(&self) -> Seq<u8> {
        self.x25519_public@
    }

    /// The signed-hint context, where there is one.
    pub closed spec fn spec_quantum_ctx(&self) -> Option<QuantumKeySearchCtx> {
        self.quantum_ctx
    }

    /// The signed-hint context is well formed and the public key is the secret's.
    pub closed spec fn wf(&self) -> bool {
        &&& self.x25519_public@ == x25519_base(self.x25519_secret@)
        &&& (self.quantum_ctx matches Some(c) ==> c.wf())
    }

    /// A key search for `master_seed`: a signed-hint context from the seed, and the
    /// X25519 secret derived from it under `X25519_UNIFIED_v1` and `keysearch`.
    pub fn new(master_seed: [u8; 32]) -> (u: Self)
        ensures
            u.wf(),
            u.spec_quantum_ctx() is Some,
            u.spec_x25519_secret() == spec_kmac256_derive_key(master_seed@, x25519_unified(), keysearch_ctx()),
    {
        let quantum_ctx = match QuantumKeySearchCtx::new(master_seed) {
            Ok(c) => Some(c),
            Err(_) => None,
        };
        let l = x25519_unified_bytes();
        let c = keysearch_ctx_bytes();
        let x25519_secret = kmac256_derive_key(&master_seed, l.as_slice(), c.as_slice());
        let x25519_public = x25519_public_of(&x25519_secret);
        Self { quantum_ctx, x25519_secret, x25519_public }
    }

    /// The public keys: the Falcon key where there is a signed-hint context, and the
    /// X25519 key.
    pub fn get_public_keys(&self) -> (k: PublicKeys)
        ensures
            k.x25519_pk@ == self.spec_x25519_public(),
            k.falcon_pk is Some <==> self.spec_quantum_ctx() is Some,
            k.falcon_pk matches Some(pk) ==> pk@ == self.spec_quantum_ctx().unwrap().spec_falcon_pk(),
    {
        let falcon_pk = match &self.quantum_ctx {
            Some(ctx) => Some(copy_bytes(ctx.get_falcon_public_key())),
            None => None,
        };
        PublicKeys { falcon_pk, x25519_pk: self.x25519_public }
    }

    /// Whether signed hints are available.
    pub fn has_quantum_support(&self) -> (b: bool)
        ensures
            b == self.spec_quantum_ctx() is Some,
    {
        self.quantum_ctx.is_some()
    }

    /// A traditional hint for a recipient with the randomness given: the ephemeral
    /// secret and the nonce.
    pub fn build_traditional_hint_with(
        recipient_pk: &[u8; 32],
        c_out: &[u8; 32],
        payload: &HintPayload,
        eph_secret: &[u8; 32],
        nonce: &[u8; 12],
    ) -> (r: Result<TraditionalHint, BuildError>)
        ensures
            ({
                let m = hint_payload_bytes(*payload);
                let key = traditional_key(x25519_dh(eph_secret@, recipient_pk@), c_out@);
                &&& !siv_sealable(m.len()) ==> r == Err::<TraditionalHint, BuildError>(BuildError::EncryptionFailed)
                &&& siv_sealable(m.len()) ==> (r matches Ok(h) && h.eph_public@ == x25519_base(eph_secret@)
                    && h.ciphertext@ == siv_seal(key, nonce@, m, c_out@) && h.nonce == *nonce)
            }),
    {
        let eph_public = x25519_public_of(eph_secret);
        let shared = x25519_shared(eph_secret, recipient_pk);
        let l = traditional_hint_label_bytes();
        let enc_key = kmac256_derive_key(&shared, l.as_slice(), c_out);
        let plaintext = payload.encode();
        match siv_encrypt(&enc_key, nonce, plaintext.as_slice(), c_out) {
            Some(ciphertext) => Ok(TraditionalHint { eph_public, ciphertext, nonce: *nonce }),
            None => Err(BuildError::EncryptionFailed),
        }
    }

    /// A traditional hint for a recipient with fresh randomness.
    fn build_traditional_hint(
        &self,
        recipient_pk: &[u8; 32],
        c_out: &[u8; 32],
        payload: &HintPayload,
    ) -> (r: Result<TraditionalHint, BuildError>)
        ensures
            r is Err <==> !siv_sealable(hint_payload_bytes(*payload).len()),
            r matches Err(e) ==> e == BuildError::EncryptionFailed,
    {
        let eb = os_random_bytes(32);
        let eph_secret = to_array32(eb.as_slice());
        let nb = os_random_bytes(12);
        let nonce = array12_at(nb.as_slice(), 0);
        Self::build_traditional_hint_with(recipient_pk, c_out, payload, &eph_secret, &nonce)
    }

    /// Opens traditional hint bytes for `c_out` with this search's X25519 secret.
    pub fn verify_traditional_hint(&self, hint_data: &[u8], c_out: &[u8; 32]) -> (r: Option<HintPayload>)
        ensures
            r is Some <==> traditional_outcome(self.spec_x25519_secret(), hint_data@, c_out@) is Some,
            r matches Some(p) ==> traditional_outcome(self.spec_x25519_secret(), hint_data@, c_out@) == Some(
                (p.r_blind@, p.value, p.memo@),
            ),
    {
        let hint = match TraditionalHint::decode(hint_data) {
            Some(h) => h,
            None => {
                return None;
            },
        };
        let shared = x25519_shared(&self.x25519_secret, &hint.eph_public);
        let l = traditional_hint_label_bytes();
        let dec_key = kmac256_derive_key(&shared, l.as_slice(), c_out);
        let pt = match siv_decrypt(&dec_key, &hint.nonce, hint.ciphertext.as_slice(), c_out) {
            Some(p) => p,
            None => {
                return None;
            },
        };
        HintPayload::decode(pt.as_slice())
    }

    /// A hint for a recipient: a signed hint where this search and the recipient both
    /// have Falcon keys and building it succeeds; otherwise a traditional hint.
    pub fn build_smart_hint(
        &mut self,
        recipient_keys: &PublicKeys,
        c_out: &[u8; 32],
        payload: &HintPayload,
    ) -> (r: Result<SmartHint, BuildError>)
        requires
            old(self).wf(),
        ensures
            final(self).wf(),
            final(self).spec_x25519_secret() == old(self).spec_x25519_secret(),
            final(self).spec_quantum_ctx() is Some == old(self).spec_quantum_ctx() is Some,
            r is Err <==> !siv_sealable(hint_payload_bytes(*payload).len()),
            r matches Err(e) ==> e == BuildError::EncryptionFailed,
            (r matches Ok(SmartHint::Quantum(_))) ==> (old(self).spec_quantum_ctx() is Some && recipient_keys.falcon_pk is Some),
    {
        match (&mut self.quantum_ctx, &recipient_keys.falcon_pk) {
            (Some(ctx), Some(falcon_pk)) => {
                match ctx.build_quantum_hint(falcon_pk.as_slice(), &recipient_keys.x25519_pk, c_out, payload) {
                    Ok(q) => {
                        return Ok(SmartHint::Quantum(q));
                    },
                    Err(_) => {},
                }
            },
            _ => {},
        }
        match self.build_traditional_hint(&recipient_keys.x25519_pk, c_out, payload) {
            Ok(t) => Ok(SmartHint::Traditional(t)),
            Err(e) => Err(e),
        }
    }

    /// Scans outputs `(c_out, hint bytes)` in order: each is tried as a signed hint
    /// (read from its bytes and verified) and, where that finds nothing, as a
    /// traditional hint. Every found note names its output; a note not found as a
    /// signed hint carries the traditional opening of its bytes; every output whose
    /// bytes open as a traditional hint has a note; a signed note needs a signed-hint
    /// context and bytes that read as a signed hint.
    pub fn scan_smart(&mut self, outputs: &[([u8; 32], Vec<u8>)]) -> (results: Vec<FoundNote>)
        requires
            old(self).wf(),
        ensures
            final(self).wf(),
            final(self).spec_x25519_secret() == old(self).spec_x25519_secret(),
            forall|i: int, j: int| 0 <= i < j < results@.len() ==> results@[i].index < results@[j].index,
            forall|i: int|
                0 <= i < results@.len() ==> {
                    let n = #[trigger] results@[i];
                    &&& n.index < outputs@.len()
                    &&& n.c_out == outputs@[n.index as int].0
                    &&& !n.quantum_safe ==> traditional_outcome(
                        old(self).spec_x25519_secret(),
                        outputs@[n.index as int].1@,
                        n.c_out@,
                    ) == Some((n.payload.r_blind@, n.payload.value, n.payload.memo@))
                    &&& n.quantum_safe ==> old(self).spec_quantum_ctx() is Some && decode_quantum_hint(
                        outputs@[n.index as int].1@,
                    ) is Some
                },
            forall|k: int|
                0 <= k < outputs@.len() && (#[trigger] traditional_outcome(
                    old(self).spec_x25519_secret(),
                    outputs@[k].1@,
                    outputs@[k].0@,
                )) is Some ==> exists|i: int| #![trigger results@[i]] 0 <= i < results@.len() && results@[i].index == k,
    {
        let mut results: Vec<FoundNote> = Vec::new();
        let mut idx: usize = 0;
        while idx < outputs.len()
            invariant
                self.wf(),
                self.spec_x25519_secret() == old(self).spec_x25519_secret(),
                idx <= outputs@.len(),
                forall|i: int, j: int| 0 <= i < j < results@.len() ==> results@[i].index < results@[j].index,
                forall|i: int| 0 <= i < results@.len() ==> results@[i].index < idx,
                forall|i: int|
                    0 <= i < results@.len() ==> {
                        let n = #[trigger] results@[i];
                        &&& n.index < outputs@.len()
                        &&& n.c_out == outputs@[n.index as int].0
                        &&& !n.quantum_safe ==> traditional_outcome(
                            old(self).spec_x25519_secret(),
                            outputs@[n.index as int].1@,
                            n.c_out@,
                        ) == Some((n.payload.r_blind@, n.payload.value, n.payload.memo@))
                        &&& n.quantum_safe ==> old(self).spec_quantum_ctx() is Some && decode_quantum_hint(
                            outputs@[n.index as int].1@,
                        ) is Some
                    },
                self.spec_quantum_ctx() is Some == old(self).spec_quantum_ctx() is Some,
                forall|k: int|
                    0 <= k < idx && (#[trigger] traditional_outcome(
                        old(self).spec_x25519_secret(),
                        outputs@[k].1@,
                        outputs@[k].0@,
                    )) is Some ==> exists|i: int| #![trigger results@[i]] 0 <= i < results@.len() && results@[i].index == k,
            decreases outputs@.len() - idx,
        {
            let c_out = outputs[idx].0;
            let hint_data = outputs[idx].1.as_slice();
            let mut found = false;
            let ghost start = results@;
            match decode_quantum_hint_exec(hint_data) {
                Some(qh) => match &mut self.quantum_ctx {
                    Some(ctx) => match ctx.verify_quantum_hint(&qh, &c_out) {
                        Some((payload, quantum_safe)) => {
                            results.push(FoundNote { index: idx, c_out, payload, quantum_safe, method: "falcon512".to_owned() });
                            found = true;
                        },
                        None => {},
                    },
                    None => {},
                },
                None => {},
            }
            let ghost mid = results@;
            assert(found ==> mid.len() == start.len() + 1 && mid[start.len() as int].index == idx && mid.subrange(0, start.len() as int) =~= start);
            assert(!found ==> mid =~= start);
            if !found {
                match self.verify_traditional_hint(hint_data, &c_out) {
                    Some(payload) => {
                        results.push(FoundNote { index: idx, c_out, payload, quantum_safe: false, method: "x25519".to_owned() });
                    },
                    None => {},
                }
            }
            proof {
                assert forall|k: int|
                    0 <= k < idx + 1 && (#[trigger] traditional_outcome(
                        old(self).spec_x25519_secret(),
                        outputs@[k].1@,
                        outputs@[k].0@,
                    )) is Some implies exists|i: int| #![trigger results@[i]] 0 <= i < results@.len() && results@[i].index == k by {
                    if k < idx {
                        let i0 = choose|i: int| #![trigger start[i]] 0 <= i < start.len() && start[i].index == k;
                        assert(mid[i0] == start[i0]);
                        assert(results@[i0] == mid[i0]);
                    } else if found {
                        assert(results@[start.len() as int] == mid[start.len() as int]);
                    } else {
                        let last = results@.len() - 1;
                        assert(results@[last].index == k);
                    }
                }
            }
            idx = idx + 1;
        }
        results
    }
}

} // verus!
