//! Key-search structures: the hint payload, a decoded hint, the associated-data
//! mode, and the X25519-only search context.
use vstd::prelude::*;
use vstd::bytes::{spec_u64_from_le_bytes, u64_from_le_bytes};
use crate::bytes::{append_bytes, append_u64_le, le64};

verus! {

/// The plaintext of a hint.
#[derive(Clone, Debug)]
pub struct HintPayloadV1 {
    pub r_blind: [u8; 32],
    pub value: u64,
    pub memo: Vec<u8>,
}

/// The wire encoding of a payload: the blinding factor, the value (little-endian),
/// the memo's length (little-endian `u64`) and the memo.
pub open spec fn payload_bytes(p: HintPayloadV1) -> Seq<u8> {
    p.r_blind@ + le64(p.value) + le64(p.memo@.len() as u64) + p.memo@
}

/// `p` has the blinding factor `r`, the value `v` and the memo `m`.
pub open spec fn payload_is(p: HintPayloadV1, r: Seq<u8>, v: u64, m: Seq<u8>) -> bool {
    p.r_blind@ == r && p.value == v && p.memo@ == m
}

/// The memo length recorded in an encoding.
pub open spec fn memo_len_of(b: Seq<u8>) -> u64 {
    spec_u64_from_le_bytes(b.subrange(40, 48))
}

/// An encoding is complete: it holds the fixed fields and the whole memo. Bytes after
/// the memo are ignored.
pub open spec fn payload_decodes(b: Seq<u8>) -> bool {
    b.len() >= 48 && 48 + memo_len_of(b) <= b.len()
}

impl HintPayloadV1 {
    /// The wire encoding.
    pub fn encode(&self) -> (out: Vec<u8>)
        ensures
            out@ == payload_bytes(*self),
    {
        let mut out: Vec<u8> = Vec::new();
        append_bytes(&mut out, &self.r_blind);
        append_u64_le(&mut out, self.value);
        append_u64_le(&mut out, self.memo.len() as u64);
        append_bytes(&mut out, self.memo.as_slice());
        out
    }

    /// Decodes a payload; `None` where the bytes end before the memo does.
    pub fn decode(bytes: &[u8]) -> (r: Option<HintPayloadV1>)
        ensures
            r is Some <==> payload_decodes(bytes@),
            r matches Some(p) ==> payload_is(
                p,
                bytes@.subrange(0, 32),
                spec_u64_from_le_bytes(bytes@.subrange(32, 40)),
                bytes@.subrange(48, 48 + memo_len_of(bytes@)),
            ),
    {
        let n = bytes.len();
        if n < 48 {
            return None;
        }
        let mut r_blind = [0u8; 32];
        let mut i: usize = 0;
        while i < 32
            invariant
                n == bytes@.len(),
                n >= 48,
                i <= 32,
                forall|j: int| 0 <= j < i ==> r_blind@[j] == bytes@[j],
            decreases 32 - i,
        {
            r_blind[i] = bytes[i];
            i = i + 1;
        }
        let vb = slice_copy(bytes, 32, 8);
        let lb = slice_copy(bytes, 40, 8);
        let value = u64_from_le_bytes(vb.as_slice());
        let mlen = u64_from_le_bytes(lb.as_slice());
        if mlen > (n - 48) as u64 {
            return None;
        }
        let memo = slice_copy(bytes, 48, mlen as usize);
        assert(r_blind@ =~= bytes@.subrange(0, 32));
        Some(HintPayloadV1 { r_blind, value, memo })
    }
}

pub(crate) fn slice_copy(s: &[u8], start: usize, len: usize) -> (out: Vec<u8>)
    requires
        start + len <= s@.len(),
    ensures
        out@ == s@.subrange(start as int, start + len),
{
    let n = s.len();
    let mut out: Vec<u8> = Vec::new();
    let mut i: usize = 0;
    while i < len
        invariant
            n == s@.len(),
            start + len <= s@.len(),
            i <= len,
            out@ == s@.subrange(start as int, start + i),
        decreases len - i,
    {
        out.push(s[start + i]);
        i = i + 1;
        assert(out@ =~= s@.subrange(start as int, start + i));
    }
    out
}

/// Decoding an encoded payload gives the payload back.
pub proof fn lemma_payload_roundtrip(p: HintPayloadV1)
    requires
        p.memo@.len() <= u64::MAX - 48,
    ensures
        payload_decodes(payload_bytes(p)),
        payload_bytes(p).subrange(0, 32) == p.r_blind@,
        spec_u64_from_le_bytes(payload_bytes(p).subrange(32, 40)) == p.value,
        payload_bytes(p).subrange(48, 48 + memo_len_of(payload_bytes(p))) == p.memo@,
{
    let b = payload_bytes(p);
    vstd::bytes::lemma_auto_spec_u64_to_from_le_bytes();
    assert(b.subrange(0, 32) =~= p.r_blind@);
    assert(b.subrange(32, 40) =~= le64(p.value));
    assert(b.subrange(40, 48) =~= le64(p.memo@.len() as u64));
    assert(b.subrange(48, 48 + p.memo@.len() as int) =~= p.memo@);
}

/// A decoded hint.
#[derive(Clone, Debug)]
pub struct DecodedHint {
    pub r_blind: [u8; 32],
    pub value: Option<u64>,
    pub memo_items: Vec<Vec<u8>>,
}

/// What the associated data of a hint covers.
#[derive(Clone, Copy, Debug)]
pub enum AadMode {
    COutOnly,
    Full,
}

/// The X25519-only key-search context.
pub struct KeySearchCtx {
    x25519_secret: [u8; 32],
}

impl KeySearchCtx {
    /// The context's secret.
    pub closed spec fn spec_secret(&self) -> Seq<u8> {
        self.x25519_secret@
    }

    /// A context holding `secret`.
    pub fn new(secret: [u8; 32]) -> (c: Self)
        ensures
            c.spec_secret() == secret@,
    {
        Self { x25519_secret: secret }
    }

    /// Matching is not implemented in this context: every hint matches, with an
    /// all-zero key.
    pub fn try_match(&self, c_out: &[u8; 32], hint: &[u8]) -> (r: Option<[u8; 32]>)
        ensures
            r matches Some(k) && k@ == Seq::new(32, |i: int| 0u8),
    {
        let k = [0u8; 32];
        assert(k@ =~= Seq::new(32, |i: int| 0u8));
        Some(k)
    }

    /// Matching is not implemented in this context: every hint matches, with an
    /// all-zero key and no decoded payload.
    pub fn try_match_and_decrypt_ext(
        &self,
        c_out: &[u8; 32],
        hint: &[u8],
        aad_mode: AadMode,
    ) -> (r: Option<([u8; 32], Option<DecodedHint>)>)
        ensures
            r matches Some((k, d)) && k@ == Seq::new(32, |i: int| 0u8) && d is None,
    {
        let k = [0u8; 32];
        assert(k@ =~= Seq::new(32, |i: int| 0u8));
        Some((k, None))
    }
}

} // verus!
