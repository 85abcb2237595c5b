//! Lightweight eligibility proofs: hash commitments with a Fiat-Shamir
//! challenge bound to the beacon and slot, and a timestamp against replay.
use vstd::prelude::*;
use crate::bytes::{append_bytes, append_u64_le, le64, to_array32};
use crate::hashing::{keccak_shake256, tk_shake256};
use crate::keysearch::slice_copy;
use vstd::bytes::spec_u64_from_le_bytes;
use crate::pot::{NodeId, Q};
use crate::tags::{
    pozs_lite_domain, pozs_lite_domain_bytes, commit_label, commit_label_bytes, challenge_label,
    challenge_label_bytes, response_label, response_label_bytes,
};

verus! {

/// A 32-byte hash.
pub type Hash32 = [u8; 32];

/// Commitment to `(who, stake, trust)` under `nonce`.
pub open spec fn spec_lite_commitment(who: Seq<u8>, stake_q: Q, trust_q: Q, nonce: Seq<u8>) -> Seq<u8> {
    keccak_shake256(pozs_lite_domain() + commit_label() + who + le64(stake_q) + le64(trust_q) + nonce, 32)
}

/// Fiat-Shamir challenge of a commitment for `(beacon, slot)`.
pub open spec fn spec_lite_challenge(beacon: Seq<u8>, slot: u64, commitment: Seq<u8>) -> Seq<u8> {
    keccak_shake256(pozs_lite_domain() + challenge_label() + beacon + le64(slot) + commitment, 32)
}

/// Response to a challenge.
pub open spec fn spec_lite_response(elig_hash: Seq<u8>, challenge: Seq<u8>, nonce: Seq<u8>) -> Seq<u8> {
    keccak_shake256(pozs_lite_domain() + response_label() + elig_hash + challenge + nonce, 32)
}

/// The nonce derived from a timestamp: its little-endian bytes, then zeros.
pub open spec fn spec_nonce(ts: u64) -> Seq<u8> {
    le64(ts) + Seq::new(24, |i: int| 0u8)
}

/// Number of zero bytes among the first `n` bytes of `s`.
pub open spec fn count_zeros(s: Seq<u8>, n: int) -> int
    decreases n,
{
    if n <= 0 { 0 } else { count_zeros(s, n - 1) + if s[n - 1] == 0 { 1int } else { 0int } }
}

/// XOR over the first `n` positions of `r[i] ^ c[i] ^ e[i]`.
pub open spec fn xor_fold(r: Seq<u8>, c: Seq<u8>, e: Seq<u8>, n: int) -> u8
    decreases n,
{
    if n <= 0 { 0 } else { xor_fold(r, c, e, n - 1) ^ (r[n - 1] ^ c[n - 1] ^ e[n - 1]) }
}

/// The structural check of a response.
pub open spec fn spec_response_ok(response: Seq<u8>, elig_hash: Seq<u8>, challenge: Seq<u8>) -> bool {
    &&& response != Seq::new(32, |i: int| 0u8)
    &&& count_zeros(response, 32) <= 16
    &&& xor_fold(response, challenge, elig_hash, 32) != 0
    &&& xor_fold(response, challenge, elig_hash, 32) != 0xFF
}

/// A lightweight eligibility proof.
#[derive(Clone, Copy, Debug)]
pub struct LiteZkProof {
    pub commitment: Hash32,
    pub challenge: Hash32,
    pub response: Hash32,
    pub timestamp: u64,
}

/// The wire encoding of a proof: the commitment, the challenge and the response,
/// then the timestamp as a little-endian `u64` (104 bytes).
pub open spec fn lite_proof_bytes(p: LiteZkProof) -> Seq<u8> {
    p.commitment@ + p.challenge@ + p.response@ + le64(p.timestamp)
}

/// What decoding gives: nothing for fewer than 104 bytes; otherwise the fields of
/// the first 104 bytes (what follows them is ignored).
pub open spec fn decode_lite_proof(b: Seq<u8>) -> Option<(Seq<u8>, Seq<u8>, Seq<u8>, u64)> {
    if b.len() < 104 {
        None
    } else {
        Some((b.subrange(0, 32), b.subrange(32, 64), b.subrange(64, 96), spec_u64_from_le_bytes(b.subrange(96, 104))))
    }
}

impl LiteZkProof {
    /// The wire encoding.
    pub fn to_bytes(&self) -> (out: Vec<u8>)
        ensures
            out@ == lite_proof_bytes(*self),
    {
        let mut out: Vec<u8> = Vec::new();
        append_bytes(&mut out, &self.commitment);
        append_bytes(&mut out, &self.challenge);
        append_bytes(&mut out, &self.response);
        append_u64_le(&mut out, self.timestamp);
        out
    }

    /// Decodes a proof from the start of `bytes`.
    pub fn from_bytes(bytes: &[u8]) -> (r: Option<LiteZkProof>)
        ensures
            r is Some <==> decode_lite_proof(bytes@) is Some,
            r matches Some(p) ==> decode_lite_proof(bytes@) == Some(
                (p.commitment@, p.challenge@, p.response@, p.timestamp),
            ),
    {
        if bytes.len() < 104 {
            return None;
        }
        let c = slice_copy(bytes, 0, 32);
        let ch = slice_copy(bytes, 32, 32);
        let rs = slice_copy(bytes, 64, 32);
        let ts = slice_copy(bytes, 96, 8);
        let commitment = to_array32(c.as_slice());
        let challenge = to_array32(ch.as_slice());
        let response = to_array32(rs.as_slice());
        assert(commitment@ =~= c@);
        assert(challenge@ =~= ch@);
        assert(response@ =~= rs@);
        let timestamp = vstd::bytes::u64_from_le_bytes(ts.as_slice());
        Some(LiteZkProof { commitment, challenge, response, timestamp })
    }
}

/// Decoding an encoded proof gives the proof back.
pub proof fn lemma_lite_proof_roundtrip(p: LiteZkProof)
    ensures
        decode_lite_proof(lite_proof_bytes(p)) == Some((p.commitment@, p.challenge@, p.response@, p.timestamp)),
{
    let b = lite_proof_bytes(p);
    vstd::bytes::lemma_auto_spec_u64_to_from_le_bytes();
    assert(b.subrange(0, 32) =~= p.commitment@);
    assert(b.subrange(32, 64) =~= p.challenge@);
    assert(b.subrange(64, 96) =~= p.response@);
    assert(b.subrange(96, 104) =~= le64(p.timestamp));
}

/// Whether `proof` is accepted at time `now`.
pub open spec fn spec_lite_accepts(proof: LiteZkProof, beacon: Seq<u8>, slot: u64, elig_hash: Seq<u8>, max_age_secs: u64, now: u64) -> bool {
    &&& proof.timestamp <= now
    &&& now - proof.timestamp <= max_age_secs
    &&& spec_lite_challenge(beacon, slot, proof.commitment@) == proof.challenge@
    &&& spec_response_ok(proof.response@, elig_hash, proof.challenge@)
}

/// The proof made with nonce time `nonce_ts` and stamped `timestamp`.
pub open spec fn spec_lite_proof_ok(
    p: LiteZkProof,
    beacon: Seq<u8>,
    slot: u64,
    who: Seq<u8>,
    stake_q: Q,
    trust_q: Q,
    elig_hash: Seq<u8>,
    nonce_ts: u64,
) -> bool {
    &&& p.commitment@ == spec_lite_commitment(who, stake_q, trust_q, spec_nonce(nonce_ts))
    &&& p.challenge@ == spec_lite_challenge(beacon, slot, p.commitment@)
    &&& p.response@ == spec_lite_response(elig_hash, p.challenge@, spec_nonce(nonce_ts))
}

fn shake32(data: &Vec<u8>) -> (h: Hash32)
    ensures
        h@ == keccak_shake256(data@, 32),
{
    let v = tk_shake256(data.as_slice(), 32);
    let h = to_array32(v.as_slice());
    assert(h@ =~= v@);
    h
}

/// The lightweight prover.
pub struct LiteZkProver {
    domain: Vec<u8>,
}

impl LiteZkProver {
    /// The prover's domain is the protocol label.
    pub closed spec fn wf(&self) -> bool {
        self.domain@ == pozs_lite_domain()
    }

    /// A prover.
    pub fn new() -> (p: Self)
        ensures
            p.wf(),
    {
        Self { domain: pozs_lite_domain_bytes() }
    }

    fn nonce_from(ts: u64) -> (n: Hash32)
        ensures
            n@ == spec_nonce(ts),
    {
        let mut v: Vec<u8> = Vec::new();
        append_u64_le(&mut v, ts);
        let mut i: usize = 0;
        while i < 24
            invariant
                i <= 24,
                v@ == le64(ts) + Seq::new(i as nat, |k: int| 0u8),
            decreases 24 - i,
        {
            v.push(0u8);
            i = i + 1;
            assert(v@ =~= le64(ts) + Seq::new(i as nat, |k: int| 0u8));
        }
        proof {
            vstd::bytes::lemma_auto_spec_u64_to_from_le_bytes();
        }
        let n = to_array32(v.as_slice());
        assert(n@ =~= v@);
        n
    }

    fn hash_commitment(&self, who: &NodeId, stake_q: Q, trust_q: Q, nonce: &Hash32) -> (h: Hash32)
        requires
            self.wf(),
        ensures
            h@ == spec_lite_commitment(who@, stake_q, trust_q, nonce@),
    {
        let mut d = pozs_lite_domain_bytes();
        let l = commit_label_bytes();
        append_bytes(&mut d, l.as_slice());
        append_bytes(&mut d, who);
        append_u64_le(&mut d, stake_q);
        append_u64_le(&mut d, trust_q);
        append_bytes(&mut d, nonce);
        shake32(&d)
    }

    fn derive_challenge(&self, beacon: &Hash32, slot: u64, commitment: &Hash32) -> (h: Hash32)
        ensures
            h@ == spec_lite_challenge(beacon@, slot, commitment@),
    {
        let mut d = pozs_lite_domain_bytes();
        let l = challenge_label_bytes();
        append_bytes(&mut d, l.as_slice());
        append_bytes(&mut d, beacon);
        append_u64_le(&mut d, slot);
        append_bytes(&mut d, commitment);
        shake32(&d)
    }

    fn compute_response(&self, elig_hash: &Hash32, challenge: &Hash32, nonce: &Hash32) -> (h: Hash32)
        ensures
            h@ == spec_lite_response(elig_hash@, challenge@, nonce@),
    {
        let mut d = pozs_lite_domain_bytes();
        let l = response_label_bytes();
        append_bytes(&mut d, l.as_slice());
        append_bytes(&mut d, elig_hash);
        append_bytes(&mut d, challenge);
        append_bytes(&mut d, nonce);
        shake32(&d)
    }

    /// The proof of eligibility made with the nonce of time `nonce_ts`, stamped `timestamp`.
    pub fn prove_eligibility_at(
        &self,
        beacon: &Hash32,
        slot: u64,
        who: &NodeId,
        stake_q: Q,
        trust_q: Q,
        elig_hash: &Hash32,
        nonce_ts: u64,
        timestamp: u64,
    ) -> (p: LiteZkProof)
        requires
            self.wf(),
        ensures
            spec_lite_proof_ok(p, beacon@, slot, who@, stake_q, trust_q, elig_hash@, nonce_ts),
            p.timestamp == timestamp,
    {
        let nonce = Self::nonce_from(nonce_ts);
        let commitment = self.hash_commitment(who, stake_q, trust_q, &nonce);
        let challenge = self.derive_challenge(beacon, slot, &commitment);
        let response = self.compute_response(elig_hash, &challenge, &nonce);
        LiteZkProof { commitment, challenge, response, timestamp }
    }

    /// A proof of eligibility of `who`, with its nonce and timestamp taken from the clock.
    pub fn prove_eligibility(
        &self,
        beacon: &Hash32,
        slot: u64,
        who: &NodeId,
        stake_q: Q,
        trust_q: Q,
        elig_hash: &Hash32,
    ) -> (p: LiteZkProof)
        requires
            self.wf(),
        ensures
            exists|t: u64| spec_lite_proof_ok(p, beacon@, slot, who@, stake_q, trust_q, elig_hash@, t),
    {
        let nonce_ts = crate::chain_core::now_ts();
        let timestamp = crate::chain_core::now_ts();
        self.prove_eligibility_at(beacon, slot, who, stake_q, trust_q, elig_hash, nonce_ts, timestamp)
    }

    /// Whether `proof` is accepted at time `now`.
    pub fn verify_eligibility_at(
        &self,
        proof: &LiteZkProof,
        beacon: &Hash32,
        slot: u64,
        elig_hash: &Hash32,
        max_age_secs: u64,
        now: u64,
    ) -> (b: bool)
        ensures
            b == spec_lite_accepts(*proof, beacon@, slot, elig_hash@, max_age_secs, now),
    {
        if proof.timestamp > now || (now - proof.timestamp) > max_age_secs {
            return false;
        }
        let expected = self.derive_challenge(beacon, slot, &proof.commitment);
        if !crate::bytes::eq32(&expected, &proof.challenge) {
            return false;
        }
        self.verify_response_structure(&proof.response, elig_hash, &proof.challenge)
    }

    /// Whether `proof` is accepted now (within `max_age_secs` of its timestamp).
    pub fn verify_eligibility(
        &self,
        proof: &LiteZkProof,
        beacon: &Hash32,
        slot: u64,
        elig_hash: &Hash32,
        max_age_secs: u64,
    ) -> (b: bool)
        ensures
            exists|now: u64| b == spec_lite_accepts(*proof, beacon@, slot, elig_hash@, max_age_secs, now),
    {
        let now = crate::chain_core::now_ts();
        self.verify_eligibility_at(proof, beacon, slot, elig_hash, max_age_secs, now)
    }

    fn verify_response_structure(&self, response: &Hash32, elig_hash: &Hash32, challenge: &Hash32) -> (b: bool)
        ensures
            b == spec_response_ok(response@, elig_hash@, challenge@),
    {
        if crate::bytes::is_zero32(response) {
            return false;
        }
        let mut zero_count: usize = 0;
        let mut i: usize = 0;
        while i < 32
            invariant
                i <= 32,
                zero_count == count_zeros(response@, i as int),
                zero_count <= i,
            decreases 32 - i,
        {
            if response[i] == 0 {
                zero_count = zero_count + 1;
            }
            i = i + 1;
        }
        if zero_count > 16 {
            return false;
        }
        let mut xor_sum: u8 = 0;
        let mut k: usize = 0;
        while k < 32
            invariant
                k <= 32,
                xor_sum == xor_fold(response@, challenge@, elig_hash@, k as int),
            decreases 32 - k,
        {
            xor_sum = xor_sum ^ (response[k] ^ challenge[k] ^ elig_hash[k]);
            k = k + 1;
        }
        xor_sum != 0 && xor_sum != 0xFF
    }
}

impl Default for LiteZkProver {
    fn default() -> (p: Self)
        ensures
            p.wf(),
    {
        Self::new()
    }
}

/// The lightweight verifier.
pub struct LiteZkVerifier {
    prover: LiteZkProver,
}

impl LiteZkVerifier {
    /// A verifier.
    pub fn new() -> (v: Self) {
        Self { prover: LiteZkProver::new() }
    }

    /// Whether `proof` is accepted now, with a maximum age of 300 seconds.
    pub fn verify(&self, proof: &LiteZkProof, beacon: &Hash32, slot: u64, elig_hash: &Hash32) -> (b: bool)
        ensures
            exists|now: u64| b == spec_lite_accepts(*proof, beacon@, slot, elig_hash@, 300, now),
    {
        self.prover.verify_eligibility(proof, beacon, slot, elig_hash, 300)
    }

    /// Whether `proof` is accepted now, with the given maximum age.
    pub fn verify_with_max_age(
        &self,
        proof: &LiteZkProof,
        beacon: &Hash32,
        slot: u64,
        elig_hash: &Hash32,
        max_age_secs: u64,
    ) -> (b: bool)
        ensures
            exists|now: u64| b == spec_lite_accepts(*proof, beacon@, slot, elig_hash@, max_age_secs, now),
    {
        self.prover.verify_eligibility(proof, beacon, slot, elig_hash, max_age_secs)
    }
}

impl Default for LiteZkVerifier {
    fn default() -> (v: Self) {
        Self::new()
    }
}

/// A leader claim with an optional lightweight proof.
#[derive(Clone, Copy, Debug)]
pub struct LiteZkWitness {
    pub who: NodeId,
    pub slot: u64,
    pub epoch: u64,
    pub stake_q: Q,
    pub trust_q: Q,
    pub zk_proof: Option<LiteZkProof>,
}

impl LiteZkWitness {
    /// A witness carrying `proof`.
    pub fn with_proof(who: NodeId, slot: u64, epoch: u64, stake_q: Q, trust_q: Q, proof: LiteZkProof) -> (w: Self)
        ensures
            w == (LiteZkWitness { who, slot, epoch, stake_q, trust_q, zk_proof: Some(proof) }),
    {
        Self { who, slot, epoch, stake_q, trust_q, zk_proof: Some(proof) }
    }

    /// A witness without a proof.
    pub fn without_proof(who: NodeId, slot: u64, epoch: u64, stake_q: Q, trust_q: Q) -> (w: Self)
        ensures
            w == (LiteZkWitness { who, slot, epoch, stake_q, trust_q, zk_proof: None }),
    {
        Self { who, slot, epoch, stake_q, trust_q, zk_proof: None }
    }
}

/// A proof made for `(beacon, slot)` passes the challenge check for that pair.
pub proof fn lemma_lite_challenge_binds(
    p: LiteZkProof,
    beacon: Seq<u8>,
    slot: u64,
    who: Seq<u8>,
    stake_q: Q,
    trust_q: Q,
    elig_hash: Seq<u8>,
    t: u64,
)
    requires
        spec_lite_proof_ok(p, beacon, slot, who, stake_q, trust_q, elig_hash, t),
    ensures
        spec_lite_challenge(beacon, slot, p.commitment@) == p.challenge@,
{
}

} // verus!
