//! CPU-only micro proof-of-work over SHAKE256, and the metrics a node keeps of
//! the proofs it generates.
//!
//! A hash meets a difficulty of `bits` when its first `bits / 8` bytes are zero
//! and, for a remainder `r = bits % 8`, the low `8 - r` bits of the next byte are
//! zero.
use vstd::prelude::*;
use crate::chain_core::{shake256_bytes, Hash32};
use crate::hashing::keccak_shake256;
use crate::bytes::{append_bytes, append_u64_le, le64};
use crate::tags::{micro_pow, micro_pow_bytes};

verus! {

/// Micro proof-of-work parameters.
#[derive(Clone, Copy, Debug)]
pub struct MicroPowParams {
    /// Target difficulty in bits.
    pub difficulty_bits: u8,
    /// Number of nonces tried before giving up.
    pub max_iterations: u64,
}

impl Default for MicroPowParams {
    fn default() -> (p: Self)
        ensures
            p.difficulty_bits == 16,
            p.max_iterations == 1_000_000,
    {
        Self { difficulty_bits: 16, max_iterations: 1_000_000 }
    }
}

/// A found proof-of-work.
#[derive(Clone, Copy, Debug)]
pub struct PowProof {
    pub nonce: u64,
    pub hash: Hash32,
    pub iterations: u64,
}

/// Proof generation metrics.
#[derive(Clone, Copy, Debug)]
pub struct ProofMetrics {
    /// Range proofs generated.
    pub bp_generated: u32,
    /// Zero-knowledge proofs generated.
    pub zk_generated: u32,
    /// CPU time spent on proof generation, in milliseconds.
    pub cpu_time_ms: u64,
    /// Micro proof-of-work iterations performed.
    pub pow_iterations: u64,
}

impl Default for ProofMetrics {
    fn default() -> (m: Self)
        ensures
            m.bp_generated == 0,
            m.zk_generated == 0,
            m.cpu_time_ms == 0,
            m.pow_iterations == 0,
    {
        Self { bp_generated: 0, zk_generated: 0, cpu_time_ms: 0, pow_iterations: 0 }
    }
}

/// The bytes hashed for `nonce`: the label `MICRO_POW`, the data, the nonce (little-endian).
pub open spec fn pow_input(data: Seq<u8>, nonce: u64) -> Seq<u8> {
    micro_pow() + data + le64(nonce)
}

/// The proof-of-work hash of `data` at `nonce`.
pub open spec fn spec_pow_hash(data: Seq<u8>, nonce: u64) -> Seq<u8> {
    keccak_shake256(pow_input(data, nonce), 32)
}

/// Byte `i` of the difficulty mask for `bits`: the bits a hash may have set there.
pub open spec fn mask_byte(bits: u8, i: int) -> u8 {
    let full = (bits / 8) as int;
    let r = bits % 8;
    if i < full {
        0
    } else if i == full && r > 0 {
        0xFFu8 >> r
    } else {
        0xFF
    }
}

/// The difficulty mask for `bits`.
pub open spec fn spec_difficulty_mask(bits: u8) -> Seq<u8> {
    Seq::new(32, |i: int| mask_byte(bits, i))
}

/// `hash` has no bit set outside `mask`.
pub open spec fn within_mask(hash: Seq<u8>, mask: Seq<u8>) -> bool {
    forall|i: int| 0 <= i < 32 ==> #[trigger] hash[i] & !mask[i] == 0
}

/// The first `bits` bits of `hash`, most significant bit of byte 0 first, are zero.
pub open spec fn meets_difficulty(hash: Seq<u8>, bits: u8) -> bool {
    &&& forall|i: int| 0 <= i < (bits / 8) as int ==> #[trigger] hash[i] == 0
    &&& bits % 8 > 0 ==> hash[(bits / 8) as int] >> ((8 - bits % 8) as u8) == 0
}

proof fn lemma_mask_byte_bits(h: u8, r: u8)
    requires
        0 < r < 8,
    ensures
        (h & !(0xFFu8 >> r) == 0) == (h >> ((8 - r) as u8) == 0),
{
    assert((h & !(0xFFu8 >> r) == 0) == (h >> ((8 - r) as u8) == 0)) by (bit_vector)
        requires
            0 < r < 8,
    ;
}

/// Checking a hash against the mask of `bits` is the leading-zero test.
pub proof fn lemma_mask_is_leading_zeros(hash: Seq<u8>, bits: u8)
    requires
        hash.len() == 32,
    ensures
        within_mask(hash, spec_difficulty_mask(bits)) == meets_difficulty(hash, bits),
{
    let m = spec_difficulty_mask(bits);
    let full = (bits / 8) as int;
    let r = bits % 8;
    assert forall|i: int| 0 <= i < 32 implies (#[trigger] hash[i] & !m[i] == 0) == (if i < full {
        hash[i] == 0
    } else if i == full && r > 0 {
        hash[i] >> ((8 - r) as u8) == 0
    } else {
        true
    }) by {
        let h = hash[i];
        if i < full {
            assert((h & !0u8 == 0) == (h == 0)) by (bit_vector);
        } else if i == full && r > 0 {
            lemma_mask_byte_bits(h, r);
        } else {
            assert(h & !0xFFu8 == 0) by (bit_vector);
        }
    }
    if within_mask(hash, m) {
        assert forall|i: int| 0 <= i < full implies #[trigger] hash[i] == 0 by {
            assert(hash[i] & !m[i] == 0);
        }
        if r > 0 {
            assert(hash[full] & !m[full] == 0);
        }
    }
    if meets_difficulty(hash, bits) {
        assert forall|i: int| 0 <= i < 32 implies #[trigger] hash[i] & !m[i] == 0 by {
            if i < full {
                assert(hash[i] == 0);
            }
        }
    }
}

/// No nonce below `n` gives a hash that meets `bits`.
pub open spec fn none_below(data: Seq<u8>, bits: u8, n: int) -> bool {
    forall|k: u64| k < n ==> !meets_difficulty(#[trigger] spec_pow_hash(data, k), bits)
}

/// `proof` holds the hash of `data` at its nonce, and that hash meets the difficulty.
pub open spec fn pow_accepts(data: Seq<u8>, proof: PowProof, params: MicroPowParams) -> bool {
    proof.hash@ == spec_pow_hash(data, proof.nonce) && meets_difficulty(proof.hash@, params.difficulty_bits)
}

/// Searches the nonces `0..max_iterations` in order for the first whose hash meets
/// the difficulty.
pub fn mine_micro_pow(data: &[u8], params: &MicroPowParams) -> (r: Option<PowProof>)
    ensures
        r is None <==> none_below(data@, params.difficulty_bits, params.max_iterations as int),
        r matches Some(p) ==> {
            &&& p.nonce < params.max_iterations
            &&& p.iterations == p.nonce + 1
            &&& p.hash@ == spec_pow_hash(data@, p.nonce)
            &&& meets_difficulty(p.hash@, params.difficulty_bits)
            &&& none_below(data@, params.difficulty_bits, p.nonce as int)
        },
{
    let target_mask = create_difficulty_mask(params.difficulty_bits);
    let mut nonce: u64 = 0;
    while nonce < params.max_iterations
        invariant
            nonce <= params.max_iterations,
            target_mask@ == spec_difficulty_mask(params.difficulty_bits),
            none_below(data@, params.difficulty_bits, nonce as int),
        decreases params.max_iterations - nonce,
    {
        let hash = compute_pow_hash(data, nonce);
        proof {
            lemma_mask_is_leading_zeros(hash@, params.difficulty_bits);
        }
        if check_difficulty(&hash, &target_mask) {
            return Some(PowProof { nonce, hash, iterations: nonce + 1 });
        }
        proof {
            assert forall|k: u64| k < nonce + 1 implies !meets_difficulty(
                #[trigger] spec_pow_hash(data@, k),
                params.difficulty_bits,
            ) by {
                if k < nonce {
                    assert(!meets_difficulty(spec_pow_hash(data@, k), params.difficulty_bits));
                }
            }
        }
        nonce = nonce + 1;
    }
    None
}

/// Whether `proof` holds the hash of `data` at its nonce, and that hash meets the
/// difficulty.
pub fn verify_micro_pow(data: &[u8], proof: &PowProof, params: &MicroPowParams) -> (b: bool)
    ensures
        b == pow_accepts(data@, *proof, *params),
{
    let hash = compute_pow_hash(data, proof.nonce);
    if !crate::bytes::eq32(&hash, &proof.hash) {
        return false;
    }
    let target_mask = create_difficulty_mask(params.difficulty_bits);
    proof {
        lemma_mask_is_leading_zeros(hash@, params.difficulty_bits);
    }
    check_difficulty(&hash, &target_mask)
}

/// A proof found by mining is accepted by verification with the same data and
/// parameters.
pub proof fn lemma_mined_proof_verifies(data: Seq<u8>, params: MicroPowParams, p: PowProof)
    requires
        p.hash@ == spec_pow_hash(data, p.nonce),
        meets_difficulty(p.hash@, params.difficulty_bits),
    ensures
        pow_accepts(data, p, params),
{
}

/// The proof-of-work hash: SHAKE256 of the label, `data` and the nonce, 32 bytes.
pub fn compute_pow_hash(data: &[u8], nonce: u64) -> (h: Hash32)
    ensures
        h@ == spec_pow_hash(data@, nonce),
{
    let mut buf = micro_pow_bytes();
    append_bytes(&mut buf, data);
    append_u64_le(&mut buf, nonce);
    proof {
        assert(buf@ =~= pow_input(data@, nonce));
    }
    shake256_bytes(buf.as_slice())
}

/// The difficulty mask for `bits`: zero bytes for each full 8 bits, then a byte with
/// its top `bits % 8` bits clear, then `0xFF`; a hash meets the difficulty when it has
/// no bit set outside the mask.
pub fn create_difficulty_mask(bits: u8) -> (mask: Hash32)
    ensures
        mask@ == spec_difficulty_mask(bits),
{
    let mut mask = [0xFFu8; 32];
    let full_bytes: usize = (bits / 8) as usize;
    let remaining_bits: u8 = bits % 8;
    let upto: usize = if full_bytes < 32 { full_bytes } else { 32 };
    let mut i: usize = 0;
    while i < upto
        invariant
            upto <= 32,
            upto == full_bytes || upto == 32,
            full_bytes == (bits / 8) as int,
            i <= upto,
            forall|j: int| 0 <= j < i ==> mask@[j] == 0u8,
            forall|j: int| i <= j < 32 ==> mask@[j] == 0xFFu8,
        decreases upto - i,
    {
        mask[i] = 0;
        i = i + 1;
    }
    if full_bytes < 32 && remaining_bits > 0 {
        mask[full_bytes] = 0xFFu8 >> remaining_bits;
    }
    assert(mask@ =~= spec_difficulty_mask(bits));
    mask
}

/// Whether `hash` has no bit set outside `mask`.
pub fn check_difficulty(hash: &Hash32, mask: &Hash32) -> (b: bool)
    ensures
        b == within_mask(hash@, mask@),
{
    let mut i: usize = 0;
    while i < 32
        invariant
            i <= 32,
            forall|j: int| 0 <= j < i ==> #[trigger] hash@[j] & !mask@[j] == 0,
        decreases 32 - i,
    {
        if (hash[i] & !mask[i]) != 0 {
            return false;
        }
        i = i + 1;
    }
    true
}

} // verus!
