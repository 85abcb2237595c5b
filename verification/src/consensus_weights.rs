//! Deterministic validator weights in Q32.32 and a deterministic leader choice.
//!
//! Weight = 4·trust + 2·quality + 1·stake, all three shares in Q32.32. The leader
//! of a beacon is the validator whose SHA3-256 score is highest.
use vstd::prelude::*;
use crate::pot::{NodeId, Q};
use crate::hashing::{sha3_256_digest, sha3_sha3_256};
use crate::bytes::{append_bytes, append_u128_be, be128, be_u128_at, be_value, pow256, lemma_be_value_bound};
use crate::tags::{leader_v1, leader_v1_bytes};

verus! {

/// A validator's weight.
pub type Weight = u128;

/// Coefficient of trust in the weight.
pub const W_TRUST: u128 = 4;
/// Coefficient of the latest quality score in the weight.
pub const W_QUALITY: u128 = 2;
/// Coefficient of the stake share in the weight.
pub const W_STAKE: u128 = 1;

/// The weight of a validator: `4·trust + 2·quality + stake`.
pub open spec fn spec_final_weight(trust_q: Q, quality_q: Q, stake_q: Q) -> int {
    W_TRUST * trust_q + W_QUALITY * quality_q + W_STAKE * stake_q
}

/// The weight of a validator with the given trust, quality and stake shares.
pub fn compute_final_weight_q(trust_q: Q, quality_q: Q, stake_q: Q) -> (w: Weight)
    ensures
        w == spec_final_weight(trust_q, quality_q, stake_q),
{
    let t = trust_q as u128;
    let q = quality_q as u128;
    let s = stake_q as u128;
    W_TRUST * t + W_QUALITY * q + W_STAKE * s
}

/// The bytes hashed for a validator's score.
pub open spec fn leader_input(beacon: Seq<u8>, id: Seq<u8>, w: u128) -> Seq<u8> {
    leader_v1() + beacon + id + be128(w)
}

/// The score of validator `v` under `beacon`: the last 16 bytes of the SHA3-256
/// digest of the label, the beacon, the identifier and the big-endian weight.
pub open spec fn leader_score(beacon: Seq<u8>, v: (NodeId, Q, Q, Q)) -> nat {
    let w = spec_final_weight(v.1, v.2, v.3) as u128;
    be_value(sha3_256_digest(leader_input(beacon, v.0@, w)).subrange(16, 32))
}

/// Index `i` holds the highest score, and every later validator scores lower.
pub open spec fn is_leader_index(beacon: Seq<u8>, vals: Seq<(NodeId, Q, Q, Q)>, i: int) -> bool {
    &&& 0 <= i < vals.len()
    &&& forall|j: int| 0 <= j < vals.len() ==> leader_score(beacon, #[trigger] vals[j]) <= leader_score(beacon, vals[i])
    &&& forall|j: int| i < j < vals.len() ==> leader_score(beacon, #[trigger] vals[j]) < leader_score(beacon, vals[i])
}

/// The weight grows with trust when quality and stake are held fixed.
pub proof fn lemma_weight_monotone_in_trust(t1: Q, t2: Q, quality_q: Q, stake_q: Q)
    requires
        t1 > t2,
    ensures
        spec_final_weight(t1, quality_q, stake_q) > spec_final_weight(t2, quality_q, stake_q),
{
}

/// At most one index is the leader index, so the leader is determined by the beacon
/// and the validator list.
pub proof fn lemma_leader_index_unique(beacon: Seq<u8>, vals: Seq<(NodeId, Q, Q, Q)>, i: int, k: int)
    requires
        is_leader_index(beacon, vals, i),
        is_leader_index(beacon, vals, k),
    ensures
        i == k,
{
    if i < k {
        assert(leader_score(beacon, vals[k]) < leader_score(beacon, vals[i]));
        assert(leader_score(beacon, vals[i]) <= leader_score(beacon, vals[k]));
    } else if k < i {
        assert(leader_score(beacon, vals[i]) < leader_score(beacon, vals[k]));
        assert(leader_score(beacon, vals[k]) <= leader_score(beacon, vals[i]));
    }
}

proof fn lemma_be_value_concat(a: Seq<u8>, b: Seq<u8>)
    ensures
        be_value(a + b) == be_value(a) * pow256(b.len()) + be_value(b),
    decreases b.len(),
{
    if b.len() == 0 {
        assert(a + b =~= a);
        assert(pow256(0) == 1);
        assert(be_value(b) == 0);
        assert(be_value(a) * 1 == be_value(a));
    } else {
        let b1 = b.drop_last();
        assert((a + b).drop_last() =~= a + b1);
        assert((a + b).last() == b.last());
        lemma_be_value_concat(a, b1);
        let x = be_value(a);
        let p = pow256(b1.len());
        let y = be_value(b1);
        let l = b.last() as nat;
        assert((x * p + y) * 256 + l == x * (256 * p) + (y * 256 + l)) by (nonlinear_arith);
        assert(pow256(b.len()) == 256 * p);
        assert(be_value(b) == y * 256 + l);
        assert(be_value(a + b) == be_value(a + b1) * 256 + l);
        assert(be_value(a + b) == x * (256 * p) + (y * 256 + l));
        assert(x * pow256(b.len()) == x * (256 * p));
    }
}

/// A validator's score is its SHA3-256 digest, read as a 256-bit big-endian number,
/// reduced modulo `2^128`: the low half of the digest, never the high half.
pub proof fn lemma_leader_score_is_low_half(beacon: Seq<u8>, v: (NodeId, Q, Q, Q))
    requires
        sha3_256_digest(leader_input(beacon, v.0@, spec_final_weight(v.1, v.2, v.3) as u128)).len() == 32,
    ensures
        leader_score(beacon, v) == be_value(
            sha3_256_digest(leader_input(beacon, v.0@, spec_final_weight(v.1, v.2, v.3) as u128)),
        ) as int % (u128::MAX as int + 1),
{
    let d = sha3_256_digest(leader_input(beacon, v.0@, spec_final_weight(v.1, v.2, v.3) as u128));
    let hi = d.subrange(0, 16);
    let lo = d.subrange(16, 32);
    assert(d =~= hi + lo);
    lemma_be_value_concat(hi, lo);
    lemma_be_value_bound(lo);
    reveal_with_fuel(pow256, 17);
    assert(pow256(16) == u128::MAX as int + 1);
    vstd::arithmetic::div_mod::lemma_fundamental_div_mod_converse(
        be_value(d) as int,
        pow256(16) as int,
        be_value(hi) as int,
        be_value(lo) as int,
    );
}

fn validator_score(beacon: &[u8; 32], v: &(NodeId, Q, Q, Q)) -> (s: u128)
    ensures
        s == leader_score(beacon@, *v),
{
    let w = compute_final_weight_q(v.1, v.2, v.3);
    let mut buf = leader_v1_bytes();
    append_bytes(&mut buf, beacon);
    append_bytes(&mut buf, &v.0);
    append_u128_be(&mut buf, w);
    proof {
        assert(buf@ =~= leader_input(beacon@, v.0@, w));
    }
    let digest = sha3_sha3_256(buf.as_slice());
    be_u128_at(&digest, 16)
}

/// The leader for `beacon`: the validator with the highest score, the last of them
/// where several share it; `None` for no validators.
pub fn select_leader_deterministic(beacon: [u8; 32], validators: &[(NodeId, Q, Q, Q)]) -> (r: Option<NodeId>)
    ensures
        r is None <==> validators@.len() == 0,
        r matches Some(id) ==> exists|i: int|
            is_leader_index(beacon@, validators@, i) && #[trigger] validators@[i].0 == id,
{
    let n = validators.len();
    if n == 0 {
        return None;
    }
    let mut best: usize = 0;
    let mut best_score = validator_score(&beacon, &validators[0]);
    let mut i: usize = 1;
    while i < n
        invariant
            n == validators@.len(),
            1 <= i <= n,
            best < i,
            best_score == leader_score(beacon@, validators@[best as int]),
            forall|j: int| 0 <= j < i ==> leader_score(beacon@, #[trigger] validators@[j]) <= best_score,
            forall|j: int| best < j < i ==> leader_score(beacon@, #[trigger] validators@[j]) < best_score,
        decreases n - i,
    {
        let s = validator_score(&beacon, &validators[i]);
        if s >= best_score {
            best = i;
            best_score = s;
        }
        i = i + 1;
    }
    let id = validators[best].0;
    assert(is_leader_index(beacon@, validators@, best as int));
    Some(id)
}

} // verus!
