//! Leader sortition: a validator is eligible in a slot when its eligibility
//! hash falls under a bound proportional to its share of the epoch's weight.
use vstd::prelude::*;
use crate::bytes::{append_bytes, append_u64_le, le64, be_value, be_u64_prefix};
use crate::crypto_kmac_consensus::{kmac256_hash_data, spec_consensus_hash};
use crate::qmath::{
    Q, ONE_Q, q_scale, min_int, max_int, spec_qmul, spec_qdiv, spec_qclamp01, qmul, qdiv, qclamp01,
    lemma_qmul_monotone, lemma_qdiv_monotone, lemma_q_nonneg,
};
use crate::pot::trust::{NodeId, TrustParams, TrustState, spec_step};
use crate::pot::registry::{Registry, eligible};
use crate::pot::epoch::EpochSnapshot;
use crate::pot::randao::RandaoBeacon;
use crate::pot::merkle::{MerkleProof, merkle_leaf_hash, verify_merkle, fold_path, spec_leaf_hash, views32};
use crate::snapshot::{WeightWitnessV1, SnapshotWitnessExt};
use crate::tags::{elig_v1, elig_v1_bytes};

verus! {

/// Protocol parameters of Proof-of-Trust.
#[derive(Clone, Copy, Debug)]
pub struct PotParams {
    pub trust: TrustParams,
    pub lambda_q: Q,
    pub min_bond: u64,
    pub slash_noreveal_bps: u32,
}

/// A leader's claim for a slot, with the Merkle proof of its weight.
#[derive(Debug)]
pub struct LeaderWitness {
    pub who: NodeId,
    pub slot: u64,
    pub epoch: u64,
    pub weights_root: [u8; 32],
    pub weight_proof: MerkleProof,
    pub stake_q: Q,
    pub trust_q: Q,
}

impl Clone for LeaderWitness {
    fn clone(&self) -> (r: Self)
        ensures
            r.who == self.who && r.slot == self.slot && r.epoch == self.epoch
                && r.weights_root == self.weights_root && r.stake_q == self.stake_q
                && r.trust_q == self.trust_q && r.weight_proof.leaf_index == self.weight_proof.leaf_index
                && r.weight_proof.siblings@ == self.weight_proof.siblings@,
    {
        LeaderWitness {
            who: self.who,
            slot: self.slot,
            epoch: self.epoch,
            weights_root: self.weights_root,
            weight_proof: self.weight_proof.clone(),
            stake_q: self.stake_q,
            trust_q: self.trust_q,
        }
    }
}

/// Eligibility hash of `who` in `slot` under `beacon`: the first eight bytes of the
/// consensus hash, big-endian.
pub open spec fn spec_elig_hash(beacon: Seq<u8>, slot: u64, who: Seq<u8>) -> nat {
    be_value(spec_consensus_hash(elig_v1(), beacon + le64(slot) + who).subrange(0, 8))
}

/// The eligibility bound of probability `p_q`: `p_q * 2^32`, saturating.
pub open spec fn spec_bound(p_q: int) -> int {
    min_int(p_q * q_scale(), u64::MAX as int)
}

/// The smallest total weight used when dividing (one millionth).
pub open spec fn min_sum_weights() -> int {
    4294
}

/// Probability threshold `min(1, lambda * (stake * min(trust, 1)) / max(sum, 1e-6))`.
pub open spec fn spec_prob_threshold(lambda_q: int, stake_q: int, trust_q: int, sum_weights_q: int) -> int {
    spec_qclamp01(
        spec_qmul(lambda_q, spec_qdiv(spec_qmul(stake_q, spec_qclamp01(trust_q)), max_int(sum_weights_q, min_sum_weights()))),
    )
}

/// The weight of a winning draw `y`: `2^64 / (y + 1)`.
pub open spec fn draw_weight(y: nat) -> u128 {
    (18446744073709551616nat / (y + 1)) as u128
}

/// Outcome of the common leader checks.
pub open spec fn spec_leader_weight(
    reg: Registry,
    snap: EpochSnapshot,
    beacon: RandaoBeacon,
    params: PotParams,
    epoch: u64,
    slot: u64,
    who: NodeId,
    stake_q: Q,
    trust_q: Q,
) -> Option<u128> {
    if !(reg.view().contains_key(who) && eligible(reg.view()[who], params.min_bond)) {
        None
    } else if epoch != snap.epoch {
        None
    } else if snap.sum_weights_q == 0 {
        None
    } else {
        let y = spec_elig_hash(beacon.spec_value(epoch, slot), slot, who@);
        if y > spec_bound(spec_prob_threshold(params.lambda_q as int, stake_q as int, trust_q as int, snap.sum_weights_q as int)) {
            None
        } else {
            Some(draw_weight(y))
        }
    }
}

/// Eligibility hash of `who` in `slot` under `beacon`.
pub fn elig_hash(beacon: &[u8; 32], slot: u64, who: &NodeId) -> (y: u64)
    ensures
        y == spec_elig_hash(beacon@, slot, who@),
{
    let mut data: Vec<u8> = Vec::new();
    append_bytes(&mut data, beacon);
    append_u64_le(&mut data, slot);
    append_bytes(&mut data, who);
    let tag = elig_v1_bytes();
    let hash = kmac256_hash_data(tag.as_slice(), data.as_slice());
    be_u64_prefix(&hash)
}

/// The eligibility bound of probability `p_q`.
pub fn bound_u64(p_q: Q) -> (b: u64)
    ensures
        b == spec_bound(p_q as int),
{
    let z: u128 = (p_q as u128) * 4294967296u128;
    if z > 18446744073709551615u128 { u64::MAX } else { z as u64 }
}

/// Probability threshold of a validator with `stake_q` and `trust_q` given the total weight.
pub fn prob_threshold_q(lambda_q: Q, stake_q: Q, trust_q: Q, sum_weights_q: Q) -> (p: Q)
    ensures
        p == spec_prob_threshold(lambda_q as int, stake_q as int, trust_q as int, sum_weights_q as int),
        p <= ONE_Q,
{
    let floor: Q = ONE_Q / 1_000_000;
    let sum = if sum_weights_q > floor { sum_weights_q } else { floor };
    let wi = qmul(stake_q, qclamp01(trust_q));
    qclamp01(qmul(lambda_q, qdiv(wi, sum)))
}

/// The probability threshold never decreases when the stake grows.
pub proof fn lemma_prob_threshold_monotone_in_stake(lambda_q: Q, s1: Q, s2: Q, trust_q: Q, sum_weights_q: Q)
    requires
        s1 <= s2,
    ensures
        spec_prob_threshold(lambda_q as int, s1 as int, trust_q as int, sum_weights_q as int)
            <= spec_prob_threshold(lambda_q as int, s2 as int, trust_q as int, sum_weights_q as int),
{
    let t = spec_qclamp01(trust_q as int);
    let sum = max_int(sum_weights_q as int, min_sum_weights());
    lemma_qmul_monotone(s1 as int, s2 as int, t, t);
    lemma_q_nonneg(s1 as int, t);
    lemma_qdiv_monotone(spec_qmul(s1 as int, t), spec_qmul(s2 as int, t), sum);
    lemma_q_nonneg(spec_qmul(s1 as int, t), sum);
    lemma_qmul_monotone(
        lambda_q as int,
        lambda_q as int,
        spec_qdiv(spec_qmul(s1 as int, t), sum),
        spec_qdiv(spec_qmul(s2 as int, t), sum),
    );
}

/// With `lambda` zero nobody is ever eligible: the threshold is zero.
pub proof fn lemma_prob_threshold_zero_lambda(stake_q: Q, trust_q: Q, sum_weights_q: Q)
    ensures
        spec_prob_threshold(0, stake_q as int, trust_q as int, sum_weights_q as int) == 0,
{
    let x = spec_qdiv(
        spec_qmul(stake_q as int, spec_qclamp01(trust_q as int)),
        max_int(sum_weights_q as int, min_sum_weights()),
    );
    assert(0 * x == 0);
}

/// The threshold never decreases when `lambda` grows.
pub proof fn lemma_prob_threshold_monotone_in_lambda(l1: Q, l2: Q, stake_q: Q, trust_q: Q, sum_weights_q: Q)
    requires
        l1 <= l2,
    ensures
        spec_prob_threshold(l1 as int, stake_q as int, trust_q as int, sum_weights_q as int)
            <= spec_prob_threshold(l2 as int, stake_q as int, trust_q as int, sum_weights_q as int),
{
    let t = spec_qclamp01(trust_q as int);
    let sum = max_int(sum_weights_q as int, min_sum_weights());
    lemma_q_nonneg(stake_q as int, t);
    let wi = spec_qmul(stake_q as int, t);
    lemma_q_nonneg(wi, sum);
    let x = spec_qdiv(wi, sum);
    lemma_qmul_monotone(l1 as int, l2 as int, x, x);
}

/// A validator that holds at most the whole weight (`stake * min(trust, 1) <= sum`)
/// has a threshold of at most `lambda`.
pub proof fn lemma_prob_threshold_at_most_lambda(lambda_q: Q, stake_q: Q, trust_q: Q, sum_weights_q: Q)
    requires
        (stake_q as int) * min_int(trust_q as int, q_scale()) <= (sum_weights_q as int) * q_scale(),
    ensures
        spec_prob_threshold(lambda_q as int, stake_q as int, trust_q as int, sum_weights_q as int) <= lambda_q,
{
    let t = spec_qclamp01(trust_q as int);
    let s = stake_q as int;
    let sum = max_int(sum_weights_q as int, min_sum_weights());
    assert(0 <= t);
    assert(s * t >= 0) by (nonlinear_arith) requires s >= 0, t >= 0;
    assert((s * t) / q_scale() <= sum_weights_q as int) by (nonlinear_arith)
        requires s * t <= (sum_weights_q as int) * q_scale(), s * t >= 0;
    let wi = spec_qmul(s, t);
    assert(0 <= wi <= sum);
    assert(sum > 0);
    assert((wi * q_scale()) / sum <= q_scale()) by (nonlinear_arith)
        requires 0 <= wi <= sum, sum > 0;
    lemma_q_nonneg(wi, sum);
    let x = spec_qdiv(wi, sum);
    assert(0 <= x <= q_scale());
    let l = lambda_q as int;
    assert((l * x) / q_scale() <= l) by (nonlinear_arith)
        requires 0 <= x <= q_scale(), l >= 0;
}

/// A validator that holds exactly the whole weight has the threshold `min(lambda, 1)`.
pub proof fn lemma_prob_threshold_whole_weight(lambda_q: Q, stake_q: Q, trust_q: Q, sum_weights_q: Q)
    requires
        ((stake_q as int) * min_int(trust_q as int, q_scale())) / q_scale() == sum_weights_q as int,
        sum_weights_q >= min_sum_weights(),
    ensures
        spec_prob_threshold(lambda_q as int, stake_q as int, trust_q as int, sum_weights_q as int) == min_int(
            lambda_q as int,
            q_scale(),
        ),
{
    let sum = sum_weights_q as int;
    assert(spec_qmul(stake_q as int, spec_qclamp01(trust_q as int)) == sum);
    assert((sum * q_scale()) / sum == q_scale()) by (nonlinear_arith)
        requires sum > 0;
    assert(spec_qdiv(sum, sum) == q_scale());
    let l = lambda_q as int;
    assert((l * q_scale()) / q_scale() == l) by (nonlinear_arith);
}

/// Trust counts at most as one: a trust above one gives the threshold of trust one.
pub proof fn lemma_prob_threshold_trust_capped(lambda_q: Q, stake_q: Q, trust_q: Q, sum_weights_q: Q)
    requires
        trust_q >= ONE_Q,
    ensures
        spec_prob_threshold(lambda_q as int, stake_q as int, trust_q as int, sum_weights_q as int)
            == spec_prob_threshold(lambda_q as int, stake_q as int, ONE_Q as int, sum_weights_q as int),
{
}

/// A validator without stake is never eligible: its threshold is zero.
pub proof fn lemma_prob_threshold_zero_stake(lambda_q: Q, trust_q: Q, sum_weights_q: Q)
    ensures
        spec_prob_threshold(lambda_q as int, 0, trust_q as int, sum_weights_q as int) == 0,
{
    let t = spec_qclamp01(trust_q as int);
    assert(0 * t == 0);
    let sum = max_int(sum_weights_q as int, min_sum_weights());
    assert((0 * q_scale()) / sum == 0);
    let l = lambda_q as int;
    assert(l * 0 == 0);
}

/// The threshold never grows when the total weight grows.
pub proof fn lemma_prob_threshold_antitone_in_sum(lambda_q: Q, stake_q: Q, trust_q: Q, sum1: Q, sum2: Q)
    requires
        sum1 <= sum2,
    ensures
        spec_prob_threshold(lambda_q as int, stake_q as int, trust_q as int, sum2 as int)
            <= spec_prob_threshold(lambda_q as int, stake_q as int, trust_q as int, sum1 as int),
{
    let t = spec_qclamp01(trust_q as int);
    lemma_q_nonneg(stake_q as int, t);
    let wi = spec_qmul(stake_q as int, t);
    let d1 = max_int(sum1 as int, min_sum_weights());
    let d2 = max_int(sum2 as int, min_sum_weights());
    assert(0 < d1 <= d2);
    assert(wi * q_scale() >= 0) by (nonlinear_arith) requires wi >= 0;
    vstd::arithmetic::div_mod::lemma_div_is_ordered_by_denominator(wi * q_scale(), d1, d2);
    lemma_q_nonneg(wi, d2);
    lemma_qmul_monotone(lambda_q as int, lambda_q as int, spec_qdiv(wi, d2), spec_qdiv(wi, d1));
}

/// The checks shared by every leader verification path.
fn verify_leader_common(
    reg: &Registry,
    epoch_snap: &EpochSnapshot,
    beacon: &RandaoBeacon,
    params: &PotParams,
    epoch: u64,
    slot: u64,
    who: &NodeId,
    stake_q: Q,
    trust_q: Q,
) -> (r: Option<u128>)
    requires
        reg.wf(),
        beacon.wf(),
    ensures
        r == spec_leader_weight(*reg, *epoch_snap, *beacon, *params, epoch, slot, *who, stake_q, trust_q),
{
    if !reg.is_active(who, params.min_bond) {
        return None;
    }
    if epoch != epoch_snap.epoch {
        return None;
    }
    if epoch_snap.sum_weights_q == 0 {
        return None;
    }
    let p_q = prob_threshold_q(params.lambda_q, stake_q, trust_q, epoch_snap.sum_weights_q);
    let b = beacon.value(epoch, slot);
    let y = elig_hash(&b, slot, who);
    if y > bound_u64(p_q) {
        return None;
    }
    let denom: u128 = (y as u128) + 1;
    let weight: u128 = 18446744073709551616u128 / denom;
    Some(weight)
}

/// Verifies a leader claim (weight proof, activity, epoch, sortition draw); on success
/// applies one trust step to the leader and returns the draw's weight.
pub fn verify_leader_and_update_trust(
    reg: &Registry,
    epoch_snap: &EpochSnapshot,
    beacon: &RandaoBeacon,
    trust_state: &mut TrustState,
    params: &PotParams,
    wit: &LeaderWitness,
) -> (r: Option<u128>)
    requires
        reg.wf(),
        beacon.wf(),
        old(trust_state).wf(),
    ensures
        final(trust_state).wf(),
        r == (if wit.weights_root == epoch_snap.weights_root && fold_path(
            spec_leaf_hash(wit.who@, wit.stake_q, wit.trust_q),
            wit.weight_proof.leaf_index as int,
            views32(wit.weight_proof.siblings@),
        ) == epoch_snap.weights_root@ {
            spec_leader_weight(*reg, *epoch_snap, *beacon, *params, wit.epoch, wit.slot, wit.who, wit.stake_q, wit.trust_q)
        } else {
            None
        }),
        r.is_some() ==> final(trust_state).view() == old(trust_state).view().insert(
            wit.who,
            spec_step(params.trust, old(trust_state).trust_of(wit.who, params.trust.init_q) as int) as Q,
        ),
        r.is_none() ==> final(trust_state).view() == old(trust_state).view(),
{
    if !crate::bytes::eq32(&wit.weights_root, &epoch_snap.weights_root) {
        proof {
            if wit.weights_root == epoch_snap.weights_root {
                assert(wit.weights_root@ == epoch_snap.weights_root@);
            }
        }
        return None;
    }
    proof {
        assert(wit.weights_root =~= epoch_snap.weights_root);
    }
    let leaf = merkle_leaf_hash(&wit.who, wit.stake_q, wit.trust_q);
    if !verify_merkle(&wit.weight_proof, leaf, epoch_snap.weights_root) {
        return None;
    }
    let weight = match verify_leader_common(
        reg, epoch_snap, beacon, params, wit.epoch, wit.slot, &wit.who, wit.stake_q, wit.trust_q,
    ) {
        Some(w) => w,
        None => return None,
    };
    trust_state.apply_block_reward(&wit.who, params.trust);
    Some(weight)
}

/// Verifies a leader claim given as a compact weight witness; on success applies one
/// trust step to the leader and returns the draw's weight.
pub fn verify_leader_with_witness(
    reg: &Registry,
    epoch_snap: &EpochSnapshot,
    beacon: &RandaoBeacon,
    trust_state: &mut TrustState,
    params: &PotParams,
    epoch: u64,
    slot: u64,
    wit: &WeightWitnessV1,
) -> (r: Option<u128>)
    requires
        reg.wf(),
        beacon.wf(),
        epoch_snap.wf(),
        old(trust_state).wf(),
    ensures
        final(trust_state).wf(),
        r == (if epoch_snap.witness_accepts(*wit) {
            spec_leader_weight(*reg, *epoch_snap, *beacon, *params, epoch, slot, wit.who, wit.stake_q, wit.trust_q)
        } else {
            None
        }),
        r.is_some() ==> final(trust_state).view() == old(trust_state).view().insert(
            wit.who,
            spec_step(params.trust, old(trust_state).trust_of(wit.who, params.trust.init_q) as int) as Q,
        ),
        r.is_none() ==> final(trust_state).view() == old(trust_state).view(),
{
    if !epoch_snap.verify_witness(wit) {
        return None;
    }
    let weight = match verify_leader_common(
        reg, epoch_snap, beacon, params, epoch, slot, &wit.who, wit.stake_q, wit.trust_q,
    ) {
        Some(w) => w,
        None => return None,
    };
    trust_state.apply_block_reward(&wit.who, params.trust);
    Some(weight)
}

} // verus!
