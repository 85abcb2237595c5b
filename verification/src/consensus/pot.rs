//! Proof-of-Trust eligibility checks and trust updates.
use vstd::prelude::*;
use crate::bytes::{be_value, be_u64_prefix, le64};
use crate::crypto::{kmac256_hash, spec_kmac256_hash_v2};
use crate::crypto_kmac_consensus::views_of;
use crate::consensus::types::{NodeId, Q, ONE_Q, PotParams, TrustParams, TrustState, LeaderWitness};
use crate::consensus::snapshot::{EpochSnapshot, qmul, spec_qmul_trunc};
use crate::tags::{elig_v1, elig_v1_bytes};

verus! {

/// Why an eligibility check was refused.
#[derive(Debug, Clone, Copy, PartialEq, Eq)]
pub enum EligibilityError {
    WeightsRootMismatch,
    NotInSnapshot,
}

/// Eligibility hash of `who` in `slot` under `beacon`.
pub open spec fn spec_elig(beacon: Seq<u8>, slot: u64, who: Seq<u8>) -> nat {
    be_value(spec_kmac256_hash_v2(elig_v1(), seq![beacon, le64(slot), who]).subrange(0, 8))
}

/// Threshold `((lambda * weight) << 32) / sum`, truncated to 64 bits.
pub open spec fn spec_threshold(lambda_q: Q, weight_q: Q, sum_weights_q: u128) -> Q {
    ((spec_qmul_trunc(lambda_q, weight_q) as int * 4294967296) / (sum_weights_q as int)) as Q
}

/// Trust after a block: +1% (capped at the maximum) on success, -10% (floored at the
/// minimum) on failure.
pub open spec fn spec_updated_trust(tp: TrustParams, current: Q, success: bool) -> Q {
    if success {
        let raised = current as int + spec_qmul_trunc(current, ONE_Q / 100) as int;
        let sat = if raised > u64::MAX { u64::MAX as int } else { raised };
        if sat < tp.max_trust_q { sat as Q } else { tp.max_trust_q }
    } else {
        let lowered = current as int - spec_qmul_trunc(current, ONE_Q / 10) as int;
        let sat = if lowered < 0 { 0 } else { lowered };
        if sat > tp.min_trust_q { sat as Q } else { tp.min_trust_q }
    }
}

/// The eligibility engine.
pub struct PotConsensus {
    pub params: PotParams,
    pub trust_params: TrustParams,
}

impl PotConsensus {
    /// An engine with the given parameters.
    pub fn new(params: PotParams, trust_params: TrustParams) -> (c: Self)
        ensures
            c.params == params,
            c.trust_params == trust_params,
    {
        Self { params, trust_params }
    }

    /// Eligibility hash of `who` in `slot` under `beacon`.
    pub fn elig_hash(&self, beacon: &[u8; 32], slot: u64, who: &NodeId) -> (y: u64)
        ensures
            y == spec_elig(beacon@, slot, who@),
    {
        let s = vstd::bytes::u64_to_le_bytes(slot);
        let parts: [&[u8]; 3] = [beacon, s.as_slice(), who];
        let tag = elig_v1_bytes();
        let hash = kmac256_hash(tag.as_slice(), &parts);
        assert(views_of(parts@) =~= seq![beacon@, le64(slot), who@]);
        be_u64_prefix(&hash)
    }

    /// Eligibility threshold of a validator of weight `weight_q` among `sum_weights_q`.
    pub fn compute_threshold_q(&self, weight_q: Q, sum_weights_q: u128) -> (r: Option<Q>)
        requires
            sum_weights_q != 0,
        ensures
            r == Some(spec_threshold(self.params.lambda_q, weight_q, sum_weights_q)),
    {
        let numerator: u128 = qmul(self.params.lambda_q, weight_q) as u128;
        let threshold = ((numerator * 4294967296u128) / sum_weights_q) as Q;
        Some(threshold)
    }

    /// Checks the witness against the snapshot and reports whether its eligibility hash is
    /// under the validator's bound.
    pub fn verify_leader_eligibility(
        &self,
        snapshot: &EpochSnapshot,
        beacon: &[u8; 32],
        witness: &LeaderWitness,
    ) -> (r: Result<bool, EligibilityError>)
        requires
            snapshot.weights.wf(),
            snapshot.total_weight_q != 0,
        ensures
            witness.weights_root != snapshot.weights_root ==> r == Err::<bool, EligibilityError>(EligibilityError::WeightsRootMismatch),
            witness.weights_root == snapshot.weights_root && !snapshot.weights.view().contains_key(witness.who)
                ==> r == Err::<bool, EligibilityError>(EligibilityError::NotInSnapshot),
            witness.weights_root == snapshot.weights_root && snapshot.weights.view().contains_key(witness.who)
                ==> r == Ok::<bool, EligibilityError>(
                    spec_elig(beacon@, witness.slot, witness.who@) < spec_qmul_trunc(
                        spec_threshold(self.params.lambda_q, snapshot.weights.view()[witness.who], snapshot.total_weight_q),
                        u64::MAX,
                    ),
                ),
    {
        if !crate::bytes::eq32(&witness.weights_root, &snapshot.weights_root) {
            proof {
                if witness.weights_root == snapshot.weights_root {
                    assert(witness.weights_root@ == snapshot.weights_root@);
                }
            }
            return Err(EligibilityError::WeightsRootMismatch);
        }
        proof {
            assert(witness.weights_root =~= snapshot.weights_root);
        }
        let weight = match snapshot.get_weight(&witness.who) {
            Some(w) => w,
            None => return Err(EligibilityError::NotInSnapshot),
        };
        let threshold = match self.compute_threshold_q(weight, snapshot.total_weight_q) {
            Some(t) => t,
            None => return Err(EligibilityError::NotInSnapshot),
        };
        let elig = self.elig_hash(beacon, witness.slot, &witness.who);
        let bound = qmul(threshold, u64::MAX);
        Ok(elig < bound)
    }

    /// Raises trust by 1% (capped) after a good block, lowers it by 10% (floored) otherwise.
    pub fn update_trust(&self, trust_state: &mut TrustState, who: &NodeId, success: bool)
        requires
            old(trust_state).trust.wf(),
        ensures
            final(trust_state).trust.wf(),
            final(trust_state).last_slot == old(trust_state).last_slot,
            final(trust_state).trust.view() == old(trust_state).trust.view().insert(
                *who,
                spec_updated_trust(self.trust_params, old(trust_state).spec_trust(*who), success),
            ),
    {
        let current = trust_state.get_trust(who);
        let new_trust = if success {
            let bonus = qmul(current, ONE_Q / 100);
            let raised = current.saturating_add(bonus);
            if raised < self.trust_params.max_trust_q { raised } else { self.trust_params.max_trust_q }
        } else {
            let penalty = qmul(current, ONE_Q / 10);
            let lowered = current.saturating_sub(penalty);
            if lowered > self.trust_params.min_trust_q { lowered } else { self.trust_params.min_trust_q }
        };
        trust_state.set_trust(who, new_trust);
    }
}

/// Eligibility check with the default trust parameters.
pub fn verify_leader_eligibility(
    params: &PotParams,
    snapshot: &EpochSnapshot,
    beacon: &[u8; 32],
    witness: &LeaderWitness,
) -> (r: Result<bool, EligibilityError>)
    requires
        snapshot.weights.wf(),
        snapshot.total_weight_q != 0,
    ensures
        witness.weights_root != snapshot.weights_root ==> r == Err::<bool, EligibilityError>(EligibilityError::WeightsRootMismatch),
        witness.weights_root == snapshot.weights_root && !snapshot.weights.view().contains_key(witness.who)
            ==> r == Err::<bool, EligibilityError>(EligibilityError::NotInSnapshot),
        witness.weights_root == snapshot.weights_root && snapshot.weights.view().contains_key(witness.who)
            ==> r == Ok::<bool, EligibilityError>(
                spec_elig(beacon@, witness.slot, witness.who@) < spec_qmul_trunc(
                    spec_threshold(params.lambda_q, snapshot.weights.view()[witness.who], snapshot.total_weight_q),
                    u64::MAX,
                ),
            ),
{
    let consensus = PotConsensus::new(*params, TrustParams::default());
    consensus.verify_leader_eligibility(snapshot, beacon, witness)
}

/// Trust stays within `[min_trust, max_trust]` once it is there, whatever the outcome.
pub proof fn lemma_updated_trust_bounded(tp: TrustParams, current: Q, success: bool)
    requires
        tp.min_trust_q <= current <= tp.max_trust_q,
    ensures
        tp.min_trust_q <= spec_updated_trust(tp, current, success) <= tp.max_trust_q,
{
    let b = spec_qmul_trunc(current, ONE_Q / 100);
    let p = spec_qmul_trunc(current, ONE_Q / 10);
    assert((current as int) * ((ONE_Q / 10) as int) <= (current as int) * 4294967296) by (nonlinear_arith)
        requires current >= 0;
    assert(((current as int) * ((ONE_Q / 10) as int)) / 4294967296 <= ((current as int) * 4294967296) / 4294967296) by (nonlinear_arith)
        requires (current as int) * ((ONE_Q / 10) as int) <= (current as int) * 4294967296;
    assert(((current as int) * 4294967296) / 4294967296 == current) by (nonlinear_arith);
    assert(0 <= (current as int) * ((ONE_Q / 10) as int)) by (nonlinear_arith) requires current >= 0;
    assert(0 <= (current as int) * ((ONE_Q / 100) as int)) by (nonlinear_arith) requires current >= 0;
}

} // verus!
