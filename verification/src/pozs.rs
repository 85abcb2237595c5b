//! Proof-of-ZK-Shares: leader verification extended with an optional
//! zero-knowledge eligibility proof.  The proof system itself is a stub that
//! produces a fixed placeholder proof and accepts Groth16 proofs.
use vstd::prelude::*;
use crate::pot::{NodeId, PotParams, Q, RandaoBeacon, Registry, TrustState, EpochSnapshot};
use crate::pot::trust::spec_step;
use crate::pot::sortition::{spec_leader_weight, prob_threshold_q, elig_hash, bound_u64};

verus! {

/// Proof systems a leader proof can use.
#[derive(Clone, Copy, Debug, PartialEq, Eq)]
pub enum ZkScheme {
    Groth16BN254,
    PlonkBLS12,
    NovaRecursive,
}

/// A serialized proof.
#[derive(Debug)]
pub struct ZkProof {
    pub scheme: ZkScheme,
    pub proof_bytes: Vec<u8>,
}

/// A leader claim with an optional proof.
#[derive(Debug)]
pub struct ZkLeaderWitness {
    pub who: NodeId,
    pub slot: u64,
    pub epoch: u64,
    pub weights_root: [u8; 32],
    pub merkle_proof: Option<Vec<u8>>,
    pub stake_q: Q,
    pub trust_q: Q,
    pub zk_proof: Option<ZkProof>,
}

/// Why a proof operation failed.
#[derive(Debug, Clone, PartialEq, Eq)]
pub enum ZkError {
    UnsupportedScheme,
    InvalidProof,
    NotEligible,
    ProofGenerationFailed(String),
}

/// The placeholder proof bytes.
pub open spec fn placeholder_proof() -> Seq<u8> {
    seq![0xDEu8, 0xADu8, 0xBEu8, 0xEFu8]
}

/// A prover for one scheme.
pub struct ZkProver {
    scheme: ZkScheme,
    _proving_key: Vec<u8>,
}

impl ZkProver {
    /// The scheme the prover uses.
    pub closed spec fn spec_scheme(&self) -> ZkScheme {
        self.scheme
    }

    /// A prover for `scheme`.
    pub fn new(scheme: ZkScheme) -> (r: Result<Self, ZkError>)
        ensures
            r.is_ok(),
            r.unwrap().spec_scheme() == scheme,
    {
        Ok(Self { scheme, _proving_key: Vec::new() })
    }

    /// Produces the (placeholder) eligibility proof.
    pub fn prove_eligibility(
        &self,
        _beacon_value: &[u8; 32],
        _slot: u64,
        _who: &NodeId,
        _stake_q: Q,
        _trust_q: Q,
        _threshold_q: Q,
    ) -> (r: Result<ZkProof, ZkError>)
        ensures
            r.is_ok(),
            r.unwrap().scheme == self.spec_scheme(),
            r.unwrap().proof_bytes@ == placeholder_proof(),
    {
        let proof_bytes: Vec<u8> = vec![0xDEu8, 0xADu8, 0xBEu8, 0xEFu8];
        assert(proof_bytes@ =~= placeholder_proof());
        Ok(ZkProof { scheme: self.scheme, proof_bytes })
    }
}

/// A verifier for one scheme.
pub struct ZkVerifier {
    _scheme: ZkScheme,
    _verifying_key: Vec<u8>,
}

impl ZkVerifier {
    /// A verifier for `scheme`.
    pub fn new(scheme: ZkScheme) -> (r: Result<Self, ZkError>)
        ensures
            r.is_ok(),
    {
        Ok(Self { _scheme: scheme, _verifying_key: Vec::new() })
    }

    /// Accepts Groth16 proofs; other schemes are unsupported.
    pub fn verify_eligibility(
        &self,
        proof: &ZkProof,
        _beacon_value: &[u8; 32],
        _weights_root: &[u8; 32],
        _threshold_q: Q,
    ) -> (r: Result<bool, ZkError>)
        ensures
            proof.scheme == ZkScheme::Groth16BN254 ==> r == Ok::<bool, ZkError>(true),
            proof.scheme != ZkScheme::Groth16BN254 ==> r == Err::<bool, ZkError>(ZkError::UnsupportedScheme),
    {
        match proof.scheme {
            ZkScheme::Groth16BN254 => Ok(true),
            _ => Err(ZkError::UnsupportedScheme),
        }
    }
}

/// Verifies a leader claim classically and, when both a proof and a verifier are given,
/// its proof; on success applies one trust step to the leader and returns the weight.
pub fn verify_leader_zk(
    reg: &Registry,
    epoch_snap: &EpochSnapshot,
    beacon: &RandaoBeacon,
    trust_state: &mut TrustState,
    params: &PotParams,
    witness: &ZkLeaderWitness,
    verifier: Option<&ZkVerifier>,
) -> (r: Result<u128, ZkError>)
    requires
        reg.wf(),
        beacon.wf(),
        old(trust_state).wf(),
    ensures
        final(trust_state).wf(),
        ({
            let classical = spec_leader_weight(
                *reg, *epoch_snap, *beacon, *params, witness.epoch, witness.slot, witness.who, witness.stake_q, witness.trust_q,
            );
            &&& classical.is_none() ==> r == Err::<u128, ZkError>(ZkError::NotEligible)
            &&& classical.is_some() && witness.zk_proof.is_some() && verifier.is_some()
                && witness.zk_proof.unwrap().scheme != ZkScheme::Groth16BN254
                ==> r == Err::<u128, ZkError>(ZkError::UnsupportedScheme)
            &&& r.is_ok() <==> classical.is_some() && !(witness.zk_proof.is_some() && verifier.is_some()
                && witness.zk_proof.unwrap().scheme != ZkScheme::Groth16BN254)
            &&& r.is_ok() ==> r.unwrap() == classical.unwrap()
        }),
        r.is_ok() ==> final(trust_state).view() == old(trust_state).view().insert(
            witness.who,
            spec_step(params.trust, old(trust_state).trust_of(witness.who, params.trust.init_q) as int) as Q,
        ),
        r.is_err() ==> final(trust_state).view() == old(trust_state).view(),
{
    let weight = match verify_leader_classical(
        reg,
        epoch_snap,
        beacon,
        params,
        witness.epoch,
        witness.slot,
        &witness.who,
        witness.stake_q,
        witness.trust_q,
    ) {
        Some(w) => w,
        None => return Err(ZkError::NotEligible),
    };
    match (&witness.zk_proof, verifier) {
        (Some(proof), Some(ver)) => {
            let beacon_value = beacon.value(witness.epoch, witness.slot);
            let threshold_q = compute_threshold_q(
                params.lambda_q,
                witness.stake_q,
                witness.trust_q,
                epoch_snap.sum_weights_q,
            );
            let valid = match ver.verify_eligibility(proof, &beacon_value, &witness.weights_root, threshold_q) {
                Ok(v) => v,
                Err(e) => return Err(e),
            };
            if !valid {
                return Err(ZkError::InvalidProof);
            }
        },
        _ => {},
    }
    trust_state.apply_block_reward(&witness.who, params.trust);
    Ok(weight)
}

/// Eligibility threshold (the same formula as the classical path).
pub fn compute_threshold_q(lambda_q: Q, stake_q: Q, trust_q: Q, sum_weights_q: Q) -> (p: Q)
    ensures
        p == crate::pot::sortition::spec_prob_threshold(lambda_q as int, stake_q as int, trust_q as int, sum_weights_q as int),
{
    prob_threshold_q(lambda_q, stake_q, trust_q, sum_weights_q)
}

/// Classical leader verification: activity, epoch, nonzero total weight, sortition draw.
pub fn verify_leader_classical(
    reg: &Registry,
    epoch_snap: &EpochSnapshot,
    beacon: &RandaoBeacon,
    params: &PotParams,
    epoch: u64,
    slot: u64,
    who: &NodeId,
    stake_q: Q,
    trust_q: Q,
) -> (r: Option<u128>)
    requires
        reg.wf(),
        beacon.wf(),
    ensures
        r == spec_leader_weight(*reg, *epoch_snap, *beacon, *params, epoch, slot, *who, stake_q, trust_q),
{
    if !reg.is_active(who, params.min_bond) {
        return None;
    }
    if epoch != epoch_snap.epoch {
        return None;
    }
    if epoch_snap.sum_weights_q == 0 {
        return None;
    }
    let p_q = compute_threshold_q(params.lambda_q, stake_q, trust_q, epoch_snap.sum_weights_q);
    let b = beacon.value(epoch, slot);
    let y = elig_hash(&b, slot, who);
    if y > bound_u64(p_q) {
        return None;
    }
    let denom: u128 = (y as u128) + 1;
    let weight: u128 = 18446744073709551616u128 / denom;
    Some(weight)
}

/// Aggregation of many block proofs.
#[derive(Debug)]
pub struct AggregatedProof {
    pub block_count: u64,
    pub start_epoch: u64,
    pub start_slot: u64,
    pub end_epoch: u64,
    pub end_slot: u64,
    pub proof: ZkProof,
}

impl AggregatedProof {
    /// Folds one more block into the aggregation.
    pub fn fold(&mut self, _next_witness: &ZkLeaderWitness) -> (r: Result<(), ZkError>)
        requires
            old(self).block_count < u64::MAX,
        ensures
            r.is_ok(),
            final(self).block_count == old(self).block_count + 1,
            final(self).start_epoch == old(self).start_epoch,
            final(self).start_slot == old(self).start_slot,
            final(self).end_epoch == old(self).end_epoch,
            final(self).end_slot == old(self).end_slot,
    {
        self.block_count = self.block_count + 1;
        Ok(())
    }

    /// Accepts the aggregation.
    pub fn verify(&self, _verifier: &ZkVerifier) -> (r: Result<bool, ZkError>)
        ensures
            r == Ok::<bool, ZkError>(true),
    {
        Ok(true)
    }
}

} // verus!
