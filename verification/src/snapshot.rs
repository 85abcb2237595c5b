//! Compact weight witnesses: a validator's recorded weight plus its Merkle
//! path, checked against an epoch snapshot.
use vstd::prelude::*;
use crate::bytes::eq32;
use crate::pot::trust::NodeId;
use crate::pot::epoch::{EpochSnapshot, lemma_snapshot_proof_verifies};
use crate::pot::merkle::{
    copy_nodes, fold_path, fold_to_root, merkle_leaf_hash, proof_siblings, spec_leaf_hash, views32,
};
use crate::qmath::Q;

verus! {

/// A validator's weight in a snapshot together with its Merkle path.
#[derive(Debug)]
pub struct WeightWitnessV1 {
    pub who: NodeId,
    pub stake_q: Q,
    pub trust_q: Q,
    pub leaf_index: u64,
    pub siblings: Vec<[u8; 32]>,
}

/// `i` is the first position of `who` in `s`.
pub open spec fn is_first_index(s: Seq<NodeId>, who: NodeId, i: int) -> bool {
    0 <= i < s.len() && s[i] == who && forall|j: int| 0 <= j < i ==> s[j] != who
}

impl WeightWitnessV1 {
    /// A witness from its parts.
    pub fn new(who: NodeId, stake_q: Q, trust_q: Q, leaf_index: u64, siblings: Vec<[u8; 32]>) -> (w: Self)
        ensures
            w.who == who,
            w.stake_q == stake_q,
            w.trust_q == trust_q,
            w.leaf_index == leaf_index,
            w.siblings@ == siblings@,
    {
        Self { who, stake_q, trust_q, leaf_index, siblings }
    }

    /// The root the witness leads to.
    pub open spec fn spec_root(&self) -> Seq<u8> {
        fold_path(spec_leaf_hash(self.who@, self.stake_q, self.trust_q), self.leaf_index as int, views32(self.siblings@))
    }

    /// Whether the witness's path leads to `root`.
    pub fn verify_against_root(&self, root: &[u8; 32]) -> (b: bool)
        ensures
            b <==> self.spec_root() == root@,
    {
        let leaf = merkle_leaf_hash(&self.who, self.stake_q, self.trust_q);
        let acc = fold_to_root(leaf, self.leaf_index, &self.siblings);
        eq32(&acc, root)
    }
}

impl Clone for WeightWitnessV1 {
    fn clone(&self) -> (r: Self)
        ensures
            r.who == self.who,
            r.stake_q == self.stake_q,
            r.trust_q == self.trust_q,
            r.leaf_index == self.leaf_index,
            r.siblings@ == self.siblings@,
    {
        WeightWitnessV1 {
            who: self.who,
            stake_q: self.stake_q,
            trust_q: self.trust_q,
            leaf_index: self.leaf_index,
            siblings: copy_nodes(&self.siblings),
        }
    }
}

/// Verifying and producing weight witnesses for a snapshot.
pub trait SnapshotWitnessExt {
    /// The snapshot is well formed.
    spec fn witness_wf(&self) -> bool;

    /// `wit` is accepted by the snapshot.
    spec fn witness_accepts(&self, wit: WeightWitnessV1) -> bool;

    /// A witness can be produced for `who`.
    spec fn witness_available(&self, who: NodeId) -> bool;

    /// `wit` is the witness the snapshot produces for `who`.
    spec fn witness_for(&self, who: NodeId, wit: WeightWitnessV1) -> bool;

    /// Checks `wit` against this snapshot.
    fn verify_witness(&self, wit: &WeightWitnessV1) -> (b: bool)
        requires
            self.witness_wf(),
        ensures
            b == self.witness_accepts(*wit),
    ;

    /// The witness of `who`, if `who` is in the snapshot.
    fn build_witness(&self, who: &NodeId) -> (r: Option<WeightWitnessV1>)
        requires
            self.witness_wf(),
        ensures
            r.is_some() == self.witness_available(*who),
            r.is_some() ==> self.witness_for(*who, r.unwrap()),
    ;
}

impl SnapshotWitnessExt for EpochSnapshot {
    open spec fn witness_wf(&self) -> bool {
        self.wf()
    }

    /// Accepted: the recorded stake and trust of `who` match, `leaf_index` is the first
    /// position of `who`, and the path leads to `weights_root`.
    open spec fn witness_accepts(&self, wit: WeightWitnessV1) -> bool {
        &&& wit.stake_q == self.spec_stake_q_of(wit.who)
        &&& wit.trust_q == self.spec_trust_q_of(wit.who)
        &&& is_first_index(self.order@, wit.who, wit.leaf_index as int)
        &&& wit.spec_root() == self.weights_root@
    }

    open spec fn witness_available(&self, who: NodeId) -> bool {
        self.order@.contains(who)
    }

    open spec fn witness_for(&self, who: NodeId, wit: WeightWitnessV1) -> bool {
        &&& wit.who == who
        &&& wit.stake_q == self.spec_stake_q_of(who)
        &&& wit.trust_q == self.spec_trust_q_of(who)
        &&& is_first_index(self.order@, who, wit.leaf_index as int)
        &&& views32(wit.siblings@) == proof_siblings(self.leaves(), wit.leaf_index as int)
    }

    fn verify_witness(&self, wit: &WeightWitnessV1) -> (b: bool) {
        if wit.stake_q != self.stake_q_of(&wit.who) {
            return false;
        }
        if wit.trust_q != self.trust_q_of(&wit.who) {
            return false;
        }
        match self.leaf_index_of(&wit.who) {
            Some(idx) => {
                if idx != wit.leaf_index {
                    return false;
                }
            },
            None => return false,
        }
        wit.verify_against_root(&self.weights_root)
    }

    fn build_witness(&self, who: &NodeId) -> (r: Option<WeightWitnessV1>) {
        let stake_q = self.stake_q_of(who);
        let trust_q = self.trust_q_of(who);
        let proof = match self.build_proof(who) {
            Some(p) => p,
            None => return None,
        };
        Some(WeightWitnessV1::new(*who, stake_q, trust_q, proof.leaf_index, proof.siblings))
    }
}

/// In a consistent snapshot, the witness built for a validator is accepted.
pub proof fn lemma_built_witness_accepted(s: EpochSnapshot, who: NodeId, wit: WeightWitnessV1)
    requires
        s.consistent(),
        s.witness_for(who, wit),
    ensures
        s.witness_accepts(wit),
{
    lemma_snapshot_proof_verifies(s, wit.leaf_index as int);
}

} // verus!
