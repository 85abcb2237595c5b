//! Core consensus types.
use vstd::prelude::*;
use crate::ordmap::OrdMap;

verus! {

/// Node identifier (a public key or its hash).
pub type NodeId = [u8; 32];

/// Q32.32 fixed point.
pub type Q = u64;

/// Raw stake amount.
pub type StakeQ = u128;

/// 1.0 in Q32.32.
pub const ONE_Q: Q = 4294967296u64;

/// Consensus parameters.
#[derive(Debug, Clone, Copy)]
pub struct PotParams {
    pub epoch_length: u64,
    pub slot_duration: u64,
    pub lambda_q: Q,
    pub min_stake: u128,
}

impl Default for PotParams {
    fn default() -> (p: Self)
        ensures
            p.epoch_length == 32,
            p.slot_duration == 6,
            p.lambda_q == ONE_Q / 10,
            p.min_stake == 100_000,
    {
        PotParams { epoch_length: 32, slot_duration: 6, lambda_q: ONE_Q / 10, min_stake: 100_000 }
    }
}

/// Trust bounds and decay.
#[derive(Debug, Clone, Copy)]
pub struct TrustParams {
    pub initial_trust_q: Q,
    pub decay_per_slot: Q,
    pub min_trust_q: Q,
    pub max_trust_q: Q,
}

impl Default for TrustParams {
    fn default() -> (p: Self)
        ensures
            p.initial_trust_q == ONE_Q,
            p.decay_per_slot == 100,
            p.min_trust_q == ONE_Q / 100,
            p.max_trust_q == 2 * ONE_Q,
    {
        TrustParams { initial_trust_q: ONE_Q, decay_per_slot: 100, min_trust_q: ONE_Q / 100, max_trust_q: 2 * ONE_Q }
    }
}

/// A registered validator.
#[derive(Debug)]
pub struct ValidatorInfo {
    pub node_id: NodeId,
    pub stake: StakeQ,
    pub public_key: Vec<u8>,
    pub network_addr: String,
}

/// Validators by identifier.
#[derive(Debug)]
pub struct Registry {
    pub validators: OrdMap<NodeId, ValidatorInfo>,
}

/// Sum of the stakes of the entries.
pub open spec fn stake_sum(s: Seq<(NodeId, ValidatorInfo)>) -> int
    decreases s.len(),
{
    if s.len() == 0 { 0 } else { stake_sum(s.drop_last()) + s.last().1.stake }
}

impl Registry {
    /// The validator map is well formed and files each validator under its own identifier.
    pub open spec fn wf(&self) -> bool {
        &&& self.validators.wf()
        &&& forall|i: int| 0 <= i < self.validators.entries().len() ==> (#[trigger] self.validators.entries()[i]).1.node_id
            == self.validators.entries()[i].0
    }

    /// An empty registry.
    pub fn new() -> (r: Self)
        ensures
            r.wf(),
            r.validators.view() == Map::<NodeId, ValidatorInfo>::empty(),
    {
        Registry { validators: OrdMap::new() }
    }

    /// Registers `info` under its identifier, replacing any previous entry.
    pub fn register(&mut self, info: ValidatorInfo)
        requires
            old(self).wf(),
        ensures
            final(self).wf(),
            final(self).validators.view() == old(self).validators.view().insert(info.node_id, info),
    {
        let id = info.node_id;
        let ghost info_s = info;
        proof {
            old(self).validators.lemma_entries_in_view();
        }
        self.validators.insert(id, info);
        proof {
            let m = self.validators;
            m.lemma_entries_in_view();
            assert forall|i: int| 0 <= i < m.entries().len() implies (#[trigger] m.entries()[i]).1.node_id
                == m.entries()[i].0 by {
                let k = m.entries()[i].0;
                if k != id {
                    old(self).validators.lemma_view(k);
                    let j = choose|j: int| 0 <= j < old(self).validators.entries().len() && (#[trigger] old(self).validators.entries()[j]).0 == k;
                }
            }
        }
    }

    /// The validator registered under `node_id`.
    pub fn get(&self, node_id: &NodeId) -> (r: Option<&ValidatorInfo>)
        requires
            self.wf(),
        ensures
            r.is_some() <==> self.validators.view().contains_key(*node_id),
            r.is_some() ==> *r.unwrap() == self.validators.view()[*node_id],
    {
        self.validators.get(node_id)
    }

    /// Total registered stake.
    pub fn total_stake(&self) -> (t: StakeQ)
        requires
            self.wf(),
            stake_sum(self.validators.entries()) <= u128::MAX,
        ensures
            t == stake_sum(self.validators.entries()),
    {
        let ghost s = self.validators.entries();
        let mut total: u128 = 0;
        let mut i: usize = 0;
        while i < self.validators.len()
            invariant
                s == self.validators.entries(),
                stake_sum(s) <= u128::MAX,
                i <= s.len(),
                total == stake_sum(s.subrange(0, i as int)),
            decreases s.len() - i,
        {
            proof {
                assert(s.subrange(0, i + 1).drop_last() =~= s.subrange(0, i as int));
                lemma_stake_sum_prefix(s, i + 1);
            }
            total = total + self.validators.value_at(i).stake;
            i = i + 1;
        }
        assert(s.subrange(0, s.len() as int) =~= s);
        total
    }
}

proof fn lemma_stake_sum_prefix(s: Seq<(NodeId, ValidatorInfo)>, k: int)
    requires
        0 <= k <= s.len(),
    ensures
        stake_sum(s.subrange(0, k)) <= stake_sum(s),
    decreases s.len(),
{
    if k < s.len() {
        assert(s.drop_last().subrange(0, k) =~= s.subrange(0, k));
        lemma_stake_sum_prefix(s.drop_last(), k);
    } else {
        assert(s.subrange(0, k) =~= s);
    }
}

impl Default for Registry {
    fn default() -> (r: Self)
        ensures
            r.wf(),
            r.validators.view() == Map::<NodeId, ValidatorInfo>::empty(),
    {
        Registry::new()
    }
}

/// Trust of every validator and the last processed slot.
#[derive(Debug)]
pub struct TrustState {
    pub trust: OrdMap<NodeId, Q>,
    pub last_slot: u64,
}

impl TrustState {
    /// Trust of `node_id`: stored value, 1.0 by default.
    pub open spec fn spec_trust(&self, node_id: NodeId) -> Q {
        if self.trust.view().contains_key(node_id) { self.trust.view()[node_id] } else { ONE_Q }
    }

    /// Empty trust state.
    pub fn new() -> (s: Self)
        ensures
            s.trust.wf(),
            s.trust.view() == Map::<NodeId, Q>::empty(),
            s.last_slot == 0,
    {
        TrustState { trust: OrdMap::new(), last_slot: 0 }
    }

    /// Trust of `node_id` (1.0 when unknown).
    pub fn get_trust(&self, node_id: &NodeId) -> (t: Q)
        requires
            self.trust.wf(),
        ensures
            t == self.spec_trust(*node_id),
    {
        match self.trust.get(node_id) {
            Some(v) => *v,
            None => ONE_Q,
        }
    }

    /// Stores the trust of `node_id`.
    pub fn set_trust(&mut self, node_id: &NodeId, trust_q: Q)
        requires
            old(self).trust.wf(),
        ensures
            final(self).trust.wf(),
            final(self).trust.view() == old(self).trust.view().insert(*node_id, trust_q),
            final(self).last_slot == old(self).last_slot,
    {
        self.trust.insert(*node_id, trust_q);
    }
}

impl Default for TrustState {
    fn default() -> (s: Self)
        ensures
            s.trust.wf(),
            s.trust.view() == Map::<NodeId, Q>::empty(),
            s.last_slot == 0,
    {
        TrustState::new()
    }
}

/// Block header.
#[derive(Debug)]
pub struct BlockHeader {
    pub slot: u64,
    pub epoch: u64,
    pub parent_hash: [u8; 32],
    pub state_root: [u8; 32],
    pub txs_root: [u8; 32],
    pub leader: NodeId,
    pub leader_signature: Vec<u8>,
    pub randao_reveal: [u8; 32],
    pub timestamp: u64,
}

/// A transfer.
#[derive(Debug)]
pub struct Transaction {
    pub from: NodeId,
    pub to: NodeId,
    pub amount: u128,
    pub nonce: u64,
    pub signature: Vec<u8>,
}

/// A block.
#[derive(Debug)]
pub struct Block {
    pub header: BlockHeader,
    pub transactions: Vec<Transaction>,
}

/// A RANDAO commit (and later reveal) of a validator.
#[derive(Debug, Clone, Copy)]
pub struct Proposal {
    pub who: NodeId,
    pub epoch: u64,
    pub commitment: [u8; 32],
    pub reveal: Option<[u8; 32]>,
}

/// A leader's claim for a slot.
#[derive(Debug)]
pub struct LeaderWitness {
    pub who: NodeId,
    pub slot: u64,
    pub epoch: u64,
    pub weights_root: [u8; 32],
    pub stake_q: StakeQ,
    pub trust_q: Q,
    pub merkle_proof: Option<Vec<u8>>,
}

} // verus!
