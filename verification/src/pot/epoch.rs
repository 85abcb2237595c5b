//! Epoch snapshots: normalized stake, trust at snapshot time, and the Merkle
//! root of the weight leaves in ascending identifier order.
use vstd::prelude::*;
use crate::ordmap::{OrdMap, MapKey};
use crate::qmath::{Q, ONE_Q, q_scale, min_int, spec_qadd, spec_qmul, qmul, q_from_ratio128};
use crate::pot::trust::{NodeId, TrustParams, TrustState};
use crate::pot::registry::{RegEntry, Registry, eligible};
use crate::pot::merkle::{
    MerkleProof, merkle_leaf_hash, merkle_root, merkle_build_proof, spec_leaf_hash, spec_merkle_root,
    proof_siblings, views32, fold_path, lemma_merkle_proof_verifies, verify_merkle,
};

verus! {

/// One row of a snapshot.
#[derive(Clone, Copy, Debug)]
pub struct SnapshotEntry {
    pub who: NodeId,
    pub stake_q: Q,
    pub trust_q: Q,
}

/// Sum of the stakes of the eligible registry entries.
pub open spec fn active_total(regs: Seq<(NodeId, RegEntry)>, min_bond: u64) -> int
    decreases regs.len(),
{
    if regs.len() == 0 {
        0
    } else {
        active_total(regs.drop_last(), min_bond) + if eligible(regs.last().1, min_bond) {
            regs.last().1.stake as int
        } else {
            0
        }
    }
}

/// Stake share of `stake` in `total`, Q32.32.
pub open spec fn stake_share(stake: u64, total: int) -> Q {
    if total == 0 { 0 } else { min_int((q_scale() * stake) / total, u64::MAX as int) as Q }
}

/// The snapshot rows for the eligible entries of `regs`, in the entries' order.
pub open spec fn snapshot_rows(
    regs: Seq<(NodeId, RegEntry)>,
    trust: TrustState,
    init: Q,
    min_bond: u64,
    total: int,
) -> Seq<SnapshotEntry>
    decreases regs.len(),
{
    if regs.len() == 0 {
        Seq::empty()
    } else {
        let prev = snapshot_rows(regs.drop_last(), trust, init, min_bond, total);
        let (who, e) = regs.last();
        if eligible(e, min_bond) {
            prev.push(
                SnapshotEntry {
                    who,
                    stake_q: stake_share(e.stake, total),
                    trust_q: min_int(trust.trust_of(who, init) as int, ONE_Q as int) as Q,
                },
            )
        } else {
            prev
        }
    }
}

/// The rows read the trust state only through its stored values.
pub proof fn lemma_rows_read_trust_values(
    regs: Seq<(NodeId, RegEntry)>,
    t1: TrustState,
    t2: TrustState,
    init: Q,
    min_bond: u64,
    total: int,
)
    requires
        t1.view() == t2.view(),
    ensures
        snapshot_rows(regs, t1, init, min_bond, total) == snapshot_rows(regs, t2, init, min_bond, total),
    decreases regs.len(),
{
    if regs.len() > 0 {
        lemma_rows_read_trust_values(regs.drop_last(), t1, t2, init, min_bond, total);
    }
}

/// Saturating sum of `stake_q * trust_q` over the rows.
pub open spec fn sum_weights(rows: Seq<SnapshotEntry>) -> int
    decreases rows.len(),
{
    if rows.len() == 0 {
        0
    } else {
        spec_qadd(sum_weights(rows.drop_last()), spec_qmul(rows.last().stake_q as int, rows.last().trust_q as int))
    }
}

/// Leaves of the rows.
pub open spec fn row_leaves(rows: Seq<SnapshotEntry>) -> Seq<Seq<u8>> {
    rows.map_values(|r: SnapshotEntry| spec_leaf_hash(r.who@, r.stake_q, r.trust_q))
}

/// The rows a snapshot of `reg` and `trust` consists of.
pub open spec fn spec_rows(reg: Registry, trust: TrustState, tp: TrustParams, min_bond: u64) -> Seq<SnapshotEntry> {
    snapshot_rows(reg.entries(), trust, tp.init_q, min_bond, active_total(reg.entries(), min_bond))
}

/// The snapshot of one epoch.
#[derive(Debug)]
pub struct EpochSnapshot {
    pub epoch: u64,
    pub sum_weights_q: Q,
    pub stake_q: OrdMap<NodeId, Q>,
    pub trust_q_at_snapshot: OrdMap<NodeId, Q>,
    pub order: Vec<NodeId>,
    pub weights_root: [u8; 32],
}

impl EpochSnapshot {
    /// Both maps well formed.
    pub open spec fn wf(&self) -> bool {
        self.stake_q.wf() && self.trust_q_at_snapshot.wf()
    }

    /// Stake share recorded for `who`, zero when absent.
    pub open spec fn spec_stake_q_of(&self, who: NodeId) -> Q {
        if self.stake_q.view().contains_key(who) { self.stake_q.view()[who] } else { 0 }
    }

    /// Trust recorded for `who`, zero when absent.
    pub open spec fn spec_trust_q_of(&self, who: NodeId) -> Q {
        if self.trust_q_at_snapshot.view().contains_key(who) { self.trust_q_at_snapshot.view()[who] } else { 0 }
    }

    /// The leaves rebuilt from `order` and the recorded values.
    pub open spec fn leaves(&self) -> Seq<Seq<u8>> {
        self.order@.map_values(|id: NodeId| spec_leaf_hash(id@, self.spec_stake_q_of(id), self.spec_trust_q_of(id)))
    }

    /// The recorded root commits to the recorded weights in `order`, and `order` repeats no one.
    pub open spec fn consistent(&self) -> bool {
        &&& self.wf()
        &&& self.order@.no_duplicates()
        &&& self.weights_root@ == spec_merkle_root(self.leaves())
    }

    /// Builds the snapshot of the eligible validators of `reg` (active, bonded at least
    /// `min_bond`) in ascending identifier order.
    pub fn build(epoch: u64, reg: &Registry, trust: &TrustState, tp: &TrustParams, min_bond: u64) -> (s: Self)
        requires
            reg.wf(),
            trust.wf(),
        ensures
            s.consistent(),
            s.epoch == epoch,
            s.sum_weights_q == sum_weights(spec_rows(*reg, *trust, *tp, min_bond)),
            s.order@ == spec_rows(*reg, *trust, *tp, min_bond).map_values(|r: SnapshotEntry| r.who),
            s.stake_q.entries() == spec_rows(*reg, *trust, *tp, min_bond).map_values(
                |r: SnapshotEntry| (r.who, r.stake_q),
            ),
            s.trust_q_at_snapshot.entries() == spec_rows(*reg, *trust, *tp, min_bond).map_values(
                |r: SnapshotEntry| (r.who, r.trust_q),
            ),
            s.weights_root@ == spec_merkle_root(row_leaves(spec_rows(*reg, *trust, *tp, min_bond))),
    {
        let ghost regs = reg.entries();
        let n = reg.len();
        proof {
            reg.lemma_wf();
        }
        // total stake of the eligible validators
        let mut total: u128 = 0;
        let mut i: usize = 0;
        while i < n
            invariant
                n == regs.len(),
                regs == reg.entries(),
                i <= n,
                total == active_total(regs.subrange(0, i as int), min_bond),
                total <= (i as int) * (u64::MAX as int),
            decreases n - i,
        {
            let e = reg.entry_at(i);
            proof {
                assert(regs.subrange(0, i + 1).drop_last() =~= regs.subrange(0, i as int));
                assert((i as int) * (u64::MAX as int) + (u64::MAX as int) == ((i + 1) as int) * (u64::MAX as int)) by (nonlinear_arith);
                assert(((i + 1) as int) * (u64::MAX as int) <= (usize::MAX as int) * (u64::MAX as int)) by (nonlinear_arith)
                    requires i + 1 <= usize::MAX;
            }
            if e.active && e.stake >= min_bond {
                total = total + e.stake as u128;
            }
            i = i + 1;
        }
        proof {
            assert(regs.subrange(0, n as int) =~= regs);
        }
        let ghost all_rows = snapshot_rows(regs, *trust, tp.init_q, min_bond, total as int);
        let mut stake_map: OrdMap<NodeId, Q> = OrdMap::new();
        let mut trust_map: OrdMap<NodeId, Q> = OrdMap::new();
        let mut order: Vec<NodeId> = Vec::new();
        let mut leaves: Vec<[u8; 32]> = Vec::new();
        let mut sum: Q = 0;
        let mut i: usize = 0;
        while i < n
            invariant
                n == regs.len(),
                regs == reg.entries(),
                reg.wf(),
                crate::ordmap::sorted_keys(regs),
                forall|q: int| 0 <= q < regs.len() ==> (#[trigger] regs[q]).1.who == regs[q].0,
                total == active_total(regs, min_bond),
                trust.wf(),
                i <= n,
                stake_map.wf(),
                trust_map.wf(),
                ({
                    let rows = snapshot_rows(regs.subrange(0, i as int), *trust, tp.init_q, min_bond, total as int);
                    &&& order@ == rows.map_values(|r: SnapshotEntry| r.who)
                    &&& stake_map.entries() == rows.map_values(|r: SnapshotEntry| (r.who, r.stake_q))
                    &&& trust_map.entries() == rows.map_values(|r: SnapshotEntry| (r.who, r.trust_q))
                    &&& views32(leaves@) == row_leaves(rows)
                    &&& sum == sum_weights(rows)
                }),
                forall|q: int, k: int|
                    0 <= q < stake_map.entries().len() && i <= k < n ==> (#[trigger] stake_map.entries()[q]).0.key_lt(
                        #[trigger] regs[k].0,
                    ),
                stake_map.entries().len() == trust_map.entries().len(),
                forall|q: int| 0 <= q < stake_map.entries().len() ==> (#[trigger] stake_map.entries()[q]).0 == trust_map.entries()[q].0,
            decreases n - i,
        {
            let e = reg.entry_at(i);
            let who = reg_key_at(reg, i);
            let ghost prev_rows = snapshot_rows(regs.subrange(0, i as int), *trust, tp.init_q, min_bond, total as int);
            proof {
                assert(regs.subrange(0, i + 1).drop_last() =~= regs.subrange(0, i as int));
                assert(regs.subrange(0, i + 1).last() == regs[i as int]);
            }
            if e.active && e.stake >= min_bond {
                let sq: Q = if total == 0 { 0 } else { q_from_ratio128(e.stake as u128, total) };
                let t0 = trust.get(&who, tp.init_q);
                let tq: Q = if t0 < ONE_Q { t0 } else { ONE_Q };
                let ghost row = SnapshotEntry { who, stake_q: sq, trust_q: tq };
                proof {
                    assert(sq == stake_share(e.stake, total as int));
                    assert forall|q: int| 0 <= q < stake_map.entries().len() implies (#[trigger] stake_map.entries()[q]).0.key_lt(who) by {
                        assert(stake_map.entries()[q].0.key_lt(regs[i as int].0));
                    }
                    assert forall|q: int| 0 <= q < trust_map.entries().len() implies (#[trigger] trust_map.entries()[q]).0.key_lt(who) by {
                        assert(stake_map.entries()[q].0.key_lt(regs[i as int].0));
                    }
                }
                let ghost sm_before = stake_map.entries();
                stake_map.push_max(who, sq);
                trust_map.push_max(who, tq);
                order.push(who);
                let leaf = merkle_leaf_hash(&who, sq, tq);
                let ghost lv_before = leaves@;
                leaves.push(leaf);
                let w = qmul(sq, tq);
                sum = sum.saturating_add(w);
                proof {
                    let rows = prev_rows.push(row);
                    assert(rows.drop_last() =~= prev_rows);
                    assert(order@ =~= rows.map_values(|r: SnapshotEntry| r.who));
                    assert(stake_map.entries() =~= rows.map_values(|r: SnapshotEntry| (r.who, r.stake_q)));
                    assert(trust_map.entries() =~= rows.map_values(|r: SnapshotEntry| (r.who, r.trust_q)));
                    assert(leaves@ == lv_before.push(leaf));
                    assert(views32(leaves@) =~= views32(lv_before).push(leaf@));
                    assert(row_leaves(rows) =~= row_leaves(prev_rows).push(spec_leaf_hash(who@, sq, tq)));
                    assert(views32(leaves@) =~= row_leaves(rows));
                    assert forall|q: int, k: int|
                        0 <= q < stake_map.entries().len() && i + 1 <= k < n implies (#[trigger] stake_map.entries()[q]).0.key_lt(
                            #[trigger] regs[k].0,
                        ) by {
                        if q == stake_map.entries().len() - 1 {
                            assert(regs[i as int].0.key_lt(regs[k].0));
                        } else {
                            assert(stake_map.entries()[q] == sm_before[q]);
                        }
                    }
                }
            } else {
                proof {
                    assert forall|q: int, k: int|
                        0 <= q < stake_map.entries().len() && i + 1 <= k < n implies (#[trigger] stake_map.entries()[q]).0.key_lt(
                            #[trigger] regs[k].0,
                        ) by {
                    }
                }
            }
            i = i + 1;
        }
        proof {
            assert(regs.subrange(0, n as int) =~= regs);
        }
        let weights_root = merkle_root(&leaves);
        let s = EpochSnapshot {
            epoch,
            sum_weights_q: sum,
            stake_q: stake_map,
            trust_q_at_snapshot: trust_map,
            order,
            weights_root,
        };
        proof {
            lemma_built_consistent(&s, all_rows);
        }
        s
    }
}

impl EpochSnapshot {
    /// Stake share recorded for `who`, zero when absent.
    pub fn stake_q_of(&self, who: &NodeId) -> (r: Q)
        requires
            self.wf(),
        ensures
            r == self.spec_stake_q_of(*who),
    {
        match self.stake_q.get(who) {
            Some(v) => *v,
            None => 0,
        }
    }

    /// Trust recorded for `who`, zero when absent.
    pub fn trust_q_of(&self, who: &NodeId) -> (r: Q)
        requires
            self.wf(),
        ensures
            r == self.spec_trust_q_of(*who),
    {
        match self.trust_q_at_snapshot.get(who) {
            Some(v) => *v,
            None => 0,
        }
    }

    /// Position of `who` in `order` (its first occurrence), if present.
    pub fn leaf_index_of(&self, who: &NodeId) -> (r: Option<u64>)
        ensures
            r.is_some() <==> self.order@.contains(*who),
            r.is_some() ==> r.unwrap() < self.order@.len() && self.order@[r.unwrap() as int] == *who
                && forall|j: int| 0 <= j < r.unwrap() ==> self.order@[j] != *who,
    {
        let mut i: usize = 0;
        while i < self.order.len()
            invariant
                i <= self.order@.len(),
                forall|j: int| 0 <= j < i ==> self.order@[j] != *who,
            decreases self.order@.len() - i,
        {
            if crate::bytes::eq32(&self.order[i], who) {
                proof {
                    assert(self.order@[i as int] =~= *who);
                }
                return Some(i as u64);
            }
            proof {
                assert(self.order@[i as int] != *who) by {
                    if self.order@[i as int] == *who {
                        assert(self.order@[i as int]@ == who@);
                    }
                }
            }
            i = i + 1;
        }
        None
    }

    /// Merkle proof for `who` against `weights_root`, rebuilt from the recorded values.
    pub fn build_proof(&self, who: &NodeId) -> (r: Option<MerkleProof>)
        requires
            self.wf(),
        ensures
            r.is_some() <==> self.order@.contains(*who),
            r.is_some() ==> {
                let p = r.unwrap();
                &&& p.leaf_index < self.order@.len()
                &&& self.order@[p.leaf_index as int] == *who
                &&& forall|j: int| 0 <= j < p.leaf_index ==> self.order@[j] != *who
                &&& views32(p.siblings@) == proof_siblings(self.leaves(), p.leaf_index as int)
            },
    {
        let idx = match self.leaf_index_of(who) {
            Some(i) => i,
            None => return None,
        };
        let mut leaves: Vec<[u8; 32]> = Vec::new();
        let mut i: usize = 0;
        while i < self.order.len()
            invariant
                self.wf(),
                i <= self.order@.len(),
                views32(leaves@) == self.leaves().subrange(0, i as int),
            decreases self.order@.len() - i,
        {
            let id = self.order[i];
            let leaf = merkle_leaf_hash(&id, self.stake_q_of(&id), self.trust_q_of(&id));
            let ghost before = leaves@;
            leaves.push(leaf);
            proof {
                assert(views32(leaves@) =~= views32(before).push(leaf@));
            }
            i = i + 1;
            proof {
                assert(views32(leaves@) =~= self.leaves().subrange(0, i as int));
            }
        }
        proof {
            assert(self.leaves().subrange(0, self.order@.len() as int) =~= self.leaves());
        }
        Some(merkle_build_proof(&leaves, idx))
    }
}

/// In a consistent snapshot, the proof built for any listed validator verifies
/// its recorded leaf against `weights_root`.
pub proof fn lemma_snapshot_proof_verifies(s: EpochSnapshot, idx: int)
    requires
        s.consistent(),
        0 <= idx < s.order@.len(),
    ensures
        fold_path(
            spec_leaf_hash(s.order@[idx]@, s.spec_stake_q_of(s.order@[idx]), s.spec_trust_q_of(s.order@[idx])),
            idx,
            proof_siblings(s.leaves(), idx),
        ) == s.weights_root@,
{
    lemma_merkle_proof_verifies(s.leaves(), idx);
}

/// In a snapshot without repeated identifiers, a listed validator's first position is its only one.
pub proof fn lemma_order_index_unique(s: EpochSnapshot, i: int, j: int)
    requires
        s.order@.no_duplicates(),
        0 <= i < s.order@.len(),
        0 <= j < s.order@.len(),
        s.order@[i] == s.order@[j],
    ensures
        i == j,
{
}

fn reg_key_at(reg: &Registry, i: usize) -> (k: NodeId)
    requires
        reg.wf(),
        i < reg.entries().len(),
    ensures
        k == reg.entries()[i as int].0,
{
    proof {
        reg.lemma_wf();
    }
    reg.entry_at(i).who
}

proof fn lemma_built_consistent(s: &EpochSnapshot, rows: Seq<SnapshotEntry>)
    requires
        s.wf(),
        s.order@ == rows.map_values(|r: SnapshotEntry| r.who),
        s.stake_q.entries() == rows.map_values(|r: SnapshotEntry| (r.who, r.stake_q)),
        s.trust_q_at_snapshot.entries() == rows.map_values(|r: SnapshotEntry| (r.who, r.trust_q)),
        s.weights_root@ == spec_merkle_root(row_leaves(rows)),
    ensures
        s.consistent(),
{
    s.stake_q.lemma_entries_in_view();
    s.trust_q_at_snapshot.lemma_entries_in_view();
    assert forall|i: int, j: int| 0 <= i < j < s.order@.len() implies s.order@[i] != s.order@[j] by {
        assert(s.stake_q.entries()[i].0.key_lt(s.stake_q.entries()[j].0));
        <[u8; 32] as MapKey>::lemma_key_trichotomy(s.order@[i], s.order@[i]);
    }
    assert(s.order@.no_duplicates());
    assert forall|i: int| 0 <= i < rows.len() implies #[trigger] s.leaves()[i] == row_leaves(rows)[i] by {
        assert(s.stake_q.entries()[i] == (rows[i].who, rows[i].stake_q));
        assert(s.trust_q_at_snapshot.entries()[i] == (rows[i].who, rows[i].trust_q));
    }
    assert(s.leaves() =~= row_leaves(rows));
}

} // verus!
