//! Validator bookkeeping for the deterministic consensus: raw stake with a cached
//! total, stake shares in Q32.32, the latest quality score and trust, integer
//! weights and rankings, and the deterministic leader choice.
//!
//! Validators are kept in ascending identifier order; rankings are stable, so
//! validators of equal value stay in that order.
use vstd::prelude::*;
use crate::pot::{NodeId, Q};
use crate::ordmap::{MapKey, OrdMap};
use crate::consensus_weights::{compute_final_weight_q, select_leader_deterministic, spec_final_weight, Weight};
use crate::pot_node::{insert_ranked_exec, lemma_rank_members, rank};

verus! {

/// A slot number.
pub type Slot = u64;
/// A validator identifier.
pub type ValidatorId = NodeId;
/// Raw stake units.
pub type StakeRaw = u128;
/// A trust score in Q32.32.
pub type TrustScore = Q;

/// A validator's consensus state.
#[derive(Clone, Copy, Debug)]
pub struct ValidatorState {
    pub id: ValidatorId,
    /// Raw stake.
    pub stake_raw: StakeRaw,
    /// Stake share in Q32.32.
    pub stake_q: Q,
    /// Latest quality score in Q32.32.
    pub quality_q: Q,
    /// Latest trust in Q32.32.
    pub trust_q: TrustScore,
}

/// The stake share of `stake_raw` out of `total`: the raw stake shifted left by 32
/// bits (in 128 bits), divided by the total, capped at `u64::MAX`; zero for a zero total.
pub open spec fn spec_stake_q(stake_raw: u128, total: u128) -> Q {
    if total == 0 {
        0
    } else {
        let share = (stake_raw << 32u128) / total;
        if share > u64::MAX as u128 { u64::MAX } else { share as u64 }
    }
}

/// `v` with its stake share recomputed against `total`.
pub open spec fn restaked(v: ValidatorState, total: u128) -> ValidatorState {
    ValidatorState { stake_q: spec_stake_q(v.stake_raw, total), ..v }
}

/// A validator holding no more than the total stake gets a share of at most one
/// (`2^32` in Q32.32), as long as its raw stake fits in 96 bits.
pub proof fn lemma_stake_share_at_most_one(stake_raw: u128, total: u128)
    requires
        stake_raw <= total,
        stake_raw < 0x1_0000_0000_0000_0000_0000_0000,
    ensures
        spec_stake_q(stake_raw, total) <= 0x1_0000_0000,
{
    if total > 0 {
        assert(stake_raw << 32u128 == stake_raw * 0x1_0000_0000) by (bit_vector)
            requires
                stake_raw < 0x1_0000_0000_0000_0000_0000_0000,
        ;
        assert((stake_raw * 0x1_0000_0000) / (total as int) <= 0x1_0000_0000) by (nonlinear_arith)
            requires
                stake_raw <= total,
                total > 0,
        {
            assert(stake_raw * 0x1_0000_0000 <= total * 0x1_0000_0000);
            vstd::arithmetic::div_mod::lemma_div_is_ordered(
                stake_raw * 0x1_0000_0000,
                total * 0x1_0000_0000,
                total as int,
            );
            vstd::arithmetic::div_mod::lemma_div_by_multiple(0x1_0000_0000, total as int);
        }
    }
}

/// `total - old_stake + new_stake` with each step saturating.
pub open spec fn sat_replace(total: u128, old_stake: u128, new_stake: u128) -> u128 {
    let t = if total >= old_stake { (total - old_stake) as u128 } else { 0u128 };
    if t + new_stake > u128::MAX { u128::MAX } else { (t + new_stake) as u128 }
}

/// The sum of the raw stakes of the validators in `m` (zero for an infinite map).
pub open spec fn raw_stake_sum(m: Map<NodeId, ValidatorState>) -> int
    decreases m.dom().len(),
{
    if !m.dom().finite() || m.dom().len() == 0 {
        0
    } else {
        let k = m.dom().choose();
        m[k].stake_raw + raw_stake_sum(m.remove(k))
    }
}

/// Any one validator can be taken out of the sum first.
pub proof fn lemma_raw_stake_sum_remove(m: Map<NodeId, ValidatorState>, k: NodeId)
    requires
        m.dom().finite(),
        m.contains_key(k),
    ensures
        raw_stake_sum(m) == m[k].stake_raw + raw_stake_sum(m.remove(k)),
        raw_stake_sum(m.remove(k)) >= 0,
    decreases m.dom().len(),
{
    lemma_raw_stake_sum_nonneg(m.remove(k));
    let c = m.dom().choose();
    assert(m.dom().contains(c));
    if c != k {
        let mc = m.remove(c);
        let mk = m.remove(k);
        assert(mc.contains_key(k));
        assert(mk.contains_key(c));
        lemma_raw_stake_sum_remove(mc, k);
        lemma_raw_stake_sum_remove(mk, c);
        assert(mc.remove(k) =~= mk.remove(c));
    }
}

/// The sum of raw stakes is never negative.
pub proof fn lemma_raw_stake_sum_nonneg(m: Map<NodeId, ValidatorState>)
    ensures
        raw_stake_sum(m) >= 0,
    decreases m.dom().len(),
{
    if m.dom().finite() && m.dom().len() > 0 {
        let k = m.dom().choose();
        assert(m.dom().contains(k));
        lemma_raw_stake_sum_nonneg(m.remove(k));
    }
}

/// Replacing one validator's entry changes the sum by the difference of raw stakes.
pub proof fn lemma_raw_stake_sum_insert(m: Map<NodeId, ValidatorState>, k: NodeId, v: ValidatorState)
    requires
        m.dom().finite(),
    ensures
        raw_stake_sum(m.insert(k, v)) == raw_stake_sum(m) - (if m.contains_key(k) { m[k].stake_raw as int } else { 0 })
            + v.stake_raw,
        raw_stake_sum(m) >= (if m.contains_key(k) { m[k].stake_raw as int } else { 0 }),
{
    let n = m.insert(k, v);
    lemma_raw_stake_sum_remove(n, k);
    if m.contains_key(k) {
        lemma_raw_stake_sum_remove(m, k);
        assert(n.remove(k) =~= m.remove(k));
    } else {
        assert(n.remove(k) =~= m);
        lemma_raw_stake_sum_nonneg(m);
    }
}

/// `(id, trust)` of each validator, in identifier order.
pub open spec fn trust_pairs(entries: Seq<(NodeId, ValidatorState)>) -> Seq<(NodeId, u128)> {
    entries.map_values(|e: (NodeId, ValidatorState)| (e.0, e.1.trust_q as u128))
}

/// `(id, weight)` of each validator, in identifier order.
pub open spec fn weight_pairs(entries: Seq<(NodeId, ValidatorState)>) -> Seq<(NodeId, u128)> {
    entries.map_values(
        |e: (NodeId, ValidatorState)| (e.0, spec_final_weight(e.1.trust_q, e.1.quality_q, e.1.stake_q) as u128),
    )
}

/// `(id, trust, quality, stake)` of each validator, in identifier order.
pub open spec fn leader_rows(entries: Seq<(NodeId, ValidatorState)>) -> Seq<(NodeId, Q, Q, Q)> {
    entries.map_values(|e: (NodeId, ValidatorState)| (e.0, e.1.trust_q, e.1.quality_q, e.1.stake_q))
}

/// The validator set of the deterministic consensus.
pub struct ConsensusPro {
    validators: OrdMap<ValidatorId, ValidatorState>,
    total_stake_raw: StakeRaw,
}

impl ConsensusPro {
    /// The validators by identifier.
    pub closed spec fn spec_validators(&self) -> Map<NodeId, ValidatorState> {
        self.validators.view()
    }

    /// The validators in ascending identifier order.
    pub closed spec fn spec_entries(&self) -> Seq<(NodeId, ValidatorState)> {
        self.validators.entries()
    }

    /// The cached stake total.
    pub closed spec fn spec_total(&self) -> u128 {
        self.total_stake_raw
    }

    /// The entries are sorted and each records its own identifier.
    pub closed spec fn wf(&self) -> bool {
        &&& self.validators.wf()
        &&& forall|i: int|
            0 <= i < self.validators.entries().len() ==> (#[trigger] self.validators.entries()[i]).1.id
                == self.validators.entries()[i].0
    }

    /// Facts linking the entry order to the map.
    pub proof fn lemma_wf(&self)
        requires
            self.wf(),
        ensures
            forall|i: int|
                0 <= i < self.spec_entries().len() ==> self.spec_validators().contains_key(
                    (#[trigger] self.spec_entries()[i]).0,
                ) && self.spec_validators()[self.spec_entries()[i].0] == self.spec_entries()[i].1,
            forall|k: NodeId| #[trigger]
                self.spec_validators().contains_key(k) ==> self.spec_validators()[k].id == k,
            self.spec_validators().dom().finite(),
            self.spec_validators().dom().len() == self.spec_entries().len(),
    {
        self.validators.lemma_entries_in_view();
        assert forall|k: NodeId| #[trigger] self.spec_validators().contains_key(k) implies self.spec_validators()[k].id == k by {
            self.validators.lemma_view(k);
            let i = choose|i: int| 0 <= i < self.validators.entries().len() && (#[trigger] self.validators.entries()[i]).0 == k;
        }
    }

    /// An empty validator set with a zero stake total.
    pub fn new_default() -> (c: Self)
        ensures
            c.wf(),
            c.spec_validators() == Map::<NodeId, ValidatorState>::empty(),
            c.spec_total() == 0,
    {
        Self { validators: OrdMap::new(), total_stake_raw: 0 }
    }

    /// Registers `id` with `stake_raw`. A known validator only has its raw stake
    /// replaced; a new one starts with zero shares, quality and trust. The total
    /// is adjusted with saturating arithmetic, so where it was the sum of the raw
    /// stakes and the new sum fits in 128 bits, it is the new sum.
    pub fn register_validator(&mut self, id: ValidatorId, stake_raw: StakeRaw)
        requires
            old(self).wf(),
        ensures
            final(self).wf(),
            old(self).spec_validators().contains_key(id) ==> {
                let v = old(self).spec_validators()[id];
                &&& final(self).spec_validators() == old(self).spec_validators().insert(
                    id,
                    ValidatorState { stake_raw, ..v },
                )
                &&& final(self).spec_total() == sat_replace(old(self).spec_total(), v.stake_raw, stake_raw)
            },
            !old(self).spec_validators().contains_key(id) ==> {
                &&& final(self).spec_validators() == old(self).spec_validators().insert(
                    id,
                    ValidatorState { id, stake_raw, stake_q: 0, quality_q: 0, trust_q: 0 },
                )
                &&& final(self).spec_total() == sat_replace(old(self).spec_total(), 0, stake_raw)
            },
            old(self).spec_total() == raw_stake_sum(old(self).spec_validators()) && raw_stake_sum(
                final(self).spec_validators(),
            ) <= u128::MAX ==> final(self).spec_total() == raw_stake_sum(final(self).spec_validators()),
    {
        proof {
            self.lemma_wf();
        }
        let ghost before = self.spec_validators();
        match self.validators.get(&id) {
            Some(v) => {
                let mut nv = *v;
                proof {
                    self.lemma_wf();
                }
                self.total_stake_raw = self.total_stake_raw.saturating_sub(nv.stake_raw).saturating_add(stake_raw);
                nv.stake_raw = stake_raw;
                self.set_state(id, nv);
                proof {
                    lemma_raw_stake_sum_insert(before, id, nv);
                }
            },
            None => {
                self.total_stake_raw = self.total_stake_raw.saturating_add(stake_raw);
                let state = ValidatorState { id, stake_raw, stake_q: 0, quality_q: 0, trust_q: 0 };
                self.set_state(id, state);
                proof {
                    lemma_raw_stake_sum_insert(before, id, state);
                }
            },
        }
    }

    fn set_state(&mut self, id: ValidatorId, st: ValidatorState)
        requires
            old(self).wf(),
            st.id == id,
        ensures
            final(self).wf(),
            final(self).spec_validators() == old(self).spec_validators().insert(id, st),
            final(self).spec_total() == old(self).spec_total(),
    {
        proof {
            self.lemma_wf();
        }
        let ghost before = self.validators.view();
        self.validators.insert(id, st);
        proof {
            assert forall|k: NodeId| #[trigger]
                self.validators.view().contains_key(k) && k != id implies self.validators.view()[k].id == k by {
                assert(before.contains_key(k));
            }
            self.lemma_wf_after_insert(id, st);
        }
    }

    proof fn lemma_wf_after_insert(&self, id: NodeId, st: ValidatorState)
        requires
            self.validators.wf(),
            st.id == id,
            self.validators.view().contains_key(id) && self.validators.view()[id] == st,
            forall|k: NodeId| #[trigger]
                self.validators.view().contains_key(k) && k != id ==> self.validators.view()[k].id == k,
        ensures
            self.wf(),
    {
        assert forall|i: int| 0 <= i < self.validators.entries().len() implies (#[trigger] self.validators.entries()[i]).1.id
            == self.validators.entries()[i].0 by {
            self.validators.lemma_entries_in_view();
            let k = self.validators.entries()[i].0;
            assert(self.validators.view().contains_key(k));
        }
    }

    /// Removes `id`, subtracting its raw stake from the total (saturating).
    pub fn remove_validator(&mut self, id: &ValidatorId)
        requires
            old(self).wf(),
        ensures
            final(self).wf(),
            final(self).spec_validators() == old(self).spec_validators().remove(*id),
            old(self).spec_validators().contains_key(*id) ==> final(self).spec_total() == (if old(self).spec_total()
                >= old(self).spec_validators()[*id].stake_raw {
                (old(self).spec_total() - old(self).spec_validators()[*id].stake_raw) as u128
            } else {
                0u128
            }),
            !old(self).spec_validators().contains_key(*id) ==> final(self).spec_total() == old(self).spec_total(),
            old(self).spec_total() == raw_stake_sum(old(self).spec_validators()) ==> final(self).spec_total()
                == raw_stake_sum(final(self).spec_validators()),
    {
        proof {
            self.lemma_wf();
        }
        let ghost before = self.validators.view();
        if let Some(v) = self.validators.remove(id) {
            self.total_stake_raw = self.total_stake_raw.saturating_sub(v.stake_raw);
        }
        proof {
            if before.contains_key(*id) {
                lemma_raw_stake_sum_remove(before, *id);
            } else {
                assert(before.remove(*id) =~= before);
            }
        }
        proof {
            assert forall|i: int| 0 <= i < self.validators.entries().len() implies (#[trigger] self.validators.entries()[i]).1.id
                == self.validators.entries()[i].0 by {
                self.validators.lemma_entries_in_view();
                let k = self.validators.entries()[i].0;
                assert(before.contains_key(k));
            }
        }
    }

    /// Replaces the raw stake of a known validator, adjusting the total (saturating).
    pub fn update_stake_raw(&mut self, id: &ValidatorId, new_stake_raw: StakeRaw)
        requires
            old(self).wf(),
        ensures
            final(self).wf(),
            old(self).spec_validators().contains_key(*id) ==> {
                let v = old(self).spec_validators()[*id];
                &&& final(self).spec_validators() == old(self).spec_validators().insert(
                    *id,
                    ValidatorState { stake_raw: new_stake_raw, ..v },
                )
                &&& final(self).spec_total() == sat_replace(old(self).spec_total(), v.stake_raw, new_stake_raw)
            },
            !old(self).spec_validators().contains_key(*id) ==> final(self).spec_validators() == old(
                self,
            ).spec_validators() && final(self).spec_total() == old(self).spec_total(),
            old(self).spec_total() == raw_stake_sum(old(self).spec_validators()) && raw_stake_sum(
                final(self).spec_validators(),
            ) <= u128::MAX ==> final(self).spec_total() == raw_stake_sum(final(self).spec_validators()),
    {
        proof {
            self.lemma_wf();
        }
        let ghost before = self.spec_validators();
        if let Some(v) = self.validators.get(id) {
            let mut nv = *v;
            proof {
                self.lemma_wf();
            }
            self.total_stake_raw = self.total_stake_raw.saturating_sub(nv.stake_raw).saturating_add(new_stake_raw);
            nv.stake_raw = new_stake_raw;
            self.set_state(*id, nv);
            proof {
                lemma_raw_stake_sum_insert(before, *id, nv);
            }
        }
    }

    /// Recomputes every stake share from the raw stake and the cached total.
    pub fn recompute_all_stake_q(&mut self)
        requires
            old(self).wf(),
        ensures
            final(self).wf(),
            final(self).spec_total() == old(self).spec_total(),
            final(self).spec_validators().dom() == old(self).spec_validators().dom(),
            forall|k: NodeId| #[trigger]
                old(self).spec_validators().contains_key(k) ==> final(self).spec_validators()[k] == restaked(
                    old(self).spec_validators()[k],
                    old(self).spec_total(),
                ),
    {
        let total = self.total_stake_raw;
        let ghost s = self.validators.entries();
        let n = self.validators.len();
        let mut i: usize = 0;
        while i < n
            invariant
                n == s.len(),
                i <= n,
                total == self.total_stake_raw,
                total == old(self).spec_total(),
                s == old(self).spec_entries(),
                self.validators.entries().len() == n,
                forall|j: int| #![trigger self.validators.entries()[j]]
                    0 <= j < n ==> self.validators.entries()[j].0 == s[j].0,
                forall|j: int| #![trigger self.validators.entries()[j]]
                    0 <= j < i ==> self.validators.entries()[j].1 == restaked(s[j].1, total),
                forall|j: int| #![trigger self.validators.entries()[j]]
                    i <= j < n ==> self.validators.entries()[j].1 == s[j].1,
            decreases n - i,
        {
            let v = self.validators.value_mut_at(i);
            let sq = stake_share(v.stake_raw, total);
            v.stake_q = sq;
            i = i + 1;
        }
        proof {
            let t = self.validators.entries();
            assert(self.validators.wf()) by {
                assert forall|a: int, b: int| 0 <= a < b < t.len() implies (#[trigger] t[a].0).key_lt(#[trigger] t[b].0) by {
                    assert(t[a].0 == s[a].0 && t[b].0 == s[b].0);
                    assert(s[a].0.key_lt(s[b].0));
                }
            }
            old(self).validators.lemma_entries_in_view();
            old(self).lemma_wf();
            self.validators.lemma_entries_in_view();
            assert forall|a: int| 0 <= a < t.len() implies (#[trigger] t[a]).1.id == t[a].0 by {
                assert(s[a].1.id == s[a].0);
            }
            assert forall|k: NodeId| #[trigger] self.spec_validators().contains_key(k) <==> old(self).spec_validators().contains_key(k) by {
                self.validators.lemma_view(k);
                old(self).validators.lemma_view(k);
                if self.spec_validators().contains_key(k) {
                    let a = choose|a: int| 0 <= a < t.len() && (#[trigger] t[a]).0 == k;
                    assert(s[a].0 == k);
                }
                if old(self).spec_validators().contains_key(k) {
                    let a = choose|a: int| 0 <= a < s.len() && (#[trigger] s[a]).0 == k;
                    assert(t[a].0 == k);
                }
            }
            assert(self.spec_validators().dom() =~= old(self).spec_validators().dom());
            assert forall|k: NodeId| #[trigger] old(self).spec_validators().contains_key(k) implies self.spec_validators()[k]
                == restaked(old(self).spec_validators()[k], old(self).spec_total()) by {
                old(self).validators.lemma_view(k);
                let a = choose|a: int| 0 <= a < s.len() && (#[trigger] s[a]).0 == k;
                self.validators.lemma_view(k);
                assert(t[a].0 == k);
            }
        }
    }

    /// Records the latest quality score of a known validator.
    pub fn record_quality(&mut self, id: &ValidatorId, quality_q: Q)
        requires
            old(self).wf(),
        ensures
            final(self).wf(),
            final(self).spec_total() == old(self).spec_total(),
            old(self).spec_validators().contains_key(*id) ==> final(self).spec_validators() == old(
                self,
            ).spec_validators().insert(*id, ValidatorState { quality_q, ..old(self).spec_validators()[*id] }),
            !old(self).spec_validators().contains_key(*id) ==> final(self).spec_validators() == old(
                self,
            ).spec_validators(),
    {
        if let Some(v) = self.validators.get(id) {
            let mut nv = *v;
            proof {
                self.lemma_wf();
            }
            nv.quality_q = quality_q;
            self.set_state(*id, nv);
        }
    }

    /// The state of `id`, if registered.
    pub fn get_validator(&self, id: &ValidatorId) -> (r: Option<&ValidatorState>)
        requires
            self.wf(),
        ensures
            r.is_some() <==> self.spec_validators().contains_key(*id),
            r.is_some() ==> *r.unwrap() == self.spec_validators()[*id],
    {
        self.validators.get(id)
    }

    /// The weight of `id`, if registered.
    pub fn compute_validator_weight(&self, id: &ValidatorId) -> (r: Option<Weight>)
        requires
            self.wf(),
        ensures
            r.is_some() <==> self.spec_validators().contains_key(*id),
            r.is_some() ==> {
                let v = self.spec_validators()[*id];
                r.unwrap() == spec_final_weight(v.trust_q, v.quality_q, v.stake_q)
            },
    {
        match self.validators.get(id) {
            Some(v) => Some(compute_final_weight_q(v.trust_q, v.quality_q, v.stake_q)),
            None => None,
        }
    }

    /// The validators by trust, highest first; equal trust keeps identifier order.
    pub fn get_trust_ranking(&self) -> (out: Vec<(ValidatorId, TrustScore)>)
        requires
            self.wf(),
        ensures
            out@ == rank(trust_pairs(self.spec_entries())).map_values(|p: (NodeId, u128)| (p.0, p.1 as u64)),
    {
        let n = self.validators.len();
        let mut ranked: Vec<(NodeId, u128)> = Vec::new();
        let mut i: usize = 0;
        while i < n
            invariant
                n == self.spec_entries().len(),
                i <= n,
                ranked@ == rank(trust_pairs(self.spec_entries()).subrange(0, i as int)),
            decreases n - i,
        {
            let k = self.validators.key_at(i);
            let t = self.validators.value_at(i).trust_q;
            proof {
                let pre = trust_pairs(self.spec_entries()).subrange(0, i + 1);
                assert(pre.drop_last() =~= trust_pairs(self.spec_entries()).subrange(0, i as int));
                assert(pre.last() == (k, t as u128));
            }
            insert_ranked_exec(&mut ranked, (k, t as u128));
            i = i + 1;
        }
        proof {
            assert(trust_pairs(self.spec_entries()).subrange(0, n as int) =~= trust_pairs(self.spec_entries()));
        }
        proof {
            let c = trust_pairs(self.spec_entries());
            assert forall|j: int| 0 <= j < c.len() implies (#[trigger] c[j]).1 <= u64::MAX by {
                assert(c[j] == (self.spec_entries()[j].0, self.spec_entries()[j].1.trust_q as u128));
            }
        }
        narrow_ranking(&ranked, Ghost(trust_pairs(self.spec_entries())))
    }

    /// The validators by weight, highest first; equal weight keeps identifier order.
    pub fn get_weight_ranking(&self) -> (out: Vec<(ValidatorId, Weight)>)
        requires
            self.wf(),
        ensures
            out@ == rank(weight_pairs(self.spec_entries())),
    {
        let n = self.validators.len();
        let mut ranked: Vec<(NodeId, u128)> = Vec::new();
        let mut i: usize = 0;
        while i < n
            invariant
                n == self.spec_entries().len(),
                i <= n,
                ranked@ == rank(weight_pairs(self.spec_entries()).subrange(0, i as int)),
            decreases n - i,
        {
            let k = self.validators.key_at(i);
            let v = self.validators.value_at(i);
            let w = compute_final_weight_q(v.trust_q, v.quality_q, v.stake_q);
            proof {
                let pre = weight_pairs(self.spec_entries()).subrange(0, i + 1);
                assert(pre.drop_last() =~= weight_pairs(self.spec_entries()).subrange(0, i as int));
                assert(pre.last() == (k, w));
            }
            insert_ranked_exec(&mut ranked, (k, w));
            i = i + 1;
        }
        proof {
            assert(weight_pairs(self.spec_entries()).subrange(0, n as int) =~= weight_pairs(self.spec_entries()));
        }
        ranked
    }

    /// The leader for `beacon` among the validators in identifier order.
    pub fn select_leader(&self, beacon: [u8; 32]) -> (r: Option<ValidatorId>)
        requires
            self.wf(),
        ensures
            r is None <==> self.spec_entries().len() == 0,
            r matches Some(id) ==> exists|i: int|
                crate::consensus_weights::is_leader_index(beacon@, leader_rows(self.spec_entries()), i)
                    && #[trigger] leader_rows(self.spec_entries())[i].0 == id,
    {
        let n = self.validators.len();
        let mut vals: Vec<(NodeId, Q, Q, Q)> = Vec::new();
        let mut i: usize = 0;
        while i < n
            invariant
                n == self.spec_entries().len(),
                i <= n,
                vals@ == leader_rows(self.spec_entries()).subrange(0, i as int),
            decreases n - i,
        {
            let k = self.validators.key_at(i);
            let v = self.validators.value_at(i);
            vals.push((k, v.trust_q, v.quality_q, v.stake_q));
            i = i + 1;
            proof {
                assert(vals@ =~= leader_rows(self.spec_entries()).subrange(0, i as int));
            }
        }
        proof {
            assert(leader_rows(self.spec_entries()).subrange(0, n as int) =~= leader_rows(self.spec_entries()));
        }
        select_leader_deterministic(beacon, vals.as_slice())
    }
}

/// The stake share of `stake_raw` out of `total`.
fn stake_share(stake_raw: u128, total: u128) -> (q: Q)
    ensures
        q == spec_stake_q(stake_raw, total),
{
    if total == 0 {
        return 0;
    }
    let share = (stake_raw << 32u128) / total;
    if share > u64::MAX as u128 { u64::MAX } else { share as u64 }
}

/// The ranked pairs with their values narrowed back to `u64`, where every ranked
/// value came from a trust score.
fn narrow_ranking(ranked: &Vec<(NodeId, u128)>, cands: Ghost<Seq<(NodeId, u128)>>) -> (out: Vec<(NodeId, u64)>)
    requires
        ranked@ == rank(cands@),
        forall|i: int| 0 <= i < cands@.len() ==> (#[trigger] cands@[i]).1 <= u64::MAX,
    ensures
        out@ == ranked@.map_values(|p: (NodeId, u128)| (p.0, p.1 as u64)),
{
    let mut out: Vec<(NodeId, u64)> = Vec::new();
    let mut i: usize = 0;
    while i < ranked.len()
        invariant
            ranked@ == rank(cands@),
            forall|j: int| 0 <= j < cands@.len() ==> (#[trigger] cands@[j]).1 <= u64::MAX,
            i <= ranked@.len(),
            out@ == ranked@.subrange(0, i as int).map_values(|p: (NodeId, u128)| (p.0, p.1 as u64)),
        decreases ranked@.len() - i,
    {
        let (k, v) = ranked[i];
        proof {
            lemma_rank_members(cands@, (k, v));
            assert(ranked@.contains((k, v))) by {
                assert(ranked@[i as int] == (k, v));
            }
            let j = choose|j: int| 0 <= j < cands@.len() && cands@[j] == (k, v);
            assert(cands@[j].1 <= u64::MAX);
        }
        out.push((k, v as u64));
        i = i + 1;
        proof {
            assert(out@ =~= ranked@.subrange(0, i as int).map_values(|p: (NodeId, u128)| (p.0, p.1 as u64)));
        }
    }
    proof {
        assert(ranked@.subrange(0, ranked@.len() as int) =~= ranked@);
    }
    out
}

} // verus!
