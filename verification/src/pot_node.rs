//! A Proof-of-Trust validator node: genesis bootstrap, time-derived epochs and
//! slots, and deterministic leader selection.
//!
//! Leader selection is not a lottery: the active validators are ranked by
//! weight (two thirds trust, one third stake), and the slot's beacon value
//! plus the slot number picks one of them.
use vstd::prelude::*;
use std::time::{Duration, Instant};
use vstd::bytes::{spec_u64_from_le_bytes, u64_from_le_bytes};
use crate::pot::{
    q_from_basis_points, EpochSnapshot, LeaderWitness, NodeId, PotParams, RandaoBeacon, Registry, TrustParams, TrustState,
    Q,
};
use crate::pot::registry::{RegEntry, eligible};
use crate::pot::merkle::{proof_siblings, views32};
use crate::qmath::q_scale;
use crate::time::{duration_secs, elapsed_secs, instant_now};

verus! {

/// Configuration of a node.
#[derive(Clone, Copy)]
pub struct PotNodeConfig {
    pub node_id: NodeId,
    pub slot_duration: Duration,
    pub epoch_length: u64,
    pub params: PotParams,
    pub equivocation_penalty_bps: u32,
}

impl PotNodeConfig {
    /// A configuration with the trust and lottery parameters given in basis points.
    pub fn new_with_trust_bps(
        node_id: NodeId,
        slot_duration: Duration,
        epoch_length: u64,
        lambda_bps: u32,
        alpha_bps: u32,
        beta_bps: u32,
        init_bps: u32,
        min_bond: u64,
        slash_noreveal_bps: u32,
        equivocation_penalty_bps: u32,
    ) -> (c: Self)
        ensures
            c.node_id == node_id,
            c.slot_duration == slot_duration,
            c.epoch_length == epoch_length,
            c.params.trust.alpha_q == (q_scale() * alpha_bps) / 10000,
            c.params.trust.beta_q == (q_scale() * beta_bps) / 10000,
            c.params.trust.init_q == (q_scale() * init_bps) / 10000,
            c.params.lambda_q == (q_scale() * lambda_bps) / 10000,
            c.params.min_bond == min_bond,
            c.params.slash_noreveal_bps == slash_noreveal_bps,
            c.equivocation_penalty_bps == equivocation_penalty_bps,
    {
        let trust = TrustParams {
            alpha_q: q_from_basis_points(alpha_bps),
            beta_q: q_from_basis_points(beta_bps),
            init_q: q_from_basis_points(init_bps),
        };
        let params = PotParams { trust, lambda_q: q_from_basis_points(lambda_bps), min_bond, slash_noreveal_bps };
        Self { node_id, slot_duration, epoch_length, params, equivocation_penalty_bps }
    }
}

/// A validator present at genesis.
#[derive(Clone, Copy)]
pub struct GenesisValidator {
    pub who: NodeId,
    pub stake: u64,
    pub active: bool,
    pub trust_override: Option<Q>,
}

impl GenesisValidator {
    /// An active validator with the default initial trust.
    pub fn active(who: NodeId, stake: u64) -> (g: Self)
        ensures
            g == (GenesisValidator { who, stake, active: true, trust_override: None }),
    {
        Self { who, stake, active: true, trust_override: None }
    }
}

/// Registry after registering the genesis validators in order.
pub open spec fn genesis_registry(gvs: Seq<GenesisValidator>) -> Map<NodeId, RegEntry>
    decreases gvs.len(),
{
    if gvs.len() == 0 {
        Map::empty()
    } else {
        let g = gvs.last();
        genesis_registry(gvs.drop_last()).insert(g.who, RegEntry { who: g.who, stake: g.stake, active: g.active })
    }
}

/// Trust after setting the genesis validators' trust in order.
pub open spec fn genesis_trust(gvs: Seq<GenesisValidator>, init: Q) -> Map<NodeId, Q>
    decreases gvs.len(),
{
    if gvs.len() == 0 {
        Map::empty()
    } else {
        let g = gvs.last();
        genesis_trust(gvs.drop_last(), init).insert(
            g.who,
            match g.trust_override { Some(t) => t, None => init },
        )
    }
}

/// Linear weight: two thirds trust plus one third stake, `(2 * trust + stake) / 3`.
pub open spec fn spec_weight_linear(stake_q: Q, trust_q: Q) -> Q {
    ((2 * trust_q + stake_q) / 3) as Q
}

/// Linear weight of a validator: `(2 * trust + stake) / 3`.
pub fn compute_weight_linear(stake_q: Q, trust_q: Q) -> (w: Q)
    ensures
        w == spec_weight_linear(stake_q, trust_q),
{
    let z: u128 = 2 * (trust_q as u128) + (stake_q as u128);
    (z / 3) as u64
}

/// Inserts `c` into `ranked` after every candidate of at least its weight.
pub open spec fn insert_ranked(ranked: Seq<(NodeId, u128)>, c: (NodeId, u128)) -> Seq<(NodeId, u128)>
    decreases ranked.len(),
{
    if ranked.len() == 0 {
        seq![c]
    } else if ranked.last().1 >= c.1 {
        ranked.push(c)
    } else {
        insert_ranked(ranked.drop_last(), c).push(ranked.last())
    }
}

/// Candidates ranked by weight, highest first; equal weights keep their order.
pub open spec fn rank(cands: Seq<(NodeId, u128)>) -> Seq<(NodeId, u128)>
    decreases cands.len(),
{
    if cands.len() == 0 { Seq::empty() } else { insert_ranked(rank(cands.drop_last()), cands.last()) }
}

/// Epoch number after `elapsed` seconds.
pub open spec fn spec_epoch_at(elapsed: u64, slot_secs: u64, epoch_length: u64) -> u64 {
    let d = vstd::wrapping::u64_specs::wrapping_mul(slot_secs, epoch_length);
    if d == 0 { 0 } else { elapsed / d }
}

/// Slot within the epoch after `elapsed` seconds.
pub open spec fn spec_slot_at(elapsed: u64, slot_secs: u64, epoch_length: u64) -> u64 {
    if slot_secs == 0 { 0 } else { (elapsed / slot_secs) % epoch_length }
}

/// Epoch number after `elapsed` seconds with slots of `slot_secs` seconds; the epoch
/// duration wraps around on overflow.
pub fn epoch_at(elapsed: u64, slot_secs: u64, epoch_length: u64) -> (e: u64)
    ensures
        e == spec_epoch_at(elapsed, slot_secs, epoch_length),
{
    let d = slot_secs.wrapping_mul(epoch_length);
    if d == 0 { 0 } else { elapsed / d }
}

/// Slot within the epoch after `elapsed` seconds with slots of `slot_secs` seconds.
pub fn slot_at(elapsed: u64, slot_secs: u64, epoch_length: u64) -> (s: u64)
    requires
        epoch_length > 0,
    ensures
        s == spec_slot_at(elapsed, slot_secs, epoch_length),
{
    if slot_secs == 0 { 0 } else { (elapsed / slot_secs) % epoch_length }
}

/// A running node.
pub struct PotNode {
    config: PotNodeConfig,
    registry: Registry,
    trust: TrustState,
    beacon: RandaoBeacon,
    snapshot: EpochSnapshot,
    current_slot: u64,
    genesis_time: Instant,
    slot_secs: u64,
}

/// The validators that take part in selection: eligible, with a nonzero stake share,
/// weighted linearly, in ascending identifier order.
pub open spec fn candidates(
    regs: Seq<(NodeId, RegEntry)>,
    snap: EpochSnapshot,
    min_bond: u64,
) -> Seq<(NodeId, u128)>
    decreases regs.len(),
{
    if regs.len() == 0 {
        Seq::empty()
    } else {
        let prev = candidates(regs.drop_last(), snap, min_bond);
        let e = regs.last().1;
        let sq = snap.spec_stake_q_of(e.who);
        if eligible(e, min_bond) && sq != 0 {
            prev.push((e.who, spec_weight_linear(sq, snap.spec_trust_q_of(e.who)) as u128))
        } else {
            prev
        }
    }
}

impl PotNode {
    /// The configuration.
    /// Whole seconds of the configured slot duration, read when the node was made.
    pub closed spec fn spec_slot_secs(&self) -> u64 {
        self.slot_secs
    }

    pub closed spec fn spec_config(&self) -> PotNodeConfig {
        self.config
    }

    /// The registry.
    pub closed spec fn spec_registry(&self) -> Registry {
        self.registry
    }

    /// The trust state.
    pub closed spec fn spec_trust(&self) -> TrustState {
        self.trust
    }

    /// The beacon.
    pub closed spec fn spec_beacon(&self) -> RandaoBeacon {
        self.beacon
    }

    /// The current snapshot.
    pub closed spec fn spec_snapshot(&self) -> EpochSnapshot {
        self.snapshot
    }

    /// Internal consistency.
    pub open spec fn wf(&self) -> bool {
        &&& self.spec_registry().wf()
        &&& self.spec_trust().wf()
        &&& self.spec_beacon().wf()
        &&& self.spec_snapshot().wf()
    }

    /// The state right after bootstrapping: no beacon epoch recorded yet, and the
    /// snapshot's stake shares and trust are those of the registry and trust state.
    pub open spec fn at_genesis(&self) -> bool {
        let rows = crate::pot::epoch::spec_rows(
            self.spec_registry(),
            self.spec_trust(),
            self.spec_config().params.trust,
            self.spec_config().params.min_bond,
        );
        &&& self.spec_beacon().epochs.view() == Map::<u64, crate::pot::RandaoEpoch>::empty()
        &&& self.spec_snapshot().stake_q.entries() == rows.map_values(
            |r: crate::pot::SnapshotEntry| (r.who, r.stake_q),
        )
        &&& self.spec_snapshot().trust_q_at_snapshot.entries() == rows.map_values(
            |r: crate::pot::SnapshotEntry| (r.who, r.trust_q),
        )
    }

    /// The leader of `(epoch, slot)`, if anyone is a candidate.
    pub open spec fn spec_leader(&self, epoch: u64, slot: u64) -> Option<(NodeId, u128)> {
        let ranked = rank(candidates(self.spec_registry().entries(), self.spec_snapshot(), self.spec_config().params.min_bond));
        if ranked.len() == 0 {
            None
        } else {
            let bv = self.spec_beacon().spec_value(epoch, slot);
            let seed = vstd::wrapping::u64_specs::wrapping_add(spec_u64_from_le_bytes(bv.subrange(0, 8)), slot);
            Some(ranked[((seed as usize) as int) % (ranked.len() as int)])
        }
    }

    /// Bootstraps a node from its genesis validators: registry and trust from the list
    /// (later entries overriding earlier ones), a beacon seeded with `beacon_seed`, and
    /// the epoch-0 snapshot.
    pub fn new(config: PotNodeConfig, genesis_validators: Vec<GenesisValidator>, beacon_seed: [u8; 32]) -> (n: Self)
        ensures
            n.wf(),
            n.spec_config() == config,
            n.spec_registry().view() == genesis_registry(genesis_validators@),
            n.spec_trust().view() == genesis_trust(genesis_validators@, config.params.trust.init_q),
            n.spec_beacon().epochs.view() == Map::<u64, crate::pot::RandaoEpoch>::empty(),
            n.spec_beacon().prev_beacon == beacon_seed,
            n.spec_beacon().slash_noreveal_bps == 0,
            n.at_genesis(),
            n.spec_snapshot().consistent(),
            n.spec_snapshot().epoch == 0,
            n.spec_snapshot().order@ == crate::pot::epoch::spec_rows(
                n.spec_registry(),
                n.spec_trust(),
                config.params.trust,
                config.params.min_bond,
            ).map_values(|r: crate::pot::SnapshotEntry| r.who),
    {
        let mut registry = Registry::new();
        let mut trust = TrustState::new();
        let mut i: usize = 0;
        while i < genesis_validators.len()
            invariant
                i <= genesis_validators@.len(),
                registry.wf(),
                trust.wf(),
                registry.view() == genesis_registry(genesis_validators@.subrange(0, i as int)),
                trust.view() == genesis_trust(genesis_validators@.subrange(0, i as int), config.params.trust.init_q),
            decreases genesis_validators@.len() - i,
        {
            let gv = genesis_validators[i];
            registry.insert(gv.who, gv.stake, gv.active);
            let tv = match gv.trust_override {
                Some(t) => t,
                None => config.params.trust.init_q,
            };
            trust.set(gv.who, tv);
            proof {
                let pre = genesis_validators@.subrange(0, i + 1);
                assert(pre.drop_last() =~= genesis_validators@.subrange(0, i as int));
                assert(pre.last() == gv);
            }
            i = i + 1;
        }
        proof {
            assert(genesis_validators@.subrange(0, genesis_validators@.len() as int) =~= genesis_validators@);
        }
        let beacon = RandaoBeacon::new(0, beacon_seed);
        let snapshot = EpochSnapshot::build(0, &registry, &trust, &config.params.trust, config.params.min_bond);
        let slot_secs = duration_secs(&config.slot_duration);
        PotNode { config, registry, trust, beacon, snapshot, current_slot: 0, genesis_time: instant_now(), slot_secs }
    }

    /// Current epoch from the whole seconds elapsed since genesis: that count divided
    /// by the epoch's duration in seconds (zero where that duration is zero).
    pub fn current_epoch(&self) -> (e: u64)
        ensures
            exists|elapsed: u64| e == #[trigger] spec_epoch_at(elapsed, self.spec_slot_secs(), self.spec_config().epoch_length),
    {
        let elapsed = elapsed_secs(&self.genesis_time);
        let e = epoch_at(elapsed, self.slot_secs, self.config.epoch_length);
        assert(e == spec_epoch_at(elapsed, self.spec_slot_secs(), self.spec_config().epoch_length));
        e
    }

    /// Current slot within the epoch from the time elapsed since genesis.
    pub fn current_slot(&self) -> (s: u64)
        requires
            self.spec_config().epoch_length > 0,
        ensures
            s < self.spec_config().epoch_length,
            exists|elapsed: u64| s == #[trigger] spec_slot_at(elapsed, self.spec_slot_secs(), self.spec_config().epoch_length),
    {
        let elapsed = elapsed_secs(&self.genesis_time);
        let s = slot_at(elapsed, self.slot_secs, self.config.epoch_length);
        assert(s == spec_slot_at(elapsed, self.spec_slot_secs(), self.spec_config().epoch_length));
        s
    }

    /// The weight of this node if it is the leader of `(epoch, slot)`.
    pub fn check_eligibility(&self, epoch: u64, slot: u64) -> (r: Option<u128>)
        requires
            self.wf(),
        ensures
            r == (match self.spec_leader(epoch, slot) {
                Some((who, w)) => if who == self.spec_config().node_id { Some(w) } else { None },
                None => None,
            }),
    {
        let me = self.config.node_id;
        let min_bond = self.config.params.min_bond;
        let ghost regs = self.registry.entries();
        proof {
            self.registry.lemma_wf();
        }
        let n = self.registry.len();
        let mut ranked: Vec<(NodeId, u128)> = Vec::new();
        let mut i: usize = 0;
        while i < n
            invariant
                self.wf(),
                n == regs.len(),
                regs == self.registry.entries(),
                i <= n,
                ranked@ == rank(candidates(regs.subrange(0, i as int), self.snapshot, min_bond)),
            decreases n - i,
        {
            let e = self.registry.entry_at(i);
            let sq = self.snapshot.stake_q_of(&e.who);
            proof {
                let pre = regs.subrange(0, i + 1);
                assert(pre.drop_last() =~= regs.subrange(0, i as int));
                assert(pre.last() == regs[i as int]);
            }
            let ghost prev = candidates(regs.subrange(0, i as int), self.snapshot, min_bond);
            if e.active && e.stake >= min_bond && sq != 0 {
                let tq = self.snapshot.trust_q_of(&e.who);
                let w = compute_weight_linear(sq, tq) as u128;
                insert_ranked_exec(&mut ranked, (e.who, w));
                proof {
                    let pre = regs.subrange(0, i + 1);
                    assert(candidates(pre, self.snapshot, min_bond) == prev.push((e.who, w)));
                    assert(prev.push((e.who, w)).drop_last() =~= prev);
                    assert(rank(prev.push((e.who, w))) == insert_ranked(rank(prev), (e.who, w)));
                }
            } else {
                proof {
                    let pre = regs.subrange(0, i + 1);
                    assert(candidates(pre, self.snapshot, min_bond) == prev);
                }
            }
            i = i + 1;
        }
        proof {
            assert(regs.subrange(0, n as int) =~= regs);
        }
        let len = ranked.len();
        if len == 0 {
            return None;
        }
        if !self.registry.is_active(&me, min_bond) {
            proof {
                lemma_leader_is_candidate(self, epoch, slot);
            }
            return None;
        }
        let bv = self.beacon.value(epoch, slot);
        let mut first8: Vec<u8> = Vec::new();
        let mut k: usize = 0;
        while k < 8
            invariant
                k <= 8,
                first8@ == bv@.subrange(0, k as int),
            decreases 8 - k,
        {
            first8.push(bv[k]);
            k = k + 1;
            assert(first8@ =~= bv@.subrange(0, k as int));
        }
        let beacon_u64 = u64_from_le_bytes(first8.as_slice());
        let selection_seed = beacon_u64.wrapping_add(slot);
        let leader_idx = (selection_seed as usize) % len;
        let (selected, weight) = ranked[leader_idx];
        if crate::bytes::eq32(&selected, &me) {
            proof {
                assert(selected =~= me);
            }
            Some(weight)
        } else {
            proof {
                if selected == me {
                    assert(selected@ == me@);
                }
            }
            None
        }
    }

    /// A leader witness for `(epoch, slot)` if this node is its leader and appears in
    /// the snapshot: its stake and trust shares as recorded there, and the Merkle proof
    /// of its leaf against the snapshot's weights root. The witness carries no trust
    /// proof, so `use_zk_trust` leaves it unchanged.
    pub fn create_witness(&self, epoch: u64, slot: u64, use_zk_trust: bool) -> (r: Option<LeaderWitness>)
        requires
            self.wf(),
        ensures
            r.is_some() <==> ({
                &&& self.spec_leader(epoch, slot) is Some
                &&& self.spec_leader(epoch, slot).unwrap().0 == self.spec_config().node_id
                &&& self.spec_snapshot().order@.contains(self.spec_config().node_id)
            }),
            r.is_some() ==> {
                let w = r.unwrap();
                let me = self.spec_config().node_id;
                let snap = self.spec_snapshot();
                &&& w.who == me
                &&& w.slot == slot
                &&& w.epoch == epoch
                &&& w.weights_root == snap.weights_root
                &&& w.stake_q == snap.spec_stake_q_of(me)
                &&& w.trust_q == snap.spec_trust_q_of(me)
                &&& w.weight_proof.leaf_index < snap.order@.len()
                &&& snap.order@[w.weight_proof.leaf_index as int] == me
                &&& views32(w.weight_proof.siblings@) == proof_siblings(snap.leaves(), w.weight_proof.leaf_index as int)
            },
    {
        if self.check_eligibility(epoch, slot).is_none() {
            return None;
        }
        let me = self.config.node_id;
        let stake_q = self.snapshot.stake_q_of(&me);
        let trust_q = self.snapshot.trust_q_of(&me);
        let weight_proof = match self.snapshot.build_proof(&me) {
            Some(p) => p,
            None => return None,
        };
        Some(LeaderWitness {
            who: me,
            slot,
            epoch,
            weights_root: self.snapshot.weights_root,
            weight_proof,
            stake_q,
            trust_q,
        })
    }

    /// The configuration.
    pub fn config(&self) -> (c: &PotNodeConfig)
        ensures
            *c == self.spec_config(),
    {
        &self.config
    }

    /// The registry.
    pub fn registry(&self) -> (r: &Registry)
        ensures
            *r == self.spec_registry(),
    {
        &self.registry
    }

    /// The trust state.
    pub fn trust(&self) -> (t: &TrustState)
        ensures
            *t == self.spec_trust(),
    {
        &self.trust
    }

    /// Mutable access to the trust state.
    pub fn trust_mut(&mut self) -> (t: &mut TrustState)
        ensures
            *t == old(self).spec_trust(),
            final(self).spec_trust() == *final(t),
            final(self).spec_config() == old(self).spec_config(),
            final(self).spec_registry() == old(self).spec_registry(),
            final(self).spec_beacon() == old(self).spec_beacon(),
            final(self).spec_snapshot() == old(self).spec_snapshot(),
    {
        &mut self.trust
    }

    /// The current snapshot.
    pub fn snapshot(&self) -> (s: &EpochSnapshot)
        ensures
            *s == self.spec_snapshot(),
    {
        &self.snapshot
    }

    /// The beacon.
    pub fn beacon(&self) -> (b: &RandaoBeacon)
        ensures
            *b == self.spec_beacon(),
    {
        &self.beacon
    }
}

/// Inserts `c` into `ranked` after every entry of at least its weight.
pub fn insert_ranked_exec(ranked: &mut Vec<(NodeId, u128)>, c: (NodeId, u128))
    ensures
        final(ranked)@ == insert_ranked(old(ranked)@, c),
{
    let ghost s = ranked@;
    let mut p: usize = ranked.len();
    assert(s.subrange(0, s.len() as int) =~= s);
    assert(s.subrange(s.len() as int, s.len() as int) =~= Seq::<(NodeId, u128)>::empty());
    assert(insert_ranked(s, c) =~= insert_ranked(s.subrange(0, p as int), c) + s.subrange(p as int, s.len() as int));
    while p > 0 && ranked[p - 1].1 < c.1
        invariant
            ranked@ == s,
            p <= s.len(),
            insert_ranked(s, c) == insert_ranked(s.subrange(0, p as int), c) + s.subrange(p as int, s.len() as int),
            forall|q: int| p <= q < s.len() ==> (#[trigger] s[q]).1 < c.1,
        decreases p,
    {
        proof {
            let pre = s.subrange(0, p as int);
            assert(pre.drop_last() =~= s.subrange(0, p - 1));
            assert(pre.last() == s[p - 1]);
            assert(insert_ranked(pre, c) == insert_ranked(s.subrange(0, p - 1), c).push(s[p - 1]));
            assert(insert_ranked(s.subrange(0, p - 1), c).push(s[p - 1]) + s.subrange(p as int, s.len() as int)
                =~= insert_ranked(s.subrange(0, p - 1), c) + s.subrange(p - 1, s.len() as int));
        }
        p = p - 1;
    }
    proof {
        let pre = s.subrange(0, p as int);
        if p > 0 {
            assert(pre.last() == s[p - 1]);
            assert(insert_ranked(pre, c) == pre.push(c));
        } else {
            assert(insert_ranked(pre, c) == seq![c]);
        }
        assert(insert_ranked(s, c) =~= s.insert(p as int, c));
    }
    ranked.insert(p, c);
}

/// Ranking keeps the candidates: the same members, the same number.
pub proof fn lemma_rank_members(cands: Seq<(NodeId, u128)>, x: (NodeId, u128))
    ensures
        rank(cands).contains(x) <==> cands.contains(x),
        rank(cands).len() == cands.len(),
    decreases cands.len(),
{
    if cands.len() > 0 {
        lemma_rank_members(cands.drop_last(), x);
        lemma_insert_members(rank(cands.drop_last()), cands.last(), x);
        if cands.drop_last().contains(x) {
            let i = choose|i: int| 0 <= i < cands.drop_last().len() && cands.drop_last()[i] == x;
            assert(cands[i] == x);
        }
        if cands.contains(x) && x != cands.last() {
            let i = choose|i: int| 0 <= i < cands.len() && cands[i] == x;
            assert(cands.drop_last()[i] == x);
        }
    }
}

proof fn lemma_insert_members(r: Seq<(NodeId, u128)>, c: (NodeId, u128), x: (NodeId, u128))
    ensures
        insert_ranked(r, c).contains(x) <==> (r.contains(x) || x == c),
        insert_ranked(r, c).len() == r.len() + 1,
    decreases r.len(),
{
    if r.len() > 0 {
        if r.last().1 < c.1 {
            lemma_insert_members(r.drop_last(), c, x);
            let t = insert_ranked(r.drop_last(), c);
            if r.drop_last().contains(x) {
                let i = choose|i: int| 0 <= i < r.drop_last().len() && r.drop_last()[i] == x;
                assert(r[i] == x);
            }
            if r.contains(x) && x != r.last() {
                let i = choose|i: int| 0 <= i < r.len() && r[i] == x;
                assert(r.drop_last()[i] == x);
            }
            if t.contains(x) {
                let i = choose|i: int| 0 <= i < t.len() && t[i] == x;
                assert(t.push(r.last())[i] == x);
            }
            if x == r.last() {
                assert(t.push(r.last())[t.len() as int] == x);
            }
        } else {
            if r.contains(x) {
                let i = choose|i: int| 0 <= i < r.len() && r[i] == x;
                assert(r.push(c)[i] == x);
            }
            if x == c {
                assert(r.push(c)[r.len() as int] == x);
            }
        }
    } else {
        if x == c {
            assert(seq![c][0] == x);
        }
    }
}

proof fn lemma_candidates_eligible(regs: Seq<(NodeId, RegEntry)>, snap: EpochSnapshot, min_bond: u64, x: (NodeId, u128))
    requires
        candidates(regs, snap, min_bond).contains(x),
    ensures
        exists|i: int| 0 <= i < regs.len() && (#[trigger] regs[i]).1.who == x.0 && eligible(regs[i].1, min_bond),
    decreases regs.len(),
{
    let prev = candidates(regs.drop_last(), snap, min_bond);
    let e = regs.last().1;
    if prev.contains(x) {
        lemma_candidates_eligible(regs.drop_last(), snap, min_bond, x);
        let i = choose|i: int| 0 <= i < regs.drop_last().len() && (#[trigger] regs.drop_last()[i]).1.who == x.0 && eligible(regs.drop_last()[i].1, min_bond);
        assert(regs[i] == regs.drop_last()[i]);
    } else {
        assert(x == (e.who, spec_weight_linear(snap.spec_stake_q_of(e.who), snap.spec_trust_q_of(e.who)) as u128));
        assert(regs[regs.len() - 1].1.who == x.0);
    }
}

proof fn lemma_leader_is_candidate(node: &PotNode, epoch: u64, slot: u64)
    requires
        node.wf(),
    ensures
        match node.spec_leader(epoch, slot) {
            Some((who, w)) => node.spec_registry().view().contains_key(who)
                && eligible(node.spec_registry().view()[who], node.spec_config().params.min_bond),
            None => true,
        },
{
    let cands = candidates(node.spec_registry().entries(), node.spec_snapshot(), node.spec_config().params.min_bond);
    match node.spec_leader(epoch, slot) {
        Some(x) => {
            let ranked = rank(cands);
            lemma_rank_members(cands, x);
            let bv = node.spec_beacon().spec_value(epoch, slot);
            let seed = vstd::wrapping::u64_specs::wrapping_add(spec_u64_from_le_bytes(bv.subrange(0, 8)), slot);
            let idx = ((seed as usize) as int) % (ranked.len() as int);
            assert(ranked[idx] == x);
            assert(ranked.contains(x));
            lemma_candidates_eligible(node.spec_registry().entries(), node.spec_snapshot(), node.spec_config().params.min_bond, x);
            node.spec_registry().lemma_wf();
            let i = choose|i: int| 0 <= i < node.spec_registry().entries().len() && (#[trigger] node.spec_registry().entries()[i]).1.who == x.0 && eligible(node.spec_registry().entries()[i].1, node.spec_config().params.min_bond);
            assert(node.spec_registry().entries()[i].0 == x.0);
        },
        None => {},
    }
}

/// At most one node is the leader of a slot: two nodes that share their state and
/// differ only in their identity are never both eligible.
pub proof fn lemma_unique_leader(a: PotNode, b: PotNode, epoch: u64, slot: u64)
    requires
        a.spec_registry() == b.spec_registry(),
        a.spec_snapshot() == b.spec_snapshot(),
        a.spec_beacon() == b.spec_beacon(),
        a.spec_config().params.min_bond == b.spec_config().params.min_bond,
        a.spec_config().node_id != b.spec_config().node_id,
    ensures
        a.spec_leader(epoch, slot).is_some() && a.spec_leader(epoch, slot).unwrap().0 == a.spec_config().node_id
            ==> !(b.spec_leader(epoch, slot).is_some() && b.spec_leader(epoch, slot).unwrap().0 == b.spec_config().node_id),
{
}

/// The ranking lists the candidates in non-increasing weight.
pub proof fn lemma_rank_sorted(cands: Seq<(NodeId, u128)>)
    ensures
        forall|i: int, j: int| 0 <= i < j < rank(cands).len() ==> rank(cands)[i].1 >= rank(cands)[j].1,
    decreases cands.len(),
{
    if cands.len() > 0 {
        lemma_rank_sorted(cands.drop_last());
        lemma_insert_sorted(rank(cands.drop_last()), cands.last());
    }
}

proof fn lemma_insert_sorted(r: Seq<(NodeId, u128)>, c: (NodeId, u128))
    requires
        forall|i: int, j: int| 0 <= i < j < r.len() ==> r[i].1 >= r[j].1,
    ensures
        forall|i: int, j: int| 0 <= i < j < insert_ranked(r, c).len() ==> insert_ranked(r, c)[i].1 >= insert_ranked(r, c)[j].1,
        forall|i: int| 0 <= i < insert_ranked(r, c).len() ==> insert_ranked(r, c)[i].1 >= min_w(r, c),
    decreases r.len(),
{
    if r.len() > 0 {
        if r.last().1 < c.1 {
            let rd = r.drop_last();
            assert forall|i: int, j: int| 0 <= i < j < rd.len() implies rd[i].1 >= rd[j].1 by {
                assert(rd[i] == r[i] && rd[j] == r[j]);
            }
            lemma_insert_sorted(rd, c);
            let t = insert_ranked(rd, c);
            lemma_insert_members(rd, c, c);
            assert forall|i: int| 0 <= i < t.len() implies t[i].1 >= r.last().1 by {
                if rd.len() > 0 {
                    assert(min_w(rd, c) >= r.last().1) by {
                        assert(rd.last() == r[r.len() - 2]);
                    }
                }
            }
        } else {
            assert forall|i: int| 0 <= i < r.len() implies r[i].1 >= r.last().1 by {
                if i < r.len() - 1 {
                }
            }
        }
    }
}

spec fn min_w(r: Seq<(NodeId, u128)>, c: (NodeId, u128)) -> u128 {
    if r.len() == 0 { c.1 } else if r.last().1 < c.1 { r.last().1 } else { c.1 }
}

/// Why a node refused to act.
#[derive(Debug, Clone, Copy, PartialEq, Eq)]
pub enum NodeError {
    InvalidValidator,
    NotEligible,
    Equivocation,
}

/// Outcome of processing a slot.
#[derive(Clone, Copy, Debug)]
pub enum SlotDecision {
    NoLeader,
    WeAreLeader { weight: u128 },
    OtherLeader { who: NodeId },
}

/// The winner of a slot.
#[derive(Clone, Copy, Debug)]
pub struct SlotWinner {
    pub who: NodeId,
    pub slot: u64,
    pub epoch: u64,
    pub weight: u128,
}

/// No two genesis validators share an identifier.
pub open spec fn distinct_validators(gvs: Seq<GenesisValidator>) -> bool {
    forall|i: int, j: int| 0 <= i < j < gvs.len() ==> (#[trigger] gvs[i]).who != (#[trigger] gvs[j]).who
}

proof fn lemma_genesis_maps(gvs: Seq<GenesisValidator>, init: Q)
    requires
        distinct_validators(gvs),
    ensures
        forall|w: NodeId| #[trigger] genesis_registry(gvs).contains_key(w) ==> exists|i: int|
            0 <= i < gvs.len() && (#[trigger] gvs[i]).who == w,
        forall|w: NodeId| #[trigger] genesis_trust(gvs, init).contains_key(w) ==> exists|i: int|
            0 <= i < gvs.len() && (#[trigger] gvs[i]).who == w,
        forall|i: int| 0 <= i < gvs.len() ==> {
            &&& genesis_registry(gvs).contains_key(#[trigger] gvs[i].who)
            &&& genesis_registry(gvs)[gvs[i].who] == (RegEntry { who: gvs[i].who, stake: gvs[i].stake, active: gvs[i].active })
            &&& genesis_trust(gvs, init).contains_key(gvs[i].who)
            &&& genesis_trust(gvs, init)[gvs[i].who] == match gvs[i].trust_override { Some(t) => t, None => init }
        },
    decreases gvs.len(),
{
    if gvs.len() > 0 {
        let t = gvs.drop_last();
        let g = gvs.last();
        assert(distinct_validators(t)) by {
            assert forall|i: int, j: int| 0 <= i < j < t.len() implies (#[trigger] t[i]).who != (#[trigger] t[j]).who by {
                assert(t[i] == gvs[i] && t[j] == gvs[j]);
            }
        }
        lemma_genesis_maps(t, init);
        assert forall|w: NodeId| #[trigger] genesis_registry(gvs).contains_key(w) implies exists|i: int|
            0 <= i < gvs.len() && (#[trigger] gvs[i]).who == w by {
            if w == g.who {
                assert(gvs[gvs.len() - 1].who == w);
            } else {
                assert(genesis_registry(t).contains_key(w));
                let i = choose|i: int| 0 <= i < t.len() && (#[trigger] t[i]).who == w;
                assert(gvs[i] == t[i]);
            }
        }
        assert forall|w: NodeId| #[trigger] genesis_trust(gvs, init).contains_key(w) implies exists|i: int|
            0 <= i < gvs.len() && (#[trigger] gvs[i]).who == w by {
            if w == g.who {
                assert(gvs[gvs.len() - 1].who == w);
            } else {
                assert(genesis_trust(t, init).contains_key(w));
                let i = choose|i: int| 0 <= i < t.len() && (#[trigger] t[i]).who == w;
                assert(gvs[i] == t[i]);
            }
        }
        assert forall|i: int| 0 <= i < gvs.len() implies {
            &&& genesis_registry(gvs).contains_key(#[trigger] gvs[i].who)
            &&& genesis_registry(gvs)[gvs[i].who] == (RegEntry { who: gvs[i].who, stake: gvs[i].stake, active: gvs[i].active })
            &&& genesis_trust(gvs, init).contains_key(gvs[i].who)
            &&& genesis_trust(gvs, init)[gvs[i].who] == match gvs[i].trust_override { Some(t) => t, None => init }
        } by {
            if i < gvs.len() - 1 {
                assert(t[i] == gvs[i]);
                assert(gvs[i].who != gvs[gvs.len() - 1].who);
            }
        }
    }
}

/// The genesis registry and trust do not depend on the order of the genesis list:
/// two lists holding the same validators, none listed under an identifier twice,
/// give the same registry and the same trust.
pub proof fn lemma_genesis_order_irrelevant(g1: Seq<GenesisValidator>, g2: Seq<GenesisValidator>, init: Q)
    requires
        distinct_validators(g1),
        distinct_validators(g2),
        forall|g: GenesisValidator| g1.contains(g) <==> g2.contains(g),
    ensures
        genesis_registry(g1) == genesis_registry(g2),
        genesis_trust(g1, init) == genesis_trust(g2, init),
{
    lemma_genesis_maps(g1, init);
    lemma_genesis_maps(g2, init);
    assert forall|w: NodeId| genesis_registry(g1).contains_key(w) <==> genesis_registry(g2).contains_key(w) by {
        if genesis_registry(g1).contains_key(w) {
            let i = choose|i: int| 0 <= i < g1.len() && (#[trigger] g1[i]).who == w;
            assert(g1.contains(g1[i]));
            let j = choose|j: int| 0 <= j < g2.len() && g2[j] == g1[i];
            assert(g2[j].who == w);
        }
        if genesis_registry(g2).contains_key(w) {
            let i = choose|i: int| 0 <= i < g2.len() && (#[trigger] g2[i]).who == w;
            assert(g2.contains(g2[i]));
            let j = choose|j: int| 0 <= j < g1.len() && g1[j] == g2[i];
            assert(g1[j].who == w);
        }
    }
    assert forall|w: NodeId| genesis_registry(g1).contains_key(w) implies genesis_registry(g1)[w] == genesis_registry(g2)[w]
        && genesis_trust(g1, init).contains_key(w) && genesis_trust(g1, init)[w] == genesis_trust(g2, init)[w] by {
        let i = choose|i: int| 0 <= i < g1.len() && (#[trigger] g1[i]).who == w;
        assert(g1.contains(g1[i]));
        let j = choose|j: int| 0 <= j < g2.len() && g2[j] == g1[i];
        assert(g2[j].who == w);
    }
    assert forall|w: NodeId| genesis_trust(g1, init).contains_key(w) <==> genesis_trust(g2, init).contains_key(w) by {
        if genesis_trust(g1, init).contains_key(w) {
            let i = choose|i: int| 0 <= i < g1.len() && (#[trigger] g1[i]).who == w;
            assert(g1.contains(g1[i]));
            let j = choose|j: int| 0 <= j < g2.len() && g2[j] == g1[i];
            assert(g2[j].who == w);
        }
        if genesis_trust(g2, init).contains_key(w) {
            let i = choose|i: int| 0 <= i < g2.len() && (#[trigger] g2[i]).who == w;
            assert(g2.contains(g2[i]));
            let j = choose|j: int| 0 <= j < g1.len() && g1[j] == g2[i];
            assert(g1[j].who == w);
        }
    }
    assert(genesis_registry(g1) =~= genesis_registry(g2));
    assert(genesis_trust(g1, init) =~= genesis_trust(g2, init));
}

proof fn lemma_candidates_read_shares(regs: Seq<(NodeId, RegEntry)>, s1: EpochSnapshot, s2: EpochSnapshot, min_bond: u64)
    requires
        s1.stake_q.view() == s2.stake_q.view(),
        s1.trust_q_at_snapshot.view() == s2.trust_q_at_snapshot.view(),
    ensures
        candidates(regs, s1, min_bond) == candidates(regs, s2, min_bond),
    decreases regs.len(),
{
    if regs.len() > 0 {
        lemma_candidates_read_shares(regs.drop_last(), s1, s2, min_bond);
    }
}

/// Nodes bootstrapped from the same genesis state agree on every leader, whatever
/// their own identity: right after bootstrapping, two nodes whose registries and
/// trust hold the same values, with the same parameters and beacon seed, compute
/// the same leader for every slot, so at most one of two distinct nodes is eligible;
/// and the leader is a registered validator that is active and bonded, so where each
/// such validator runs a node, exactly one node leads.
pub proof fn lemma_genesis_nodes_agree(a: PotNode, b: PotNode, epoch: u64, slot: u64)
    requires
        a.wf(),
        b.wf(),
        a.at_genesis(),
        b.at_genesis(),
        a.spec_registry().view() == b.spec_registry().view(),
        a.spec_trust().view() == b.spec_trust().view(),
        a.spec_config().params == b.spec_config().params,
        a.spec_beacon().prev_beacon == b.spec_beacon().prev_beacon,
    ensures
        a.spec_leader(epoch, slot) == b.spec_leader(epoch, slot),
        a.spec_config().node_id != b.spec_config().node_id ==> !(a.spec_leader(epoch, slot) is Some && a.spec_leader(
            epoch,
            slot,
        ).unwrap().0 == a.spec_config().node_id && b.spec_leader(epoch, slot) is Some && b.spec_leader(
            epoch,
            slot,
        ).unwrap().0 == b.spec_config().node_id),
        match a.spec_leader(epoch, slot) {
            Some((who, w)) => a.spec_registry().view().contains_key(who) && eligible(
                a.spec_registry().view()[who],
                a.spec_config().params.min_bond,
            ),
            None => true,
        },
{
    lemma_leader_is_candidate(&a, epoch, slot);
    let ra = a.spec_registry();
    let rb = b.spec_registry();
    Registry::lemma_same_view_same_entries(&ra, &rb);
    let tp = a.spec_config().params.trust;
    let mb = a.spec_config().params.min_bond;
    crate::pot::epoch::lemma_rows_read_trust_values(
        ra.entries(),
        a.spec_trust(),
        b.spec_trust(),
        tp.init_q,
        mb,
        crate::pot::epoch::active_total(ra.entries(), mb),
    );
    assert(a.spec_snapshot().stake_q.view() == b.spec_snapshot().stake_q.view());
    assert(a.spec_snapshot().trust_q_at_snapshot.view() == b.spec_snapshot().trust_q_at_snapshot.view());
    lemma_candidates_read_shares(ra.entries(), a.spec_snapshot(), b.spec_snapshot(), mb);
    assert(!a.spec_beacon().known(epoch));
    assert(!b.spec_beacon().known(epoch));
}

} // verus!
