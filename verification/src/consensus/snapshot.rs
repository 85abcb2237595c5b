//! Epoch snapshots with a SHA-256 Merkle tree of validator weights.
//!
//! Layers are paired left to right; an odd last node moves up unchanged.
use vstd::prelude::*;
use vstd::bytes::{spec_u128_to_le_bytes, u128_to_le_bytes};
use crate::bytes::{append_bytes, append_u64_le, le64};
use crate::hashing::{sha2_sha256, sha256_digest};
use crate::ordmap::{OrdMap, MapKey};
use crate::consensus::types::{NodeId, Q, StakeQ, ONE_Q, Registry, ValidatorInfo};
use crate::tags::{wgt_v1, wgt_v1_bytes, mrk_v1, mrk_v1_bytes};
use crate::pot::merkle::views32;

verus! {

/// Truncating Q32.32 product.
pub open spec fn spec_qmul_trunc(a: u64, b: u64) -> u64 {
    ((a as int * b as int) / 4294967296) as u64
}

/// Q32.32 product `(a * b) >> 32`, truncated to 64 bits.
pub fn qmul(a: Q, b: Q) -> (r: Q)
    ensures
        r == spec_qmul_trunc(a, b),
{
    proof {
        assert((a as int) * (b as int) <= (u64::MAX as int) * (u64::MAX as int)) by (nonlinear_arith);
        assert((a as int) * (b as int) >= 0) by (nonlinear_arith);
    }
    (((a as u128) * (b as u128)) / 4294967296u128) as u64
}

/// Q32.32 quotient `(a << 32) / b`, truncated to 64 bits; `None` when `b == 0`.
pub fn qdiv(a: Q, b: Q) -> (r: Option<Q>)
    ensures
        b == 0 ==> r.is_none(),
        b != 0 ==> r == Some((((a as int) * 4294967296) / (b as int)) as u64),
{
    if b == 0 {
        return None;
    }
    Some((((a as u128) * 4294967296u128) / (b as u128)) as u64)
}

/// Leaf of `who` with raw stake `stake` and trust `trust_q`.
pub open spec fn spec_sha_leaf(who: Seq<u8>, stake: u128, trust_q: u64) -> Seq<u8> {
    sha256_digest(wgt_v1() + who + spec_u128_to_le_bytes(stake) + le64(trust_q))
}

/// Parent of two nodes.
pub open spec fn spec_sha_parent(a: Seq<u8>, b: Seq<u8>) -> Seq<u8> {
    sha256_digest(mrk_v1() + a + b)
}

/// The layer above `layer`; an odd last node moves up unchanged.
pub open spec fn carry_layer(layer: Seq<Seq<u8>>) -> Seq<Seq<u8>> {
    Seq::new(
        ((layer.len() + 1) / 2) as nat,
        |j: int| if 2 * j + 1 < layer.len() { spec_sha_parent(layer[2 * j], layer[2 * j + 1]) } else { layer[2 * j] },
    )
}

/// Root reached from a non-empty layer.
pub open spec fn carry_root(layer: Seq<Seq<u8>>) -> Seq<u8>
    decreases layer.len(),
{
    if layer.len() <= 1 { layer[0] } else { carry_root(carry_layer(layer)) }
}

/// Trust used for `id`: the recorded value, 1.0 when absent.
pub open spec fn trust_for(trust: Map<NodeId, Q>, id: NodeId) -> Q {
    if trust.contains_key(id) { trust[id] } else { ONE_Q }
}

/// Weight of a validator: stake (truncated to 64 bits) times trust.
pub open spec fn weight_for(stake: u128, trust_q: Q) -> Q {
    spec_qmul_trunc(stake as u64, trust_q)
}

/// Sum of the weights of the validators.
pub open spec fn total_weight(regs: Seq<(NodeId, ValidatorInfo)>, trust: Map<NodeId, Q>) -> int
    decreases regs.len(),
{
    if regs.len() == 0 {
        0
    } else {
        total_weight(regs.drop_last(), trust) + weight_for(regs.last().1.stake, trust_for(trust, regs.last().0))
    }
}

/// Leaves of the validators.
pub open spec fn sha_leaves(regs: Seq<(NodeId, ValidatorInfo)>, trust: Map<NodeId, Q>) -> Seq<Seq<u8>> {
    regs.map_values(|e: (NodeId, ValidatorInfo)| spec_sha_leaf(e.0@, e.1.stake, trust_for(trust, e.0)))
}

/// Epoch snapshot: weights, their total and their Merkle root.
#[derive(Debug)]
pub struct EpochSnapshot {
    pub epoch: u64,
    pub weights_root: [u8; 32],
    pub weights: OrdMap<NodeId, Q>,
    pub total_weight_q: u128,
}

fn sha_leaf(who: &NodeId, stake: StakeQ, trust_q: Q) -> (h: [u8; 32])
    ensures
        h@ == spec_sha_leaf(who@, stake, trust_q),
{
    let mut data = wgt_v1_bytes();
    append_bytes(&mut data, who);
    let sb = u128_to_le_bytes(stake);
    append_bytes(&mut data, sb.as_slice());
    append_u64_le(&mut data, trust_q);
    sha2_sha256(data.as_slice())
}

fn sha_parent(a: &[u8; 32], b: &[u8; 32]) -> (h: [u8; 32])
    ensures
        h@ == spec_sha_parent(a@, b@),
{
    let mut data = mrk_v1_bytes();
    append_bytes(&mut data, a);
    append_bytes(&mut data, b);
    sha2_sha256(data.as_slice())
}

fn carry_layer_exec(layer: &Vec<[u8; 32]>) -> (out: Vec<[u8; 32]>)
    requires
        layer@.len() >= 1,
    ensures
        views32(out@) == carry_layer(views32(layer@)),
        out@.len() == (layer@.len() + 1) / 2,
{
    let ghost lv = views32(layer@);
    let n = layer.len();
    let half = n / 2 + n % 2;
    let mut out: Vec<[u8; 32]> = Vec::new();
    let mut j: usize = 0;
    while j < half
        invariant
            n == layer@.len(),
            lv == views32(layer@),
            half == (n + 1) / 2,
            j <= half,
            out@.len() == j,
            forall|q: int| 0 <= q < out@.len() ==> (#[trigger] out@[q])@ == carry_layer(lv)[q],
        decreases half - j,
    {
        let i = 2 * j;
        let node = if i + 1 < n { sha_parent(&layer[i], &layer[i + 1]) } else { layer[i] };
        out.push(node);
        j = j + 1;
    }
    assert(views32(out@) =~= carry_layer(lv));
    out
}

impl EpochSnapshot {
    /// Builds the snapshot of every registered validator, in ascending identifier order;
    /// validators without recorded trust count with trust 1.0.
    pub fn build(epoch: u64, registry: &Registry, trust: &OrdMap<NodeId, Q>) -> (s: Self)
        requires
            registry.wf(),
            trust.wf(),
        ensures
            s.epoch == epoch,
            s.weights.wf(),
            s.weights.entries() == registry.validators.entries().map_values(
                |e: (NodeId, ValidatorInfo)| (e.0, weight_for(e.1.stake, trust_for(trust.view(), e.0))),
            ),
            s.total_weight_q == total_weight(registry.validators.entries(), trust.view()),
            registry.validators.entries().len() == 0 ==> s.weights_root@ == Seq::new(32, |i: int| 0u8),
            registry.validators.entries().len() > 0 ==> s.weights_root@ == carry_root(
                sha_leaves(registry.validators.entries(), trust.view()),
            ),
    {
        let ghost regs = registry.validators.entries();
        let ghost tv = trust.view();
        let n = registry.validators.len();
        let mut weights: OrdMap<NodeId, Q> = OrdMap::new();
        let mut leaves: Vec<[u8; 32]> = Vec::new();
        let mut total: u128 = 0;
        let mut i: usize = 0;
        while i < n
            invariant
                n == regs.len(),
                regs == registry.validators.entries(),
                registry.wf(),
                tv == trust.view(),
                trust.wf(),
                i <= n,
                weights.wf(),
                weights.entries() == regs.subrange(0, i as int).map_values(
                    |e: (NodeId, ValidatorInfo)| (e.0, weight_for(e.1.stake, trust_for(tv, e.0))),
                ),
                views32(leaves@) == sha_leaves(regs.subrange(0, i as int), tv),
                total == total_weight(regs.subrange(0, i as int), tv),
                total <= (i as int) * (u64::MAX as int),
                forall|q: int, k: int| 0 <= q < weights.entries().len() && i <= k < n
                    ==> (#[trigger] weights.entries()[q]).0.key_lt(#[trigger] regs[k].0),
            decreases n - i,
        {
            let id = registry.validators.key_at(i);
            let stake = registry.validators.value_at(i).stake;
            let tq: Q = match trust.get(&id) {
                Some(t) => *t,
                None => ONE_Q,
            };
            let w = qmul(stake as Q, tq);
            let ghost wbefore = weights.entries();
            proof {
                assert forall|q: int| 0 <= q < weights.entries().len() implies (#[trigger] weights.entries()[q]).0.key_lt(id) by {
                    assert(weights.entries()[q].0.key_lt(regs[i as int].0));
                }
                assert((i as int) * (u64::MAX as int) + (u64::MAX as int) == ((i + 1) as int) * (u64::MAX as int)) by (nonlinear_arith);
                assert(((i + 1) as int) * (u64::MAX as int) <= (usize::MAX as int) * (u64::MAX as int)) by (nonlinear_arith)
                    requires i + 1 <= usize::MAX;
            }
            weights.push_max(id, w);
            let leaf = sha_leaf(&id, stake, tq);
            let ghost lbefore = leaves@;
            leaves.push(leaf);
            total = total + w as u128;
            proof {
                let pre = regs.subrange(0, i + 1);
                assert(pre.drop_last() =~= regs.subrange(0, i as int));
                assert(pre.last() == regs[i as int]);
                assert(weights.entries() =~= pre.map_values(
                    |e: (NodeId, ValidatorInfo)| (e.0, weight_for(e.1.stake, trust_for(tv, e.0))),
                ));
                assert(views32(leaves@) =~= views32(lbefore).push(leaf@));
                assert(views32(leaves@) =~= sha_leaves(pre, tv));
                assert forall|q: int, k: int| 0 <= q < weights.entries().len() && i + 1 <= k < n
                    implies (#[trigger] weights.entries()[q]).0.key_lt(#[trigger] regs[k].0) by {
                    if q == weights.entries().len() - 1 {
                        assert(regs[i as int].0.key_lt(regs[k].0));
                    } else {
                        assert(weights.entries()[q] == wbefore[q]);
                    }
                }
            }
            i = i + 1;
        }
        assert(regs.subrange(0, n as int) =~= regs);
        let root: [u8; 32] = if leaves.len() == 0 {
            let z = [0u8; 32];
            assert(z@ =~= Seq::new(32, |i: int| 0u8));
            z
        } else {
            Self::merkle_root(&leaves)
        };
        EpochSnapshot { epoch, weights_root: root, weights, total_weight_q: total }
    }

    fn merkle_root(leaves: &Vec<[u8; 32]>) -> (r: [u8; 32])
        requires
            leaves@.len() >= 1,
        ensures
            r@ == carry_root(views32(leaves@)),
    {
        if leaves.len() == 1 {
            return leaves[0];
        }
        let mut level = carry_layer_exec(leaves);
        while level.len() > 1
            invariant
                level@.len() >= 1,
                carry_root(views32(level@)) == carry_root(views32(leaves@)),
            decreases level@.len(),
        {
            level = carry_layer_exec(&level);
        }
        level[0]
    }

    /// The weight recorded for `node_id`.
    pub fn get_weight(&self, node_id: &NodeId) -> (r: Option<Q>)
        requires
            self.weights.wf(),
        ensures
            r.is_some() <==> self.weights.view().contains_key(*node_id),
            r.is_some() ==> r.unwrap() == self.weights.view()[*node_id],
    {
        match self.weights.get(node_id) {
            Some(w) => Some(*w),
            None => None,
        }
    }
}

/// A snapshot depends only on which validators are registered, not on the order
/// in which they were registered: registries with the same contents give the same
/// weights in the same order, the same total weight and the same Merkle root.
pub proof fn lemma_build_depends_on_contents(r1: &Registry, r2: &Registry, trust: Map<NodeId, Q>)
    requires
        r1.wf(),
        r2.wf(),
        r1.validators.view() == r2.validators.view(),
    ensures
        r1.validators.entries() == r2.validators.entries(),
        r1.validators.entries().map_values(
            |e: (NodeId, ValidatorInfo)| (e.0, weight_for(e.1.stake, trust_for(trust, e.0))),
        ) == r2.validators.entries().map_values(
            |e: (NodeId, ValidatorInfo)| (e.0, weight_for(e.1.stake, trust_for(trust, e.0))),
        ),
        total_weight(r1.validators.entries(), trust) == total_weight(r2.validators.entries(), trust),
        carry_root(sha_leaves(r1.validators.entries(), trust)) == carry_root(
            sha_leaves(r2.validators.entries(), trust),
        ),
{
    OrdMap::lemma_same_view_same_entries(&r1.validators, &r2.validators);
}

} // verus!
