//! Merkle commitments over validator weights.
//!
//! Layers are paired left to right; an odd last node is paired with itself.
//! The empty tree has a dedicated root distinct from any hash of leaves.
use vstd::prelude::*;
use crate::bytes::{append_bytes, append_u64_le, le64};
use crate::crypto_kmac_consensus::{kmac256_hash_data, spec_consensus_hash};
use crate::pot::trust::NodeId;
use crate::tags::{wgt_v1, wgt_v1_bytes, mrk_v1, mrk_v1_bytes, mrk_empty_v1, mrk_empty_v1_bytes};

verus! {

/// Leaf of validator `who` with stake share `stake_q` and trust `trust_q`.
pub open spec fn spec_leaf_hash(who: Seq<u8>, stake_q: u64, trust_q: u64) -> Seq<u8> {
    spec_consensus_hash(wgt_v1(), who + le64(stake_q) + le64(trust_q))
}

/// Parent of two nodes.
pub open spec fn spec_parent(a: Seq<u8>, b: Seq<u8>) -> Seq<u8> {
    spec_consensus_hash(mrk_v1(), a + b)
}

/// Root of the empty tree.
pub open spec fn spec_empty_root() -> Seq<u8> {
    spec_consensus_hash(mrk_empty_v1(), Seq::empty())
}

/// Right partner of position `i` (itself when `i` is last).
pub open spec fn pair_right(layer: Seq<Seq<u8>>, i: int) -> Seq<u8> {
    if i + 1 < layer.len() { layer[i + 1] } else { layer[i] }
}

/// The layer above `layer`.
pub open spec fn next_layer(layer: Seq<Seq<u8>>) -> Seq<Seq<u8>> {
    Seq::new(((layer.len() + 1) / 2) as nat, |j: int| spec_parent(layer[2 * j], pair_right(layer, 2 * j)))
}

/// Root reached from a non-empty layer.
pub open spec fn root_of_layer(layer: Seq<Seq<u8>>) -> Seq<u8>
    decreases layer.len(),
{
    if layer.len() <= 1 {
        layer[0]
    } else {
        root_of_layer(next_layer(layer))
    }
}

/// Merkle root of `leaves`.
pub open spec fn spec_merkle_root(leaves: Seq<Seq<u8>>) -> Seq<u8> {
    if leaves.len() == 0 { spec_empty_root() } else { root_of_layer(leaves) }
}

/// Sibling of position `idx` in `layer`.
pub open spec fn sibling(layer: Seq<Seq<u8>>, idx: int) -> Seq<u8> {
    if idx % 2 == 0 { pair_right(layer, idx) } else { layer[idx - 1] }
}

/// Siblings on the path from leaf `idx` to the root.
pub open spec fn proof_siblings(layer: Seq<Seq<u8>>, idx: int) -> Seq<Seq<u8>>
    decreases layer.len(),
{
    if layer.len() <= 1 {
        Seq::empty()
    } else {
        seq![sibling(layer, idx)] + proof_siblings(next_layer(layer), idx / 2)
    }
}

/// Hashes `acc` up along `sibs`, the low bit of `idx` telling the side at each level.
pub open spec fn fold_path(acc: Seq<u8>, idx: int, sibs: Seq<Seq<u8>>) -> Seq<u8>
    decreases sibs.len(),
{
    if sibs.len() == 0 {
        acc
    } else {
        fold_path(
            if idx % 2 == 0 { spec_parent(acc, sibs[0]) } else { spec_parent(sibs[0], acc) },
            idx / 2,
            sibs.drop_first(),
        )
    }
}

/// The byte views of a sequence of 32-byte nodes.
pub open spec fn views32(s: Seq<[u8; 32]>) -> Seq<Seq<u8>> {
    s.map_values(|h: [u8; 32]| h@)
}

/// A Merkle inclusion proof.
#[derive(Debug)]
pub struct MerkleProof {
    pub leaf_index: u64,
    pub siblings: Vec<[u8; 32]>,
}

/// Hash of a weight leaf.
pub fn merkle_leaf_hash(who: &NodeId, stake_q: u64, trust_q: u64) -> (h: [u8; 32])
    ensures
        h@ == spec_leaf_hash(who@, stake_q, trust_q),
{
    let mut data: Vec<u8> = Vec::new();
    append_bytes(&mut data, who);
    append_u64_le(&mut data, stake_q);
    append_u64_le(&mut data, trust_q);
    let tag = wgt_v1_bytes();
    kmac256_hash_data(tag.as_slice(), data.as_slice())
}

/// Hash of an inner node.
pub fn merkle_parent(a: &[u8; 32], b: &[u8; 32]) -> (h: [u8; 32])
    ensures
        h@ == spec_parent(a@, b@),
{
    let mut data: Vec<u8> = Vec::new();
    append_bytes(&mut data, a);
    append_bytes(&mut data, b);
    let tag = mrk_v1_bytes();
    kmac256_hash_data(tag.as_slice(), data.as_slice())
}

fn next_layer_exec(layer: &Vec<[u8; 32]>) -> (out: Vec<[u8; 32]>)
    requires
        layer@.len() >= 1,
    ensures
        views32(out@) == next_layer(views32(layer@)),
        out@.len() == (layer@.len() + 1) / 2,
{
    let ghost lv = views32(layer@);
    let n = layer.len();
    let half = n / 2 + n % 2;
    let mut out: Vec<[u8; 32]> = Vec::new();
    let mut j: usize = 0;
    while j < half
        invariant
            n == layer@.len(),
            lv == views32(layer@),
            half == (n + 1) / 2,
            j <= half,
            out@.len() == j,
            forall|q: int| 0 <= q < out@.len() ==> (#[trigger] out@[q])@ == next_layer(lv)[q],
        decreases half - j,
    {
        let i = 2 * j;
        let a = layer[i];
        let b = if i + 1 < n { layer[i + 1] } else { layer[i] };
        let p = merkle_parent(&a, &b);
        proof {
            assert(lv[i as int] == a@);
            if i + 1 < n {
                assert(lv[i + 1] == b@);
            }
        }
        out.push(p);
        j = j + 1;
    }
    assert(views32(out@) =~= next_layer(lv));
    out
}

/// Merkle root of `leaves`.
pub fn merkle_root(leaves: &Vec<[u8; 32]>) -> (r: [u8; 32])
    ensures
        r@ == spec_merkle_root(views32(leaves@)),
{
    if leaves.len() == 0 {
        let tag = mrk_empty_v1_bytes();
        let empty: Vec<u8> = Vec::new();
        let r = kmac256_hash_data(tag.as_slice(), empty.as_slice());
        assert(empty@ =~= Seq::<u8>::empty());
        return r;
    }
    if leaves.len() == 1 {
        return leaves[0];
    }
    let mut layer = next_layer_exec(leaves);
    while layer.len() > 1
        invariant
            layer@.len() >= 1,
            root_of_layer(views32(layer@)) == root_of_layer(views32(leaves@)),
        decreases layer@.len(),
    {
        layer = next_layer_exec(&layer);
    }
    layer[0]
}

/// A copy of `v`.
pub fn copy_nodes(v: &Vec<[u8; 32]>) -> (out: Vec<[u8; 32]>)
    ensures
        out@ == v@,
{
    let mut out: Vec<[u8; 32]> = Vec::new();
    let mut i: usize = 0;
    while i < v.len()
        invariant
            i <= v@.len(),
            out@ == v@.subrange(0, i as int),
        decreases v@.len() - i,
    {
        out.push(v[i]);
        i = i + 1;
        assert(out@ =~= v@.subrange(0, i as int));
    }
    assert(v@.subrange(0, v@.len() as int) =~= v@);
    out
}

/// Inclusion proof for leaf `leaf_idx`.
pub fn merkle_build_proof(leaves: &Vec<[u8; 32]>, leaf_idx: u64) -> (p: MerkleProof)
    requires
        leaf_idx < leaves@.len(),
    ensures
        p.leaf_index == leaf_idx,
        views32(p.siblings@) == proof_siblings(views32(leaves@), leaf_idx as int),
{
    let ghost lv0 = views32(leaves@);
    let mut idx: usize = leaf_idx as usize;
    let mut siblings: Vec<[u8; 32]> = Vec::new();
    let mut layer = copy_nodes(leaves);
    while layer.len() > 1
        invariant
            layer@.len() >= 1,
            idx < layer@.len(),
            views32(siblings@) + proof_siblings(views32(layer@), idx as int) == proof_siblings(
                lv0,
                leaf_idx as int,
            ),
        decreases layer@.len(),
    {
        let n = layer.len();
        let ghost lv = views32(layer@);
        let sib: [u8; 32] = if idx % 2 == 0 {
            if idx + 1 < n { layer[idx + 1] } else { layer[idx] }
        } else {
            layer[idx - 1]
        };
        proof {
            assert(sib@ == sibling(lv, idx as int));
        }
        let next = next_layer_exec(&layer);
        let ghost old_sibs = views32(siblings@);
        siblings.push(sib);
        proof {
            let j: int = idx as int / 2;
            assert(views32(siblings@) =~= old_sibs.push(sib@));
            assert(proof_siblings(lv, idx as int) == seq![sibling(lv, idx as int)] + proof_siblings(
                next_layer(lv),
                j,
            ));
            assert(views32(siblings@) + proof_siblings(next_layer(lv), j) =~= old_sibs
                + proof_siblings(lv, idx as int));
        }
        layer = next;
        idx = idx / 2;
    }
    assert(proof_siblings(views32(layer@), idx as int) =~= Seq::<Seq<u8>>::empty());
    assert(views32(siblings@) =~= proof_siblings(lv0, leaf_idx as int));
    MerkleProof { leaf_index: leaf_idx, siblings }
}

/// Hashes `leaf` up along `siblings` from position `leaf_index`.
pub fn fold_to_root(leaf: [u8; 32], leaf_index: u64, siblings: &Vec<[u8; 32]>) -> (r: [u8; 32])
    ensures
        r@ == fold_path(leaf@, leaf_index as int, views32(siblings@)),
{
    let ghost sibs = views32(siblings@);
    let mut acc = leaf;
    let mut idx: u64 = leaf_index;
    let mut i: usize = 0;
    assert(sibs.skip(0) =~= sibs);
    while i < siblings.len()
        invariant
            sibs == views32(siblings@),
            i <= siblings@.len(),
            fold_path(acc@, idx as int, sibs.skip(i as int)) == fold_path(leaf@, leaf_index as int, sibs),
        decreases siblings@.len() - i,
    {
        let sib = siblings[i];
        proof {
            assert(sibs.skip(i as int)[0] == sib@);
            assert(sibs.skip(i as int).drop_first() =~= sibs.skip(i + 1));
        }
        acc = if idx % 2 == 0 { merkle_parent(&acc, &sib) } else { merkle_parent(&sib, &acc) };
        idx = idx / 2;
        i = i + 1;
    }
    assert(sibs.skip(i as int) =~= Seq::<Seq<u8>>::empty());
    acc
}

/// Checks that `proof` leads from `leaf` to `root`.
pub fn verify_merkle(proof: &MerkleProof, leaf: [u8; 32], root: [u8; 32]) -> (b: bool)
    ensures
        b <==> fold_path(leaf@, proof.leaf_index as int, views32(proof.siblings@)) == root@,
{
    let acc = fold_to_root(leaf, proof.leaf_index, &proof.siblings);
    crate::bytes::eq32(&acc, &root)
}

impl Clone for MerkleProof {
    fn clone(&self) -> (r: Self)
        ensures
            r.leaf_index == self.leaf_index,
            r.siblings@ == self.siblings@,
    {
        MerkleProof { leaf_index: self.leaf_index, siblings: copy_nodes(&self.siblings) }
    }
}

/// A proof built for leaf `idx` of a non-empty layer verifies against the layer's root.
pub proof fn lemma_proof_reaches_root(layer: Seq<Seq<u8>>, idx: int)
    requires
        0 <= idx < layer.len(),
    ensures
        fold_path(layer[idx], idx, proof_siblings(layer, idx)) == root_of_layer(layer),
    decreases layer.len(),
{
    if layer.len() > 1 {
        let nl = next_layer(layer);
        let sibs = proof_siblings(layer, idx);
        assert(sibs[0] == sibling(layer, idx));
        assert(sibs.drop_first() =~= proof_siblings(nl, idx / 2));
        let j = idx / 2;
        if idx % 2 == 0 {
            assert(2 * j == idx);
            assert(nl[j] == spec_parent(layer[idx], sibling(layer, idx)));
        } else {
            assert(2 * j == idx - 1);
            assert(nl[j] == spec_parent(layer[idx - 1], layer[idx]));
        }
        lemma_proof_reaches_root(nl, j);
    }
}

/// The proof of any leaf of a non-empty tree verifies against the tree's root.
pub proof fn lemma_merkle_proof_verifies(leaves: Seq<Seq<u8>>, idx: int)
    requires
        0 <= idx < leaves.len(),
    ensures
        fold_path(leaves[idx], idx, proof_siblings(leaves, idx)) == spec_merkle_root(leaves),
{
    lemma_proof_reaches_root(leaves, idx);
}

} // verus!
