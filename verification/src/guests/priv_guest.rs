//! The private-transaction rule proved inside the zero-knowledge guest: every
//! input opens its commitment, sits in the notes tree and carries its nullifier,
//! no nullifier repeats, every output opens its commitment, the fee opens its
//! commitment where one is given, and values and blinding factors balance
//! modulo the group order. The claim it commits lists the nullifiers, the output
//! commitments, the hashes of the encrypted hints and the fee commitment.
use vstd::prelude::*;
use vstd::bytes::spec_u32_to_le_bytes;
use crate::bytes::{append_bytes, eq32, is_zero32};
use crate::hashing::{kmac256_output, tk_kmac256};
use crate::bp::{basepoint, basepoint_bytes, point_from_uniform, point_lincomb, pt_seq, ristretto_from_uniform, ristretto_lincomb, sv_seq};
use crate::hybrid_commit::{
    accumulate, congruent, group_order, lemma_le_value_injective, lemma_le_value_zero, le_value, scalar_of_u64,
    scalar_reduce, sum_blinds, sum_values,
};
use crate::tags::{agg_priv_key, agg_priv_key_bytes, hint_v1, hint_v1_bytes, leaf_v1, leaf_v1_bytes, nf_v1, nf_v1_bytes, node_v1, node_v1_bytes};

verus! {

/// A 32-byte hash.
pub type Hash32 = [u8; 32];

/// A Merkle membership proof of a note.
#[derive(Clone, Debug)]
pub struct MerkleProof {
    pub index: u32,
    pub siblings: Vec<Hash32>,
}

/// The public inputs of a private transaction.
#[derive(Clone, Debug)]
pub struct PrivInput {
    pub old_notes_root: Hash32,
    pub ins: Vec<InPublic>,
    pub outs: Vec<OutPublic>,
    pub fee_commit: [u8; 32],
    pub network_id: Option<u32>,
}

/// The public side of a spent note.
#[derive(Clone, Debug)]
pub struct InPublic {
    pub note_commit_hash: Hash32,
    pub nullifier: Hash32,
    pub proof: MerkleProof,
    pub pqc_fingerprint: Hash32,
}

/// The public side of a created note.
#[derive(Clone, Debug)]
pub struct OutPublic {
    pub note_commit_point: [u8; 32],
    pub enc_hint: Vec<u8>,
    pub pqc_fingerprint: Hash32,
}

/// The private witness of a transaction.
#[derive(Clone, Debug)]
pub struct PrivWitness {
    pub in_openings: Vec<InOpen>,
    pub out_openings: Vec<OutOpen>,
    pub fee_value: u64,
    pub fee_blind: [u8; 32],
}

/// The opening of a spent note.
#[derive(Clone, Debug)]
pub struct InOpen {
    pub value: u64,
    pub blind: [u8; 32],
    pub spend_key: [u8; 32],
    pub leaf_index: u32,
    pub note_commit_point: [u8; 32],
}

/// The opening of a created note.
#[derive(Clone, Debug)]
pub struct OutOpen {
    pub value: u64,
    pub blind: [u8; 32],
    pub note_commit_point: [u8; 32],
}

/// What a valid transaction commits.
#[derive(Clone, Debug)]
pub struct PrivClaim {
    pub nullifiers: Vec<Hash32>,
    pub outputs: Vec<[u8; 32]>,
    pub enc_hints: Vec<[u8; 32]>,
    pub fee_commit: [u8; 32],
    pub pqc_fingerprints_in: Vec<Hash32>,
    pub pqc_fingerprints_out: Vec<Hash32>,
}

/// Which rule a transaction breaks.
#[derive(Clone, Copy, Debug, PartialEq, Eq)]
pub enum PrivError {
    InputsMismatch,
    OutputsMismatch,
    LeafIndexMismatch,
    InputCommitMismatch,
    LeafHashMismatch,
    BadMerkleProof,
    NullifierMismatch,
    DuplicateNullifier,
    OutputCommitMismatch,
    FeeCommitMismatch,
    ValueConservation,
    BlindingConservation,
}

/// The 32-byte KMAC256 of `data` under `key` and customization `custom`.
pub open spec fn kmac32(key: Seq<u8>, custom: Seq<u8>, data: Seq<u8>) -> Seq<u8> {
    kmac256_output(key, custom, data, 32)
}

/// The tree leaf of a note commitment.
pub open spec fn spec_h_leaf(pt: Seq<u8>) -> Seq<u8> {
    kmac32(agg_priv_key(), leaf_v1(), pt)
}

/// The tree node over two children.
pub open spec fn spec_h_pair(l: Seq<u8>, r: Seq<u8>) -> Seq<u8> {
    kmac32(agg_priv_key(), node_v1(), l + r)
}

/// The nullifier of a spent note.
pub open spec fn spec_nullifier(network_id: u32, spend_key: Seq<u8>, idx: u32, pt: Seq<u8>) -> Seq<u8> {
    kmac32(agg_priv_key(), nf_v1(), spec_u32_to_le_bytes(network_id) + spend_key + spec_u32_to_le_bytes(idx) + pt)
}

/// The hash of an encrypted hint.
pub open spec fn spec_hint32(enc: Seq<u8>) -> Seq<u8> {
    kmac32(agg_priv_key(), hint_v1(), enc)
}

/// The 64 uniform bytes of the value generator `H`.
pub open spec fn h_bytes() -> Seq<u8> {
    seq![
        0x36u8, 0x11u8, 0x4Bu8, 0x51u8, 0xF9u8, 0x1Eu8, 0x24u8, 0x0Cu8, 0x19u8, 0x76u8, 0x6Cu8, 0x67u8, 0x74u8, 0x48u8, 0x21u8, 0x16u8,
        0x6Cu8, 0x2Eu8, 0x51u8, 0x7Eu8, 0x54u8, 0x65u8, 0x7Cu8, 0x10u8, 0xC3u8, 0x2Fu8, 0xC5u8, 0x0Au8, 0x31u8, 0x82u8, 0x42u8, 0x19u8,
        0x11u8, 0x10u8, 0x2Bu8, 0x23u8, 0x4Du8, 0xD4u8, 0x36u8, 0xD7u8, 0xA8u8, 0x67u8, 0x65u8, 0x4Fu8, 0x2Au8, 0x73u8, 0x04u8, 0x56u8,
        0x49u8, 0xC4u8, 0x2Au8, 0x4Fu8, 0x93u8, 0x7Du8, 0x3Bu8, 0x5Eu8, 0x1Au8, 0x31u8, 0xF4u8, 0x9Au8, 0x53u8, 0xABu8, 0x4Eu8, 0x14u8
    ]
}

/// Thirty-two zero bytes.
pub open spec fn zero32() -> Seq<u8> {
    Seq::new(32, |i: int| 0u8)
}

/// The classical Pedersen commitment `r·G + v·H`, with `r` the blinding bytes
/// reduced modulo ℓ and `H` the point that [`h_bytes`] maps to.
pub open spec fn spec_pedersen(value: u64, blind: Seq<u8>) -> Seq<u8> {
    ristretto_lincomb(
        seq![le_value(blind) % group_order(), value as nat],
        seq![basepoint_bytes(), ristretto_from_uniform(h_bytes())],
    )
}

/// The root reached from `leaf` at position `idx` along `siblings`.
pub open spec fn fold_to_root(leaf: Seq<u8>, idx: nat, siblings: Seq<Hash32>) -> Seq<u8>
    decreases siblings.len(),
{
    if siblings.len() == 0 {
        leaf
    } else {
        let acc = fold_to_root(leaf, idx, siblings.drop_last());
        let i = idx / pow2((siblings.len() - 1) as nat);
        if i % 2 == 0 { spec_h_pair(acc, siblings.last()@) } else { spec_h_pair(siblings.last()@, acc) }
    }
}

/// `2^n`.
pub open spec fn pow2(n: nat) -> nat
    decreases n,
{
    if n == 0 { 1 } else { 2 * pow2((n - 1) as nat) }
}

/// The first rule that input `i` breaks, duplicates of earlier nullifiers included.
pub open spec fn input_error(inp: PrivInput, wit: PrivWitness, net: u32, i: int) -> Option<PrivError> {
    let p = inp.ins@[i];
    let o = wit.in_openings@[i];
    let leaf = spec_h_leaf(o.note_commit_point@);
    let nf = spec_nullifier(net, o.spend_key@, o.leaf_index, o.note_commit_point@);
    if p.proof.index != o.leaf_index {
        Some(PrivError::LeafIndexMismatch)
    } else if spec_pedersen(o.value, o.blind@) != o.note_commit_point@ {
        Some(PrivError::InputCommitMismatch)
    } else if leaf != p.note_commit_hash@ {
        Some(PrivError::LeafHashMismatch)
    } else if fold_to_root(leaf, p.proof.index as nat, p.proof.siblings@) != inp.old_notes_root@ {
        Some(PrivError::BadMerkleProof)
    } else if nf != p.nullifier@ {
        Some(PrivError::NullifierMismatch)
    } else if exists|j: int| 0 <= j < i && (#[trigger] inp.ins@[j]).nullifier == p.nullifier {
        Some(PrivError::DuplicateNullifier)
    } else {
        None
    }
}

/// The first rule that one of the first `n` inputs breaks.
pub open spec fn first_input_error(inp: PrivInput, wit: PrivWitness, net: u32, n: int) -> Option<PrivError>
    decreases n,
{
    if n <= 0 {
        None
    } else {
        match first_input_error(inp, wit, net, n - 1) {
            Some(e) => Some(e),
            None => input_error(inp, wit, net, n - 1),
        }
    }
}

/// The first of the first `n` outputs whose commitment does not open.
pub open spec fn first_output_error(inp: PrivInput, wit: PrivWitness, n: int) -> Option<PrivError>
    decreases n,
{
    if n <= 0 {
        None
    } else {
        match first_output_error(inp, wit, n - 1) {
            Some(e) => Some(e),
            None => {
                let o = wit.out_openings@[n - 1];
                if spec_pedersen(o.value, o.blind@) != inp.outs@[n - 1].note_commit_point@ {
                    Some(PrivError::OutputCommitMismatch)
                } else {
                    None
                }
            },
        }
    }
}

/// `(value, blind, blind)` of each input opening (the balance uses the first two).
pub open spec fn in_rows(wit: PrivWitness) -> Seq<(u64, [u8; 32], Hash32)> {
    wit.in_openings@.map_values(|o: InOpen| (o.value, o.blind, o.blind))
}

/// `(value, blind, blind)` of each output opening (the balance uses the first two).
pub open spec fn out_rows(wit: PrivWitness) -> Seq<(u64, [u8; 32], Hash32)> {
    wit.out_openings@.map_values(|o: OutOpen| (o.value, o.blind, o.blind))
}

/// The first rule the transaction breaks, in the order the guest checks them.
pub open spec fn tx_error(inp: PrivInput, wit: PrivWitness) -> Option<PrivError> {
    let net = match inp.network_id { Some(n) => n, None => 0u32 };
    if inp.ins@.len() != wit.in_openings@.len() {
        Some(PrivError::InputsMismatch)
    } else if inp.outs@.len() != wit.out_openings@.len() {
        Some(PrivError::OutputsMismatch)
    } else if first_input_error(inp, wit, net, inp.ins@.len() as int) is Some {
        first_input_error(inp, wit, net, inp.ins@.len() as int)
    } else if first_output_error(inp, wit, inp.outs@.len() as int) is Some {
        first_output_error(inp, wit, inp.outs@.len() as int)
    } else if inp.fee_commit@ != zero32() && spec_pedersen(wit.fee_value, wit.fee_blind@) != inp.fee_commit@ {
        Some(PrivError::FeeCommitMismatch)
    } else if !congruent(sum_values(in_rows(wit)), sum_values(out_rows(wit)) + (wit.fee_value as nat)) {
        Some(PrivError::ValueConservation)
    } else if !congruent(sum_blinds(in_rows(wit)), sum_blinds(out_rows(wit)) + le_value(wit.fee_blind@)) {
        Some(PrivError::BlindingConservation)
    } else {
        None
    }
}

/// The claim a valid transaction commits.
pub open spec fn claim_is(c: PrivClaim, inp: PrivInput, wit: PrivWitness) -> bool {
    &&& c.nullifiers@ == inp.ins@.map_values(|p: InPublic| p.nullifier)
    &&& c.outputs@ == inp.outs@.map_values(|p: OutPublic| p.note_commit_point)
    &&& c.enc_hints@.len() == inp.outs@.len()
    &&& forall|j: int| 0 <= j < inp.outs@.len() ==> (#[trigger] c.enc_hints@[j])@ == spec_hint32(inp.outs@[j].enc_hint@)
    &&& c.fee_commit@ == spec_pedersen(wit.fee_value, wit.fee_blind@)
    &&& c.pqc_fingerprints_in@ == inp.ins@.map_values(|p: InPublic| p.pqc_fingerprint)
    &&& c.pqc_fingerprints_out@ == inp.outs@.map_values(|p: OutPublic| p.pqc_fingerprint)
}

fn kmac32_exec(key: &[u8], custom: &[u8], data: &[u8]) -> (h: Hash32)
    ensures
        h@ == kmac32(key@, custom@, data@),
{
    let v = tk_kmac256(key, custom, data, 32);
    let h = crate::bytes::to_array32(v.as_slice());
    assert(h@ =~= v@);
    h
}

fn h_leaf(pt: &[u8; 32]) -> (h: Hash32)
    ensures
        h@ == spec_h_leaf(pt@),
{
    let k = agg_priv_key_bytes();
    let t = leaf_v1_bytes();
    kmac32_exec(k.as_slice(), t.as_slice(), pt)
}

fn h_pair(l: &Hash32, r: &Hash32) -> (h: Hash32)
    ensures
        h@ == spec_h_pair(l@, r@),
{
    let k = agg_priv_key_bytes();
    let t = node_v1_bytes();
    let mut d: Vec<u8> = Vec::new();
    append_bytes(&mut d, l);
    append_bytes(&mut d, r);
    kmac32_exec(k.as_slice(), t.as_slice(), d.as_slice())
}

fn h_bytes_exec() -> (h: [u8; 64])
    ensures
        h@ == h_bytes(),
{
    let h: [u8; 64] = [
        0x36, 0x11, 0x4B, 0x51, 0xF9, 0x1E, 0x24, 0x0C, 0x19, 0x76, 0x6C, 0x67, 0x74, 0x48, 0x21, 0x16,
        0x6C, 0x2E, 0x51, 0x7E, 0x54, 0x65, 0x7C, 0x10, 0xC3, 0x2F, 0xC5, 0x0A, 0x31, 0x82, 0x42, 0x19,
        0x11, 0x10, 0x2B, 0x23, 0x4D, 0xD4, 0x36, 0xD7, 0xA8, 0x67, 0x65, 0x4F, 0x2A, 0x73, 0x04, 0x56,
        0x49, 0xC4, 0x2A, 0x4F, 0x93, 0x7D, 0x3B, 0x5E, 0x1A, 0x31, 0xF4, 0x9A, 0x53, 0xAB, 0x4E, 0x14,
    ];
    assert(h@ =~= h_bytes());
    h
}

fn pedersen_commit(value: u64, blind: &[u8; 32]) -> (c: [u8; 32])
    ensures
        c@ == spec_pedersen(value, blind@),
{
    let h = h_bytes_exec();
    let r = scalar_reduce(blind);
    let v = scalar_of_u64(value);
    proof {
        assert(group_order() > u64::MAX);
        vstd::arithmetic::div_mod::lemma_mod_bound(le_value(blind@) as int, group_order() as int);
    }
    let g = basepoint();
    let hp = point_from_uniform(&h);
    let scalars = [r, v];
    let points = [g, hp];
    let c = point_lincomb(&scalars, &points);
    assert(sv_seq(scalars@) =~= seq![le_value(blind@) % group_order(), value as nat]);
    assert(pt_seq(points@) =~= seq![basepoint_bytes(), ristretto_from_uniform(h_bytes())]);
    c
}

/// Whether `leaf` at position `idx` folds along `siblings` to `root`.
pub fn merkle_verify(leaf: &Hash32, idx: u32, siblings: &[Hash32], root: &Hash32) -> (b: bool)
    ensures
        b == (fold_to_root(leaf@, idx as nat, siblings@) == root@),
{
    let mut acc = *leaf;
    let mut i: u32 = idx;
    let mut k: usize = 0;
    assert(pow2(0) == 1);
    assert(siblings@.subrange(0, 0) =~= Seq::<Hash32>::empty());
    while k < siblings.len()
        invariant
            k <= siblings@.len(),
            acc@ == fold_to_root(leaf@, idx as nat, siblings@.subrange(0, k as int)),
            i as nat == idx as nat / pow2(k as nat),
        decreases siblings@.len() - k,
    {
        let s = siblings[k];
        proof {
            let pre = siblings@.subrange(0, k + 1);
            assert(pre.drop_last() =~= siblings@.subrange(0, k as int));
            assert(pre.last() == s);
            lemma_pow2_pos(k as nat);
            assert(i % 2 == 0 <==> (i & 1) == 0) by (bit_vector);
            assert((i >> 1u32) == i / 2) by (bit_vector);
            lemma_div_pow2_step(idx as nat, k as nat);
        }
        acc = if (i & 1) == 0 { h_pair(&acc, &s) } else { h_pair(&s, &acc) };
        i = i >> 1;
        k = k + 1;
    }
    assert(siblings@.subrange(0, siblings@.len() as int) =~= siblings@);
    let r = eq32(&acc, root);
    proof {
        if r {
            assert(acc@ =~= root@);
        }
    }
    r
}

proof fn lemma_pow2_pos(n: nat)
    ensures
        pow2(n) > 0,
    decreases n,
{
    if n > 0 {
        lemma_pow2_pos((n - 1) as nat);
    }
}

proof fn lemma_div_pow2_step(x: nat, k: nat)
    ensures
        (x / pow2(k)) / 2 == x / pow2(k + 1),
{
    lemma_pow2_pos(k);
    assert(pow2(k + 1) == 2 * pow2(k));
    vstd::arithmetic::div_mod::lemma_div_denominator(x as int, pow2(k) as int, 2);
    assert(pow2(k) * 2 == pow2(k + 1)) by (nonlinear_arith)
        requires
            pow2(k + 1) == 2 * pow2(k),
    ;
}

fn make_nullifier(network_id: u32, spend_key: &[u8; 32], idx: u32, note_pt: &[u8; 32]) -> (h: Hash32)
    ensures
        h@ == spec_nullifier(network_id, spend_key@, idx, note_pt@),
{
    let k = agg_priv_key_bytes();
    let t = nf_v1_bytes();
    let mut d: Vec<u8> = Vec::new();
    let nb = vstd::bytes::u32_to_le_bytes(network_id);
    append_bytes(&mut d, nb.as_slice());
    append_bytes(&mut d, spend_key);
    let ib = vstd::bytes::u32_to_le_bytes(idx);
    append_bytes(&mut d, ib.as_slice());
    append_bytes(&mut d, note_pt);
    kmac32_exec(k.as_slice(), t.as_slice(), d.as_slice())
}

fn hint32(enc: &[u8]) -> (h: Hash32)
    ensures
        h@ == spec_hint32(enc@),
{
    let k = agg_priv_key_bytes();
    let t = hint_v1_bytes();
    kmac32_exec(k.as_slice(), t.as_slice(), enc)
}

fn check_input(inp: &PrivInput, wit: &PrivWitness, net: u32, i: usize) -> (r: Option<PrivError>)
    requires
        i < inp.ins@.len(),
        i < wit.in_openings@.len(),
    ensures
        r == input_error(*inp, *wit, net, i as int),
{
    let p = &inp.ins[i];
    let o = &wit.in_openings[i];
    if p.proof.index != o.leaf_index {
        return Some(PrivError::LeafIndexMismatch);
    }
    let c_in = pedersen_commit(o.value, &o.blind);
    if !eq32(&c_in, &o.note_commit_point) {
        return Some(PrivError::InputCommitMismatch);
    }
    assert(c_in@ =~= o.note_commit_point@);
    let leaf = h_leaf(&o.note_commit_point);
    if !eq32(&leaf, &p.note_commit_hash) {
        return Some(PrivError::LeafHashMismatch);
    }
    assert(leaf@ =~= p.note_commit_hash@);
    if !merkle_verify(&leaf, p.proof.index, p.proof.siblings.as_slice(), &inp.old_notes_root) {
        return Some(PrivError::BadMerkleProof);
    }
    let nf = make_nullifier(net, &o.spend_key, o.leaf_index, &o.note_commit_point);
    if !eq32(&nf, &p.nullifier) {
        return Some(PrivError::NullifierMismatch);
    }
    assert(nf@ =~= p.nullifier@);
    if has_earlier_duplicate(inp, i) {
        return Some(PrivError::DuplicateNullifier);
    }
    None
}

fn has_earlier_duplicate(inp: &PrivInput, i: usize) -> (b: bool)
    requires
        i < inp.ins@.len(),
    ensures
        b == exists|j: int| 0 <= j < i && (#[trigger] inp.ins@[j]).nullifier == inp.ins@[i as int].nullifier,
{
    let mut j: usize = 0;
    while j < i
        invariant
            i < inp.ins@.len(),
            j <= i,
            forall|q: int| 0 <= q < j ==> (#[trigger] inp.ins@[q]).nullifier != inp.ins@[i as int].nullifier,
        decreases i - j,
    {
        if eq32(&inp.ins[j].nullifier, &inp.ins[i].nullifier) {
            proof {
                assert(inp.ins@[j as int].nullifier@ =~= inp.ins@[i as int].nullifier@);
                assert(inp.ins@[j as int].nullifier == inp.ins@[i as int].nullifier);
            }
            return true;
        }
        j = j + 1;
    }
    false
}

/// Checks a private transaction against its witness and returns the claim it
/// commits, or the first rule it breaks.
pub fn check_private_tx(inp: &PrivInput, wit: &PrivWitness) -> (r: Result<PrivClaim, PrivError>)
    ensures
        tx_error(*inp, *wit) matches Some(e) ==> r == Err::<PrivClaim, PrivError>(e),
        tx_error(*inp, *wit) is None ==> (r matches Ok(c) && claim_is(c, *inp, *wit)),
{
    let net: u32 = match inp.network_id {
        Some(n) => n,
        None => 0,
    };
    if inp.ins.len() != wit.in_openings.len() {
        return Err(PrivError::InputsMismatch);
    }
    if inp.outs.len() != wit.out_openings.len() {
        return Err(PrivError::OutputsMismatch);
    }
    let n_in = inp.ins.len();
    let mut nullifiers: Vec<Hash32> = Vec::new();
    let mut fps_in: Vec<Hash32> = Vec::new();
    let mut i: usize = 0;
    while i < n_in
        invariant
            n_in == inp.ins@.len(),
            n_in == wit.in_openings@.len(),
            inp.outs@.len() == wit.out_openings@.len(),
            net == (match inp.network_id { Some(n) => n, None => 0u32 }),
            i <= n_in,
            first_input_error(*inp, *wit, net, i as int) is None,
            nullifiers@ == inp.ins@.subrange(0, i as int).map_values(|p: InPublic| p.nullifier),
            fps_in@ == inp.ins@.subrange(0, i as int).map_values(|p: InPublic| p.pqc_fingerprint),
        decreases n_in - i,
    {
        match check_input(inp, wit, net, i) {
            Some(e) => {
                proof {
                    assert(first_input_error(*inp, *wit, net, i as int + 1) == input_error(*inp, *wit, net, i as int));
                    lemma_first_input_error_stays(*inp, *wit, net, i as int + 1, n_in as int);
                }
                return Err(e);
            },
            None => {},
        }
        nullifiers.push(inp.ins[i].nullifier);
        fps_in.push(inp.ins[i].pqc_fingerprint);
        i = i + 1;
        proof {
            assert(nullifiers@ =~= inp.ins@.subrange(0, i as int).map_values(|p: InPublic| p.nullifier));
            assert(fps_in@ =~= inp.ins@.subrange(0, i as int).map_values(|p: InPublic| p.pqc_fingerprint));
        }
    }
    let n_out = inp.outs.len();
    let mut outputs: Vec<[u8; 32]> = Vec::new();
    let mut hints: Vec<Hash32> = Vec::new();
    let mut fps_out: Vec<Hash32> = Vec::new();
    let mut j: usize = 0;
    while j < n_out
        invariant
            n_out == inp.outs@.len(),
            n_out == wit.out_openings@.len(),
            inp.ins@.len() == wit.in_openings@.len(),
            net == (match inp.network_id { Some(n) => n, None => 0u32 }),
            first_input_error(*inp, *wit, net, inp.ins@.len() as int) is None,
            j <= n_out,
            first_output_error(*inp, *wit, j as int) is None,
            outputs@ == inp.outs@.subrange(0, j as int).map_values(|p: OutPublic| p.note_commit_point),
            fps_out@ == inp.outs@.subrange(0, j as int).map_values(|p: OutPublic| p.pqc_fingerprint),
            hints@.len() == j,
            forall|q: int| 0 <= q < j ==> (#[trigger] hints@[q])@ == spec_hint32(inp.outs@[q].enc_hint@),
        decreases n_out - j,
    {
        let o = &wit.out_openings[j];
        let c_out = pedersen_commit(o.value, &o.blind);
        if !eq32(&c_out, &inp.outs[j].note_commit_point) {
            proof {
                assert(first_output_error(*inp, *wit, j as int + 1) == Some(PrivError::OutputCommitMismatch));
                lemma_first_output_error_stays(*inp, *wit, j as int + 1, n_out as int);
            }
            return Err(PrivError::OutputCommitMismatch);
        }
        assert(c_out@ =~= inp.outs@[j as int].note_commit_point@);
        hints.push(hint32(inp.outs[j].enc_hint.as_slice()));
        outputs.push(inp.outs[j].note_commit_point);
        fps_out.push(inp.outs[j].pqc_fingerprint);
        j = j + 1;
        proof {
            assert(outputs@ =~= inp.outs@.subrange(0, j as int).map_values(|p: OutPublic| p.note_commit_point));
            assert(fps_out@ =~= inp.outs@.subrange(0, j as int).map_values(|p: OutPublic| p.pqc_fingerprint));
        }
    }
    proof {
        assert(inp.ins@.subrange(0, n_in as int) =~= inp.ins@);
        assert(inp.outs@.subrange(0, n_out as int) =~= inp.outs@);
    }
    let c_fee = pedersen_commit(wit.fee_value, &wit.fee_blind);
    if !is_zero32(&inp.fee_commit) {
        if !eq32(&c_fee, &inp.fee_commit) {
            return Err(PrivError::FeeCommitMismatch);
        }
        assert(c_fee@ =~= inp.fee_commit@);
    } else {
        assert(inp.fee_commit@ =~= zero32());
    }
    let rows_in = opening_rows_in(wit);
    let rows_out = opening_rows_out(wit);
    let zero = [0u8; 32];
    proof {
        lemma_le_value_zero(zero@);
        vstd::arithmetic::div_mod::lemma_small_mod(0, crate::hybrid_commit::group_order());
        vstd::arithmetic::div_mod::lemma_small_mod(wit.fee_value as nat, crate::hybrid_commit::group_order());
    }
    let ins = accumulate(rows_in.as_slice(), (zero, zero, zero), Ghost((0nat, 0nat, 0nat)));
    let fv = crate::hybrid_commit::scalar_of_u64(wit.fee_value);
    let fr = crate::hybrid_commit::scalar_reduce(&wit.fee_blind);
    let outs = accumulate(rows_out.as_slice(), (fv, fr, zero), Ghost((wit.fee_value as nat, le_value(wit.fee_blind@), 0nat)));
    let eq_v = eq32(&ins.0, &outs.0);
    let eq_r = eq32(&ins.1, &outs.1);
    proof {
        if eq_v { assert(ins.0@ =~= outs.0@); }
        if eq_r { assert(ins.1@ =~= outs.1@); }
        if le_value(ins.0@) == le_value(outs.0@) { lemma_le_value_injective(ins.0@, outs.0@); }
        if le_value(ins.1@) == le_value(outs.1@) { lemma_le_value_injective(ins.1@, outs.1@); }
        assert(sum_values(out_rows(*wit)) + (wit.fee_value as nat) == (wit.fee_value as nat) + sum_values(out_rows(*wit)));
        assert(sum_blinds(out_rows(*wit)) + le_value(wit.fee_blind@) == le_value(wit.fee_blind@) + sum_blinds(out_rows(*wit)));
    }
    if !eq_v {
        return Err(PrivError::ValueConservation);
    }
    if !eq_r {
        return Err(PrivError::BlindingConservation);
    }
    Ok(PrivClaim {
        nullifiers,
        outputs,
        enc_hints: hints,
        fee_commit: c_fee,
        pqc_fingerprints_in: fps_in,
        pqc_fingerprints_out: fps_out,
    })
}

fn opening_rows_in(wit: &PrivWitness) -> (rows: Vec<(u64, [u8; 32], Hash32)>)
    ensures
        rows@ == in_rows(*wit),
{
    let mut rows: Vec<(u64, [u8; 32], Hash32)> = Vec::new();
    let mut i: usize = 0;
    while i < wit.in_openings.len()
        invariant
            i <= wit.in_openings@.len(),
            rows@ == wit.in_openings@.subrange(0, i as int).map_values(|o: InOpen| (o.value, o.blind, o.blind)),
        decreases wit.in_openings@.len() - i,
    {
        let o = &wit.in_openings[i];
        rows.push((o.value, o.blind, o.blind));
        i = i + 1;
        assert(rows@ =~= wit.in_openings@.subrange(0, i as int).map_values(|o: InOpen| (o.value, o.blind, o.blind)));
    }
    assert(wit.in_openings@.subrange(0, i as int) =~= wit.in_openings@);
    rows
}

fn opening_rows_out(wit: &PrivWitness) -> (rows: Vec<(u64, [u8; 32], Hash32)>)
    ensures
        rows@ == out_rows(*wit),
{
    let mut rows: Vec<(u64, [u8; 32], Hash32)> = Vec::new();
    let mut i: usize = 0;
    while i < wit.out_openings.len()
        invariant
            i <= wit.out_openings@.len(),
            rows@ == wit.out_openings@.subrange(0, i as int).map_values(|o: OutOpen| (o.value, o.blind, o.blind)),
        decreases wit.out_openings@.len() - i,
    {
        let o = &wit.out_openings[i];
        rows.push((o.value, o.blind, o.blind));
        i = i + 1;
        assert(rows@ =~= wit.out_openings@.subrange(0, i as int).map_values(|o: OutOpen| (o.value, o.blind, o.blind)));
    }
    assert(wit.out_openings@.subrange(0, i as int) =~= wit.out_openings@);
    rows
}

proof fn lemma_first_input_error_stays(inp: PrivInput, wit: PrivWitness, net: u32, k: int, n: int)
    requires
        0 < k <= n,
        first_input_error(inp, wit, net, k) is Some,
    ensures
        first_input_error(inp, wit, net, n) == first_input_error(inp, wit, net, k),
    decreases n - k,
{
    if k < n {
        lemma_first_input_error_stays(inp, wit, net, k, n - 1);
    }
}

proof fn lemma_first_output_error_stays(inp: PrivInput, wit: PrivWitness, k: int, n: int)
    requires
        0 < k <= n,
        first_output_error(inp, wit, k) is Some,
    ensures
        first_output_error(inp, wit, n) == first_output_error(inp, wit, k),
    decreases n - k,
{
    if k < n {
        lemma_first_output_error_stays(inp, wit, k, n - 1);
    }
}

proof fn lemma_no_input_error_below(inp: PrivInput, wit: PrivWitness, net: u32, n: int, k: int)
    requires
        first_input_error(inp, wit, net, n) is None,
        0 <= k < n,
    ensures
        input_error(inp, wit, net, k) is None,
    decreases n,
{
    if k < n - 1 {
        lemma_no_input_error_below(inp, wit, net, n - 1, k);
    }
}

/// A note is never spent twice in one transaction: a transaction the guest accepts
/// has pairwise distinct nullifiers, and so does the claim it commits; a transaction
/// that lists one nullifier twice is refused.
pub proof fn lemma_accepted_nullifiers_distinct(inp: PrivInput, wit: PrivWitness)
    ensures
        tx_error(inp, wit) is None ==> forall|i: int, j: int|
            0 <= i < j < inp.ins@.len() ==> (#[trigger] inp.ins@[i]).nullifier != (#[trigger] inp.ins@[j]).nullifier,
        (exists|i: int, j: int|
            0 <= i < j < inp.ins@.len() && (#[trigger] inp.ins@[i]).nullifier == (#[trigger] inp.ins@[j]).nullifier)
            ==> tx_error(inp, wit) is Some,
{
    let net = match inp.network_id { Some(n) => n, None => 0u32 };
    if tx_error(inp, wit) is None {
        assert forall|i: int, j: int| 0 <= i < j < inp.ins@.len() implies (#[trigger] inp.ins@[i]).nullifier
            != (#[trigger] inp.ins@[j]).nullifier by {
            lemma_no_input_error_below(inp, wit, net, inp.ins@.len() as int, j);
            if inp.ins@[i].nullifier == inp.ins@[j].nullifier {
                assert(exists|q: int| 0 <= q < j && (#[trigger] inp.ins@[q]).nullifier == inp.ins@[j].nullifier);
            }
        }
    }
}

proof fn lemma_no_output_error_below(inp: PrivInput, wit: PrivWitness, n: int, k: int)
    requires
        first_output_error(inp, wit, n) is None,
        0 <= k < n,
    ensures
        spec_pedersen(wit.out_openings@[k].value, wit.out_openings@[k].blind@) == inp.outs@[k].note_commit_point@,
    decreases n,
{
    if k < n - 1 {
        lemma_no_output_error_below(inp, wit, n - 1, k);
    }
}

proof fn lemma_input_valid(inp: PrivInput, wit: PrivWitness, i: int)
    requires
        input_error(inp, wit, tx_network(inp), i) is None,
    ensures
        inp.ins@[i].proof.index == wit.in_openings@[i].leaf_index,
        spec_pedersen(wit.in_openings@[i].value, wit.in_openings@[i].blind@) == wit.in_openings@[i].note_commit_point@,
        spec_h_leaf(wit.in_openings@[i].note_commit_point@) == inp.ins@[i].note_commit_hash@,
        fold_to_root(
            spec_h_leaf(wit.in_openings@[i].note_commit_point@),
            wit.in_openings@[i].leaf_index as nat,
            inp.ins@[i].proof.siblings@,
        ) == inp.old_notes_root@,
        spec_nullifier(
            tx_network(inp),
            wit.in_openings@[i].spend_key@,
            wit.in_openings@[i].leaf_index,
            wit.in_openings@[i].note_commit_point@,
        ) == inp.ins@[i].nullifier@,
{
}

/// The network identifier a transaction's nullifiers are bound to (0 when absent).
pub open spec fn tx_network(inp: PrivInput) -> u32 {
    match inp.network_id {
        Some(n) => n,
        None => 0u32,
    }
}

/// What an accepted transaction guarantees: every input opens its note commitment,
/// its leaf is in the tree under the old root at its index, and its nullifier is the
/// one its spend key and position give; every output opens its commitment; a
/// nonzero fee commitment opens to the fee; and values and blinding factors balance
/// (inputs against outputs plus fee, modulo the group order).
pub proof fn lemma_accepted_tx_is_valid(inp: PrivInput, wit: PrivWitness)
    requires
        tx_error(inp, wit) is None,
    ensures
        inp.ins@.len() == wit.in_openings@.len(),
        inp.outs@.len() == wit.out_openings@.len(),
        forall|i: int|
            #![trigger inp.ins@[i]]
            0 <= i < inp.ins@.len() ==> inp.ins@[i].proof.index == wit.in_openings@[i].leaf_index
                && spec_pedersen(wit.in_openings@[i].value, wit.in_openings@[i].blind@)
                == wit.in_openings@[i].note_commit_point@ && spec_h_leaf(wit.in_openings@[i].note_commit_point@)
                == inp.ins@[i].note_commit_hash@ && fold_to_root(
                spec_h_leaf(wit.in_openings@[i].note_commit_point@),
                wit.in_openings@[i].leaf_index as nat,
                inp.ins@[i].proof.siblings@,
            ) == inp.old_notes_root@ && spec_nullifier(
                tx_network(inp),
                wit.in_openings@[i].spend_key@,
                wit.in_openings@[i].leaf_index,
                wit.in_openings@[i].note_commit_point@,
            ) == inp.ins@[i].nullifier@,
        forall|k: int| 0 <= k < inp.outs@.len() ==> spec_pedersen(
            (#[trigger] wit.out_openings@[k]).value,
            wit.out_openings@[k].blind@,
        ) == inp.outs@[k].note_commit_point@,
        inp.fee_commit@ != zero32() ==> spec_pedersen(wit.fee_value, wit.fee_blind@) == inp.fee_commit@,
        congruent(sum_values(in_rows(wit)), sum_values(out_rows(wit)) + (wit.fee_value as nat)),
        congruent(sum_blinds(in_rows(wit)), sum_blinds(out_rows(wit)) + le_value(wit.fee_blind@)),
{
    let net = tx_network(inp);
    assert forall|i: int| 0 <= i < inp.ins@.len() implies #[trigger] input_error(inp, wit, net, i) is None by {
        lemma_no_input_error_below(inp, wit, net, inp.ins@.len() as int, i);
    }
    assert forall|k: int| 0 <= k < inp.outs@.len() implies spec_pedersen(
        (#[trigger] wit.out_openings@[k]).value,
        wit.out_openings@[k].blind@,
    ) == inp.outs@[k].note_commit_point@ by {
        lemma_no_output_error_below(inp, wit, inp.outs@.len() as int, k);
    }
    assert forall|i: int|
        #![trigger inp.ins@[i]]
        0 <= i < inp.ins@.len() implies inp.ins@[i].proof.index == wit.in_openings@[i].leaf_index
            && spec_pedersen(wit.in_openings@[i].value, wit.in_openings@[i].blind@)
            == wit.in_openings@[i].note_commit_point@ && spec_h_leaf(wit.in_openings@[i].note_commit_point@)
            == inp.ins@[i].note_commit_hash@ && fold_to_root(
            spec_h_leaf(wit.in_openings@[i].note_commit_point@),
            wit.in_openings@[i].leaf_index as nat,
            inp.ins@[i].proof.siblings@,
        ) == inp.old_notes_root@ && spec_nullifier(
            tx_network(inp),
            wit.in_openings@[i].spend_key@,
            wit.in_openings@[i].leaf_index,
            wit.in_openings@[i].note_commit_point@,
        ) == inp.ins@[i].nullifier@ by {
        lemma_input_valid(inp, wit, i);
    }
}

} // verus!
