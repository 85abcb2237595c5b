//! Domain-separation labels, as byte strings.
use vstd::prelude::*;

verus! {

/// The label `WGT.v1`.
pub open spec fn wgt_v1() -> Seq<u8> {
    seq![87u8, 71u8, 84u8, 46u8, 118u8, 49u8]
}

/// The label `WGT.v1` as bytes.
pub fn wgt_v1_bytes() -> (v: Vec<u8>)
    ensures
        v@ == wgt_v1(),
{
    let v: Vec<u8> = vec![87u8, 71u8, 84u8, 46u8, 118u8, 49u8];
    assert(v@ =~= wgt_v1());
    v
}

/// The label `MRK.v1`.
pub open spec fn mrk_v1() -> Seq<u8> {
    seq![77u8, 82u8, 75u8, 46u8, 118u8, 49u8]
}

/// The label `MRK.v1` as bytes.
pub fn mrk_v1_bytes() -> (v: Vec<u8>)
    ensures
        v@ == mrk_v1(),
{
    let v: Vec<u8> = vec![77u8, 82u8, 75u8, 46u8, 118u8, 49u8];
    assert(v@ =~= mrk_v1());
    v
}

/// The label `MRK.empty.v1`.
pub open spec fn mrk_empty_v1() -> Seq<u8> {
    seq![77u8, 82u8, 75u8, 46u8, 101u8, 109u8, 112u8, 116u8, 121u8, 46u8, 118u8, 49u8]
}

/// The label `MRK.empty.v1` as bytes.
pub fn mrk_empty_v1_bytes() -> (v: Vec<u8>)
    ensures
        v@ == mrk_empty_v1(),
{
    let v: Vec<u8> = vec![77u8, 82u8, 75u8, 46u8, 101u8, 109u8, 112u8, 116u8, 121u8, 46u8, 118u8, 49u8];
    assert(v@ =~= mrk_empty_v1());
    v
}

/// The label `RANDAO.commit.v1`.
pub open spec fn randao_commit_v1() -> Seq<u8> {
    seq![82u8, 65u8, 78u8, 68u8, 65u8, 79u8, 46u8, 99u8, 111u8, 109u8, 109u8, 105u8, 116u8, 46u8, 118u8, 49u8]
}

/// The label `RANDAO.commit.v1` as bytes.
pub fn randao_commit_v1_bytes() -> (v: Vec<u8>)
    ensures
        v@ == randao_commit_v1(),
{
    let v: Vec<u8> = vec![82u8, 65u8, 78u8, 68u8, 65u8, 79u8, 46u8, 99u8, 111u8, 109u8, 109u8, 105u8, 116u8, 46u8, 118u8, 49u8];
    assert(v@ =~= randao_commit_v1());
    v
}

/// The label `RANDAO.slot.v1`.
pub open spec fn randao_slot_v1() -> Seq<u8> {
    seq![82u8, 65u8, 78u8, 68u8, 65u8, 79u8, 46u8, 115u8, 108u8, 111u8, 116u8, 46u8, 118u8, 49u8]
}

/// The label `RANDAO.slot.v1` as bytes.
pub fn randao_slot_v1_bytes() -> (v: Vec<u8>)
    ensures
        v@ == randao_slot_v1(),
{
    let v: Vec<u8> = vec![82u8, 65u8, 78u8, 68u8, 65u8, 79u8, 46u8, 115u8, 108u8, 111u8, 116u8, 46u8, 118u8, 49u8];
    assert(v@ =~= randao_slot_v1());
    v
}

/// The label `RANDAO.mix.v1`.
pub open spec fn randao_mix_v1() -> Seq<u8> {
    seq![82u8, 65u8, 78u8, 68u8, 65u8, 79u8, 46u8, 109u8, 105u8, 120u8, 46u8, 118u8, 49u8]
}

/// The label `RANDAO.mix.v1` as bytes.
pub fn randao_mix_v1_bytes() -> (v: Vec<u8>)
    ensures
        v@ == randao_mix_v1(),
{
    let v: Vec<u8> = vec![82u8, 65u8, 78u8, 68u8, 65u8, 79u8, 46u8, 109u8, 105u8, 120u8, 46u8, 118u8, 49u8];
    assert(v@ =~= randao_mix_v1());
    v
}

/// The label `ELIG.v1`.
pub open spec fn elig_v1() -> Seq<u8> {
    seq![69u8, 76u8, 73u8, 71u8, 46u8, 118u8, 49u8]
}

/// The label `ELIG.v1` as bytes.
pub fn elig_v1_bytes() -> (v: Vec<u8>)
    ensures
        v@ == elig_v1(),
{
    let v: Vec<u8> = vec![69u8, 76u8, 73u8, 71u8, 46u8, 118u8, 49u8];
    assert(v@ =~= elig_v1());
    v
}

/// The label `RANDAO.COMMIT`.
pub open spec fn randao_commit_legacy() -> Seq<u8> {
    seq![82u8, 65u8, 78u8, 68u8, 65u8, 79u8, 46u8, 67u8, 79u8, 77u8, 77u8, 73u8, 84u8]
}

/// The label `RANDAO.COMMIT` as bytes.
pub fn randao_commit_legacy_bytes() -> (v: Vec<u8>)
    ensures
        v@ == randao_commit_legacy(),
{
    let v: Vec<u8> = vec![82u8, 65u8, 78u8, 68u8, 65u8, 79u8, 46u8, 67u8, 79u8, 77u8, 77u8, 73u8, 84u8];
    assert(v@ =~= randao_commit_legacy());
    v
}

/// The label `BEACON.SLOT`.
pub open spec fn beacon_slot() -> Seq<u8> {
    seq![66u8, 69u8, 65u8, 67u8, 79u8, 78u8, 46u8, 83u8, 76u8, 79u8, 84u8]
}

/// The label `BEACON.SLOT` as bytes.
pub fn beacon_slot_bytes() -> (v: Vec<u8>)
    ensures
        v@ == beacon_slot(),
{
    let v: Vec<u8> = vec![66u8, 69u8, 65u8, 67u8, 79u8, 78u8, 46u8, 83u8, 76u8, 79u8, 84u8];
    assert(v@ =~= beacon_slot());
    v
}

/// The label `TT-CONSENSUS-KMAC256-v2`.
pub open spec fn consensus_key_v2() -> Seq<u8> {
    seq![84u8, 84u8, 45u8, 67u8, 79u8, 78u8, 83u8, 69u8, 78u8, 83u8, 85u8, 83u8, 45u8, 75u8, 77u8, 65u8, 67u8, 50u8, 53u8, 54u8, 45u8, 118u8, 50u8]
}

/// The label `TT-CONSENSUS-KMAC256-v2` as bytes.
pub fn consensus_key_v2_bytes() -> (v: Vec<u8>)
    ensures
        v@ == consensus_key_v2(),
{
    let v: Vec<u8> = vec![84u8, 84u8, 45u8, 67u8, 79u8, 78u8, 83u8, 69u8, 78u8, 83u8, 85u8, 83u8, 45u8, 75u8, 77u8, 65u8, 67u8, 50u8, 53u8, 54u8, 45u8, 118u8, 50u8];
    assert(v@ =~= consensus_key_v2());
    v
}

/// The label `KMAC256-HASH-v2`.
pub open spec fn kmac_hash_v2() -> Seq<u8> {
    seq![75u8, 77u8, 65u8, 67u8, 50u8, 53u8, 54u8, 45u8, 72u8, 65u8, 83u8, 72u8, 45u8, 118u8, 50u8]
}

/// The label `KMAC256-HASH-v2` as bytes.
pub fn kmac_hash_v2_bytes() -> (v: Vec<u8>)
    ensures
        v@ == kmac_hash_v2(),
{
    let v: Vec<u8> = vec![75u8, 77u8, 65u8, 67u8, 50u8, 53u8, 54u8, 45u8, 72u8, 65u8, 83u8, 72u8, 45u8, 118u8, 50u8];
    assert(v@ =~= kmac_hash_v2());
    v
}

/// The label `MICRO_POW`.
pub open spec fn micro_pow() -> Seq<u8> {
    seq![77u8, 73u8, 67u8, 82u8, 79u8, 95u8, 80u8, 79u8, 87u8]
}

/// The label `MICRO_POW` as bytes.
pub fn micro_pow_bytes() -> (v: Vec<u8>)
    ensures
        v@ == micro_pow(),
{
    let v: Vec<u8> = vec![77u8, 73u8, 67u8, 82u8, 79u8, 95u8, 80u8, 79u8, 87u8];
    assert(v@ =~= micro_pow());
    v
}

/// The label `TT_POZS_LITE_V1`.
pub open spec fn pozs_lite_domain() -> Seq<u8> {
    seq![84u8, 84u8, 95u8, 80u8, 79u8, 90u8, 83u8, 95u8, 76u8, 73u8, 84u8, 69u8, 95u8, 86u8, 49u8]
}

/// The label `TT_POZS_LITE_V1` as bytes.
pub fn pozs_lite_domain_bytes() -> (v: Vec<u8>)
    ensures
        v@ == pozs_lite_domain(),
{
    let v: Vec<u8> = vec![84u8, 84u8, 95u8, 80u8, 79u8, 90u8, 83u8, 95u8, 76u8, 73u8, 84u8, 69u8, 95u8, 86u8, 49u8];
    assert(v@ =~= pozs_lite_domain());
    v
}

/// The label `COMMIT`.
pub open spec fn commit_label() -> Seq<u8> {
    seq![67u8, 79u8, 77u8, 77u8, 73u8, 84u8]
}

/// The label `COMMIT` as bytes.
pub fn commit_label_bytes() -> (v: Vec<u8>)
    ensures
        v@ == commit_label(),
{
    let v: Vec<u8> = vec![67u8, 79u8, 77u8, 77u8, 73u8, 84u8];
    assert(v@ =~= commit_label());
    v
}

/// The label `CHALLENGE`.
pub open spec fn challenge_label() -> Seq<u8> {
    seq![67u8, 72u8, 65u8, 76u8, 76u8, 69u8, 78u8, 71u8, 69u8]
}

/// The label `CHALLENGE` as bytes.
pub fn challenge_label_bytes() -> (v: Vec<u8>)
    ensures
        v@ == challenge_label(),
{
    let v: Vec<u8> = vec![67u8, 72u8, 65u8, 76u8, 76u8, 69u8, 78u8, 71u8, 69u8];
    assert(v@ =~= challenge_label());
    v
}

/// The label `RESPONSE`.
pub open spec fn response_label() -> Seq<u8> {
    seq![82u8, 69u8, 83u8, 80u8, 79u8, 78u8, 83u8, 69u8]
}

/// The label `RESPONSE` as bytes.
pub fn response_label_bytes() -> (v: Vec<u8>)
    ensures
        v@ == response_label(),
{
    let v: Vec<u8> = vec![82u8, 69u8, 83u8, 80u8, 79u8, 78u8, 83u8, 69u8];
    assert(v@ =~= response_label());
    v
}

/// The label `RANDOMX_LITE`.
pub open spec fn randomx_lite() -> Seq<u8> {
    seq![82u8, 65u8, 78u8, 68u8, 79u8, 77u8, 88u8, 95u8, 76u8, 73u8, 84u8, 69u8]
}

/// The label `RANDOMX_LITE` as bytes.
pub fn randomx_lite_bytes() -> (v: Vec<u8>)
    ensures
        v@ == randomx_lite(),
{
    let v: Vec<u8> = vec![82u8, 65u8, 78u8, 68u8, 79u8, 77u8, 88u8, 95u8, 76u8, 73u8, 84u8, 69u8];
    assert(v@ =~= randomx_lite());
    v
}

/// The label `FINAL`.
pub open spec fn final_label() -> Seq<u8> {
    seq![70u8, 73u8, 78u8, 65u8, 76u8]
}

/// The label `FINAL` as bytes.
pub fn final_label_bytes() -> (v: Vec<u8>)
    ensures
        v@ == final_label(),
{
    let v: Vec<u8> = vec![70u8, 73u8, 78u8, 65u8, 76u8];
    assert(v@ =~= final_label());
    v
}

/// The label `SEED`.
pub open spec fn seed_label() -> Seq<u8> {
    seq![83u8, 69u8, 69u8, 68u8]
}

/// The label `SEED` as bytes.
pub fn seed_label_bytes() -> (v: Vec<u8>)
    ensures
        v@ == seed_label(),
{
    let v: Vec<u8> = vec![83u8, 69u8, 69u8, 68u8];
    assert(v@ =~= seed_label());
    v
}

/// The label `TT-P2P-SESSION.v1`.
pub open spec fn p2p_session_v1() -> Seq<u8> {
    seq![84u8, 84u8, 45u8, 80u8, 50u8, 80u8, 45u8, 83u8, 69u8, 83u8, 83u8, 73u8, 79u8, 78u8, 46u8, 118u8, 49u8]
}

/// The label `TT-P2P-SESSION.v1` as bytes.
pub fn p2p_session_v1_bytes() -> (v: Vec<u8>)
    ensures
        v@ == p2p_session_v1(),
{
    let v: Vec<u8> = vec![84u8, 84u8, 45u8, 80u8, 50u8, 80u8, 45u8, 83u8, 69u8, 83u8, 83u8, 73u8, 79u8, 78u8, 46u8, 118u8, 49u8];
    assert(v@ =~= p2p_session_v1());
    v
}

/// The label `QHINT.v1`.
pub open spec fn qhint_v1() -> Seq<u8> {
    seq![81u8, 72u8, 73u8, 78u8, 84u8, 46u8, 118u8, 49u8]
}

/// The label `QHINT.v1` as bytes.
pub fn qhint_v1_bytes() -> (v: Vec<u8>)
    ensures
        v@ == qhint_v1(),
{
    let v: Vec<u8> = vec![81u8, 72u8, 73u8, 78u8, 84u8, 46u8, 118u8, 49u8];
    assert(v@ =~= qhint_v1());
    v
}

/// The label `TT-LEADER.v1`.
pub open spec fn leader_v1() -> Seq<u8> {
    seq![84u8, 84u8, 45u8, 76u8, 69u8, 65u8, 68u8, 69u8, 82u8, 46u8, 118u8, 49u8]
}

/// The label `TT-LEADER.v1` as bytes.
pub fn leader_v1_bytes() -> (v: Vec<u8>)
    ensures
        v@ == leader_v1(),
{
    let v: Vec<u8> = vec![84u8, 84u8, 45u8, 76u8, 69u8, 65u8, 68u8, 69u8, 82u8, 46u8, 118u8, 49u8];
    assert(v@ =~= leader_v1());
    v
}

/// The label `agg-priv:v1`.
pub open spec fn agg_priv_key() -> Seq<u8> {
    seq![97u8, 103u8, 103u8, 45u8, 112u8, 114u8, 105u8, 118u8, 58u8, 118u8, 49u8]
}

/// The label `agg-priv:v1` as bytes.
pub fn agg_priv_key_bytes() -> (v: Vec<u8>)
    ensures
        v@ == agg_priv_key(),
{
    let v: Vec<u8> = vec![97u8, 103u8, 103u8, 45u8, 112u8, 114u8, 105u8, 118u8, 58u8, 118u8, 49u8];
    assert(v@ =~= agg_priv_key());
    v
}

/// The label `LEAF.v1`.
pub open spec fn leaf_v1() -> Seq<u8> {
    seq![76u8, 69u8, 65u8, 70u8, 46u8, 118u8, 49u8]
}

/// The label `LEAF.v1` as bytes.
pub fn leaf_v1_bytes() -> (v: Vec<u8>)
    ensures
        v@ == leaf_v1(),
{
    let v: Vec<u8> = vec![76u8, 69u8, 65u8, 70u8, 46u8, 118u8, 49u8];
    assert(v@ =~= leaf_v1());
    v
}

/// The label `NODE.v1`.
pub open spec fn node_v1() -> Seq<u8> {
    seq![78u8, 79u8, 68u8, 69u8, 46u8, 118u8, 49u8]
}

/// The label `NODE.v1` as bytes.
pub fn node_v1_bytes() -> (v: Vec<u8>)
    ensures
        v@ == node_v1(),
{
    let v: Vec<u8> = vec![78u8, 79u8, 68u8, 69u8, 46u8, 118u8, 49u8];
    assert(v@ =~= node_v1());
    v
}

/// The label `CLAIM.v1`.
pub open spec fn claim_v1() -> Seq<u8> {
    seq![67u8, 76u8, 65u8, 73u8, 77u8, 46u8, 118u8, 49u8]
}

/// The label `CLAIM.v1` as bytes.
pub fn claim_v1_bytes() -> (v: Vec<u8>)
    ensures
        v@ == claim_v1(),
{
    let v: Vec<u8> = vec![67u8, 76u8, 65u8, 73u8, 77u8, 46u8, 118u8, 49u8];
    assert(v@ =~= claim_v1());
    v
}

/// The label `HINT.v1`.
pub open spec fn hint_v1() -> Seq<u8> {
    seq![72u8, 73u8, 78u8, 84u8, 46u8, 118u8, 49u8]
}

/// The label `HINT.v1` as bytes.
pub fn hint_v1_bytes() -> (v: Vec<u8>)
    ensures
        v@ == hint_v1(),
{
    let v: Vec<u8> = vec![72u8, 73u8, 78u8, 84u8, 46u8, 118u8, 49u8];
    assert(v@ =~= hint_v1());
    v
}

/// The label `NF.v1`.
pub open spec fn nf_v1() -> Seq<u8> {
    seq![78u8, 70u8, 46u8, 118u8, 49u8]
}

/// The label `NF.v1` as bytes.
pub fn nf_v1_bytes() -> (v: Vec<u8>)
    ensures
        v@ == nf_v1(),
{
    let v: Vec<u8> = vec![78u8, 70u8, 46u8, 118u8, 49u8];
    assert(v@ =~= nf_v1());
    v
}

/// The label `TT-PEDERSEN-H`.
pub open spec fn pedersen_h() -> Seq<u8> {
    seq![84u8, 84u8, 45u8, 80u8, 69u8, 68u8, 69u8, 82u8, 83u8, 69u8, 78u8, 45u8, 72u8]
}

/// The label `TT-PEDERSEN-H` as bytes.
pub fn pedersen_h_bytes() -> (v: Vec<u8>)
    ensures
        v@ == pedersen_h(),
{
    let v: Vec<u8> = vec![84u8, 84u8, 45u8, 80u8, 69u8, 68u8, 69u8, 82u8, 83u8, 69u8, 78u8, 45u8, 72u8];
    assert(v@ =~= pedersen_h());
    v
}

/// The label `TT-PQC-GEN`.
pub open spec fn pqc_gen() -> Seq<u8> {
    seq![84u8, 84u8, 45u8, 80u8, 81u8, 67u8, 45u8, 71u8, 69u8, 78u8]
}

/// The label `TT-PQC-GEN` as bytes.
pub fn pqc_gen_bytes() -> (v: Vec<u8>)
    ensures
        v@ == pqc_gen(),
{
    let v: Vec<u8> = vec![84u8, 84u8, 45u8, 80u8, 81u8, 67u8, 45u8, 71u8, 69u8, 78u8];
    assert(v@ =~= pqc_gen());
    v
}

/// The label `PQC-FP.v1`.
pub open spec fn pqc_fp_v1() -> Seq<u8> {
    seq![80u8, 81u8, 67u8, 45u8, 70u8, 80u8, 46u8, 118u8, 49u8]
}

/// The label `PQC-FP.v1` as bytes.
pub fn pqc_fp_v1_bytes() -> (v: Vec<u8>)
    ensures
        v@ == pqc_fp_v1(),
{
    let v: Vec<u8> = vec![80u8, 81u8, 67u8, 45u8, 70u8, 80u8, 46u8, 118u8, 49u8];
    assert(v@ =~= pqc_fp_v1());
    v
}

/// The label `TT_NODE_ID`.
pub open spec fn node_id_label() -> Seq<u8> {
    seq![84u8, 84u8, 95u8, 78u8, 79u8, 68u8, 69u8, 95u8, 73u8, 68u8]
}

/// The label `TT_NODE_ID` as bytes.
pub fn node_id_label_bytes() -> (v: Vec<u8>)
    ensures
        v@ == node_id_label(),
{
    let v: Vec<u8> = vec![84u8, 84u8, 95u8, 78u8, 79u8, 68u8, 69u8, 95u8, 73u8, 68u8];
    assert(v@ =~= node_id_label());
    v
}

/// The label `TT-CONSENSUS-KMAC256`.
pub open spec fn consensus_key_v1() -> Seq<u8> {
    seq![84u8, 84u8, 45u8, 67u8, 79u8, 78u8, 83u8, 69u8, 78u8, 83u8, 85u8, 83u8, 45u8, 75u8, 77u8, 65u8, 67u8, 50u8, 53u8, 54u8]
}

/// The label `TT-CONSENSUS-KMAC256` as bytes.
pub fn consensus_key_v1_bytes() -> (v: Vec<u8>)
    ensures
        v@ == consensus_key_v1(),
{
    let v: Vec<u8> = vec![84u8, 84u8, 45u8, 67u8, 79u8, 78u8, 83u8, 69u8, 78u8, 83u8, 85u8, 83u8, 45u8, 75u8, 77u8, 65u8, 67u8, 50u8, 53u8, 54u8];
    assert(v@ =~= consensus_key_v1());
    v
}

/// The label `KMAC256-HASH-v1`.
pub open spec fn kmac_hash_v1() -> Seq<u8> {
    seq![75u8, 77u8, 65u8, 67u8, 50u8, 53u8, 54u8, 45u8, 72u8, 65u8, 83u8, 72u8, 45u8, 118u8, 49u8]
}

/// The label `KMAC256-HASH-v1` as bytes.
pub fn kmac_hash_v1_bytes() -> (v: Vec<u8>)
    ensures
        v@ == kmac_hash_v1(),
{
    let v: Vec<u8> = vec![75u8, 77u8, 65u8, 67u8, 50u8, 53u8, 54u8, 45u8, 72u8, 65u8, 83u8, 72u8, 45u8, 118u8, 49u8];
    assert(v@ =~= kmac_hash_v1());
    v
}

/// The label `QH/AEAD/Key`.
pub open spec fn qh_aead_key() -> Seq<u8> {
    seq![81u8, 72u8, 47u8, 65u8, 69u8, 65u8, 68u8, 47u8, 75u8, 101u8, 121u8]
}

/// The label `QH/AEAD/Key` as bytes.
pub fn qh_aead_key_bytes() -> (v: Vec<u8>)
    ensures
        v@ == qh_aead_key(),
{
    let v: Vec<u8> = vec![81u8, 72u8, 47u8, 65u8, 69u8, 65u8, 68u8, 47u8, 75u8, 101u8, 121u8];
    assert(v@ =~= qh_aead_key());
    v
}

/// The label `QH/AEAD/Nonce24`.
pub open spec fn qh_aead_nonce24() -> Seq<u8> {
    seq![81u8, 72u8, 47u8, 65u8, 69u8, 65u8, 68u8, 47u8, 78u8, 111u8, 110u8, 99u8, 101u8, 50u8, 52u8]
}

/// The label `QH/AEAD/Nonce24` as bytes.
pub fn qh_aead_nonce24_bytes() -> (v: Vec<u8>)
    ensures
        v@ == qh_aead_nonce24(),
{
    let v: Vec<u8> = vec![81u8, 72u8, 47u8, 65u8, 69u8, 65u8, 68u8, 47u8, 78u8, 111u8, 110u8, 99u8, 101u8, 50u8, 52u8];
    assert(v@ =~= qh_aead_nonce24());
    v
}

/// The label `DRBG/seed`.
pub open spec fn drbg_seed() -> Seq<u8> {
    seq![68u8, 82u8, 66u8, 71u8, 47u8, 115u8, 101u8, 101u8, 100u8]
}

/// The label `DRBG/seed` as bytes.
pub fn drbg_seed_bytes() -> (v: Vec<u8>)
    ensures
        v@ == drbg_seed(),
{
    let v: Vec<u8> = vec![68u8, 82u8, 66u8, 71u8, 47u8, 115u8, 101u8, 101u8, 100u8];
    assert(v@ =~= drbg_seed());
    v
}

/// The label `DRBG/reseed`.
pub open spec fn drbg_reseed() -> Seq<u8> {
    seq![68u8, 82u8, 66u8, 71u8, 47u8, 114u8, 101u8, 115u8, 101u8, 101u8, 100u8]
}

/// The label `DRBG/reseed` as bytes.
pub fn drbg_reseed_bytes() -> (v: Vec<u8>)
    ensures
        v@ == drbg_reseed(),
{
    let v: Vec<u8> = vec![68u8, 82u8, 66u8, 71u8, 47u8, 114u8, 101u8, 115u8, 101u8, 101u8, 100u8];
    assert(v@ =~= drbg_reseed());
    v
}

/// The label `DRBG/ratchet`.
pub open spec fn drbg_ratchet() -> Seq<u8> {
    seq![68u8, 82u8, 66u8, 71u8, 47u8, 114u8, 97u8, 116u8, 99u8, 104u8, 101u8, 116u8]
}

/// The label `DRBG/ratchet` as bytes.
pub fn drbg_ratchet_bytes() -> (v: Vec<u8>)
    ensures
        v@ == drbg_ratchet(),
{
    let v: Vec<u8> = vec![68u8, 82u8, 66u8, 71u8, 47u8, 114u8, 97u8, 116u8, 99u8, 104u8, 101u8, 116u8];
    assert(v@ =~= drbg_ratchet());
    v
}

/// The label `DRBG/stream`.
pub open spec fn drbg_stream() -> Seq<u8> {
    seq![68u8, 82u8, 66u8, 71u8, 47u8, 115u8, 116u8, 114u8, 101u8, 97u8, 109u8]
}

/// The label `DRBG/stream` as bytes.
pub fn drbg_stream_bytes() -> (v: Vec<u8>)
    ensures
        v@ == drbg_stream(),
{
    let v: Vec<u8> = vec![68u8, 82u8, 66u8, 71u8, 47u8, 115u8, 116u8, 114u8, 101u8, 97u8, 109u8];
    assert(v@ =~= drbg_stream());
    v
}

/// The label `TT-KDF-`.
pub open spec fn host_kdf() -> Seq<u8> {
    seq![84u8, 84u8, 45u8, 75u8, 68u8, 70u8, 45u8]
}

/// The label `TT-KDF-` as bytes.
pub fn host_kdf_bytes() -> (v: Vec<u8>)
    ensures
        v@ == host_kdf(),
{
    let v: Vec<u8> = vec![84u8, 84u8, 45u8, 75u8, 68u8, 70u8, 45u8];
    assert(v@ =~= host_kdf());
    v
}

/// The label `TT-MAC-`.
pub open spec fn host_mac() -> Seq<u8> {
    seq![84u8, 84u8, 45u8, 77u8, 65u8, 67u8, 45u8]
}

/// The label `TT-MAC-` as bytes.
pub fn host_mac_bytes() -> (v: Vec<u8>)
    ensures
        v@ == host_mac(),
{
    let v: Vec<u8> = vec![84u8, 84u8, 45u8, 77u8, 65u8, 67u8, 45u8];
    assert(v@ =~= host_mac());
    v
}

/// The label `TT-XOF-`.
pub open spec fn host_xof() -> Seq<u8> {
    seq![84u8, 84u8, 45u8, 88u8, 79u8, 70u8, 45u8]
}

/// The label `TT-XOF-` as bytes.
pub fn host_xof_bytes() -> (v: Vec<u8>)
    ensures
        v@ == host_xof(),
{
    let v: Vec<u8> = vec![84u8, 84u8, 45u8, 88u8, 79u8, 70u8, 45u8];
    assert(v@ =~= host_xof());
    v
}

/// The label `X25519_SESSION_KEY`.
pub open spec fn x25519_session_key() -> Seq<u8> {
    seq![88u8, 50u8, 53u8, 53u8, 49u8, 57u8, 95u8, 83u8, 69u8, 83u8, 83u8, 73u8, 79u8, 78u8, 95u8, 75u8, 69u8, 89u8]
}

/// The label `X25519_SESSION_KEY` as bytes.
pub fn x25519_session_key_bytes() -> (v: Vec<u8>)
    ensures
        v@ == x25519_session_key(),
{
    let v: Vec<u8> = vec![88u8, 50u8, 53u8, 53u8, 49u8, 57u8, 95u8, 83u8, 69u8, 83u8, 83u8, 73u8, 79u8, 78u8, 95u8, 75u8, 69u8, 89u8];
    assert(v@ =~= x25519_session_key());
    v
}

/// The label `key_derivation`.
pub open spec fn key_derivation_ctx() -> Seq<u8> {
    seq![107u8, 101u8, 121u8, 95u8, 100u8, 101u8, 114u8, 105u8, 118u8, 97u8, 116u8, 105u8, 111u8, 110u8]
}

/// The label `key_derivation` as bytes.
pub fn key_derivation_ctx_bytes() -> (v: Vec<u8>)
    ensures
        v@ == key_derivation_ctx(),
{
    let v: Vec<u8> = vec![107u8, 101u8, 121u8, 95u8, 100u8, 101u8, 114u8, 105u8, 118u8, 97u8, 116u8, 105u8, 111u8, 110u8];
    assert(v@ =~= key_derivation_ctx());
    v
}

/// The label `X25519_EPHEMERAL`.
pub open spec fn x25519_ephemeral() -> Seq<u8> {
    seq![88u8, 50u8, 53u8, 53u8, 49u8, 57u8, 95u8, 69u8, 80u8, 72u8, 69u8, 77u8, 69u8, 82u8, 65u8, 76u8]
}

/// The label `X25519_EPHEMERAL` as bytes.
pub fn x25519_ephemeral_bytes() -> (v: Vec<u8>)
    ensures
        v@ == x25519_ephemeral(),
{
    let v: Vec<u8> = vec![88u8, 50u8, 53u8, 53u8, 49u8, 57u8, 95u8, 69u8, 80u8, 72u8, 69u8, 77u8, 69u8, 82u8, 65u8, 76u8];
    assert(v@ =~= x25519_ephemeral());
    v
}

/// The label `QH/HYBRID`.
pub open spec fn qh_hybrid() -> Seq<u8> {
    seq![81u8, 72u8, 47u8, 72u8, 89u8, 66u8, 82u8, 73u8, 68u8]
}

/// The label `QH/HYBRID` as bytes.
pub fn qh_hybrid_bytes() -> (v: Vec<u8>)
    ensures
        v@ == qh_hybrid(),
{
    let v: Vec<u8> = vec![81u8, 72u8, 47u8, 72u8, 89u8, 66u8, 82u8, 73u8, 68u8];
    assert(v@ =~= qh_hybrid());
    v
}

/// The label `QH/KSEARCH`.
pub open spec fn qh_ksearch() -> Seq<u8> {
    seq![81u8, 72u8, 47u8, 75u8, 83u8, 69u8, 65u8, 82u8, 67u8, 72u8]
}

/// The label `QH/KSEARCH` as bytes.
pub fn qh_ksearch_bytes() -> (v: Vec<u8>)
    ensures
        v@ == qh_ksearch(),
{
    let v: Vec<u8> = vec![81u8, 72u8, 47u8, 75u8, 83u8, 69u8, 65u8, 82u8, 67u8, 72u8];
    assert(v@ =~= qh_ksearch());
    v
}

/// The label `QH/TRANSACTION_ID`.
pub open spec fn qh_transaction_id() -> Seq<u8> {
    seq![81u8, 72u8, 47u8, 84u8, 82u8, 65u8, 78u8, 83u8, 65u8, 67u8, 84u8, 73u8, 79u8, 78u8, 95u8, 73u8, 68u8]
}

/// The label `QH/TRANSACTION_ID` as bytes.
pub fn qh_transaction_id_bytes() -> (v: Vec<u8>)
    ensures
        v@ == qh_transaction_id(),
{
    let v: Vec<u8> = vec![81u8, 72u8, 47u8, 84u8, 82u8, 65u8, 78u8, 83u8, 65u8, 67u8, 84u8, 73u8, 79u8, 78u8, 95u8, 73u8, 68u8];
    assert(v@ =~= qh_transaction_id());
    v
}

/// The label `FALCON/KEYGEN`.
pub open spec fn falcon_keygen() -> Seq<u8> {
    seq![70u8, 65u8, 76u8, 67u8, 79u8, 78u8, 47u8, 75u8, 69u8, 89u8, 71u8, 69u8, 78u8]
}

/// The label `FALCON/KEYGEN` as bytes.
pub fn falcon_keygen_bytes() -> (v: Vec<u8>)
    ensures
        v@ == falcon_keygen(),
{
    let v: Vec<u8> = vec![70u8, 65u8, 76u8, 67u8, 79u8, 78u8, 47u8, 75u8, 69u8, 89u8, 71u8, 69u8, 78u8];
    assert(v@ =~= falcon_keygen());
    v
}

/// The label `FALCON/SIGN/COINS`.
pub open spec fn falcon_sign_coins() -> Seq<u8> {
    seq![70u8, 65u8, 76u8, 67u8, 79u8, 78u8, 47u8, 83u8, 73u8, 71u8, 78u8, 47u8, 67u8, 79u8, 73u8, 78u8, 83u8]
}

/// The label `FALCON/SIGN/COINS` as bytes.
pub fn falcon_sign_coins_bytes() -> (v: Vec<u8>)
    ensures
        v@ == falcon_sign_coins(),
{
    let v: Vec<u8> = vec![70u8, 65u8, 76u8, 67u8, 79u8, 78u8, 47u8, 83u8, 73u8, 71u8, 78u8, 47u8, 67u8, 79u8, 73u8, 78u8, 83u8];
    assert(v@ =~= falcon_sign_coins());
    v
}

/// The label `KMAC256-DERIVE`.
pub open spec fn zk_kdf() -> Seq<u8> {
    seq![75u8, 77u8, 65u8, 67u8, 50u8, 53u8, 54u8, 45u8, 68u8, 69u8, 82u8, 73u8, 86u8, 69u8]
}

/// The label `KMAC256-DERIVE` as bytes.
pub fn zk_kdf_bytes() -> (v: Vec<u8>)
    ensures
        v@ == zk_kdf(),
{
    let v: Vec<u8> = vec![75u8, 77u8, 65u8, 67u8, 50u8, 53u8, 54u8, 45u8, 68u8, 69u8, 82u8, 73u8, 86u8, 69u8];
    assert(v@ =~= zk_kdf());
    v
}

/// The label `KMAC256-XOF`.
pub open spec fn zk_xof() -> Seq<u8> {
    seq![75u8, 77u8, 65u8, 67u8, 50u8, 53u8, 54u8, 45u8, 88u8, 79u8, 70u8]
}

/// The label `KMAC256-XOF` as bytes.
pub fn zk_xof_bytes() -> (v: Vec<u8>)
    ensures
        v@ == zk_xof(),
{
    let v: Vec<u8> = vec![75u8, 77u8, 65u8, 67u8, 50u8, 53u8, 54u8, 45u8, 88u8, 79u8, 70u8];
    assert(v@ =~= zk_xof());
    v
}

/// The label `KMAC256-TAG`.
pub open spec fn zk_mac() -> Seq<u8> {
    seq![75u8, 77u8, 65u8, 67u8, 50u8, 53u8, 54u8, 45u8, 84u8, 65u8, 71u8]
}

/// The label `KMAC256-TAG` as bytes.
pub fn zk_mac_bytes() -> (v: Vec<u8>)
    ensures
        v@ == zk_mac(),
{
    let v: Vec<u8> = vec![75u8, 77u8, 65u8, 67u8, 50u8, 53u8, 54u8, 45u8, 84u8, 65u8, 71u8];
    assert(v@ =~= zk_mac());
    v
}

/// The label `FALCON_KEX_v1`.
pub open spec fn falcon_kex() -> Seq<u8> {
    seq![70u8, 65u8, 76u8, 67u8, 79u8, 78u8, 95u8, 75u8, 69u8, 88u8, 95u8, 118u8, 49u8]
}

/// The label `FALCON_KEX_v1` as bytes.
pub fn falcon_kex_bytes() -> (v: Vec<u8>)
    ensures
        v@ == falcon_kex(),
{
    let v: Vec<u8> = vec![70u8, 65u8, 76u8, 67u8, 79u8, 78u8, 95u8, 75u8, 69u8, 88u8, 95u8, 118u8, 49u8];
    assert(v@ =~= falcon_kex());
    v
}

/// The label `HYBRID_SECRET_v1`.
pub open spec fn hybrid_secret_label() -> Seq<u8> {
    seq![72u8, 89u8, 66u8, 82u8, 73u8, 68u8, 95u8, 83u8, 69u8, 67u8, 82u8, 69u8, 84u8, 95u8, 118u8, 49u8]
}

/// The label `HYBRID_SECRET_v1` as bytes.
pub fn hybrid_secret_label_bytes() -> (v: Vec<u8>)
    ensures
        v@ == hybrid_secret_label(),
{
    let v: Vec<u8> = vec![72u8, 89u8, 66u8, 82u8, 73u8, 68u8, 95u8, 83u8, 69u8, 67u8, 82u8, 69u8, 84u8, 95u8, 118u8, 49u8];
    assert(v@ =~= hybrid_secret_label());
    v
}

/// The label `HINT_CACHE_v1`.
pub open spec fn hint_cache_label() -> Seq<u8> {
    seq![72u8, 73u8, 78u8, 84u8, 95u8, 67u8, 65u8, 67u8, 72u8, 69u8, 95u8, 118u8, 49u8]
}

/// The label `HINT_CACHE_v1` as bytes.
pub fn hint_cache_label_bytes() -> (v: Vec<u8>)
    ensures
        v@ == hint_cache_label(),
{
    let v: Vec<u8> = vec![72u8, 73u8, 78u8, 84u8, 95u8, 67u8, 65u8, 67u8, 72u8, 69u8, 95u8, 118u8, 49u8];
    assert(v@ =~= hint_cache_label());
    v
}

/// The label `X25519_SESSION_v1`.
pub open spec fn x25519_session_v1() -> Seq<u8> {
    seq![88u8, 50u8, 53u8, 53u8, 49u8, 57u8, 95u8, 83u8, 69u8, 83u8, 83u8, 73u8, 79u8, 78u8, 95u8, 118u8, 49u8]
}

/// The label `X25519_SESSION_v1` as bytes.
pub fn x25519_session_v1_bytes() -> (v: Vec<u8>)
    ensures
        v@ == x25519_session_v1(),
{
    let v: Vec<u8> = vec![88u8, 50u8, 53u8, 53u8, 49u8, 57u8, 95u8, 83u8, 69u8, 83u8, 83u8, 73u8, 79u8, 78u8, 95u8, 118u8, 49u8];
    assert(v@ =~= x25519_session_v1());
    v
}

/// The label `hybrid_keysearch`.
pub open spec fn hybrid_keysearch_ctx() -> Seq<u8> {
    seq![104u8, 121u8, 98u8, 114u8, 105u8, 100u8, 95u8, 107u8, 101u8, 121u8, 115u8, 101u8, 97u8, 114u8, 99u8, 104u8]
}

/// The label `hybrid_keysearch` as bytes.
pub fn hybrid_keysearch_ctx_bytes() -> (v: Vec<u8>)
    ensures
        v@ == hybrid_keysearch_ctx(),
{
    let v: Vec<u8> = vec![104u8, 121u8, 98u8, 114u8, 105u8, 100u8, 95u8, 107u8, 101u8, 121u8, 115u8, 101u8, 97u8, 114u8, 99u8, 104u8];
    assert(v@ =~= hybrid_keysearch_ctx());
    v
}

/// The label `X25519_UNIFIED_v1`.
pub open spec fn x25519_unified() -> Seq<u8> {
    seq![88u8, 50u8, 53u8, 53u8, 49u8, 57u8, 95u8, 85u8, 78u8, 73u8, 70u8, 73u8, 69u8, 68u8, 95u8, 118u8, 49u8]
}

/// The label `X25519_UNIFIED_v1` as bytes.
pub fn x25519_unified_bytes() -> (v: Vec<u8>)
    ensures
        v@ == x25519_unified(),
{
    let v: Vec<u8> = vec![88u8, 50u8, 53u8, 53u8, 49u8, 57u8, 95u8, 85u8, 78u8, 73u8, 70u8, 73u8, 69u8, 68u8, 95u8, 118u8, 49u8];
    assert(v@ =~= x25519_unified());
    v
}

/// The label `keysearch`.
pub open spec fn keysearch_ctx() -> Seq<u8> {
    seq![107u8, 101u8, 121u8, 115u8, 101u8, 97u8, 114u8, 99u8, 104u8]
}

/// The label `keysearch` as bytes.
pub fn keysearch_ctx_bytes() -> (v: Vec<u8>)
    ensures
        v@ == keysearch_ctx(),
{
    let v: Vec<u8> = vec![107u8, 101u8, 121u8, 115u8, 101u8, 97u8, 114u8, 99u8, 104u8];
    assert(v@ =~= keysearch_ctx());
    v
}

/// The label `TRADITIONAL_HINT_v1`.
pub open spec fn traditional_hint_label() -> Seq<u8> {
    seq![84u8, 82u8, 65u8, 68u8, 73u8, 84u8, 73u8, 79u8, 78u8, 65u8, 76u8, 95u8, 72u8, 73u8, 78u8, 84u8, 95u8, 118u8, 49u8]
}

/// The label `TRADITIONAL_HINT_v1` as bytes.
pub fn traditional_hint_label_bytes() -> (v: Vec<u8>)
    ensures
        v@ == traditional_hint_label(),
{
    let v: Vec<u8> = vec![84u8, 82u8, 65u8, 68u8, 73u8, 84u8, 73u8, 79u8, 78u8, 65u8, 76u8, 95u8, 72u8, 73u8, 78u8, 84u8, 95u8, 118u8, 49u8];
    assert(v@ =~= traditional_hint_label());
    v
}

/// The prefix `QUANTUM_HINT_v1` followed by a zero byte.
pub open spec fn quantum_hint_prefix() -> Seq<u8> {
    seq![81u8, 85u8, 65u8, 78u8, 84u8, 85u8, 77u8, 95u8, 72u8, 73u8, 78u8, 84u8, 95u8, 118u8, 49u8, 0u8]
}

/// The prefix `QUANTUM_HINT_v1` followed by a zero byte, as bytes.
pub fn quantum_hint_prefix_bytes() -> (v: Vec<u8>)
    ensures
        v@ == quantum_hint_prefix(),
{
    let v: Vec<u8> = vec![81u8, 85u8, 65u8, 78u8, 84u8, 85u8, 77u8, 95u8, 72u8, 73u8, 78u8, 84u8, 95u8, 118u8, 49u8, 0u8];
    assert(v@ =~= quantum_hint_prefix());
    v
}

/// The label `TRANSACTION_ID`.
pub open spec fn kf_transaction_id() -> Seq<u8> {
    seq![84u8, 82u8, 65u8, 78u8, 83u8, 65u8, 67u8, 84u8, 73u8, 79u8, 78u8, 95u8, 73u8, 68u8]
}

/// The label `TRANSACTION_ID` as bytes.
pub fn kf_transaction_id_bytes() -> (v: Vec<u8>)
    ensures
        v@ == kf_transaction_id(),
{
    let v: Vec<u8> = vec![84u8, 82u8, 65u8, 78u8, 83u8, 65u8, 67u8, 84u8, 73u8, 79u8, 78u8, 95u8, 73u8, 68u8];
    assert(v@ =~= kf_transaction_id());
    v
}

/// The label `QUANTUM_HINT_SIGNING_v1`.
pub open spec fn kf_signing_label() -> Seq<u8> {
    seq![81u8, 85u8, 65u8, 78u8, 84u8, 85u8, 77u8, 95u8, 72u8, 73u8, 78u8, 84u8, 95u8, 83u8, 73u8, 71u8, 78u8, 73u8, 78u8, 71u8, 95u8, 118u8, 49u8]
}

/// The label `QUANTUM_HINT_SIGNING_v1` as bytes.
pub fn kf_signing_label_bytes() -> (v: Vec<u8>)
    ensures
        v@ == kf_signing_label(),
{
    let v: Vec<u8> = vec![81u8, 85u8, 65u8, 78u8, 84u8, 85u8, 77u8, 95u8, 72u8, 73u8, 78u8, 84u8, 95u8, 83u8, 73u8, 71u8, 78u8, 73u8, 78u8, 71u8, 95u8, 118u8, 49u8];
    assert(v@ =~= kf_signing_label());
    v
}

/// The label `QUANTUM_ENCRYPTION_KEY`.
pub open spec fn kf_enc_key_label() -> Seq<u8> {
    seq![81u8, 85u8, 65u8, 78u8, 84u8, 85u8, 77u8, 95u8, 69u8, 78u8, 67u8, 82u8, 89u8, 80u8, 84u8, 73u8, 79u8, 78u8, 95u8, 75u8, 69u8, 89u8]
}

/// The label `QUANTUM_ENCRYPTION_KEY` as bytes.
pub fn kf_enc_key_label_bytes() -> (v: Vec<u8>)
    ensures
        v@ == kf_enc_key_label(),
{
    let v: Vec<u8> = vec![81u8, 85u8, 65u8, 78u8, 84u8, 85u8, 77u8, 95u8, 69u8, 78u8, 67u8, 82u8, 89u8, 80u8, 84u8, 73u8, 79u8, 78u8, 95u8, 75u8, 69u8, 89u8];
    assert(v@ =~= kf_enc_key_label());
    v
}

/// The label `QUANTUM_ENCRYPTION_NONCE`.
pub open spec fn kf_enc_nonce_label() -> Seq<u8> {
    seq![81u8, 85u8, 65u8, 78u8, 84u8, 85u8, 77u8, 95u8, 69u8, 78u8, 67u8, 82u8, 89u8, 80u8, 84u8, 73u8, 79u8, 78u8, 95u8, 78u8, 79u8, 78u8, 67u8, 69u8]
}

/// The label `QUANTUM_ENCRYPTION_NONCE` as bytes.
pub fn kf_enc_nonce_label_bytes() -> (v: Vec<u8>)
    ensures
        v@ == kf_enc_nonce_label(),
{
    let v: Vec<u8> = vec![81u8, 85u8, 65u8, 78u8, 84u8, 85u8, 77u8, 95u8, 69u8, 78u8, 67u8, 82u8, 89u8, 80u8, 84u8, 73u8, 79u8, 78u8, 95u8, 78u8, 79u8, 78u8, 67u8, 69u8];
    assert(v@ =~= kf_enc_nonce_label());
    v
}

/// The label `QUANTUM_K_SEARCH`.
pub open spec fn kf_k_search_label() -> Seq<u8> {
    seq![81u8, 85u8, 65u8, 78u8, 84u8, 85u8, 77u8, 95u8, 75u8, 95u8, 83u8, 69u8, 65u8, 82u8, 67u8, 72u8]
}

/// The label `QUANTUM_K_SEARCH` as bytes.
pub fn kf_k_search_label_bytes() -> (v: Vec<u8>)
    ensures
        v@ == kf_k_search_label(),
{
    let v: Vec<u8> = vec![81u8, 85u8, 65u8, 78u8, 84u8, 85u8, 77u8, 95u8, 75u8, 95u8, 83u8, 69u8, 65u8, 82u8, 67u8, 72u8];
    assert(v@ =~= kf_k_search_label());
    v
}

/// The label `TRADITIONAL_FALLBACK_TAG`.
pub open spec fn kf_fallback_tag() -> Seq<u8> {
    seq![84u8, 82u8, 65u8, 68u8, 73u8, 84u8, 73u8, 79u8, 78u8, 65u8, 76u8, 95u8, 70u8, 65u8, 76u8, 76u8, 66u8, 65u8, 67u8, 75u8, 95u8, 84u8, 65u8, 71u8]
}

/// The label `TRADITIONAL_FALLBACK_TAG` as bytes.
pub fn kf_fallback_tag_bytes() -> (v: Vec<u8>)
    ensures
        v@ == kf_fallback_tag(),
{
    let v: Vec<u8> = vec![84u8, 82u8, 65u8, 68u8, 73u8, 84u8, 73u8, 79u8, 78u8, 65u8, 76u8, 95u8, 70u8, 65u8, 76u8, 76u8, 66u8, 65u8, 67u8, 75u8, 95u8, 84u8, 65u8, 71u8];
    assert(v@ =~= kf_fallback_tag());
    v
}

} // verus!
