use std::time::Duration;
use tiny_keccak::{Hasher, Kmac};
use tt_priv_cli::guests::agg_guest::{
    aggregate_claims, append_leaf, kmac32_words, root_from_frontier, sort_unique, AggError, AggPrivInput,
};
use tt_priv_cli::guests::priv_guest::{
    merkle_verify, check_private_tx, InOpen, InPublic, MerkleProof, OutOpen, OutPublic, PrivClaim, PrivError,
    PrivInput, PrivWitness,
};
use tt_priv_cli::pot_node::{GenesisValidator, PotNode, PotNodeConfig};
use tt_priv_cli::pow_randomx::hash_less_than;

fn kmac(custom: &[u8], parts: &[&[u8]]) -> [u8; 32] {
    let mut k = Kmac::v256(b"agg-priv:v1", custom);
    for p in parts {
        k.update(p);
    }
    let mut o = [0u8; 32];
    k.finalize(&mut o);
    o
}

fn leaf(pt: &[u8; 32]) -> [u8; 32] {
    kmac(b"LEAF.v1", &[pt])
}

fn pair(l: &[u8; 32], r: &[u8; 32]) -> [u8; 32] {
    kmac(b"NODE.v1", &[l, r])
}

fn empty_claim() -> PrivClaim {
    PrivClaim {
        nullifiers: vec![],
        outputs: vec![],
        enc_hints: vec![],
        fee_commit: [0u8; 32],
        pqc_fingerprints_in: vec![],
        pqc_fingerprints_out: vec![],
    }
}

fn empty_input() -> AggPrivInput {
    AggPrivInput {
        old_notes_root: [0u8; 32],
        old_notes_count: 0,
        old_frontier: vec![],
        child_method_id: [0u32; 8],
        claim_receipts_words: vec![],
        claim_journals_words: vec![],
    }
}

#[test]
fn root_of_empty_and_single_frontier() {
    assert_eq!(root_from_frontier(&[], 0), [0u8; 32]);
    let a = [7u8; 32];
    assert_eq!(root_from_frontier(&[a], 1), a);
    assert_eq!(root_from_frontier(&[a], 2), a);
}

#[test]
fn root_of_three_leaves_hashes_upper_entry_over_lower() {
    let a = [1u8; 32];
    let b = [2u8; 32];
    assert_eq!(root_from_frontier(&[a, b], 3), pair(&b, &a));
    assert_ne!(root_from_frontier(&[a, b], 3), pair(&a, &b));
}

#[test]
fn append_leaf_carries_by_level() {
    let l0 = leaf(&[3u8; 32]);
    let l1 = leaf(&[4u8; 32]);
    let mut fr: Vec<[u8; 32]> = vec![];
    let mut count = 0u64;
    append_leaf(&mut fr, &mut count, l0);
    assert_eq!(fr, vec![l0]);
    assert_eq!(count, 1);
    assert_eq!(root_from_frontier(&fr, count), l0);
    append_leaf(&mut fr, &mut count, l1);
    assert_eq!(count, 2);
    assert_eq!(fr, vec![l0, pair(&l0, &l1)]);
    // stored by level, the frontier no longer holds one entry per set bit
    assert_ne!(fr.len() as u32, count.count_ones());
}

#[test]
fn claim_tag_is_kmac_of_le_words() {
    let words = [1u32, 0x01020304];
    let mut bytes = vec![];
    for w in words.iter() {
        bytes.extend_from_slice(&w.to_le_bytes());
    }
    assert_eq!(kmac32_words(&words), kmac(b"CLAIM.v1", &[&bytes]));
    assert_ne!(kmac32_words(&words), kmac32_words(&[1u32]));
}

#[test]
fn sort_unique_orders_and_rejects_duplicates() {
    let a = [1u8; 32];
    let mut b = [0u8; 32];
    b[31] = 9;
    let c = [2u8; 32];
    assert_eq!(sort_unique(&[c, a, b]), Some(vec![b, a, c]));
    assert_eq!(sort_unique(&[a, c, a]), None);
    assert_eq!(sort_unique(&[]), Some(vec![]));
}

#[test]
fn aggregate_empty_block() {
    let j = aggregate_claims(&empty_input(), &[]).unwrap();
    assert_eq!(j.new_notes_root, [0u8; 32]);
    assert_eq!(j.new_notes_count, 0);
    assert!(j.new_frontier.is_empty());
    assert_eq!(j.outputs_count, 0);
}

#[test]
fn aggregate_one_child_appends_its_output() {
    let mut inp = empty_input();
    inp.claim_receipts_words = vec![vec![5, 6]];
    inp.claim_journals_words = vec![vec![7, 8, 9]];
    let mut claim = empty_claim();
    let out = [0x33u8; 32];
    claim.outputs = vec![out];
    claim.nullifiers = vec![[9u8; 32], [1u8; 32]];
    claim.enc_hints = vec![[4u8; 32]];
    claim.pqc_fingerprints_in = vec![[5u8; 32]];
    claim.pqc_fingerprints_out = vec![[6u8; 32]];
    let j = aggregate_claims(&inp, &[claim]).unwrap();
    assert_eq!(j.new_notes_count, 1);
    assert_eq!(j.new_frontier, vec![leaf(&out)]);
    assert_eq!(j.new_notes_root, leaf(&out));
    assert_eq!(j.nullifiers, vec![[1u8; 32], [9u8; 32]]);
    assert_eq!(j.enc_hints, vec![[4u8; 32]]);
    assert_eq!(j.outputs_count, 1);
    assert_eq!(j.child_claim_tags, vec![kmac32_words(&[7, 8, 9])]);
    assert_eq!(j.pqc_fingerprints_in, vec![[5u8; 32]]);
    assert_eq!(j.pqc_fingerprints_out, vec![[6u8; 32]]);
}

#[test]
fn aggregate_rejections() {
    let mut inp = empty_input();
    inp.claim_receipts_words = vec![vec![]; 65];
    inp.claim_journals_words = vec![vec![]; 65];
    let claims: Vec<PrivClaim> = (0..65).map(|_| empty_claim()).collect();
    assert_eq!(aggregate_claims(&inp, &claims).unwrap_err(), AggError::TooManyChildren);

    let mut inp = empty_input();
    inp.claim_receipts_words = vec![vec![]];
    assert_eq!(aggregate_claims(&inp, &[]).unwrap_err(), AggError::ReceiptsJournalsMismatch);
    inp.claim_journals_words = vec![vec![]];
    assert_eq!(aggregate_claims(&inp, &[]).unwrap_err(), AggError::ClaimsMismatch);

    let mut inp = empty_input();
    inp.old_notes_count = 1;
    assert_eq!(aggregate_claims(&inp, &[]).unwrap_err(), AggError::BadOldFrontier);
    inp.old_frontier = vec![[1u8; 32]];
    assert_eq!(aggregate_claims(&inp, &[]).unwrap_err(), AggError::OldRootMismatch);

    let mut inp = empty_input();
    inp.claim_receipts_words = vec![vec![0u32; 262_145]];
    inp.claim_journals_words = vec![vec![]];
    assert_eq!(aggregate_claims(&inp, &[empty_claim()]).unwrap_err(), AggError::ChildReceiptTooBig);
    inp.claim_receipts_words = vec![vec![]];
    inp.claim_journals_words = vec![vec![0u32; 262_145]];
    assert_eq!(aggregate_claims(&inp, &[empty_claim()]).unwrap_err(), AggError::ChildJournalTooBig);

    let mut inp = empty_input();
    inp.claim_receipts_words = vec![vec![], vec![]];
    inp.claim_journals_words = vec![vec![], vec![]];
    let mut c1 = empty_claim();
    c1.nullifiers = vec![[8u8; 32]];
    let c2 = c1.clone();
    assert_eq!(aggregate_claims(&inp, &[c1, c2]).unwrap_err(), AggError::DuplicateNullifier);
}

#[test]
fn aggregate_two_outputs_breaks_frontier_layout() {
    let mut inp = empty_input();
    inp.claim_receipts_words = vec![vec![]];
    inp.claim_journals_words = vec![vec![]];
    let mut c = empty_claim();
    c.outputs = vec![[1u8; 32], [2u8; 32]];
    assert_eq!(aggregate_claims(&inp, &[c.clone()]).unwrap_err(), AggError::BadNewFrontier);
    c.outputs = vec![[1u8; 32], [2u8; 32], [3u8; 32]];
    let j = aggregate_claims(&inp, &[c.clone()]).unwrap();
    let (l0, l1, l2) = (leaf(&[1u8; 32]), leaf(&[2u8; 32]), leaf(&[3u8; 32]));
    assert_eq!(j.new_frontier, vec![l2, pair(&l0, &l1)]);
    assert_eq!(j.new_notes_root, pair(&pair(&l0, &l1), &l2));

    let r = [9u8; 32];
    inp.old_notes_count = 2;
    inp.old_frontier = vec![r];
    inp.old_notes_root = r;
    c.outputs = vec![[1u8; 32], [2u8; 32]];
    assert_eq!(aggregate_claims(&inp, &[c]).unwrap_err(), AggError::FrontierTooShort);
}

fn tx_input(ins: Vec<InPublic>, outs: Vec<OutPublic>) -> PrivInput {
    PrivInput { old_notes_root: [0u8; 32], ins, outs, fee_commit: [0u8; 32], network_id: None }
}

fn tx_witness(in_openings: Vec<InOpen>, out_openings: Vec<OutOpen>, fee_value: u64) -> PrivWitness {
    PrivWitness { in_openings, out_openings, fee_value, fee_blind: [0u8; 32] }
}

#[test]
fn empty_transaction_balances() {
    let claim = check_private_tx(&tx_input(vec![], vec![]), &tx_witness(vec![], vec![], 0)).unwrap();
    assert!(claim.nullifiers.is_empty());
    assert!(claim.outputs.is_empty());
    assert!(claim.enc_hints.is_empty());
}

#[test]
fn transaction_rejections() {
    let open = InOpen { value: 1, blind: [0u8; 32], spend_key: [1u8; 32], leaf_index: 0, note_commit_point: [0u8; 32] };
    let public = InPublic {
        note_commit_hash: [0u8; 32],
        nullifier: [0u8; 32],
        proof: MerkleProof { index: 1, siblings: vec![] },
        pqc_fingerprint: [0u8; 32],
    };
    assert_eq!(
        check_private_tx(&tx_input(vec![], vec![]), &tx_witness(vec![open.clone()], vec![], 0)).unwrap_err(),
        PrivError::InputsMismatch
    );
    let out_open = OutOpen { value: 0, blind: [0u8; 32], note_commit_point: [0u8; 32] };
    assert_eq!(
        check_private_tx(&tx_input(vec![], vec![]), &tx_witness(vec![], vec![out_open], 0)).unwrap_err(),
        PrivError::OutputsMismatch
    );
    assert_eq!(
        check_private_tx(&tx_input(vec![public], vec![]), &tx_witness(vec![open], vec![], 0)).unwrap_err(),
        PrivError::LeafIndexMismatch
    );
    assert_eq!(
        check_private_tx(&tx_input(vec![], vec![]), &tx_witness(vec![], vec![], 5)).unwrap_err(),
        PrivError::ValueConservation
    );
    let mut w = tx_witness(vec![], vec![], 0);
    w.fee_blind[0] = 1;
    assert_eq!(check_private_tx(&tx_input(vec![], vec![]), &w).unwrap_err(), PrivError::BlindingConservation);
    let _ = OutPublic { note_commit_point: [0u8; 32], enc_hint: vec![], pqc_fingerprint: [0u8; 32] };
}

#[test]
fn merkle_path_of_one_level() {
    let l = leaf(&[5u8; 32]);
    let s = [6u8; 32];
    assert!(merkle_verify(&l, 0, &[s], &pair(&l, &s)));
    assert!(merkle_verify(&l, 1, &[s], &pair(&s, &l)));
    assert!(!merkle_verify(&l, 0, &[s], &pair(&s, &l)));
    assert!(merkle_verify(&l, 0, &[], &l));
}

#[test]
fn hash_order_is_lexicographic() {
    let mut a = [0u8; 32];
    let mut b = [0u8; 32];
    a[31] = 0xff;
    b[0] = 1;
    assert!(hash_less_than(&a, &b));
    assert!(!hash_less_than(&b, &a));
    assert!(!hash_less_than(&a, &a));
}

#[test]
fn lone_validator_leads_and_gets_a_witness() {
    let me = [0x42u8; 32];
    let config = PotNodeConfig::new_with_trust_bps(me, Duration::from_secs(6), 32, 10_000, 9_900, 100, 5_000, 1, 1_000, 5_000);
    let node = PotNode::new(config, vec![GenesisValidator::active(me, 1_000)], [7u8; 32]);
    let mut found = false;
    for slot in 0..32u64 {
        if let Some(w) = node.create_witness(0, slot, false) {
            found = true;
            assert_eq!(w.who, me);
            assert_eq!(w.slot, slot);
            assert_eq!(w.epoch, 0);
            assert_eq!(w.weight_proof.leaf_index, 0);
            assert!(w.weight_proof.siblings.is_empty());
            assert_eq!(node.check_eligibility(0, slot).is_some(), true);
            let same = node.create_witness(0, slot, true).unwrap();
            assert_eq!(same.trust_q, w.trust_q);
        } else {
            assert!(node.check_eligibility(0, slot).is_none());
        }
    }
    assert!(found);
}

#[test]
fn genesis_nodes_agree_on_one_leader_per_slot() {
    let ids = [[0x11u8; 32], [0x22u8; 32], [0x33u8; 32]];
    let stakes = [1_000u64, 3_000, 2_000];
    let forward: Vec<GenesisValidator> = (0..3).map(|i| GenesisValidator::active(ids[i], stakes[i])).collect();
    let backward: Vec<GenesisValidator> = forward.iter().rev().copied().collect();
    let nodes: Vec<PotNode> = (0..3)
        .map(|i| {
            let config =
                PotNodeConfig::new_with_trust_bps(ids[i], Duration::from_secs(6), 32, 10_000, 9_900, 100, 5_000, 1, 1_000, 5_000);
            let list = if i % 2 == 0 { forward.clone() } else { backward.clone() };
            PotNode::new(config, list, [9u8; 32])
        })
        .collect();
    for slot in 0..64u64 {
        let leaders = nodes.iter().filter(|n| n.check_eligibility(0, slot).is_some()).count();
        assert_eq!(leaders, 1, "slot {}", slot);
    }
}
