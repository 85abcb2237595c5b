use tt_priv_cli::crypto_kmac_consensus::kmac256_hash;
use tt_priv_cli::pot::merkle::{merkle_leaf_hash, merkle_root};
use tt_priv_cli::pot::sortition::prob_threshold_q;
use tt_priv_cli::pot::{
    detect_equivocation, finalize_epoch_and_slash, q_from_basis_points, q_from_ratio, slash_bps,
    slash_equivocation, verify_merkle, EpochSnapshot, NodeId, Proposal, RandaoBeacon, Registry,
    TrustParams, TrustState, ONE_Q,
};

fn nid(n: u8) -> NodeId {
    let mut id = [0u8; 32];
    id[0] = n;
    id
}

#[test]
fn prob_monotone() {
    let p1 = prob_threshold_q(q_from_ratio(11, 10), q_from_ratio(1, 10), q_from_ratio(1, 1), q_from_ratio(1, 1));
    let p2 = prob_threshold_q(q_from_ratio(11, 10), q_from_ratio(2, 10), q_from_ratio(1, 1), q_from_ratio(1, 1));
    assert!(p2 >= p1);
}

#[test]
fn randao_commit_reveal() {
    let mut b = RandaoBeacon::new(500, [7u8; 32]);
    let e = 1u64;
    let who = nid(1);
    let r = [9u8; 32];
    let c = RandaoBeacon::commit_hash(e, &who, &r);
    b.commit(e, who, c);
    assert!(b.submit_reveal(e, who, r));
    let (val, miss) = b.finalize_epoch(e);
    assert_eq!(miss.len(), 0);
    assert_ne!(val, [0u8; 32]);
    let v0 = b.value(e, 0);
    // a finalized epoch keeps drawing its slot values from the seed it started with
    let exp = kmac256_hash(b"RANDAO.slot.v1", &[&e.to_le_bytes(), &0u64.to_le_bytes(), &[7u8; 32]]);
    assert_eq!(v0, exp);
    // its beacon seeds the next epoch
    let v_next = b.value(e + 1, 0);
    let exp_next = kmac256_hash(b"RANDAO.slot.v1", &[&(e + 1).to_le_bytes(), &0u64.to_le_bytes(), &val]);
    assert_eq!(v_next, exp_next);
}

#[test]
fn snapshot_deterministic_root() {
    let mut reg = Registry::default();
    let tp = TrustParams {
        alpha_q: q_from_basis_points(9900),
        beta_q: q_from_basis_points(100),
        init_q: q_from_basis_points(1000),
    };
    let mut ts = TrustState::default();
    let a = nid(1);
    let b = nid(2);
    let c = nid(3);
    reg.insert(a, 100, true);
    reg.insert(b, 50, true);
    reg.insert(c, 150, true);
    ts.set(a, q_from_basis_points(5000));
    ts.set(b, q_from_basis_points(9000));
    ts.set(c, q_from_basis_points(1000));
    let s1 = EpochSnapshot::build(1, &reg, &ts, &tp, 0);
    let s2 = EpochSnapshot::build(1, &reg, &ts, &tp, 0);
    assert_eq!(s1.weights_root, s2.weights_root);
    let p = s1.build_proof(&a).unwrap();
    let leaf = merkle_leaf_hash(&a, s1.stake_q_of(&a), s1.trust_q_of(&a));
    assert!(verify_merkle(&p, leaf, s1.weights_root));
}

#[test]
fn weights_ratio_uses_u128_den() {
    let mut reg = Registry::default();
    let tp = TrustParams { alpha_q: ONE_Q, beta_q: 0, init_q: ONE_Q };
    let mut ts = TrustState::default();
    let a = [1u8; 32];
    let b = [2u8; 32];
    reg.insert(a, u64::MAX, true);
    reg.insert(b, u64::MAX - 1, true);
    ts.set(a, ONE_Q);
    ts.set(b, ONE_Q);
    let s = EpochSnapshot::build(1, &reg, &ts, &tp, 0);
    assert!(s.stake_q_of(&a) > s.stake_q_of(&b));
}

#[test]
fn randao_value_stable_before_after_finalize() {
    let mut b = RandaoBeacon::new(0, [7u8; 32]);
    let e = 42u64;
    let v_pre = b.value(e, 123);
    let who = [8u8; 32];
    let r = [9u8; 32];
    let c = RandaoBeacon::commit_hash(e, &who, &r);
    b.commit(e, who, c);
    assert!(b.submit_reveal(e, who, r));
    let _ = b.finalize_epoch(e);
    let v_post = b.value(e, 123);
    assert_eq!(v_pre, v_post, "sortition seed must be stable across finalize");
}

#[test]
fn empty_merkle_root() {
    let root = merkle_root(&Vec::new());
    assert_ne!(root, [0u8; 32], "empty root should not be zero");
}

#[test]
fn slash_bps_validation() {
    assert_eq!(slash_bps(1000, 5000), 500);
    assert_eq!(slash_bps(1000, 10000), 0);
    assert_eq!(slash_bps(1000, 15000), 0);
}

#[test]
fn detect_equivocation_cases() {
    let who = nid(1);
    let slot = 42u64;
    let hash1 = [1u8; 32];
    let hash2 = [2u8; 32];
    let proposals = vec![
        Proposal { who, slot, header_hash: hash1 },
        Proposal { who, slot, header_hash: hash2 },
    ];
    assert!(detect_equivocation(&proposals));
    let proposals2 = vec![
        Proposal { who: nid(1), slot, header_hash: hash1 },
        Proposal { who: nid(2), slot, header_hash: hash2 },
    ];
    assert!(!detect_equivocation(&proposals2));
    let proposals3 = vec![
        Proposal { who, slot, header_hash: hash1 },
        Proposal { who, slot, header_hash: hash1 },
    ];
    assert!(!detect_equivocation(&proposals3));
}

#[test]
fn empty_proposals_are_not_equivocation() {
    assert!(!detect_equivocation(&[]));
}

#[test]
fn reveal_without_commit_or_with_wrong_value_is_rejected() {
    let mut b = RandaoBeacon::new(0, [7u8; 32]);
    assert!(!b.submit_reveal(3, nid(1), [1u8; 32]));
    let c = RandaoBeacon::commit_hash(3, &nid(1), &[1u8; 32]);
    b.commit(3, nid(1), c);
    assert!(!b.submit_reveal(3, nid(1), [2u8; 32]));
    assert!(b.submit_reveal(3, nid(1), [1u8; 32]));
}

#[test]
fn finalize_twice_returns_same_beacon_and_no_missing() {
    let mut b = RandaoBeacon::new(0, [7u8; 32]);
    let c = RandaoBeacon::commit_hash(5, &nid(1), &[1u8; 32]);
    b.commit(5, nid(1), c);
    let (v1, m1) = b.finalize_epoch(5);
    assert_eq!(m1, vec![nid(1)]);
    let (v2, m2) = b.finalize_epoch(5);
    assert_eq!(v1, v2);
    assert!(m2.is_empty());
    assert_eq!(b.prev_beacon, v1);
}

#[test]
fn finalize_and_slash_penalizes_missing_reveal() {
    let mut b = RandaoBeacon::new(5000, [7u8; 32]);
    let mut reg = Registry::default();
    let mut ts = TrustState::default();
    let tp = TrustParams { alpha_q: ONE_Q, beta_q: 0, init_q: q_from_basis_points(1000) };
    reg.insert(nid(1), 1000, true);
    reg.insert(nid(2), 1000, true);
    ts.set(nid(1), ONE_Q);
    ts.set(nid(2), ONE_Q);
    let r1 = [1u8; 32];
    b.commit(1, nid(1), RandaoBeacon::commit_hash(1, &nid(1), &r1));
    b.commit(1, nid(2), RandaoBeacon::commit_hash(1, &nid(2), &[2u8; 32]));
    assert!(b.submit_reveal(1, nid(1), r1));
    let _val = finalize_epoch_and_slash(&mut b, 1, &mut reg, &mut ts, tp);
    assert_eq!(reg.stake(&nid(1)), 1000);
    assert_eq!(reg.stake(&nid(2)), 500);
    assert_eq!(ts.get(&nid(1), 0), ONE_Q);
    assert_eq!(ts.get(&nid(2), 0), q_from_basis_points(1000));
}

#[test]
fn slash_equivocation_resets_trust_and_cuts_stake() {
    let mut reg = Registry::default();
    let mut ts = TrustState::default();
    let tp = TrustParams { alpha_q: ONE_Q, beta_q: 0, init_q: 7 };
    reg.insert(nid(4), 10_000, true);
    ts.set(nid(4), ONE_Q);
    slash_equivocation(&mut reg, &mut ts, &nid(4), tp, 2500);
    assert_eq!(reg.stake(&nid(4)), 7500);
    assert_eq!(ts.get(&nid(4), 0), 7);
}

#[test]
fn trust_step_exact_values() {
    let tp = TrustParams { alpha_q: ONE_Q / 2, beta_q: ONE_Q / 4, init_q: 0 };
    assert_eq!(tp.decay(ONE_Q), ONE_Q / 2);
    assert_eq!(tp.reward(ONE_Q), ONE_Q);
    assert_eq!(tp.step(ONE_Q), ONE_Q / 2 + ONE_Q / 4);
    assert!(TrustParams::new(ONE_Q + 1, 0, 0).is_err());
    assert!(TrustParams::new(ONE_Q, ONE_Q, ONE_Q).is_ok());
}

#[test]
fn q_conversions() {
    assert_eq!(q_from_ratio(1, 2), ONE_Q / 2);
    assert_eq!(q_from_ratio(3, 0), 3 * ONE_Q);
    assert_eq!(q_from_basis_points(10_000), ONE_Q);
    assert_eq!(tt_priv_cli::pot::q_from_ratio128(1, 0), 0);
    assert_eq!(tt_priv_cli::pot::q_from_ratio128(1, 4), ONE_Q / 4);
}

#[test]
fn inactive_validators_are_not_in_snapshot() {
    let mut reg = Registry::default();
    let ts = TrustState::default();
    let tp = TrustParams { alpha_q: ONE_Q, beta_q: 0, init_q: ONE_Q };
    reg.insert(nid(1), 100, false);
    reg.insert(nid(2), 5, true);
    reg.insert(nid(3), 100, true);
    let s = EpochSnapshot::build(0, &reg, &ts, &tp, 10);
    assert_eq!(s.order, vec![nid(3)]);
    assert_eq!(s.stake_q_of(&nid(3)), ONE_Q);
    assert_eq!(s.stake_q_of(&nid(1)), 0);
    assert!(s.build_proof(&nid(1)).is_none());
}

#[test]
fn randao_value_stable_through_the_epoch() {
    let mut b = RandaoBeacon::new(0, [7u8; 32]);
    let e = 42u64;
    let v_pre = b.value(e, 123);
    let who = [8u8; 32];
    let r = [9u8; 32];
    b.commit(e, who, RandaoBeacon::commit_hash(e, &who, &r));
    assert_eq!(b.value(e, 123), v_pre);
    assert!(b.submit_reveal(e, who, r));
    assert_eq!(b.value(e, 123), v_pre);
    let _ = b.finalize_epoch(e);
    assert_eq!(b.value(e, 123), v_pre);
}

#[test]
fn finalize_and_slash_twice_slashes_once() {
    let mut b = RandaoBeacon::new(5000, [7u8; 32]);
    let mut reg = Registry::default();
    let mut ts = TrustState::default();
    let tp = TrustParams { alpha_q: ONE_Q, beta_q: 0, init_q: q_from_basis_points(1000) };
    reg.insert(nid(2), 1000, true);
    ts.set(nid(2), ONE_Q);
    b.commit(1, nid(2), RandaoBeacon::commit_hash(1, &nid(2), &[2u8; 32]));
    let v1 = finalize_epoch_and_slash(&mut b, 1, &mut reg, &mut ts, tp);
    assert_eq!(reg.stake(&nid(2)), 500);
    let v2 = finalize_epoch_and_slash(&mut b, 1, &mut reg, &mut ts, tp);
    assert_eq!(v1, v2);
    assert_eq!(b.prev_beacon, v1);
    assert_eq!(reg.stake(&nid(2)), 500);
}
