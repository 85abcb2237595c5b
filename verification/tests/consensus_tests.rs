use rand::RngCore;
use tt_priv_cli::consensus::pot::PotConsensus;
use tt_priv_cli::consensus::randao::RandaoBeacon as XorBeacon;
use tt_priv_cli::consensus::snapshot::EpochSnapshot as ConsensusSnapshot;
use tt_priv_cli::consensus::types::{PotParams as CPotParams, Registry as CRegistry, TrustParams as CTrustParams, TrustState as CTrustState, ValidatorInfo};
use tt_priv_cli::consensus_pro::ConsensusPro as EpochFacade;
use tt_priv_cli::consensus_pro_v2::ConsensusPro;
use tt_priv_cli::consensus_weights::{compute_final_weight_q, select_leader_deterministic};
use tt_priv_cli::crypto::kmac256_hash;
use tt_priv_cli::ordmap::OrdMap;
use tt_priv_cli::pot::{q_from_basis_points, EpochSnapshot, NodeId, Registry, TrustParams, TrustState, ONE_Q};
use tt_priv_cli::snapshot::SnapshotWitnessExt;

fn nid(n: u8) -> NodeId {
    let mut id = [0u8; 32];
    id[0] = n;
    id
}

fn mk_id(byte: u8) -> NodeId {
    [byte; 32]
}

fn q_from_f64(x: f64) -> u64 {
    (x * 4294967296.0) as u64
}

fn q_to_f64(q: u64) -> f64 {
    (q as f64) / 4294967296.0
}

#[test]
fn witness_roundtrip() {
    let mut reg = Registry::default();
    let tp = TrustParams {
        alpha_q: q_from_basis_points(9900),
        beta_q: q_from_basis_points(100),
        init_q: q_from_basis_points(1000),
    };
    let mut ts = TrustState::default();
    let a = nid(1);
    let b = nid(2);
    let c = nid(3);
    reg.insert(a, 100, true);
    reg.insert(b, 50, true);
    reg.insert(c, 150, true);
    ts.set(a, q_from_basis_points(5000));
    ts.set(b, q_from_basis_points(9000));
    ts.set(c, q_from_basis_points(1000));
    let snap = EpochSnapshot::build(1, &reg, &ts, &tp, 0);
    let wit = snap.build_witness(&a).expect("witness should exist");
    assert!(snap.verify_witness(&wit), "witness verification should pass");
    let mut bad_wit = wit.clone();
    bad_wit.stake_q = bad_wit.stake_q.wrapping_add(1);
    assert!(!snap.verify_witness(&bad_wit), "modified witness should fail");
}

#[test]
fn witness_wrong_root() {
    let mut reg = Registry::default();
    let tp = TrustParams { alpha_q: ONE_Q, beta_q: 0, init_q: ONE_Q };
    let ts = TrustState::default();
    let a = nid(1);
    reg.insert(a, 100, true);
    let snap = EpochSnapshot::build(1, &reg, &ts, &tp, 0);
    let wit = snap.build_witness(&a).expect("witness should exist");
    assert!(wit.verify_against_root(&snap.weights_root));
    let bad_root = [0xffu8; 32];
    assert!(!wit.verify_against_root(&bad_root));
}

#[test]
fn witness_for_unknown_node_is_absent() {
    let mut reg = Registry::default();
    let tp = TrustParams { alpha_q: ONE_Q, beta_q: 0, init_q: ONE_Q };
    let ts = TrustState::default();
    reg.insert(nid(1), 100, true);
    let snap = EpochSnapshot::build(1, &reg, &ts, &tp, 0);
    assert!(snap.build_witness(&nid(9)).is_none());
}

#[test]
fn test_elig_hash() {
    let pot = PotConsensus::new(CPotParams::default(), CTrustParams::default());
    let beacon = [1u8; 32];
    let who = [2u8; 32];
    let h1 = pot.elig_hash(&beacon, 0, &who);
    let h2 = pot.elig_hash(&beacon, 0, &who);
    assert_eq!(h1, h2);
}

#[test]
fn test_snapshot_build() {
    let mut registry = CRegistry::new();
    registry.register(ValidatorInfo {
        node_id: [1u8; 32],
        stake: 1000,
        public_key: vec![],
        network_addr: "127.0.0.1:8000".into(),
    });
    let mut trust = OrdMap::new();
    trust.insert([1u8; 32], ONE_Q);
    let snap = ConsensusSnapshot::build(0, &registry, &trust);
    assert_ne!(snap.weights_root, [0u8; 32]);
}

fn cinfo(b: u8, stake: u128) -> ValidatorInfo {
    ValidatorInfo { node_id: [b; 32], stake, public_key: vec![b], network_addr: String::new() }
}

#[test]
fn snapshot_ignores_registration_order() {
    let mut r1 = CRegistry::new();
    let mut r2 = CRegistry::new();
    for (b, st) in [(3u8, 500u128), (1, 1000), (2, 250)] {
        r1.register(cinfo(b, st));
    }
    for (b, st) in [(2u8, 250u128), (3, 500), (1, 1000)] {
        r2.register(cinfo(b, st));
    }
    let mut trust = OrdMap::new();
    trust.insert([2u8; 32], ONE_Q / 2);
    let s1 = ConsensusSnapshot::build(4, &r1, &trust);
    let s2 = ConsensusSnapshot::build(4, &r2, &trust);
    assert_eq!(s1.weights_root, s2.weights_root);
    assert_eq!(s1.total_weight_q, s2.total_weight_q);
    assert_eq!(s1.get_weight(&[2u8; 32]), s2.get_weight(&[2u8; 32]));
    let empty = ConsensusSnapshot::build(4, &CRegistry::new(), &trust);
    assert_eq!(empty.weights_root, [0u8; 32]);
}

#[test]
fn test_commit_reveal() {
    let mut beacon = XorBeacon::new(1);
    let node1 = [1u8; 32];
    let mut secret = [0u8; 32];
    rand::thread_rng().fill_bytes(&mut secret);
    let commitment = kmac256_hash(b"RANDAO.COMMIT", &[&secret]);
    beacon.commit(&node1, commitment).unwrap();
    beacon.submit_reveal(&node1, secret).unwrap();
    let value = beacon.finalize().unwrap();
    assert_eq!(value, secret);
}

#[test]
fn xor_beacon_rejects_double_commit_and_bad_reveal() {
    let mut beacon = XorBeacon::new(1);
    let node1 = [1u8; 32];
    let secret = [5u8; 32];
    let commitment = kmac256_hash(b"RANDAO.COMMIT", &[&secret]);
    assert!(beacon.commit(&node1, commitment).is_ok());
    assert!(beacon.commit(&node1, commitment).is_err());
    assert!(beacon.submit_reveal(&node1, [6u8; 32]).is_err());
    assert!(beacon.submit_reveal(&[2u8; 32], secret).is_err());
    assert!(beacon.finalize().is_err());
}

#[test]
fn test_epoch_advance() {
    let mut consensus = EpochFacade::new();
    assert_eq!(consensus.current_epoch(), 0);
    consensus.advance_epoch();
    assert_eq!(consensus.current_epoch(), 1);
}

#[test]
fn higher_trust_gives_higher_weight() {
    let t1 = q_from_f64(0.9);
    let t2 = q_from_f64(0.5);
    let q = q_from_f64(0.7);
    let s = q_from_f64(0.4);
    let w1 = compute_final_weight_q(t1, q, s);
    let w2 = compute_final_weight_q(t2, q, s);
    assert!(w1 > w2);
}

#[test]
fn final_weight_formula() {
    assert_eq!(compute_final_weight_q(10, 100, 1000), 4 * 10 + 2 * 100 + 1000);
    assert_eq!(
        compute_final_weight_q(u64::MAX, u64::MAX, u64::MAX),
        7 * (u64::MAX as u128)
    );
}

#[test]
fn select_leader_is_deterministic() {
    let beacon = [0x42u8; 32];
    let v1: NodeId = [1u8; 32];
    let v2: NodeId = [2u8; 32];
    let vals = vec![
        (v1, q_from_f64(0.9), q_from_f64(0.5), q_from_f64(0.4)),
        (v2, q_from_f64(0.3), q_from_f64(0.5), q_from_f64(0.4)),
    ];
    let leader1 = select_leader_deterministic(beacon, &vals).unwrap();
    let leader2 = select_leader_deterministic(beacon, &vals).unwrap();
    assert_eq!(leader1, leader2);
    assert!(leader1 == v1 || leader1 == v2);
    assert!(select_leader_deterministic(beacon, &[]).is_none());
}

#[test]
fn register_and_stake_normalization() {
    let mut c = ConsensusPro::new_default();
    let a = mk_id(1);
    let b = mk_id(2);
    c.register_validator(a, 100);
    c.register_validator(b, 300);
    c.recompute_all_stake_q();
    let va = c.get_validator(&a).unwrap();
    let vb = c.get_validator(&b).unwrap();
    let sa = q_to_f64(va.stake_q);
    let sb = q_to_f64(vb.stake_q);
    assert!((sa - 0.25).abs() < 1e-6, "sa={}", sa);
    assert!((sb - 0.75).abs() < 1e-6, "sb={}", sb);
}

#[test]
fn zero_total_stake_results_in_zero_stake_q() {
    let mut c = ConsensusPro::new_default();
    let a = mk_id(1);
    c.register_validator(a, 0);
    c.recompute_all_stake_q();
    let v = c.get_validator(&a).unwrap();
    assert_eq!(v.stake_q, 0);
}

#[test]
fn everyone_full_stake_results_in_approx_one() {
    let mut c = ConsensusPro::new_default();
    let a = mk_id(1);
    let b = mk_id(2);
    c.register_validator(a, 100);
    c.register_validator(b, 100);
    c.recompute_all_stake_q();
    let va = c.get_validator(&a).unwrap();
    let vb = c.get_validator(&b).unwrap();
    assert_eq!(va.stake_q, vb.stake_q);
    assert!(va.stake_q <= ONE_Q);
}

#[test]
fn sole_validator_share_is_exactly_one() {
    let mut c = ConsensusPro::new_default();
    let a = mk_id(1);
    c.register_validator(a, 12345);
    c.recompute_all_stake_q();
    assert_eq!(c.get_validator(&a).unwrap().stake_q, ONE_Q);
}

#[test]
fn reregister_remove_and_update_adjust_total() {
    let mut c = ConsensusPro::new_default();
    let a = mk_id(1);
    let b = mk_id(2);
    c.register_validator(a, 100);
    c.register_validator(b, 100);
    c.record_quality(&a, 77);
    c.register_validator(a, 300);
    assert_eq!(c.get_validator(&a).unwrap().quality_q, 77);
    assert_eq!(c.get_validator(&a).unwrap().stake_raw, 300);
    c.update_stake_raw(&b, 100);
    c.recompute_all_stake_q();
    assert_eq!(c.get_validator(&a).unwrap().stake_q, ONE_Q / 4 * 3);
    c.remove_validator(&a);
    assert!(c.get_validator(&a).is_none());
    c.recompute_all_stake_q();
    assert_eq!(c.get_validator(&b).unwrap().stake_q, ONE_Q);
    c.update_stake_raw(&a, 5);
    assert!(c.get_validator(&a).is_none());
}

#[test]
fn weight_ranking_orders_by_weight() {
    let mut c = ConsensusPro::new_default();
    let a = mk_id(1);
    let b = mk_id(2);
    let d = mk_id(3);
    c.register_validator(a, 100);
    c.register_validator(b, 100);
    c.register_validator(d, 100);
    c.record_quality(&b, 50);
    c.record_quality(&d, 10);
    let wr = c.get_weight_ranking();
    assert_eq!(wr.len(), 3);
    assert_eq!(wr[0].0, b);
    assert_eq!(wr[1].0, d);
    assert_eq!(wr[2].0, a);
    assert_eq!(c.compute_validator_weight(&b), Some(100));
    let tr = c.get_trust_ranking();
    assert_eq!(tr.len(), 3);
    assert_eq!(tr[0].0, a);
    assert!(c.select_leader([0x42u8; 32]).is_some());
    assert!(ConsensusPro::new_default().select_leader([0u8; 32]).is_none());
}

#[test]
fn registry_total_stake_sums_registered_stake() {
    let mut r = CRegistry::new();
    assert_eq!(r.total_stake(), 0);
    r.register(ValidatorInfo { node_id: nid(1), stake: 500, public_key: vec![], network_addr: String::new() });
    r.register(ValidatorInfo { node_id: nid(2), stake: 700, public_key: vec![], network_addr: String::new() });
    assert_eq!(r.total_stake(), 1200);
    // re-registering replaces the earlier entry
    r.register(ValidatorInfo { node_id: nid(1), stake: 100, public_key: vec![], network_addr: String::new() });
    assert_eq!(r.total_stake(), 800);
}

#[test]
fn consensus_trust_update_raises_and_lowers() {
    let c = PotConsensus::new(CPotParams::default(), CTrustParams::default());
    let mut ts = CTrustState::new();
    let who = nid(3);
    // 1.0 raised by 1% of itself
    c.update_trust(&mut ts, &who, true);
    assert_eq!(ts.get_trust(&who), ONE_Q + ONE_Q / 100);
    // 1.01 lowered by 10% of itself
    let cur = ts.get_trust(&who);
    c.update_trust(&mut ts, &who, false);
    let tenth = ((cur as u128 * (ONE_Q / 10) as u128) >> 32) as u64;
    assert_eq!(ts.get_trust(&who), cur - tenth);
}

#[test]
fn consensus_trust_update_respects_bounds() {
    let tp = CTrustParams::default();
    let c = PotConsensus::new(CPotParams::default(), tp);
    let mut ts = CTrustState::new();
    let who = nid(4);
    ts.set_trust(&who, tp.max_trust_q);
    c.update_trust(&mut ts, &who, true);
    assert_eq!(ts.get_trust(&who), tp.max_trust_q);
    ts.set_trust(&who, tp.min_trust_q);
    c.update_trust(&mut ts, &who, false);
    assert_eq!(ts.get_trust(&who), tp.min_trust_q);
}
