use tt_priv_cli::cpu_mining::{RandomXLite, Scratchpad};
use tt_priv_cli::cpu_proof::{
    check_difficulty, compute_pow_hash, create_difficulty_mask, mine_micro_pow, verify_micro_pow, MicroPowParams,
    PowProof, ProofMetrics,
};

#[test]
fn test_micro_pow_easy() {
    let params = MicroPowParams { difficulty_bits: 8, max_iterations: 10_000 };
    let data = b"test_block";
    let proof = mine_micro_pow(data, &params).expect("Should find proof");
    assert!(verify_micro_pow(data, &proof, &params));
    assert_eq!(proof.iterations, proof.nonce + 1);
    assert_eq!(proof.hash[0], 0);
}

#[test]
fn mined_proof_is_the_first_and_tampering_fails() {
    let params = MicroPowParams { difficulty_bits: 8, max_iterations: 10_000 };
    let data = b"another block";
    let proof = mine_micro_pow(data, &params).unwrap();
    let mask = create_difficulty_mask(8);
    for n in 0..proof.nonce {
        assert!(!check_difficulty(&compute_pow_hash(data, n), &mask));
    }
    let bad = PowProof { nonce: proof.nonce + 1, ..proof };
    assert!(!verify_micro_pow(data, &bad, &params));
    let none = mine_micro_pow(data, &MicroPowParams { difficulty_bits: 8, max_iterations: proof.nonce });
    assert!(none.is_none());
}

#[test]
fn test_difficulty_mask() {
    let mask = create_difficulty_mask(16);
    assert_eq!(mask[0], 0);
    assert_eq!(mask[1], 0);
    assert_eq!(mask[2], 0xFF);
}

#[test]
fn difficulty_mask_partial_byte() {
    let mask = create_difficulty_mask(11);
    assert_eq!(mask[0], 0);
    assert_eq!(mask[1], 0x1F);
    assert_eq!(mask[2], 0xFF);
    let full = create_difficulty_mask(255);
    assert_eq!(&full[..31], &[0u8; 31]);
    assert_eq!(full[31], 0x01);
    assert_eq!(create_difficulty_mask(0), [0xFFu8; 32]);
}

#[test]
fn default_params_and_metrics() {
    let p = MicroPowParams::default();
    assert_eq!(p.difficulty_bits, 16);
    assert_eq!(p.max_iterations, 1_000_000);
    let m = ProofMetrics::default();
    assert_eq!((m.bp_generated, m.zk_generated, m.cpu_time_ms, m.pow_iterations), (0, 0, 0, 0));
}

#[test]
fn test_scratchpad() {
    let mut sp = Scratchpad::new(256);
    let seed = [0x42u8; 32];
    sp.init(&seed);
    assert_ne!(sp.read(0), 0);
    sp.write(100, 0xDEADBEEF);
    assert_eq!(sp.read(100), 0xDEADBEEF);
}

#[test]
fn scratchpad_indices_wrap() {
    let mut sp = Scratchpad::new(1);
    sp.init(&[1u8; 32]);
    sp.write(128 + 5, 7);
    assert_eq!(sp.read(5), 7);
}

#[test]
fn test_randomx_lite() {
    let seed = [0x55u8; 32];
    let mut vm = RandomXLite::new(&seed, 256, 1024);
    let hash1 = vm.execute(b"test_block_data");
    let mut vm2 = RandomXLite::new(&seed, 256, 1024);
    let hash2 = vm2.execute(b"different_data");
    assert_ne!(hash1, hash2);
}

#[test]
fn randomx_lite_is_deterministic() {
    let seed = [0x11u8; 32];
    let mut vm = RandomXLite::new(&seed, 16, 64);
    let mut vm2 = RandomXLite::new(&seed, 16, 64);
    assert_eq!(vm.execute(b"abc"), vm2.execute(b"abc"));
}

use tt_priv_cli::cpu_mining::{check_min_stake, compute_randomx_hash, mine_hybrid, verify_hybrid_pow};

#[test]
fn hybrid_mining_needs_min_stake() {
    let one_q: u64 = 1 << 32;
    assert!(check_min_stake(one_q * 5, 5));
    assert!(!check_min_stake(one_q * 5 - 1, 5));
    assert!(mine_hybrid(b"test_block", one_q * 4, 5, 4, 16).is_none());
}

#[test]
fn hybrid_mining_result_verifies() {
    let one_q: u64 = 1 << 32;
    let block = b"test_block";
    let (h, p) = mine_hybrid(block, one_q * 2_000, 1_000, 8, 16).expect("a nonce meets 8 bits");
    assert_eq!(h, compute_randomx_hash(block, 16));
    assert_eq!(p.iterations, p.nonce + 1);
    assert!(verify_hybrid_pow(block, &h, &p, 8, 16));
    assert!(!verify_hybrid_pow(b"other_block", &h, &p, 8, 16));
    let mut q = p.clone();
    q.nonce += 1;
    assert!(!verify_hybrid_pow(block, &h, &q, 8, 16));
}

#[test]
fn mining_hash_depends_on_block_and_scratchpad() {
    let a = compute_randomx_hash(b"block a", 16);
    assert_eq!(a, compute_randomx_hash(b"block a", 16));
    assert_ne!(a, compute_randomx_hash(b"block b", 16));
    assert_ne!(a, compute_randomx_hash(b"block a", 32));
}

#[test]
fn difficulty_counts_leading_zero_bits() {
    let one = create_difficulty_mask(1);
    let mut h = [0xFFu8; 32];
    h[0] = 0x40;
    assert!(check_difficulty(&h, &one));
    h[0] = 0x80;
    assert!(!check_difficulty(&h, &one));
    let twelve = create_difficulty_mask(12);
    let mut g = [0xFFu8; 32];
    g[0] = 0;
    g[1] = 0x0F;
    assert!(check_difficulty(&g, &twelve));
    g[1] = 0x1F;
    assert!(!check_difficulty(&g, &twelve));
}
