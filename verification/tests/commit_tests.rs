use curve25519_dalek::scalar::Scalar;
use rand::rngs::OsRng;
use rand::RngCore;
use tt_priv_cli::falcon_sigs::{
    derive_node_id, falcon_keypair, falcon_pk_from_bytes, falcon_pk_size, falcon_pk_to_bytes, falcon_sign_block,
    falcon_signature_size_estimate, falcon_sk_from_bytes, falcon_sk_size, falcon_sk_to_bytes, falcon_verify_block,
    is_valid_falcon_pk, FalconSigError,
};
use tt_priv_cli::filters::BloomFilter;
use tt_priv_cli::hybrid_commit::{
    generator_F, generator_H, classical_commit, hybrid_add, hybrid_commit, hybrid_sub, hybrid_verify, is_classical_commitment, pqc_fingerprint,
    verify_balance_scalar, HybridOpening,
};

#[test]
fn test_pqc_fingerprint_deterministic() {
    let falcon_pk = [0x42u8; 897];
    let mlkem_pk = [0x99u8; 1184];
    let fp1 = pqc_fingerprint(&falcon_pk, &mlkem_pk);
    let fp2 = pqc_fingerprint(&falcon_pk, &mlkem_pk);
    assert_eq!(fp1, fp2, "Fingerprint must be deterministic");
    assert_ne!(fp1, pqc_fingerprint(&mlkem_pk, &falcon_pk));
}

#[test]
fn test_hybrid_commit_roundtrip() {
    let mut blind = [0u8; 32];
    OsRng.fill_bytes(&mut blind);
    let pqc_fp = pqc_fingerprint(&[0x42u8; 897], &[0x99u8; 1184]);
    let value = 1000u64;
    let commitment = hybrid_commit(value, &blind, &pqc_fp);
    let opening = HybridOpening { value, blind, pqc_fingerprint: pqc_fp };
    assert!(hybrid_verify(&commitment, &opening), "Opening must verify");
    let wrong_opening = HybridOpening { value: 999, blind, pqc_fingerprint: pqc_fp };
    assert!(!hybrid_verify(&commitment, &wrong_opening), "Wrong value must fail");
}

#[test]
fn test_classical_compatibility() {
    let mut blind = [0u8; 32];
    OsRng.fill_bytes(&mut blind);
    let value = 500u64;
    let classical = classical_commit(value, &blind);
    let zero_fp = [0u8; 32];
    let hybrid = hybrid_commit(value, &blind, &zero_fp);
    assert_eq!(classical, hybrid, "Classical must equal hybrid with fp=0");
    assert!(is_classical_commitment(&zero_fp));
    assert!(!is_classical_commitment(&[1u8; 32]));
}

#[test]
fn test_balance_conservation() {
    let mut r1 = [0u8; 32];
    OsRng.fill_bytes(&mut r1);
    let mut r2 = [0u8; 32];
    OsRng.fill_bytes(&mut r2);
    let mut r_out = [0u8; 32];
    OsRng.fill_bytes(&mut r_out);
    let fp1 = pqc_fingerprint(&[1u8; 897], &[2u8; 1184]);
    let fp2 = pqc_fingerprint(&[3u8; 897], &[4u8; 1184]);
    let fp_out = pqc_fingerprint(&[5u8; 897], &[6u8; 1184]);
    let inputs = vec![(100u64, r1, fp1), (200u64, r2, fp2)];
    let r_in_sum = Scalar::from_bytes_mod_order(r1) + Scalar::from_bytes_mod_order(r2);
    let r_fee = (r_in_sum - Scalar::from_bytes_mod_order(r_out)).to_bytes();
    let fp_in_sum = Scalar::from_bytes_mod_order(fp1) + Scalar::from_bytes_mod_order(fp2);
    let fp_fee = (fp_in_sum - Scalar::from_bytes_mod_order(fp_out)).to_bytes();
    let outputs = vec![(250u64, r_out, fp_out)];
    let fee = (50u64, r_fee, fp_fee);
    assert!(verify_balance_scalar(&inputs, &outputs, &fee), "Balance must verify");
    let bad_fee = (51u64, r_fee, fp_fee);
    assert!(!verify_balance_scalar(&inputs, &outputs, &bad_fee), "Wrong fee must fail");
}

#[test]
fn balance_of_empty_sides() {
    assert!(verify_balance_scalar(&[], &[], &(0, [0u8; 32], [0u8; 32])));
    assert!(!verify_balance_scalar(&[], &[], &(1, [0u8; 32], [0u8; 32])));
}

#[test]
fn test_homomorphic_add() {
    let mut r1 = [0u8; 32];
    OsRng.fill_bytes(&mut r1);
    let mut r2 = [0u8; 32];
    OsRng.fill_bytes(&mut r2);
    let fp1 = pqc_fingerprint(&[1u8; 897], &[2u8; 1184]);
    let fp2 = pqc_fingerprint(&[3u8; 897], &[4u8; 1184]);
    let c1 = hybrid_commit(100, &r1, &fp1);
    let c2 = hybrid_commit(200, &r2, &fp2);
    let c_sum = hybrid_add(&c1, &c2).unwrap();
    let r_sum = (Scalar::from_bytes_mod_order(r1) + Scalar::from_bytes_mod_order(r2)).to_bytes();
    let fp_sum = (Scalar::from_bytes_mod_order(fp1) + Scalar::from_bytes_mod_order(fp2)).to_bytes();
    let c_expected = hybrid_commit(300, &r_sum, &fp_sum);
    assert_eq!(c_sum, c_expected, "Homomorphic addition must work");
    assert_eq!(hybrid_sub(&c_sum, &c2).unwrap(), c1);
    assert!(hybrid_add(&[0xFFu8; 32], &c1).is_none());
}

#[test]
fn test_sign_verify_block() {
    let (pk, sk) = falcon_keypair();
    let block_hash = [0x42u8; 32];
    let sig = falcon_sign_block(&block_hash, &sk);
    assert!(falcon_verify_block(&block_hash, &sig, &pk).is_ok(), "Verification should succeed");
}

#[test]
fn test_wrong_block_hash_fails() {
    let (pk, sk) = falcon_keypair();
    let sig = falcon_sign_block(&[0x42u8; 32], &sk);
    assert_eq!(falcon_verify_block(&[0x99u8; 32], &sig, &pk), Err(FalconSigError::HashMismatch));
}

#[test]
fn test_keypair_generation() {
    let (pk, sk) = falcon_keypair();
    assert_eq!(pk.as_bytes().len(), falcon_pk_size());
    assert_eq!(sk.as_bytes().len(), falcon_sk_size());
    assert_eq!(falcon_signature_size_estimate(), 698);
}

#[test]
fn test_node_id_derivation() {
    let (pk, _) = falcon_keypair();
    let node_id = derive_node_id(&pk);
    assert_eq!(node_id.len(), 32);
    assert_eq!(node_id, derive_node_id(&pk));
}

#[test]
fn test_key_import_export() {
    let (pk, sk) = falcon_keypair();
    let pk_bytes = falcon_pk_to_bytes(&pk);
    let sk_bytes = falcon_sk_to_bytes(&sk);
    let pk2 = falcon_pk_from_bytes(pk_bytes).unwrap();
    let sk2 = falcon_sk_from_bytes(&sk_bytes).unwrap();
    let block_hash = [0x42u8; 32];
    let sig = falcon_sign_block(&block_hash, &sk2);
    falcon_verify_block(&block_hash, &sig, &pk2).unwrap();
}

#[test]
fn key_import_rejects_wrong_lengths_and_bad_signatures() {
    assert!(!is_valid_falcon_pk(&[0u8; 10]));
    assert!(is_valid_falcon_pk(&[0u8; 897]));
    assert!(matches!(falcon_pk_from_bytes(&[0u8; 896]), Err(FalconSigError::InvalidPublicKey)));
    assert!(matches!(falcon_sk_from_bytes(&[0u8; 1280]), Err(FalconSigError::InvalidSecretKey)));
    let (pk, _) = falcon_keypair();
    let (_, other_sk) = falcon_keypair();
    let sig = falcon_sign_block(&[1u8; 32], &other_sk);
    assert_eq!(falcon_verify_block(&[1u8; 32], &sig, &pk), Err(FalconSigError::VerificationFailed));
}

#[test]
fn bloom_filter_has_no_false_negatives() {
    let mut f = BloomFilter::new(1000, 3);
    assert!(!f.contains(77));
    f.insert(77);
    f.insert(1234);
    assert!(f.contains(77));
    assert!(f.contains(1234));
    let empty = BloomFilter::new(0, 0);
    assert!(empty.contains(5));
}

#[test]
fn bloom_filter_finds_every_tag_of_a_long_insert_run() {
    let mut f = BloomFilter::new(257, 4);
    let tags: Vec<u16> = (0..200u16).map(|i| i.wrapping_mul(331).wrapping_add(7)).collect();
    for t in &tags {
        f.insert(*t);
    }
    for t in &tags {
        assert!(f.contains(*t));
    }
    let fresh = BloomFilter::new(64, 1);
    for t in 0..100u16 {
        assert!(!fresh.contains(t));
    }
}

#[test]
fn test_generators_deterministic() {
    let g = curve25519_dalek::constants::RISTRETTO_BASEPOINT_POINT.compress().to_bytes();
    let h1 = generator_H().to_bytes();
    let h2 = generator_H().to_bytes();
    assert_eq!(h1, h2, "H generator must be deterministic");

    let f1 = generator_F().to_bytes();
    let f2 = generator_F().to_bytes();
    assert_eq!(f1, f2, "F generator must be deterministic");

    assert_ne!(h1, f1, "H and F must be independent");
    assert_ne!(h1, g, "H and G must be independent");
    assert_ne!(f1, g, "F and G must be independent");
}

#[test]
fn hybrid_commit_is_r_g_plus_v_h_plus_fp_f() {
    let h = curve25519_dalek::ristretto::CompressedRistretto(generator_H().to_bytes()).decompress().unwrap();
    let f = curve25519_dalek::ristretto::CompressedRistretto(generator_F().to_bytes()).decompress().unwrap();
    let blind = [3u8; 32];
    let fp = [4u8; 32];
    let expected = (Scalar::from_bytes_mod_order(blind) * curve25519_dalek::constants::RISTRETTO_BASEPOINT_POINT
        + Scalar::from(77u64) * h
        + Scalar::from_bytes_mod_order(fp) * f)
        .compress()
        .to_bytes();
    assert_eq!(hybrid_commit(77, &blind, &fp), expected);
}
