use curve25519_dalek::constants::RISTRETTO_BASEPOINT_POINT;
use curve25519_dalek::ristretto::RistrettoPoint;
use curve25519_dalek::scalar::Scalar;
use tiny_keccak::{CShake, Hasher};
use tt_priv_cli::bp::{
    derive_H_pedersen, Point, parse_dalek_range_proof_64, pedersen_commit_bytes, verify_bound_range_proof_64_bytes,
    verify_range_proof_64, BpError,
};

fn identity_proof_bytes() -> Vec<u8> {
    vec![0u8; 672]
}

#[test]
fn bp_parse_rejects_wrong_length() {
    assert_eq!(parse_dalek_range_proof_64(&[0u8; 671]).err(), Some(BpError::BadLength));
    assert_eq!(parse_dalek_range_proof_64(&[0u8; 673]).err(), Some(BpError::BadLength));
    assert_eq!(parse_dalek_range_proof_64(&[]).err(), Some(BpError::BadLength));
}

#[test]
fn bp_parse_rejects_non_canonical_scalar() {
    let mut b = identity_proof_bytes();
    // field 4 is t_hat
    for i in 128..160 {
        b[i] = 0xff;
    }
    assert_eq!(parse_dalek_range_proof_64(&b).err(), Some(BpError::BadScalar));
    let mut b = identity_proof_bytes();
    // field 20 is b
    for i in 640..672 {
        b[i] = 0xff;
    }
    assert_eq!(parse_dalek_range_proof_64(&b).err(), Some(BpError::BadScalar));
}

#[test]
fn bp_parse_lays_out_fields() {
    let mut b = identity_proof_bytes();
    for k in 0..21usize {
        b[32 * k] = k as u8;
    }
    let p = parse_dalek_range_proof_64(&b).unwrap();
    assert_eq!(p.A[0], 0);
    assert_eq!(p.S[0], 1);
    assert_eq!(p.T1[0], 2);
    assert_eq!(p.T2[0], 3);
    assert_eq!(p.t_hat[0], 4);
    assert_eq!(p.taux[0], 5);
    assert_eq!(p.mu[0], 6);
    assert_eq!(p.ipp.L_vec.len(), 6);
    assert_eq!(p.ipp.R_vec.len(), 6);
    for k in 0..6usize {
        assert_eq!(p.ipp.L_vec[k][0], (7 + k) as u8);
        assert_eq!(p.ipp.R_vec[k][0], (13 + k) as u8);
    }
    assert_eq!(p.ipp.a[0], 19);
    assert_eq!(p.ipp.b[0], 20);
}

#[test]
fn bp_h_pedersen_matches_cshake_map() {
    let mut cs = CShake::v256(b"TT-PEDERSEN-H", b"");
    let mut bytes = [0u8; 64];
    cs.finalize(&mut bytes);
    let expected = RistrettoPoint::from_uniform_bytes(&bytes).compress().to_bytes();
    assert_eq!(derive_H_pedersen().to_bytes(), expected);
    assert_eq!(derive_H_pedersen().to_bytes(), derive_H_pedersen().to_bytes());
    assert_ne!(expected, RISTRETTO_BASEPOINT_POINT.compress().to_bytes());
}

#[test]
fn bp_pedersen_commit_is_r_g_plus_v_h() {
    let h = derive_H_pedersen();
    let hp = curve25519_dalek::ristretto::CompressedRistretto(h.to_bytes()).decompress().unwrap();
    let blind = [7u8; 32];
    let c = pedersen_commit_bytes(42, blind, h);
    let expected = (Scalar::from_bytes_mod_order(blind) * RISTRETTO_BASEPOINT_POINT + Scalar::from(42u64) * hp)
        .compress()
        .to_bytes();
    assert_eq!(c, expected);
    assert_ne!(c, pedersen_commit_bytes(43, blind, h));
    assert_ne!(c, pedersen_commit_bytes(42, [8u8; 32], h));
}

#[test]
fn bp_verify_rejects_undecodable_point() {
    let h = derive_H_pedersen();
    let mut b = identity_proof_bytes();
    for i in 0..32 {
        b[i] = 0xff;
    }
    let p = parse_dalek_range_proof_64(&b).unwrap();
    assert_eq!(verify_range_proof_64(&p, [0u8; 32], h), Err(BpError::BadCompressedPoint));
    let p = parse_dalek_range_proof_64(&identity_proof_bytes()).unwrap();
    assert_eq!(verify_range_proof_64(&p, [0xffu8; 32], h), Err(BpError::BadCompressedPoint));
}

#[test]
fn bp_verify_rejects_identity_proof() {
    let h = derive_H_pedersen();
    let p = parse_dalek_range_proof_64(&identity_proof_bytes()).unwrap();
    let c = pedersen_commit_bytes(5, [1u8; 32], h);
    assert_eq!(verify_range_proof_64(&p, c, h), Err(BpError::PolyCheckFailed));
    assert_eq!(verify_bound_range_proof_64_bytes(&identity_proof_bytes(), c, h), Err(BpError::PolyCheckFailed));
}

#[test]
fn bp_verify_bound_rejects_bad_length() {
    let h = derive_H_pedersen();
    assert_eq!(verify_bound_range_proof_64_bytes(&[0u8; 10], [0u8; 32], h), Err(BpError::BadLength));
}

#[test]
fn bp_point_from_compressed() {
    let g = RISTRETTO_BASEPOINT_POINT.compress().to_bytes();
    assert_eq!(Point::from_compressed(g).map(|p| p.to_bytes()), Some(g));
    assert!(Point::from_compressed([0xffu8; 32]).is_none());
}
