use tt_priv_cli::crypto::falcon_integration::{FalconKeyManager, HintPayload, QuantumKeySearchCtx};
use tt_priv_cli::crypto::keysearch_quantum::{
    decode_quantum_hint_exec, encode_quantum_hint, encode_smart_hint, SmartHint, TraditionalHint, UnifiedKeySearch,
};

fn payload() -> HintPayload {
    HintPayload { r_blind: [0x99u8; 32], value: Some(1_000_000), memo: b"test memo".to_vec() }
}

#[test]
fn test_falcon_key_derivation() {
    let master_seed = [0x42u8; 32];
    let mut key_manager = FalconKeyManager::new(master_seed, 86400);
    let (sk1, pk1) = key_manager.derive_epoch_keypair(0).unwrap();
    let (sk2, pk2) = key_manager.derive_epoch_keypair(0).unwrap();
    assert_eq!(sk1, sk2);
    assert_eq!(pk1, pk2);
    assert_eq!(pk1.len(), 897);
}

#[test]
fn falcon_integration_test_quantum_context_creation() {
    let master_seed = [0x43u8; 32];
    let ctx = QuantumKeySearchCtx::new(master_seed).unwrap();
    assert_eq!(ctx.get_falcon_public_key().len(), 897);
    assert_eq!(ctx.get_x25519_public_key().len(), 32);
}

#[test]
fn epoch_keys_are_cached_for_ten_epochs() {
    let mut km = FalconKeyManager::new([1u8; 32], 86400);
    let (sk0, _) = km.derive_epoch_keypair(0).unwrap();
    for e in 1..10u64 {
        km.derive_epoch_keypair(e).unwrap();
    }
    assert_eq!(km.derive_epoch_keypair(0).unwrap().0, sk0);
    for e in 10..20u64 {
        km.derive_epoch_keypair(e).unwrap();
    }
    assert_ne!(km.derive_epoch_keypair(0).unwrap().0, sk0);
}

#[test]
fn epoch_window_is_current_or_previous() {
    let mut km = FalconKeyManager::new([1u8; 32], 100);
    assert!(km.verify_epoch_at(5, 550));
    assert!(km.verify_epoch_at(4, 550));
    assert!(!km.verify_epoch_at(3, 550));
    assert!(!km.verify_epoch_at(6, 550));
    assert_eq!(km.get_current_epoch_at(550), 5);
    assert!(km.verify_epoch_at(0, 50));
}

#[test]
fn hint_payload_encoding_roundtrips() {
    for p in [payload(), HintPayload { r_blind: [1u8; 32], value: None, memo: vec![] }] {
        let b = p.encode();
        let q = HintPayload::decode(&b).unwrap();
        assert_eq!(q.r_blind, p.r_blind);
        assert_eq!(q.value, p.value);
        assert_eq!(q.memo, p.memo);
    }
    let mut bad = payload().encode();
    bad[32] = 2;
    assert!(HintPayload::decode(&bad).is_none());
    let short = payload().encode();
    assert!(HintPayload::decode(&short[..short.len() - 1]).is_none());
}

#[test]
fn signed_hint_layout_roundtrips_and_keys_differ_between_sides() {
    let mut alice = QuantumKeySearchCtx::new([0x01u8; 32]).unwrap();
    let mut bob = QuantumKeySearchCtx::new([0x02u8; 32]).unwrap();
    let c_out = [0x42u8; 32];
    let bob_falcon = bob.get_falcon_public_key().to_vec();
    let bob_x = *bob.get_x25519_public_key();
    let hint = alice.build_quantum_hint(&bob_falcon, &bob_x, &c_out, &payload()).unwrap();
    assert_eq!(hint.version, 1);
    assert_eq!(hint.eph_falcon_pk.len(), 897);
    let b = encode_quantum_hint(&hint);
    let h2 = decode_quantum_hint_exec(&b).unwrap();
    assert_eq!(h2.eph_falcon_pk, hint.eph_falcon_pk);
    assert_eq!(h2.falcon_signature, hint.falcon_signature);
    assert_eq!(h2.encrypted_payload, hint.encrypted_payload);
    assert_eq!((h2.nonce, h2.timestamp, h2.epoch, h2.version), (hint.nonce, hint.timestamp, hint.epoch, hint.version));
    // the two sides key their Falcon exchanges with different secret keys
    assert!(bob.verify_quantum_hint(&hint, &c_out).is_none());
    let mut old = hint.clone();
    old.version = 2;
    assert!(bob.verify_quantum_hint(&old, &c_out).is_none());
}

#[test]
fn test_unified_creation() {
    let seed = [0x42u8; 32];
    let unified = UnifiedKeySearch::new(seed);
    let keys = unified.get_public_keys();
    assert_eq!(keys.x25519_pk.len(), 32);
    assert!(unified.has_quantum_support());
}

#[test]
fn traditional_hint_opens_for_its_recipient() {
    let bob = UnifiedKeySearch::new([0x02u8; 32]);
    let carol = UnifiedKeySearch::new([0x03u8; 32]);
    let bob_keys = bob.get_public_keys();
    let c_out = [0x42u8; 32];
    let p = payload();
    let hint = UnifiedKeySearch::build_traditional_hint_with(&bob_keys.x25519_pk, &c_out, &p, &[7u8; 32], &[9u8; 12]).unwrap();
    let bytes = hint.encode();
    let back = TraditionalHint::decode(&bytes).unwrap();
    assert_eq!(back.ciphertext, hint.ciphertext);
    let opened = bob.verify_traditional_hint(&bytes, &c_out).unwrap();
    assert_eq!(opened.r_blind, p.r_blind);
    assert_eq!(opened.value, p.value);
    assert_eq!(opened.memo, p.memo);
    assert!(carol.verify_traditional_hint(&bytes, &c_out).is_none());
    assert!(bob.verify_traditional_hint(&bytes, &[0u8; 32]).is_none());
}

#[test]
fn scan_finds_traditional_hints_by_index() {
    let mut bob = UnifiedKeySearch::new([0x02u8; 32]);
    let bob_keys = bob.get_public_keys();
    let c_out = [0x42u8; 32];
    let hint = UnifiedKeySearch::build_traditional_hint_with(&bob_keys.x25519_pk, &c_out, &payload(), &[7u8; 32], &[9u8; 12]).unwrap();
    let outputs = vec![([1u8; 32], vec![0u8; 10]), (c_out, hint.encode())];
    let found = bob.scan_smart(&outputs);
    assert_eq!(found.len(), 1);
    assert_eq!(found[0].index, 1);
    assert_eq!(found[0].c_out, c_out);
    assert!(!found[0].quantum_safe);
    assert_eq!(found[0].method, "x25519");
    assert_eq!(found[0].payload.value, Some(1_000_000));
}

#[test]
fn smart_hint_is_signed_between_falcon_holders() {
    let mut alice = UnifiedKeySearch::new([0x01u8; 32]);
    let bob = UnifiedKeySearch::new([0x02u8; 32]);
    let c_out = [0x42u8; 32];
    let hint = alice.build_smart_hint(&bob.get_public_keys(), &c_out, &payload()).unwrap();
    assert!(matches!(hint, SmartHint::Quantum(_)));
    let mut keys = bob.get_public_keys();
    keys.falcon_pk = None;
    let hint = alice.build_smart_hint(&keys, &c_out, &payload()).unwrap();
    assert!(matches!(hint, SmartHint::Traditional(_)));
    let b = encode_smart_hint(&hint);
    assert_eq!(&b[..4], &[1u8, 0, 0, 0]);
}

use tt_priv_cli::crypto::kmac_falcon_integration::{
    FalconKeyManager as KmacFalconKeyManager, QuantumKeySearchCtx as KmacQuantumCtx,
};
use tt_priv_cli::crypto::kmac_mlkem_integration::MlkemPublicKey;
use tt_priv_cli::crypto::quantum_hint_v2::{QuantumKeySearchCtx as V2Ctx, QuantumSafeHint as V2Hint};
use tt_priv_cli::keysearch::HintPayloadV1;

#[test]
fn test_falcon_key_derivation_with_kmac() {
    let key_manager = KmacFalconKeyManager::new([0x42u8; 32]);
    let (sk, pk) = key_manager.derive_epoch_keypair(0).unwrap();
    assert_eq!(pk.len(), 897);
    assert!(!sk.is_empty());
}

#[test]
fn kmac_falcon_integration_test_quantum_context_creation() {
    let ctx = KmacQuantumCtx::new([0x43u8; 32]).unwrap();
    assert_eq!(ctx.key_manager.get_current_epoch(), 0);
    assert_eq!(ctx.get_falcon_public_key().len(), 897);
}

#[test]
fn test_transaction_id_derivation() {
    let c_out = [0x66u8; 32];
    let mut payload = HintPayloadV1 { r_blind: [0x77u8; 32], value: 1000, memo: Vec::new() };
    let tx_id1 = KmacQuantumCtx::derive_transaction_id(&c_out, &payload);
    let tx_id2 = KmacQuantumCtx::derive_transaction_id(&c_out, &payload);
    assert_eq!(tx_id1, tx_id2);
    payload.value = 2000;
    let tx_id3 = KmacQuantumCtx::derive_transaction_id(&c_out, &payload);
    assert_ne!(tx_id1, tx_id3);
}

#[test]
fn kmac_hint_carries_key_and_payload_in_clear() {
    let alice = KmacQuantumCtx::new([1u8; 32]).unwrap();
    let bob = KmacQuantumCtx::new([2u8; 32]).unwrap();
    let c_out = [0x42u8; 32];
    let payload = HintPayloadV1 { r_blind: [5u8; 32], value: 77, memo: b"m".to_vec() };
    let hint = alice.build_quantum_hint(bob.get_falcon_public_key(), &bob.get_x25519_public_key(), &c_out, &payload).unwrap();
    assert_eq!(hint.epoch, 0);
    assert_eq!(hint.eph_pub.len(), 897);
    assert_eq!(&hint.encrypted_payload[44..], &payload.encode()[..]);
    assert!(bob.verify_quantum_hint(&hint, &c_out).is_none());
    assert!(bob.scan_quantum_safe(&[(3usize, c_out, hint)]).is_empty());
}

#[test]
fn test_quantum_hint_v2_roundtrip() {
    let ctx = V2Ctx::new([0x42u8; 32]).unwrap();
    let (recipient_mlkem_pk, _) = pqcrypto_kyber::kyber768::keypair();
    let recipient_mlkem_pk =
        MlkemPublicKey::from_bytes(pqcrypto_traits::kem::PublicKey::as_bytes(&recipient_mlkem_pk)).unwrap();
    let recipient_x25519_sk = x25519_dalek::StaticSecret::from([0x99u8; 32]);
    let recipient_x25519_pk = x25519_dalek::PublicKey::from(&recipient_x25519_sk).to_bytes();
    let c_out = [0xAAu8; 32];
    let payload = HintPayloadV1 { r_blind: [0xBBu8; 32], value: 1000, memo: vec![] };
    let hint = ctx.build_quantum_hint(&recipient_mlkem_pk, &recipient_x25519_pk, &c_out, &payload).unwrap();
    assert_eq!(hint.kem_ct.len(), 1088);
    assert!(hint.falcon_signed_msg.len() > 0);
    assert!(hint.enc_payload.len() > 0);
}

#[test]
fn test_timestamp_validation() {
    let ctx = V2Ctx::new([0x42u8; 32]).unwrap();
    let now = std::time::SystemTime::now().duration_since(std::time::UNIX_EPOCH).unwrap().as_secs();
    let c_out = [0xAAu8; 32];
    let old_hint = V2Hint {
        kem_ct: vec![0u8; 1088],
        x25519_eph_pub: [0u8; 32],
        falcon_signed_msg: vec![],
        enc_payload: vec![],
        timestamp: now - 10000,
        epoch: 0,
    };
    let result = ctx.verify_quantum_hint(&old_hint, &c_out);
    assert!(result.is_none(), "Old timestamp should be rejected");
}

#[test]
fn v2_hint_checks_against_its_own_context() {
    let ctx = V2Ctx::new([0x42u8; 32]).unwrap();
    let c_out = [0xAAu8; 32];
    let payload = HintPayloadV1 { r_blind: [0xBBu8; 32], value: 1000, memo: b"memo".to_vec() };
    let own_x = x25519_dalek::PublicKey::from(&x25519_dalek::StaticSecret::from([0x11u8; 32])).to_bytes();
    let hint = ctx.build_quantum_hint(ctx.mlkem_public_key(), &own_x, &c_out, &payload).unwrap();
    let now = std::time::SystemTime::now().duration_since(std::time::UNIX_EPOCH).unwrap().as_secs();
    let mut future = hint.clone();
    future.epoch = 2;
    assert!(ctx.verify_quantum_hint_at(&future, &c_out, now).is_none());
    let mut stale = hint.clone();
    stale.timestamp = 0;
    assert!(ctx.verify_quantum_hint_at(&stale, &c_out, now).is_none());
}

#[test]
fn v2_hint_for_own_keys_opens() {
    let seed = [0x42u8; 32];
    let ctx = V2Ctx::new(seed).unwrap();
    let x_secret = tt_priv_cli::crypto::kmac::kmac256_derive_key(
        &seed,
        &tt_priv_cli::tags::x25519_session_key_bytes(),
        &tt_priv_cli::tags::key_derivation_ctx_bytes(),
    );
    let own_x = x25519_dalek::PublicKey::from(&x25519_dalek::StaticSecret::from(x_secret)).to_bytes();
    let c_out = [0xA1u8; 32];
    let payload = HintPayloadV1 { r_blind: [0x0Du8; 32], value: 77, memo: b"self".to_vec() };
    let hint = ctx.build_quantum_hint(ctx.mlkem_public_key(), &own_x, &c_out, &payload).unwrap();
    let now = std::time::SystemTime::now().duration_since(std::time::UNIX_EPOCH).unwrap().as_secs();
    let (dec, verified) = ctx.verify_quantum_hint_at(&hint, &c_out, now).expect("own hint opens");
    assert!(verified);
    assert_eq!(dec.r_blind, [0x0Du8; 32]);
    assert_eq!(dec.value, Some(77));
}
