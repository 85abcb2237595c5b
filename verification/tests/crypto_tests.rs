use tt_priv_cli::crypto::hint_transcript::{aead_decrypt, aead_encrypt, transcript};
use tt_priv_cli::crypto::hints::HintType;
use tt_priv_cli::crypto::kmac::{kmac256_derive_key, kmac256_tag, kmac256_xof, kmac256_xof_fill};
use tt_priv_cli::crypto::{kmac256_hash, kmac256_hash_v1, FalconError};
use tt_priv_cli::crypto_kmac_consensus::kmac256_hash as consensus_hash;
use tt_priv_cli::keysearch::{AadMode, KeySearchCtx};
use tt_priv_cli::p2p_channel::{derive_session_keys, ChannelError, SecureChannel};

#[test]
fn test_sha3_512_deterministic() {
    let h1 = kmac256_hash(b"TEST", &[b"data"]);
    let h2 = kmac256_hash(b"TEST", &[b"data"]);
    assert_eq!(h1, h2);
}

#[test]
fn test_sha3_vs_shake() {
    let h1 = kmac256_hash(b"TEST", &[b"data"]);
    let h2 = kmac256_hash_v1(b"TEST", &[b"data"]);
    assert_ne!(h1, h2);
}

#[test]
fn test_kmac256_hash() {
    let result = consensus_hash(b"TEST", &[b"hello", b"world"]);
    assert_ne!(result, [0u8; 32]);
    let result2 = consensus_hash(b"TEST", &[b"hello", b"world"]);
    assert_eq!(result, result2);
    let result3 = consensus_hash(b"TEST", &[b"world", b"hello"]);
    assert_ne!(result, result3);
}

#[test]
fn test_kmac_deterministic() {
    let out1 = kmac256_derive_key(b"test_key", b"test_label", b"test_context");
    let out2 = kmac256_derive_key(b"test_key", b"test_label", b"test_context");
    assert_eq!(out1, out2);
}

#[test]
fn test_kmac_different_outputs() {
    let out1 = kmac256_derive_key(b"test_key", b"label1", b"context");
    let out2 = kmac256_derive_key(b"test_key", b"label2", b"context");
    assert_ne!(out1, out2);
}

#[test]
fn kmac_xof_prefix_and_fill_agree() {
    let long = kmac256_xof(b"k", b"l", b"c", 64);
    let short = kmac256_xof(b"k", b"l", b"c", 32);
    assert_eq!(long.len(), 64);
    assert_eq!(&long[..32], &short[..]);
    let mut buf = vec![0u8; 64];
    kmac256_xof_fill(b"k", b"l", b"c", &mut buf);
    assert_eq!(buf, long);
    assert_ne!(kmac256_tag(b"k", b"l", b"m1"), kmac256_tag(b"k", b"l", b"m2"));
}

#[test]
fn test_transcript_deterministic() {
    let epoch = 42;
    let timestamp = 1234567890;
    let c_out = [0x42u8; 32];
    let kem_ct = vec![0x99u8; 1088];
    let x25519_eph = [0xAAu8; 32];
    let falcon_pk = vec![0xBBu8; 897];
    let t1 = transcript(epoch, timestamp, &c_out, &kem_ct, &x25519_eph, &falcon_pk);
    let t2 = transcript(epoch, timestamp, &c_out, &kem_ct, &x25519_eph, &falcon_pk);
    assert_eq!(t1, t2, "Transcript must be deterministic");
}

#[test]
fn transcript_layout() {
    let t = transcript(1, 2, &[3u8; 32], &[4u8; 5], &[6u8; 32], &[7u8; 2]);
    assert_eq!(t.len(), 8 + 32 + 8 + 8 + 4 + 5 + 32 + 2);
    assert_eq!(&t[..8], b"QHINT.v1");
    assert_eq!(&t[40..48], &1u64.to_le_bytes());
    assert_eq!(&t[48..56], &2u64.to_le_bytes());
    assert_eq!(&t[56..60], &5u32.to_le_bytes());
    assert_eq!(&t[60..65], &[4u8; 5]);
    assert_eq!(&t[97..], &[7u8; 2]);
}

#[test]
fn hint_aead_roundtrip_and_wrong_aad() {
    let ss_h = [0x42u8; 32];
    let plaintext = b"encoded hint payload";
    let ct = aead_encrypt(&ss_h, b"correct AAD", plaintext).unwrap();
    assert_eq!(ct.len(), plaintext.len() + 16);
    assert_eq!(aead_decrypt(&ss_h, b"correct AAD", &ct).unwrap(), plaintext.to_vec());
    assert!(aead_decrypt(&ss_h, b"wrong AAD", &ct).is_none());
    assert!(aead_decrypt(&[0x43u8; 32], b"correct AAD", &ct).is_none());
    let _unused: Option<FalconError> = None;
}

#[test]
fn test_hint_type_size() {
    assert_eq!(std::mem::size_of::<HintType>(), 1);
}

#[test]
fn keysearch_context_matches_everything() {
    let ctx = KeySearchCtx::new([1u8; 32]);
    assert_eq!(ctx.try_match(&[0u8; 32], b"hint"), Some([0u8; 32]));
    let (k, d) = ctx.try_match_and_decrypt_ext(&[0u8; 32], b"hint", AadMode::Full).unwrap();
    assert_eq!(k, [0u8; 32]);
    assert!(d.is_none());
}

#[test]
fn derive_keys_is_deterministic() {
    let ss = b"shared_secret_example";
    let mut th = [0u8; 32];
    th[0..4].copy_from_slice(b"TEST");
    let (k1_a, k1_b) = derive_session_keys(ss, &th);
    let (k2_a, k2_b) = derive_session_keys(ss, &th);
    assert_eq!(k1_a.as_bytes(), k2_a.as_bytes());
    assert_eq!(k1_b.as_bytes(), k2_b.as_bytes());
    assert_ne!(k1_a.as_bytes(), k1_b.as_bytes());
}

#[test]
fn secure_channel_roundtrip() {
    let ss = b"shared_secret_example";
    let mut th = [0u8; 32];
    th[0..4].copy_from_slice(b"TEST");
    let (k_c2s, k_s2c) = derive_session_keys(ss, &th);
    let mut chan_client = SecureChannel::new(k_c2s.clone(), k_s2c.clone());
    let mut chan_server = SecureChannel::new(k_s2c, k_c2s);
    let aad = b"header";
    let msg1 = b"hello from client";
    let msg2 = b"hello from server";
    let ct1 = chan_client.encrypt(msg1, aad).unwrap();
    let pt1 = chan_server.decrypt(&ct1, aad).unwrap();
    assert_eq!(pt1, msg1);
    let ct2 = chan_server.encrypt(msg2, aad).unwrap();
    let pt2 = chan_client.decrypt(&ct2, aad).unwrap();
    assert_eq!(pt2, msg2);
}

#[test]
fn secure_channel_rejects_replay_and_tampering() {
    let (k_c2s, k_s2c) = derive_session_keys(b"ss", &[1u8; 32]);
    let mut client = SecureChannel::new(k_c2s.clone(), k_s2c.clone());
    let mut server = SecureChannel::new(k_s2c, k_c2s);
    let ct = client.encrypt(b"m", b"").unwrap();
    let mut bad = ct.clone();
    bad[0] ^= 1;
    assert_eq!(server.decrypt(&bad, b""), Err(ChannelError::DecryptFailed));
    // the receive counter moved on, so the genuine ciphertext no longer opens
    assert_eq!(server.decrypt(&ct, b""), Err(ChannelError::DecryptFailed));
}

use tt_priv_cli::crypto::kmac_mlkem_integration::{FalconKeyManager, QuantumKeySearchCtx, QuantumSafeHint};
use tt_priv_cli::keysearch::HintPayloadV1;

fn mk_payload(v: u64) -> HintPayloadV1 {
    HintPayloadV1 { r_blind: [0x11; 32], value: v, memo: Vec::new() }
}

#[test]
fn roundtrip_hint_pqc() {
    let seed = [0x42u8; 32];
    let ctx = QuantumKeySearchCtx::new(seed).unwrap();
    let c_out = [0xAAu8; 32];
    let payload = mk_payload(12345);
    let recip_kem_pk = ctx.kem_public_key().clone();
    let recip_x_pub = ctx.x25519_public_key();
    let hint = ctx.build_quantum_hint(&recip_kem_pk, &recip_x_pub, &c_out, &payload).unwrap();
    let out = ctx.verify_quantum_hint(&hint, &c_out, 7200);
    assert!(out.is_some());
    let (dec, verified) = out.unwrap();
    assert!(verified);
    assert_eq!(dec.value, Some(12345));
    assert_eq!(dec.r_blind, payload.r_blind);
}

#[test]
fn ksearch_derivation_consistency() {
    let seed = [0x55u8; 32];
    let ctx = QuantumKeySearchCtx::new(seed).unwrap();
    let c_out = [0xBBu8; 32];
    let payload = mk_payload(7);
    let recip_kem_pk = ctx.kem_public_key().clone();
    let recip_x_pub = ctx.x25519_public_key();
    let hint = ctx.build_quantum_hint(&recip_kem_pk, &recip_x_pub, &c_out, &payload).unwrap();
    let (dec, _) = ctx.verify_quantum_hint(&hint, &c_out, 7200).expect("verify");
    let k1 = ctx.quantum_k_search(&c_out, &hint, &dec);
    let k2 = ctx.quantum_k_search(&c_out, &hint, &dec);
    assert_eq!(k1, k2);
    assert_ne!(k1, [0u8; 32]);
}

#[test]
fn hint_rejections() {
    let ctx = QuantumKeySearchCtx::new([1u8; 32]).unwrap();
    let c_out = [2u8; 32];
    let mut payload = mk_payload(9);
    payload.memo = b"note".to_vec();
    let hint = ctx
        .build_quantum_hint_with(&ctx.x25519_public_key(), &c_out, &payload, &[3u8; 32], &[4u8; 1088], 1000)
        .unwrap();
    assert_eq!(hint.timestamp, 1000);
    assert_eq!(hint.epoch, 0);
    // too old
    assert!(ctx.verify_quantum_hint_at(&hint, &c_out, 7200, 1000 + 7201).is_none());
    // other commitment: the transcript differs, so the signature does not cover it
    assert!(ctx.verify_quantum_hint_at(&hint, &[9u8; 32], 7200, 1000).is_none());
    // tampered payload
    let mut bad = hint.clone();
    bad.enc_payload[0] ^= 1;
    assert!(ctx.verify_quantum_hint_at(&bad, &c_out, 7200, 1000).is_none());
    // future epoch
    let mut future = hint.clone();
    future.epoch = 5;
    assert!(ctx.verify_quantum_hint_at(&future, &c_out, 7200, 1000).is_none());
    let scanned = ctx.scan_quantum_safe_at(&[(0, c_out, hint.clone()), (1, [9u8; 32], hint)], 1000);
    assert!(scanned.is_empty() || scanned.iter().all(|n| n.index == 0));
}

#[test]
fn scan_finds_own_hint() {
    let ctx = QuantumKeySearchCtx::new([6u8; 32]).unwrap();
    let c_out = [7u8; 32];
    let hint = ctx
        .build_quantum_hint(ctx.kem_public_key(), &ctx.x25519_public_key(), &c_out, &mk_payload(1))
        .unwrap();
    let found = ctx.scan_quantum_safe(&[(3, [8u8; 32], hint.clone()), (4, c_out, hint)]);
    assert_eq!(found.len(), 1);
    assert_eq!(found[0].index, 4);
    assert!(found[0].quantum_safe && found[0].falcon_verified);
}

#[test]
fn key_manager_epochs() {
    let mut m = FalconKeyManager::new();
    assert_eq!(m.get_current_epoch(), 0);
    m.rotate_epoch();
    m.rotate_epoch();
    let mk = |epoch: u64| QuantumSafeHint {
        kem_ct: vec![],
        x25519_eph_pub: [0u8; 32],
        falcon_signed_msg: vec![],
        sender_falcon_pk: vec![],
        enc_payload: vec![],
        timestamp: 0,
        epoch,
    };
    assert!(m.verify_epoch(&mk(2)));
    assert!(m.verify_epoch(&mk(1)));
    assert!(!m.verify_epoch(&mk(0)));
    assert!(!m.verify_epoch(&mk(3)));
}

#[test]
fn payload_encoding_roundtrip() {
    let p = HintPayloadV1 { r_blind: [5u8; 32], value: 0x0102030405060708, memo: b"memo".to_vec() };
    let b = p.encode();
    assert_eq!(b.len(), 32 + 8 + 8 + 4);
    assert_eq!(&b[32..40], &0x0102030405060708u64.to_le_bytes());
    let q = HintPayloadV1::decode(&b).unwrap();
    assert_eq!(q.r_blind, p.r_blind);
    assert_eq!(q.value, p.value);
    assert_eq!(q.memo, p.memo);
    assert!(HintPayloadV1::decode(&b[..b.len() - 1]).is_none());
    assert!(HintPayloadV1::decode(&b[..40]).is_none());
}

#[test]
fn test_aead_roundtrip() {
    let ss_h = [0x42u8; 32];
    let aad = b"test AAD";
    let payload = HintPayloadV1 { r_blind: [0x99u8; 32], value: 1000, memo: vec![] };
    let ct = aead_encrypt(&ss_h, aad, &payload.encode()).unwrap();
    let recovered = HintPayloadV1::decode(&aead_decrypt(&ss_h, aad, &ct).unwrap()).unwrap();
    assert_eq!(recovered.r_blind, payload.r_blind);
    assert_eq!(recovered.value, payload.value);
}

#[test]
fn test_aead_wrong_aad_fails() {
    let ss_h = [0x42u8; 32];
    let aad = b"correct AAD";
    let wrong_aad = b"wrong AAD";
    let payload = HintPayloadV1 { r_blind: [0x99u8; 32], value: 1000, memo: vec![] };
    let ct = aead_encrypt(&ss_h, aad, &payload.encode()).unwrap();
    let result = aead_decrypt(&ss_h, wrong_aad, &ct);
    assert!(result.is_none(), "Wrong AAD should fail decryption");
}

use tt_priv_cli::crypto::falcon_ops::{default_falcon_ops, FalconOps, SeededFalconOps};
use sha3::digest::{ExtendableOutput, Update, XofReader};
use tt_priv_cli::crypto::falcon_integration::DeterministicRng;
use tt_priv_cli::crypto_kmac::shake256_32;

#[test]
fn test_default_ops_roundtrip() {
    let ops = default_falcon_ops();
    let (pk, sk) = ops.keypair();
    let msg = b"Hello, Falcon!";
    let signed = ops.sign(msg, &sk);
    let recovered = ops.verify(&signed, &pk);
    assert_eq!(recovered, Some(msg.to_vec()));
}

#[test]
fn test_wrong_pk_fails() {
    let ops = default_falcon_ops();
    let (_pk1, sk1) = ops.keypair();
    let (pk2, _sk2) = ops.keypair();
    let signed = ops.sign(b"test", &sk1);
    let recovered = ops.verify(&signed, &pk2);
    assert!(recovered.is_none());
}

#[test]
fn seeded_ops_derive_seeds_from_master_seed() {
    let a = SeededFalconOps::new([0x42u8; 32]);
    let b = SeededFalconOps::new([0x42u8; 32]);
    let c = SeededFalconOps::new([0x43u8; 32]);
    assert_eq!(a.derive_keyseed(b"default"), b.derive_keyseed(b"default"));
    assert_ne!(a.derive_keyseed(b"default"), c.derive_keyseed(b"default"));
    assert_ne!(a.derive_keyseed(b"default"), a.derive_keyseed(b"other"));
    assert_eq!(a.derive_keyseed(b"default"), kmac256_derive_key(&[0x42u8; 32], b"FALCON/KEYGEN", b"default"));
    let (_pk, sk) = default_falcon_ops().keypair();
    let coins = a.derive_coins(&sk, b"msg");
    assert_eq!(coins, kmac256_derive_key(&sk.as_bytes()[..32], b"FALCON/SIGN/COINS", b"msg"));
    assert_eq!(coins, c.derive_coins(&sk, b"msg"));
}

#[test]
fn test_kmac_xof_fill() {
    let key = b"test_key";
    let label = b"test_label";
    let context = b"test_context";
    let mut out1 = vec![0u8; 32];
    let mut out2 = vec![0u8; 32];

    tt_priv_cli::crypto_kmac::kmac256_xof_fill(key, label, context, &mut out1);
    tt_priv_cli::crypto_kmac::kmac256_xof_fill(key, label, context, &mut out2);

    assert_eq!(out1, out2);
}

#[test]
fn test_shake256_32() {
    let h1 = shake256_32(&[b"test"]);
    let h2 = shake256_32(&[b"test"]);
    assert_eq!(h1, h2);

    let h3 = shake256_32(&[b"different"]);
    assert_ne!(h1, h3);
}

#[test]
fn shake256_32_is_tagged_concatenation() {
    let mut hasher = sha3::Shake256::default();
    hasher.update(b"SHAKE256_32");
    hasher.update(b"ab");
    hasher.update(b"c");
    let mut expected = [0u8; 32];
    hasher.finalize_xof().read(&mut expected);
    assert_eq!(shake256_32(&[b"ab", b"c"]), expected);
    assert_eq!(shake256_32(&[b"a", b"bc"]), expected);
}

fn rng_stream_head(seed: &[u8; 32], n: usize) -> Vec<u8> {
    let mut hasher = sha3::Shake256::default();
    hasher.update(b"FALCON_RNG_v1");
    hasher.update(seed);
    let mut out = vec![0u8; n];
    hasher.finalize_xof().read(&mut out);
    out
}

#[test]
fn deterministic_rng_reads_shake_stream() {
    let seed = [5u8; 32];
    let mut rng = DeterministicRng::new(&seed);
    let mut out = vec![0u8; 40];
    rng.fill_bytes(&mut out);
    assert_eq!(out, rng_stream_head(&seed, 40));
    let mut rng2 = DeterministicRng::new(&seed);
    let mut a = vec![0u8; 15];
    let mut b = vec![0u8; 25];
    rng2.fill_bytes(&mut a);
    rng2.fill_bytes(&mut b);
    a.extend_from_slice(&b);
    assert_eq!(a, out);
}

#[test]
fn deterministic_rng_repeats_after_one_block() {
    let seed = [9u8; 32];
    let mut rng = DeterministicRng::new(&seed);
    let mut out = vec![0u8; 1030];
    rng.fill_bytes(&mut out);
    assert_eq!(&out[1024..], &out[..6]);
    assert_eq!(&out[..1024], &rng_stream_head(&seed, 1024)[..]);
}

#[test]
fn deterministic_rng_words_are_little_endian() {
    let seed = [1u8; 32];
    let head = rng_stream_head(&seed, 12);
    let mut rng = DeterministicRng::new(&seed);
    assert_eq!(rng.next_u32(), u32::from_le_bytes([head[0], head[1], head[2], head[3]]));
    let mut w = [0u8; 8];
    w.copy_from_slice(&head[4..12]);
    assert_eq!(rng.next_u64(), u64::from_le_bytes(w));
}

#[test]
fn hint_built_by_one_wallet_opens_at_another() {
    let alice = QuantumKeySearchCtx::new([0x0Au8; 32]).unwrap();
    let bob = QuantumKeySearchCtx::new([0x0Bu8; 32]).unwrap();
    let c_out = [0x5Cu8; 32];
    let mut payload = mk_payload(424242);
    payload.memo = b"for bob".to_vec();
    let hint = alice.build_quantum_hint(bob.kem_public_key(), &bob.x25519_public_key(), &c_out, &payload).unwrap();
    let (dec, verified) = bob.verify_quantum_hint(&hint, &c_out, 7200).expect("bob opens the hint");
    assert!(verified);
    assert_eq!(dec.r_blind, payload.r_blind);
    assert_eq!(dec.value, Some(424242));
    assert_eq!(dec.memo_items, vec![b"for bob".to_vec()]);
    // a third wallet cannot open it
    let carol = QuantumKeySearchCtx::new([0x0Cu8; 32]).unwrap();
    assert!(carol.verify_quantum_hint(&hint, &c_out, 7200).is_none());
}
