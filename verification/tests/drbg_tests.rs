use tt_priv_cli::crypto::kmac_drbg::KmacDrbg;

#[test]
fn deterministic_same_seed_and_pers() {
    let seed = [0x42u8; 32];
    let pers = b"test-pers";
    let mut a = KmacDrbg::new(&seed, pers);
    let mut b = KmacDrbg::new(&seed, pers);
    let mut out_a = [0u8; 128];
    let mut out_b = [0u8; 128];
    a.fill_bytes(&mut out_a);
    b.fill_bytes(&mut out_b);
    assert_eq!(out_a, out_b, "Same seed+pers must produce identical output");
}

#[test]
fn different_personalization_differs() {
    let seed = [0x42u8; 32];
    let mut a = KmacDrbg::new(&seed, b"A");
    let mut b = KmacDrbg::new(&seed, b"B");
    let mut out_a = [0u8; 64];
    let mut out_b = [0u8; 64];
    a.fill_bytes(&mut out_a);
    b.fill_bytes(&mut out_b);
    assert_ne!(out_a, out_b, "Different personalization must produce different output");
}

#[test]
fn reseed_changes_stream() {
    let seed = [0x42u8; 32];
    let mut drbg = KmacDrbg::new(&seed, b"P");
    let mut out1 = [0u8; 64];
    let mut out2 = [0u8; 64];
    drbg.fill_bytes(&mut out1);
    drbg.reseed(b"more-entropy");
    drbg.fill_bytes(&mut out2);
    assert_ne!(out1, out2, "Reseed must change output stream");
}

#[test]
fn next_u32_u64_work() {
    let mut d = KmacDrbg::new(&[1u8; 32], b"x");
    let x = d.next_u32();
    let y = d.next_u64();
    assert!(x > 0 || x == 0);
    assert!(y > 0 || y == 0);
}

#[test]
fn ratchet_changes_stream() {
    let mut drbg = KmacDrbg::new(&[0x99u8; 32], b"ratchet-test");
    let mut out1 = [0u8; 32];
    let mut out2 = [0u8; 32];
    drbg.fill_bytes(&mut out1);
    drbg.ratchet();
    drbg.fill_bytes(&mut out2);
    assert_ne!(out1, out2, "Manual ratchet must change output stream");
}

#[test]
fn from_key_deterministic() {
    let key = [0xABu8; 32];
    let pers = b"key-test";
    let mut a = KmacDrbg::from_key(key, pers);
    let mut b = KmacDrbg::from_key(key, pers);
    let mut out_a = [0u8; 64];
    let mut out_b = [0u8; 64];
    a.fill_bytes(&mut out_a);
    b.fill_bytes(&mut out_b);
    assert_eq!(out_a, out_b, "from_key with same params must be deterministic");
}

#[test]
fn set_ratchet_interval() {
    let mut drbg = KmacDrbg::new(&[0x55u8; 32], b"interval-test");
    drbg.set_ratchet_interval(2);
    let mut buf = [0u8; 64];
    drbg.fill_bytes(&mut buf);
    assert_eq!(drbg.blocks_since_ratchet(), 1);
    drbg.fill_bytes(&mut buf);
    assert_eq!(drbg.blocks_since_ratchet(), 0, "Should have ratcheted after 2 blocks");
}

#[test]
fn large_output() {
    let mut drbg = KmacDrbg::new(&[0x77u8; 32], b"large");
    let mut large = vec![0u8; 10_000];
    drbg.fill_bytes(&mut large);
    assert!(large.iter().any(|&b| b != 0), "Output should not be all zeros");
}

#[test]
fn split_draws_match_one_draw() {
    let mut a = KmacDrbg::new(&[3u8; 32], b"split");
    let mut b = KmacDrbg::new(&[3u8; 32], b"split");
    let mut whole = [0u8; 192];
    a.fill_bytes(&mut whole);
    let mut first = [0u8; 64];
    let mut rest = [0u8; 128];
    b.fill_bytes(&mut first);
    b.fill_bytes(&mut rest);
    assert_eq!(&whole[..64], &first[..]);
    assert_eq!(&whole[64..], &rest[..]);
}

#[test]
fn partial_block_discards_its_tail() {
    let mut a = KmacDrbg::new(&[4u8; 32], b"tail");
    let mut b = KmacDrbg::new(&[4u8; 32], b"tail");
    let mut ten = [0u8; 10];
    a.fill_bytes(&mut ten);
    let mut full = [0u8; 64];
    b.fill_bytes(&mut full);
    assert_eq!(&ten[..], &full[..10]);
    let mut next_a = [0u8; 64];
    let mut next_b = [0u8; 64];
    a.fill_bytes(&mut next_a);
    b.fill_bytes(&mut next_b);
    assert_eq!(next_a, next_b);
}
