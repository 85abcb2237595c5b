use tt_priv_cli::block_assembly::{admits_transaction, attach_point, author_signature, slot_task_seed, tally_mempool, tally_mempool_checked};
use tt_priv_cli::chain_core::shake256_bytes;

#[test]
fn attach_point_on_empty_chain_is_genesis() {
    assert_eq!(attach_point(None), (shake256_bytes(b"GENESIS"), 0));
}

#[test]
fn attach_point_follows_head() {
    let id = [9u8; 32];
    assert_eq!(attach_point(Some((id, 5))), (id, 6));
    assert_eq!(attach_point(Some((id, 0))), (id, 1));
}

#[test]
fn task_seed_hashes_slot_le() {
    assert_eq!(slot_task_seed(7), shake256_bytes(&7u64.to_le_bytes()));
    assert_ne!(slot_task_seed(7), slot_task_seed(8));
}

#[test]
fn author_signature_is_hash_twice() {
    let hh = [3u8; 32];
    let node = b"node-1";
    let sig = author_signature(&hh, node);
    assert_eq!(sig.len(), 64);
    let mut data = hh.to_vec();
    data.extend_from_slice(node);
    let h = shake256_bytes(&data);
    assert_eq!(&sig[..32], &h[..]);
    assert_eq!(&sig[32..], &h[..]);
    assert_ne!(author_signature(&hh, b"node-2"), sig);
}

#[test]
fn admission_needs_all_proofs_valid() {
    assert!(admits_transaction(2, 2));
    assert!(!admits_transaction(2, 1));
    assert!(!admits_transaction(0, 0));
}

#[test]
fn mempool_tally_counts_and_admits() {
    let txs = [(2u32, 2u32, 10u64), (3, 1, 100), (0, 0, 1000), (1, 1, 5)];
    let (total, valid, fees, admitted) = tally_mempool(&txs);
    assert_eq!(total, 6);
    assert_eq!(valid, 4);
    assert_eq!(fees, 15);
    assert_eq!(admitted, vec![0, 3]);
    let (t0, v0, f0, a0) = tally_mempool(&[]);
    assert_eq!((t0, v0, f0), (0, 0, 0));
    assert!(a0.is_empty());
}

#[test]
fn bytes32_is_shake256() {
    assert_eq!(tt_priv_cli::chain_core::bytes32(b"abc"), shake256_bytes(b"abc"));
    assert_ne!(tt_priv_cli::chain_core::bytes32(b"abc"), tt_priv_cli::chain_core::bytes32(b"abd"));
}

#[test]
fn checked_tally_refuses_overflow() {
    let txs = [(2u32, 2u32, 10u64), (3, 1, 100)];
    let (t, v, f, a) = tally_mempool_checked(&txs).unwrap();
    assert_eq!((t, v, f), (5, 3, 10));
    assert_eq!(a, vec![0]);
    assert!(tally_mempool_checked(&[(u32::MAX, 0, 0), (1, 0, 0)]).is_none());
    assert!(tally_mempool_checked(&[(1, 1, u64::MAX), (1, 1, 1)]).is_none());
    // fees of transactions that are not admitted do not count
    assert!(tally_mempool_checked(&[(1, 1, u64::MAX), (1, 0, 1)]).is_some());
}
