//! The decisions of a block producer's slot: where a new block attaches, the seed of
//! its slot, which transactions it admits, and the author signature that binds the
//! header hash to the producer's identity.
use vstd::prelude::*;
use crate::bytes::{append_bytes, append_u64_le, le64};
use crate::chain_core::{shake256_bytes, Hash32};
use crate::hashing::keccak_shake256;

verus! {

/// The hash of `data` (32 bytes of SHAKE256).
pub open spec fn h32(data: Seq<u8>) -> Seq<u8> {
    keccak_shake256(data, 32)
}

/// `GENESIS`.
pub open spec fn genesis_label() -> Seq<u8> {
    seq![71u8, 69u8, 78u8, 69u8, 83u8, 73u8, 83u8]
}

/// Where a block made on top of `head` (its hash and height) attaches: the head with
/// the next height, or the hash of `GENESIS` at height zero on an empty chain.
pub open spec fn spec_attach_point(head: Option<(Hash32, u64)>) -> (Seq<u8>, u64) {
    match head {
        Some((id, h)) => (id@, (h + 1) as u64),
        None => (h32(genesis_label()), 0),
    }
}

/// The parent hash and height of a block made on top of `head`.
pub fn attach_point(head: Option<(Hash32, u64)>) -> (r: (Hash32, u64))
    requires
        head matches Some((_, h)) ==> h < u64::MAX,
    ensures
        (r.0@, r.1) == spec_attach_point(head),
{
    match head {
        Some((id, h)) => (id, h + 1),
        None => {
            let label: Vec<u8> = vec![71u8, 69u8, 78u8, 69u8, 83u8, 73u8, 83u8];
            assert(label@ =~= genesis_label());
            (shake256_bytes(label.as_slice()), 0)
        },
    }
}

/// The task seed of a slot: the hash of its little-endian encoding.
pub fn slot_task_seed(slot: u64) -> (s: Hash32)
    ensures
        s@ == h32(le64(slot)),
{
    let mut v: Vec<u8> = Vec::new();
    append_u64_le(&mut v, slot);
    assert(v@ =~= le64(slot));
    shake256_bytes(v.as_slice())
}

/// A transaction enters the block when it carries range proofs and all of them verify.
pub open spec fn spec_admits(proofs: u32, valid: u32) -> bool {
    proofs > 0 && proofs == valid
}

/// Whether a transaction with `proofs` range proofs, `valid` of which verify, enters
/// the block.
pub fn admits_transaction(proofs: u32, valid: u32) -> (b: bool)
    ensures
        b == spec_admits(proofs, valid),
{
    proofs > 0 && proofs == valid
}

/// The author signature: the hash of the header hash followed by the node identity,
/// written twice (64 bytes).
pub open spec fn spec_author_signature(header_hash: Seq<u8>, node_id: Seq<u8>) -> Seq<u8> {
    h32(header_hash + node_id) + h32(header_hash + node_id)
}

/// The 64-byte author signature of a header hash.
pub fn author_signature(header_hash: &Hash32, node_id: &[u8]) -> (sig: Vec<u8>)
    ensures
        sig@ == spec_author_signature(header_hash@, node_id@),
        sig@.len() == 64,
{
    let mut data: Vec<u8> = Vec::new();
    append_bytes(&mut data, header_hash);
    append_bytes(&mut data, node_id);
    let h = shake256_bytes(data.as_slice());
    let mut sig: Vec<u8> = Vec::new();
    append_bytes(&mut sig, &h);
    append_bytes(&mut sig, &h);
    sig
}

/// The totals of a mempool pass: range proofs seen, range proofs that verify, and
/// the fees of the admitted transactions.
pub open spec fn spec_tally(txs: Seq<(u32, u32, u64)>) -> (int, int, int)
    decreases txs.len(),
{
    if txs.len() == 0 {
        (0, 0, 0)
    } else {
        let prev = spec_tally(txs.drop_last());
        let t = txs.last();
        (prev.0 + t.0, prev.1 + t.1, prev.2 + if spec_admits(t.0, t.1) { t.2 as int } else { 0 })
    }
}

/// The positions of the admitted transactions, in mempool order.
pub open spec fn spec_admitted(txs: Seq<(u32, u32, u64)>) -> Seq<usize>
    decreases txs.len(),
{
    if txs.len() == 0 {
        Seq::empty()
    } else {
        let prev = spec_admitted(txs.drop_last());
        if spec_admits(txs.last().0, txs.last().1) { prev.push((txs.len() - 1) as usize) } else { prev }
    }
}

/// Tallies a mempool pass over the parsed transactions, each given by its range-proof
/// count, its verified count and its fee: the totals, which must fit in 32 and 64
/// bits, and the admitted positions.
pub fn tally_mempool(txs: &[(u32, u32, u64)]) -> (r: (u32, u32, u64, Vec<usize>))
    requires
        spec_tally(txs@).0 <= u32::MAX,
        spec_tally(txs@).1 <= u32::MAX,
        spec_tally(txs@).2 <= u64::MAX,
    ensures
        r.0 == spec_tally(txs@).0,
        r.1 == spec_tally(txs@).1,
        r.2 == spec_tally(txs@).2,
        r.3@ == spec_admitted(txs@),
{
    let mut total: u32 = 0;
    let mut valid: u32 = 0;
    let mut fees: u64 = 0;
    let mut admitted: Vec<usize> = Vec::new();
    let mut i: usize = 0;
    while i < txs.len()
        invariant
            i <= txs@.len(),
            spec_tally(txs@).0 <= u32::MAX,
            spec_tally(txs@).1 <= u32::MAX,
            spec_tally(txs@).2 <= u64::MAX,
            (total as int, valid as int, fees as int) == spec_tally(txs@.subrange(0, i as int)),
            admitted@ == spec_admitted(txs@.subrange(0, i as int)),
        decreases txs@.len() - i,
    {
        let (c, v, f) = txs[i];
        proof {
            let pre = txs@.subrange(0, i as int);
            let post = txs@.subrange(0, i + 1);
            assert(post.drop_last() =~= pre);
            lemma_tally_prefix(txs@, i + 1);
        }
        total = total + c;
        valid = valid + v;
        if admits_transaction(c, v) {
            fees = fees + f;
            admitted.push(i);
        }
        i = i + 1;
    }
    assert(txs@.subrange(0, txs@.len() as int) =~= txs@);
    (total, valid, fees, admitted)
}

/// Tallies a mempool pass as [`tally_mempool`] does, or gives `None` where the range
/// proofs seen, the range proofs that verify or the admitted fees do not fit in 32,
/// 32 and 64 bits.
pub fn tally_mempool_checked(txs: &[(u32, u32, u64)]) -> (r: Option<(u32, u32, u64, Vec<usize>)>)
    ensures
        r is None <==> (spec_tally(txs@).0 > u32::MAX || spec_tally(txs@).1 > u32::MAX || spec_tally(txs@).2
            > u64::MAX),
        r matches Some(t) ==> {
            &&& t.0 == spec_tally(txs@).0
            &&& t.1 == spec_tally(txs@).1
            &&& t.2 == spec_tally(txs@).2
            &&& t.3@ == spec_admitted(txs@)
        },
{
    let mut total: u32 = 0;
    let mut valid: u32 = 0;
    let mut fees: u64 = 0;
    let mut i: usize = 0;
    while i < txs.len()
        invariant
            i <= txs@.len(),
            (total as int, valid as int, fees as int) == spec_tally(txs@.subrange(0, i as int)),
        decreases txs@.len() - i,
    {
        let (c, v, f) = txs[i];
        proof {
            assert(txs@.subrange(0, i + 1).drop_last() =~= txs@.subrange(0, i as int));
            lemma_tally_prefix(txs@, i + 1);
        }
        let nt = total.checked_add(c);
        let nv = valid.checked_add(v);
        let nf = if admits_transaction(c, v) { fees.checked_add(f) } else { Some(fees) };
        match (nt, nv, nf) {
            (Some(a), Some(b), Some(d)) => {
                total = a;
                valid = b;
                fees = d;
            },
            _ => {
                return None;
            },
        }
        i = i + 1;
    }
    assert(txs@.subrange(0, txs@.len() as int) =~= txs@);
    Some(tally_mempool(txs))
}

/// The totals of a prefix are no larger than those of the whole pass.
proof fn lemma_tally_prefix(txs: Seq<(u32, u32, u64)>, n: int)
    requires
        0 <= n <= txs.len(),
    ensures
        spec_tally(txs.subrange(0, n)).0 <= spec_tally(txs).0,
        spec_tally(txs.subrange(0, n)).1 <= spec_tally(txs).1,
        spec_tally(txs.subrange(0, n)).2 <= spec_tally(txs).2,
    decreases txs.len() - n,
{
    if n < txs.len() {
        lemma_tally_prefix(txs, n + 1);
        assert(txs.subrange(0, n + 1).drop_last() =~= txs.subrange(0, n));
    } else {
        assert(txs.subrange(0, n) =~= txs);
    }
}

} // verus!
