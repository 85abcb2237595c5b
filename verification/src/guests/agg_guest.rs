//! Aggregation of the claims of private transactions into a block journal: the
//! outputs are appended to the notes tree held as a frontier, the claim journals
//! are tagged, and the nullifiers of the block are sorted and must all differ.
//!
//! The receipts of the child proofs are verified, and their journals decoded,
//! before aggregation; the claims arrive here decoded, beside their journal words.
//!
//! The frontier is read in two ways: computing a root takes one entry per set bit
//! of the count, lowest bit first; appending a leaf reads and writes it by level.
use vstd::prelude::*;
use vstd::bytes::spec_u32_to_le_bytes;
use crate::bytes::{append_bytes, eq32};
use crate::guests::priv_guest::{kmac32, spec_h_leaf, spec_h_pair, Hash32, PrivClaim};
use crate::ordmap::{MapKey, OrdMap};
use crate::tags::{agg_priv_key, agg_priv_key_bytes, claim_v1, claim_v1_bytes};

verus! {

/// The root of an empty tree.
pub open spec fn empty_root() -> Seq<u8> {
    Seq::new(32, |i: int| 0u8)
}

/// The most child proofs in a block.
pub const MAX_CHILDREN: usize = 64;
/// The most words of a child receipt or journal.
pub const MAX_CHILD_WORDS: usize = 262144;
/// The most outputs in a block.
pub const MAX_OUTS_TOTAL: usize = 65536;
/// The most hints in a block.
pub const MAX_HINTS_TOTAL: usize = 65536;

/// The public input of the aggregation.
#[derive(Clone, Debug)]
pub struct AggPrivInput {
    pub old_notes_root: Hash32,
    pub old_notes_count: u64,
    pub old_frontier: Vec<Hash32>,
    pub child_method_id: [u32; 8],
    pub claim_receipts_words: Vec<Vec<u32>>,
    pub claim_journals_words: Vec<Vec<u32>>,
}

/// What the aggregation commits.
#[derive(Clone, Debug)]
pub struct AggPrivJournal {
    pub new_notes_root: Hash32,
    pub new_notes_count: u64,
    pub new_frontier: Vec<Hash32>,
    pub nullifiers: Vec<Hash32>,
    pub enc_hints: Vec<[u8; 32]>,
    pub outputs_count: u32,
    pub child_claim_tags: Vec<[u8; 32]>,
    pub pqc_fingerprints_in: Vec<Hash32>,
    pub pqc_fingerprints_out: Vec<Hash32>,
}

/// Which rule the aggregation breaks.
#[derive(Clone, Copy, Debug, PartialEq, Eq)]
pub enum AggError {
    TooManyChildren,
    ReceiptsJournalsMismatch,
    ClaimsMismatch,
    BadOldFrontier,
    OldRootMismatch,
    ChildReceiptTooBig,
    ChildJournalTooBig,
    TooManyOutputs,
    TooManyHints,
    FrontierTooShort,
    CountOverflow,
    BadNewFrontier,
    DuplicateNullifier,
}

/// The little-endian bytes of each word in turn.
pub open spec fn words_bytes(words: Seq<u32>) -> Seq<u8>
    decreases words.len(),
{
    if words.len() == 0 { Seq::empty() } else { words_bytes(words.drop_last()) + spec_u32_to_le_bytes(words.last()) }
}

/// The tag of a claim journal.
pub open spec fn claim_tag(words: Seq<u32>) -> Seq<u8> {
    kmac32(agg_priv_key(), claim_v1(), words_bytes(words))
}

/// The number of set bits of `n`.
pub open spec fn popcount(n: nat) -> nat
    decreases n,
{
    if n == 0 { 0 } else { popcount(n / 2) + n % 2 }
}

/// The root folded from frontier entries `used ..` for the bits of `n`, lowest
/// first, on top of `acc`.
pub open spec fn fold_frontier(fr: Seq<Seq<u8>>, n: nat, used: nat, acc: Option<Seq<u8>>) -> Option<Seq<u8>>
    decreases n,
{
    if n == 0 {
        acc
    } else if n % 2 == 1 {
        let f = fr[used as int];
        let next = match acc {
            None => f,
            Some(a) => spec_h_pair(f, a),
        };
        fold_frontier(fr, n / 2, used + 1, Some(next))
    } else {
        fold_frontier(fr, n / 2, used, acc)
    }
}

/// The root of a frontier with `count` leaves: the empty root for none; otherwise
/// the fold of one entry per set bit, which needs exactly that many entries.
pub open spec fn frontier_root(fr: Seq<Seq<u8>>, count: u64) -> Option<Seq<u8>> {
    if count == 0 {
        Some(empty_root())
    } else if fr.len() != popcount(count as nat) {
        None
    } else {
        fold_frontier(fr, count as nat, 0, None)
    }
}

/// The number of trailing one bits of `n`.
pub open spec fn trailing_ones(n: nat) -> nat
    decreases n,
{
    if n % 2 == 1 { 1 + trailing_ones(n / 2) } else { 0 }
}

/// The carried node and the level it lands on, appending `cur` at count `c` from
/// level `lvl`.
pub open spec fn carry(fr: Seq<Seq<u8>>, c: nat, lvl: nat, cur: Seq<u8>) -> (Seq<u8>, nat)
    decreases c,
{
    if c % 2 == 1 { carry(fr, c / 2, lvl + 1, spec_h_pair(fr[lvl as int], cur)) } else { (cur, lvl) }
}

/// Appending a leaf at `count` reads only entries that exist.
pub open spec fn reads_ok(fr: Seq<Seq<u8>>, count: u64) -> bool {
    trailing_ones(count as nat) <= fr.len()
}

/// The frontier after appending `leaf` at `count`: the carried node stored at its
/// level, the frontier first grown with zero entries where it is too short.
pub open spec fn appended(fr: Seq<Seq<u8>>, count: u64, leaf: Seq<u8>) -> Seq<Seq<u8>> {
    let (v, l) = carry(fr, count as nat, 0, leaf);
    let grown = if fr.len() <= l {
        fr + Seq::new((l + 1 - fr.len()) as nat, |i: int| empty_root())
    } else {
        fr
    };
    grown.update(l as int, v)
}

/// The views of a frontier.
pub open spec fn views(fr: Seq<Hash32>) -> Seq<Seq<u8>> {
    fr.map_values(|h: Hash32| h@)
}

fn zero_hash() -> (h: Hash32)
    ensures
        h@ == empty_root(),
{
    let h = [0u8; 32];
    assert(h@ =~= empty_root());
    h
}

fn h_pair_exec(l: &Hash32, r: &Hash32) -> (h: Hash32)
    ensures
        h@ == spec_h_pair(l@, r@),
{
    let k = agg_priv_key_bytes();
    let t = crate::tags::node_v1_bytes();
    let mut d: Vec<u8> = Vec::new();
    append_bytes(&mut d, l);
    append_bytes(&mut d, r);
    let v = crate::hashing::tk_kmac256(k.as_slice(), t.as_slice(), d.as_slice(), 32);
    let h = crate::bytes::to_array32(v.as_slice());
    assert(h@ =~= v@);
    h
}

fn h_leaf_exec(pt: &[u8; 32]) -> (h: Hash32)
    ensures
        h@ == spec_h_leaf(pt@),
{
    let k = agg_priv_key_bytes();
    let t = crate::tags::leaf_v1_bytes();
    let v = crate::hashing::tk_kmac256(k.as_slice(), t.as_slice(), pt, 32);
    let h = crate::bytes::to_array32(v.as_slice());
    assert(h@ =~= v@);
    h
}

/// The tag of a claim journal: KMAC256 of its words' little-endian bytes.
pub fn kmac32_words(words: &[u32]) -> (h: Hash32)
    ensures
        h@ == claim_tag(words@),
{
    let mut d: Vec<u8> = Vec::new();
    let mut i: usize = 0;
    while i < words.len()
        invariant
            i <= words@.len(),
            d@ == words_bytes(words@.subrange(0, i as int)),
        decreases words@.len() - i,
    {
        let b = vstd::bytes::u32_to_le_bytes(words[i]);
        append_bytes(&mut d, b.as_slice());
        proof {
            assert(words@.subrange(0, i + 1).drop_last() =~= words@.subrange(0, i as int));
        }
        i = i + 1;
    }
    assert(words@.subrange(0, words@.len() as int) =~= words@);
    let k = agg_priv_key_bytes();
    let t = claim_v1_bytes();
    let v = crate::hashing::tk_kmac256(k.as_slice(), t.as_slice(), d.as_slice(), 32);
    let h = crate::bytes::to_array32(v.as_slice());
    assert(h@ =~= v@);
    h
}

/// The number of set bits of `n`.
fn popcount_exec(n: u64) -> (c: usize)
    ensures
        c == popcount(n as nat),
{
    let mut m: u64 = n;
    let mut c: usize = 0;
    proof {
        lemma_popcount_bound(n as nat);
    }
    while m > 0
        invariant
            c + popcount(m as nat) == popcount(n as nat),
            popcount(n as nat) <= 64,
        decreases m,
    {
        if m % 2 == 1 {
            c = c + 1;
        }
        m = m / 2;
    }
    c
}

/// Whether the frontier holds one entry per set bit of `count` (any frontier fits a
/// zero count).
fn frontier_fits(frontier: &[Hash32], count: u64) -> (b: bool)
    ensures
        b == (frontier_root(views(frontier@), count) is Some),
{
    if count == 0 {
        return true;
    }
    proof {
        lemma_fold_some(views(frontier@), count as nat, 0, None);
    }
    popcount_exec(count) == frontier.len()
}

/// The root of the frontier: the empty root for a zero count, else the peaks folded
/// lowest first. The frontier must hold one entry per set bit of `count`.
pub fn root_from_frontier(frontier: &[Hash32], count: u64) -> (r: Hash32)
    requires
        count == 0 || frontier@.len() == popcount(count as nat),
    ensures
        Some(r@) == frontier_root(views(frontier@), count),
{
    if count == 0 {
        return zero_hash();
    }
    let mut used: usize = 0;
    let mut acc: Option<Hash32> = None;
    let mut n: u64 = count;
    let ghost full = fold_frontier(views(frontier@), count as nat, 0, None);
    while n > 0
        invariant
            used as nat + popcount(n as nat) == frontier@.len(),
            fold_frontier(views(frontier@), n as nat, used as nat, opt_view(acc)) == full,
            count > 0,
        decreases n,
    {
        if n % 2 == 1 {
            let f = frontier[used];
            let next = match acc {
                None => f,
                Some(a) => h_pair_exec(&f, &a),
            };
            acc = Some(next);
            used = used + 1;
        }
        n = n / 2;
    }
    proof {
        lemma_fold_some(views(frontier@), count as nat, 0, None);
        assert(opt_view(acc) == full);
    }
    match acc {
        Some(a) => a,
        None => zero_hash(),
    }
}

/// A fold over a nonzero count ends with some root.
proof fn lemma_fold_some(fr: Seq<Seq<u8>>, n: nat, used: nat, acc: Option<Seq<u8>>)
    requires
        n > 0 || acc is Some,
    ensures
        fold_frontier(fr, n, used, acc) is Some,
    decreases n,
{
    if n > 0 {
        if n % 2 == 1 {
            let f = fr[used as int];
            let next = match acc {
                None => f,
                Some(a) => spec_h_pair(f, a),
            };
            lemma_fold_some(fr, n / 2, used + 1, Some(next));
        } else {
            lemma_fold_some(fr, n / 2, used, acc);
        }
    }
}

/// Appends a leaf to the frontier: while the count's low bit is set, the node is
/// hashed under the entry of that level and carried up; it is stored at the level
/// reached, the frontier first grown with a zero entry where it is too short.
pub fn append_leaf(frontier: &mut Vec<Hash32>, count: &mut u64, leaf: Hash32)
    requires
        reads_ok(views(old(frontier)@), *old(count)),
        *old(count) < u64::MAX,
    ensures
        views(final(frontier)@) == appended(views(old(frontier)@), *old(count), leaf@),
        *final(count) == *old(count) + 1,
{
    let ghost fr0 = frontier@;
    let ghost count0 = *count;
    let mut lvl: usize = 0;
    let mut c: u64 = *count;
    let mut cur = leaf;
    let flen = frontier.len();
    while c % 2 == 1
        invariant
            frontier@ == fr0,
            flen == fr0.len(),
            lvl as nat + trailing_ones(c as nat) == trailing_ones(count0 as nat),
            trailing_ones(count0 as nat) <= fr0.len(),
            carry(views(fr0), c as nat, lvl as nat, cur@) == carry(views(fr0), count0 as nat, 0, leaf@),
        decreases c,
    {
        assert(lvl < frontier@.len());
        let left = frontier[lvl];
        cur = h_pair_exec(&left, &cur);
        c = c / 2;
        lvl = lvl + 1;
    }
    let ghost base = views(fr0);
    while frontier.len() <= lvl
        invariant
            fr0.len() <= frontier@.len(),
            frontier@.len() == fr0.len() || frontier@.len() <= lvl + 1,
            lvl <= fr0.len(),
            views(frontier@) == base + Seq::new((frontier@.len() - fr0.len()) as nat, |i: int| empty_root()),
        decreases lvl + 1 - frontier@.len(),
    {
        let ghost before = frontier@;
        frontier.push(zero_hash());
        proof {
            assert(views(frontier@) =~= views(before).push(empty_root()));
            assert(base + Seq::new((frontier@.len() - fr0.len()) as nat, |i: int| empty_root())
                =~= (base + Seq::new((before.len() - fr0.len()) as nat, |i: int| empty_root())).push(empty_root()));
        }
    }
    let ghost grown = frontier@;
    frontier.set(lvl, cur);
    proof {
        assert(carry(views(fr0), c as nat, lvl as nat, cur@) == (cur@, lvl as nat));
        assert(views(frontier@) =~= views(grown).update(lvl as int, cur@));
        if fr0.len() > lvl {
            assert(grown.len() == fr0.len());
            assert(views(grown) =~= base);
        } else {
            assert(grown.len() == lvl + 1);
        }
    }
    *count = *count + 1;
}

/// The field `f` of the first `n` claims, one after another.
pub open spec fn flat(claims: Seq<PrivClaim>, n: int, f: spec_fn(PrivClaim) -> Seq<Hash32>) -> Seq<Hash32>
    decreases n,
{
    if n <= 0 { Seq::empty() } else { flat(claims, n - 1, f) + f(claims[n - 1]) }
}

/// The first size limit that one of the first `n` children breaks, the receipt of a
/// child before its journal.
pub open spec fn child_error(receipts: Seq<Vec<u32>>, journals: Seq<Vec<u32>>, n: int) -> Option<AggError>
    decreases n,
{
    if n <= 0 {
        None
    } else {
        match child_error(receipts, journals, n - 1) {
            Some(e) => Some(e),
            None => if receipts[n - 1]@.len() > MAX_CHILD_WORDS {
                Some(AggError::ChildReceiptTooBig)
            } else if journals[n - 1]@.len() > MAX_CHILD_WORDS {
                Some(AggError::ChildJournalTooBig)
            } else {
                None
            },
        }
    }
}

/// The frontier and count after appending the first `n` leaves in turn, or the rule
/// that an append breaks: an entry it would read is missing, or the count overflows.
pub open spec fn append_all(fr: Seq<Seq<u8>>, count: u64, leaves: Seq<Seq<u8>>, n: int) -> Result<(Seq<Seq<u8>>, u64), AggError>
    decreases n,
{
    if n <= 0 {
        Ok((fr, count))
    } else {
        match append_all(fr, count, leaves, n - 1) {
            Err(e) => Err(e),
            Ok((f, c)) => if !reads_ok(f, c) {
                Err(AggError::FrontierTooShort)
            } else if c == u64::MAX {
                Err(AggError::CountOverflow)
            } else {
                Ok((appended(f, c, leaves[n - 1]), (c + 1) as u64))
            },
        }
    }
}

/// Two positions of `s` hold the same hash.
pub open spec fn has_duplicate(s: Seq<Hash32>) -> bool {
    exists|i: int, j: int| 0 <= i < j < s.len() && s[i] == s[j]
}

/// Strictly ascending in the lexicographic order of the bytes.
pub open spec fn strictly_ascending(s: Seq<Hash32>) -> bool {
    forall|i: int, j: int| 0 <= i < j < s.len() ==> (#[trigger] s[i]).key_lt(#[trigger] s[j])
}

/// The hashes in ascending order, or `None` where one occurs twice.
pub fn sort_unique(nfs: &[Hash32]) -> (r: Option<Vec<Hash32>>)
    ensures
        r is None <==> has_duplicate(nfs@),
        r matches Some(v) ==> strictly_ascending(v@) && v@.len() == nfs@.len() && forall|x: Hash32|
            v@.contains(x) <==> nfs@.contains(x),
{
    let mut m: OrdMap<Hash32, ()> = OrdMap::new();
    let mut i: usize = 0;
    while i < nfs.len()
        invariant
            i <= nfs@.len(),
            m.wf(),
            m.entries().len() == i,
            forall|k: Hash32| m.view().contains_key(k) <==> exists|j: int| 0 <= j < i && nfs@[j] == k,
            forall|a: int, b: int| 0 <= a < b < i ==> nfs@[a] != nfs@[b],
        decreases nfs@.len() - i,
    {
        let x = nfs[i];
        if m.contains_key(&x) {
            proof {
                let j = choose|j: int| 0 <= j < i && nfs@[j] == x;
                assert(0 <= j < i < nfs@.len() && nfs@[j] == nfs@[i as int]);
            }
            return None;
        }
        proof {
            m.lemma_entries_in_view();
        }
        m.insert(x, ());
        proof {
            m.lemma_entries_in_view();
            assert forall|k: Hash32| m.view().contains_key(k) <==> exists|j: int| 0 <= j < i + 1 && nfs@[j] == k by {
                if k == x {
                    assert(nfs@[i as int] == k);
                }
            }
        }
        i = i + 1;
    }
    let mut v: Vec<Hash32> = Vec::new();
    let mut j: usize = 0;
    while j < m.len()
        invariant
            m.wf(),
            j <= m.entries().len(),
            v@.len() == j,
            forall|a: int| 0 <= a < j ==> v@[a] == (#[trigger] m.entries()[a]).0,
        decreases m.entries().len() - j,
    {
        v.push(m.key_at(j));
        j = j + 1;
    }
    proof {
        assert forall|x: Hash32| v@.contains(x) <==> nfs@.contains(x) by {
            m.lemma_view(x);
            if v@.contains(x) {
                let a = choose|a: int| 0 <= a < v@.len() && v@[a] == x;
                assert(m.entries()[a].0 == x);
            }
            if nfs@.contains(x) {
                let b = choose|b: int| 0 <= b < nfs@.len() && nfs@[b] == x;
                assert(m.view().contains_key(x));
                let a = choose|a: int| 0 <= a < m.entries().len() && (#[trigger] m.entries()[a]).0 == x;
                assert(v@[a] == x);
            }
        }
        assert forall|a: int, b: int| 0 <= a < b < v@.len() implies (#[trigger] v@[a]).key_lt(#[trigger] v@[b]) by {
            assert(v@[a] == m.entries()[a].0 && v@[b] == m.entries()[b].0);
        }
    }
    Some(v)
}

/// The nullifiers of a claim.
pub open spec fn nullifiers_field() -> spec_fn(PrivClaim) -> Seq<Hash32> {
    |c: PrivClaim| c.nullifiers@
}

/// The outputs of a claim.
pub open spec fn outputs_field() -> spec_fn(PrivClaim) -> Seq<Hash32> {
    |c: PrivClaim| c.outputs@
}

/// The encrypted hints of a claim.
pub open spec fn hints_field() -> spec_fn(PrivClaim) -> Seq<Hash32> {
    |c: PrivClaim| c.enc_hints@
}

/// The fingerprints of a claim's inputs.
pub open spec fn pqc_in_field() -> spec_fn(PrivClaim) -> Seq<Hash32> {
    |c: PrivClaim| c.pqc_fingerprints_in@
}

/// The fingerprints of a claim's outputs.
pub open spec fn pqc_out_field() -> spec_fn(PrivClaim) -> Seq<Hash32> {
    |c: PrivClaim| c.pqc_fingerprints_out@
}

/// The leaf of each output.
pub open spec fn leaves_of(outs: Seq<Hash32>) -> Seq<Seq<u8>> {
    outs.map_values(|o: Hash32| spec_h_leaf(o@))
}

/// The frontier and count after the outputs of all claims are appended.
pub open spec fn notes_after(inp: AggPrivInput, claims: Seq<PrivClaim>) -> Result<(Seq<Seq<u8>>, u64), AggError> {
    let outs = flat(claims, claims.len() as int, outputs_field());
    append_all(views(inp.old_frontier@), inp.old_notes_count, leaves_of(outs), outs.len() as int)
}

/// The first rule that the aggregation of `claims` under `inp` breaks, in the order
/// in which they are checked, or `None`.
pub open spec fn agg_error(inp: AggPrivInput, claims: Seq<PrivClaim>) -> Option<AggError> {
    let rs = inp.claim_receipts_words@;
    let js = inp.claim_journals_words@;
    let n = claims.len() as int;
    let old = frontier_root(views(inp.old_frontier@), inp.old_notes_count);
    if rs.len() > MAX_CHILDREN {
        Some(AggError::TooManyChildren)
    } else if js.len() != rs.len() {
        Some(AggError::ReceiptsJournalsMismatch)
    } else if claims.len() != js.len() {
        Some(AggError::ClaimsMismatch)
    } else if old is None {
        Some(AggError::BadOldFrontier)
    } else if old != Some(inp.old_notes_root@) {
        Some(AggError::OldRootMismatch)
    } else if child_error(rs, js, n) is Some {
        child_error(rs, js, n)
    } else if flat(claims, n, outputs_field()).len() > MAX_OUTS_TOTAL {
        Some(AggError::TooManyOutputs)
    } else if flat(claims, n, hints_field()).len() > MAX_HINTS_TOTAL {
        Some(AggError::TooManyHints)
    } else {
        match notes_after(inp, claims) {
            Err(e) => Some(e),
            Ok((f, c)) => if frontier_root(f, c) is None {
                Some(AggError::BadNewFrontier)
            } else if has_duplicate(flat(claims, n, nullifiers_field())) {
                Some(AggError::DuplicateNullifier)
            } else {
                None
            },
        }
    }
}

/// Appends each hash of `src` to `dst`.
fn extend_hashes(dst: &mut Vec<Hash32>, src: &[Hash32])
    ensures
        final(dst)@ == old(dst)@ + src@,
{
    let ghost start = dst@;
    let mut i: usize = 0;
    while i < src.len()
        invariant
            i <= src@.len(),
            dst@ == start + src@.subrange(0, i as int),
        decreases src@.len() - i,
    {
        dst.push(src[i]);
        proof {
            assert(start + src@.subrange(0, i + 1) =~= (start + src@.subrange(0, i as int)).push(src@[i as int]));
        }
        i = i + 1;
    }
    assert(src@.subrange(0, src@.len() as int) =~= src@);
}

proof fn lemma_trailing_le_popcount(n: nat)
    ensures
        trailing_ones(n) <= popcount(n),
    decreases n,
{
    if n % 2 == 1 {
        lemma_trailing_le_popcount(n / 2);
    }
}

/// The number of trailing one bits of `n`.
fn trailing_ones_exec(n: u64) -> (t: usize)
    ensures
        t == trailing_ones(n as nat),
{
    let mut m: u64 = n;
    let mut t: usize = 0;
    proof {
        lemma_trailing_le_popcount(n as nat);
        lemma_popcount_bound(n as nat);
    }
    while m % 2 == 1
        invariant
            t + trailing_ones(m as nat) == trailing_ones(n as nat),
            trailing_ones(n as nat) <= 64,
        decreases m,
    {
        t = t + 1;
        m = m / 2;
    }
    t
}

/// Aggregates the decoded claims of a block's child proofs: checks the limits and the
/// old frontier against its root, tags each claim journal, appends every output's leaf
/// to the notes tree, and sorts the nullifiers, which must all differ. The child
/// receipts are verified, and their journals decoded into `claims`, by the caller.
pub fn aggregate_claims(inp: &AggPrivInput, claims: &[PrivClaim]) -> (r: Result<AggPrivJournal, AggError>)
    ensures
        r is Err <==> agg_error(*inp, claims@) is Some,
        r matches Err(e) ==> agg_error(*inp, claims@) == Some(e),
        r matches Ok(j) ==> {
            let n = claims@.len() as int;
            let nfs = flat(claims@, n, nullifiers_field());
            &&& notes_after(*inp, claims@) == Ok::<(Seq<Seq<u8>>, u64), AggError>((views(j.new_frontier@), j.new_notes_count))
            &&& frontier_root(views(j.new_frontier@), j.new_notes_count) == Some(j.new_notes_root@)
            &&& strictly_ascending(j.nullifiers@)
            &&& j.nullifiers@.len() == nfs.len()
            &&& forall|x: Hash32| j.nullifiers@.contains(x) <==> nfs.contains(x)
            &&& j.enc_hints@ == flat(claims@, n, hints_field())
            &&& j.outputs_count == flat(claims@, n, outputs_field()).len()
            &&& views(j.child_claim_tags@) == inp.claim_journals_words@.map_values(|w: Vec<u32>| claim_tag(w@))
            &&& j.pqc_fingerprints_in@ == flat(claims@, n, pqc_in_field())
            &&& j.pqc_fingerprints_out@ == flat(claims@, n, pqc_out_field())
        },
{
    let rs = &inp.claim_receipts_words;
    let js = &inp.claim_journals_words;
    if rs.len() > MAX_CHILDREN {
        return Err(AggError::TooManyChildren);
    }
    if js.len() != rs.len() {
        return Err(AggError::ReceiptsJournalsMismatch);
    }
    if claims.len() != js.len() {
        return Err(AggError::ClaimsMismatch);
    }
    if !frontier_fits(inp.old_frontier.as_slice(), inp.old_notes_count) {
        return Err(AggError::BadOldFrontier);
    }
    let calc_old = root_from_frontier(inp.old_frontier.as_slice(), inp.old_notes_count);
    if !eq32(&calc_old, &inp.old_notes_root) {
        return Err(AggError::OldRootMismatch);
    }
    let mut all_nfs: Vec<Hash32> = Vec::new();
    let mut all_outs: Vec<Hash32> = Vec::new();
    let mut all_hints: Vec<Hash32> = Vec::new();
    let mut child_tags: Vec<Hash32> = Vec::new();
    let mut all_pqc_in: Vec<Hash32> = Vec::new();
    let mut all_pqc_out: Vec<Hash32> = Vec::new();
    let mut i: usize = 0;
    while i < rs.len()
        invariant
            i <= rs@.len(),
            rs@.len() <= MAX_CHILDREN,
            frontier_root(views(inp.old_frontier@), inp.old_notes_count) == Some(inp.old_notes_root@),
            js@.len() == rs@.len(),
            claims@.len() == js@.len(),
            rs@ == inp.claim_receipts_words@,
            js@ == inp.claim_journals_words@,
            child_error(rs@, js@, i as int) is None,
            all_nfs@ == flat(claims@, i as int, nullifiers_field()),
            all_outs@ == flat(claims@, i as int, outputs_field()),
            all_hints@ == flat(claims@, i as int, hints_field()),
            all_pqc_in@ == flat(claims@, i as int, pqc_in_field()),
            all_pqc_out@ == flat(claims@, i as int, pqc_out_field()),
            views(child_tags@) == js@.subrange(0, i as int).map_values(|w: Vec<u32>| claim_tag(w@)),
        decreases rs@.len() - i,
    {
        if rs[i].len() > MAX_CHILD_WORDS {
            proof {
                lemma_child_error_stays(rs@, js@, i + 1, claims@.len() as int);
            }
            return Err(AggError::ChildReceiptTooBig);
        }
        if js[i].len() > MAX_CHILD_WORDS {
            proof {
                lemma_child_error_stays(rs@, js@, i + 1, claims@.len() as int);
            }
            return Err(AggError::ChildJournalTooBig);
        }
        let tag = kmac32_words(js[i].as_slice());
        let ghost tags_before = child_tags@;
        child_tags.push(tag);
        proof {
            assert(views(child_tags@) =~= views(tags_before).push(tag@));
            assert(js@.subrange(0, i + 1).map_values(|w: Vec<u32>| claim_tag(w@))
                =~= js@.subrange(0, i as int).map_values(|w: Vec<u32>| claim_tag(w@)).push(claim_tag(js@[i as int]@)));
        }
        let c = &claims[i];
        extend_hashes(&mut all_nfs, c.nullifiers.as_slice());
        extend_hashes(&mut all_outs, c.outputs.as_slice());
        extend_hashes(&mut all_hints, c.enc_hints.as_slice());
        extend_hashes(&mut all_pqc_in, c.pqc_fingerprints_in.as_slice());
        extend_hashes(&mut all_pqc_out, c.pqc_fingerprints_out.as_slice());
        i = i + 1;
    }
    proof {
        assert(js@.subrange(0, js@.len() as int) =~= js@);
    }
    if all_outs.len() > MAX_OUTS_TOTAL {
        return Err(AggError::TooManyOutputs);
    }
    if all_hints.len() > MAX_HINTS_TOTAL {
        return Err(AggError::TooManyHints);
    }
    let mut cnt: u64 = inp.old_notes_count;
    let mut fr: Vec<Hash32> = Vec::new();
    extend_hashes(&mut fr, inp.old_frontier.as_slice());
    let ghost leaves = leaves_of(all_outs@);
    let mut k: usize = 0;
    while k < all_outs.len()
        invariant
            k <= all_outs@.len(),
            leaves == leaves_of(all_outs@),
            agg_error(*inp, claims@) == match notes_after(*inp, claims@) {
                Err(e) => Some(e),
                Ok((f, c)) => if frontier_root(f, c) is None {
                    Some(AggError::BadNewFrontier)
                } else if has_duplicate(all_nfs@) {
                    Some(AggError::DuplicateNullifier)
                } else {
                    None
                },
            },
            notes_after(*inp, claims@) == append_all(views(inp.old_frontier@), inp.old_notes_count, leaves, all_outs@.len() as int),
            append_all(views(inp.old_frontier@), inp.old_notes_count, leaves, k as int) == Ok::<(Seq<Seq<u8>>, u64), AggError>((views(fr@), cnt)),
        decreases all_outs@.len() - k,
    {
        let leaf = h_leaf_exec(&all_outs[k]);
        let t = trailing_ones_exec(cnt);
        if t > fr.len() {
            proof {
                lemma_append_error_stays(views(inp.old_frontier@), inp.old_notes_count, leaves, k + 1, all_outs@.len() as int);
            }
            return Err(AggError::FrontierTooShort);
        }
        if cnt == u64::MAX {
            proof {
                lemma_append_error_stays(views(inp.old_frontier@), inp.old_notes_count, leaves, k + 1, all_outs@.len() as int);
            }
            return Err(AggError::CountOverflow);
        }
        append_leaf(&mut fr, &mut cnt, leaf);
        k = k + 1;
    }
    if !frontier_fits(fr.as_slice(), cnt) {
        return Err(AggError::BadNewFrontier);
    }
    let new_root = root_from_frontier(fr.as_slice(), cnt);
    let sorted = match sort_unique(all_nfs.as_slice()) {
        None => {
            return Err(AggError::DuplicateNullifier);
        },
        Some(v) => v,
    };
    let outputs_count = all_outs.len() as u32;
    Ok(AggPrivJournal {
        new_notes_root: new_root,
        new_notes_count: cnt,
        new_frontier: fr,
        nullifiers: sorted,
        enc_hints: all_hints,
        outputs_count,
        child_claim_tags: child_tags,
        pqc_fingerprints_in: all_pqc_in,
        pqc_fingerprints_out: all_pqc_out,
    })
}

proof fn lemma_child_error_stays(rs: Seq<Vec<u32>>, js: Seq<Vec<u32>>, a: int, b: int)
    requires
        0 <= a <= b,
        child_error(rs, js, a) is Some,
    ensures
        child_error(rs, js, b) == child_error(rs, js, a),
    decreases b - a,
{
    if a < b {
        lemma_child_error_stays(rs, js, a, b - 1);
    }
}

proof fn lemma_append_error_stays(fr: Seq<Seq<u8>>, count: u64, leaves: Seq<Seq<u8>>, a: int, b: int)
    requires
        0 <= a <= b,
        append_all(fr, count, leaves, a) is Err,
    ensures
        append_all(fr, count, leaves, b) == append_all(fr, count, leaves, a),
    decreases b - a,
{
    if a < b {
        lemma_append_error_stays(fr, count, leaves, a, b - 1);
    }
}

spec fn opt_view(a: Option<Hash32>) -> Option<Seq<u8>> {
    match a {
        Some(h) => Some(h@),
        None => None,
    }
}

proof fn lemma_popcount_bound(n: nat)
    requires
        n <= u64::MAX,
    ensures
        popcount(n) <= 64,
{
    vstd::arithmetic::power2::lemma2_to64();
    lemma_popcount_le_bits(n, 64);
}

proof fn lemma_popcount_le_bits(n: nat, b: nat)
    requires
        n < vstd::arithmetic::power2::pow2(b),
    ensures
        popcount(n) <= b,
    decreases b,
{
    if n > 0 {
        if b == 0 {
            vstd::arithmetic::power2::lemma2_to64();
        } else {
            vstd::arithmetic::power2::lemma_pow2_unfold(b);
            lemma_popcount_le_bits(n / 2, (b - 1) as nat);
        }
    }
}

} // verus!
