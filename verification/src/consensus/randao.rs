//! RANDAO beacon: commit `H(secret)`, reveal `secret`, beacon = XOR of reveals.
use vstd::prelude::*;
use crate::bytes::{append_bytes, le64, append_u64_le};
use crate::crypto::{kmac256_hash, spec_kmac256_hash_v2};
use crate::crypto_kmac_consensus::views_of;
use crate::ordmap::OrdMap;
use crate::consensus::types::NodeId;
use crate::tags::{randao_commit_legacy, randao_commit_legacy_bytes, beacon_slot, beacon_slot_bytes};

verus! {

/// Why a beacon operation was refused.
#[derive(Debug, Clone, Copy, PartialEq, Eq)]
pub enum RandaoError {
    AlreadyCommitted,
    NoCommitment,
    InvalidReveal,
    NoReveals,
}

/// Commitment to `secret`.
pub open spec fn spec_commitment(secret: Seq<u8>) -> Seq<u8> {
    spec_kmac256_hash_v2(randao_commit_legacy(), seq![secret])
}

/// Bytewise XOR of two 32-byte strings.
pub open spec fn xor32(a: Seq<u8>, b: Seq<u8>) -> Seq<u8> {
    Seq::new(32, |i: int| a[i] ^ b[i])
}

/// XOR of all revealed secrets.
pub open spec fn xor_all(reveals: Seq<(NodeId, [u8; 32])>) -> Seq<u8>
    decreases reveals.len(),
{
    if reveals.len() == 0 {
        Seq::new(32, |i: int| 0u8)
    } else {
        xor32(xor_all(reveals.drop_last()), reveals.last().1@)
    }
}

/// Slot randomness from the beacon value `base`.
pub open spec fn spec_slot_value(base: Seq<u8>, epoch: u64, slot: u64) -> Seq<u8> {
    spec_kmac256_hash_v2(beacon_slot(), seq![base, le64(epoch), le64(slot)])
}

/// Commit-reveal state of one epoch.
#[derive(Debug)]
pub struct RandaoBeacon {
    pub epoch: u64,
    pub commitments: OrdMap<NodeId, [u8; 32]>,
    pub reveals: OrdMap<NodeId, [u8; 32]>,
    pub beacon_value: Option<[u8; 32]>,
}

fn hash_one(label: &[u8], part: &[u8]) -> (out: [u8; 32])
    ensures
        out@ == spec_kmac256_hash_v2(label@, seq![part@]),
{
    let parts: [&[u8]; 1] = [part];
    let out = kmac256_hash(label, &parts);
    assert(views_of(parts@) =~= seq![part@]);
    out
}

impl RandaoBeacon {
    /// Both maps well formed.
    pub open spec fn wf(&self) -> bool {
        self.commitments.wf() && self.reveals.wf()
    }

    /// A fresh epoch.
    pub fn new(epoch: u64) -> (b: Self)
        ensures
            b.wf(),
            b.epoch == epoch,
            b.commitments.view() == Map::<NodeId, [u8; 32]>::empty(),
            b.reveals.view() == Map::<NodeId, [u8; 32]>::empty(),
            b.beacon_value.is_none(),
    {
        RandaoBeacon { epoch, commitments: OrdMap::new(), reveals: OrdMap::new(), beacon_value: None }
    }

    /// Records the commitment of `who`; a second commitment is refused.
    pub fn commit(&mut self, who: &NodeId, commitment: [u8; 32]) -> (r: Result<(), RandaoError>)
        requires
            old(self).wf(),
        ensures
            final(self).wf(),
            final(self).epoch == old(self).epoch,
            final(self).reveals == old(self).reveals,
            final(self).beacon_value == old(self).beacon_value,
            old(self).commitments.view().contains_key(*who) ==> r == Err::<(), RandaoError>(RandaoError::AlreadyCommitted)
                && final(self).commitments.view() == old(self).commitments.view(),
            !old(self).commitments.view().contains_key(*who) ==> r.is_ok()
                && final(self).commitments.view() == old(self).commitments.view().insert(*who, commitment),
    {
        if self.commitments.contains_key(who) {
            return Err(RandaoError::AlreadyCommitted);
        }
        self.commitments.insert(*who, commitment);
        Ok(())
    }

    /// Accepts `secret` from `who` when it opens `who`'s commitment.
    pub fn submit_reveal(&mut self, who: &NodeId, secret: [u8; 32]) -> (r: Result<(), RandaoError>)
        requires
            old(self).wf(),
        ensures
            final(self).wf(),
            final(self).epoch == old(self).epoch,
            final(self).commitments == old(self).commitments,
            final(self).beacon_value == old(self).beacon_value,
            !old(self).commitments.view().contains_key(*who) ==> r == Err::<(), RandaoError>(RandaoError::NoCommitment),
            old(self).commitments.view().contains_key(*who) && old(self).commitments.view()[*who]@ != spec_commitment(secret@)
                ==> r == Err::<(), RandaoError>(RandaoError::InvalidReveal),
            r.is_ok() <==> old(self).commitments.view().contains_key(*who)
                && old(self).commitments.view()[*who]@ == spec_commitment(secret@),
            r.is_ok() ==> final(self).reveals.view() == old(self).reveals.view().insert(*who, secret),
            r.is_err() ==> final(self).reveals == old(self).reveals,
    {
        let commitment = match self.commitments.get(who) {
            Some(c) => *c,
            None => return Err(RandaoError::NoCommitment),
        };
        let tag = randao_commit_legacy_bytes();
        let computed = hash_one(tag.as_slice(), &secret);
        if !crate::bytes::eq32(&computed, &commitment) {
            return Err(RandaoError::InvalidReveal);
        }
        self.reveals.insert(*who, secret);
        Ok(())
    }

    /// Sets the beacon to the XOR of all reveals; refused when nobody revealed.
    pub fn finalize(&mut self) -> (r: Result<[u8; 32], RandaoError>)
        requires
            old(self).wf(),
        ensures
            final(self).wf(),
            final(self).epoch == old(self).epoch,
            final(self).commitments == old(self).commitments,
            final(self).reveals == old(self).reveals,
            old(self).reveals.entries().len() == 0 ==> r == Err::<[u8; 32], RandaoError>(RandaoError::NoReveals)
                && final(self).beacon_value == old(self).beacon_value,
            old(self).reveals.entries().len() > 0 ==> r.is_ok() && r.unwrap()@ == xor_all(old(self).reveals.entries())
                && final(self).beacon_value == Some(r.unwrap()),
    {
        let n = self.reveals.len();
        if n == 0 {
            return Err(RandaoError::NoReveals);
        }
        let ghost rl = self.reveals.entries();
        let mut beacon = [0u8; 32];
        assert(beacon@ =~= xor_all(rl.subrange(0, 0)));
        let mut i: usize = 0;
        while i < n
            invariant
                n == rl.len(),
                rl == self.reveals.entries(),
                i <= n,
                beacon@ == xor_all(rl.subrange(0, i as int)),
            decreases n - i,
        {
            let secret = *self.reveals.value_at(i);
            let ghost before = beacon@;
            let mut k: usize = 0;
            while k < 32
                invariant
                    k <= 32,
                    forall|j: int| 0 <= j < k ==> beacon@[j] == before[j] ^ secret@[j],
                    forall|j: int| k <= j < 32 ==> beacon@[j] == before[j],
                decreases 32 - k,
            {
                beacon[k] = beacon[k] ^ secret[k];
                k = k + 1;
            }
            proof {
                assert(rl.subrange(0, i + 1).drop_last() =~= rl.subrange(0, i as int));
                assert(rl.subrange(0, i + 1).last() == rl[i as int]);
                assert(beacon@ =~= xor32(before, secret@));
            }
            i = i + 1;
        }
        assert(rl.subrange(0, n as int) =~= rl);
        self.beacon_value = Some(beacon);
        Ok(beacon)
    }

    /// Randomness of `(epoch, slot)` from the beacon value (zero before finalization).
    pub fn value(&self, epoch: u64, slot: u64) -> (v: [u8; 32])
        ensures
            v@ == spec_slot_value(
                match self.beacon_value { Some(b) => b@, None => Seq::new(32, |i: int| 0u8) },
                epoch,
                slot,
            ),
    {
        let base: [u8; 32] = match self.beacon_value {
            Some(b) => b,
            None => [0u8; 32],
        };
        proof {
            if self.beacon_value.is_none() {
                assert(base@ =~= Seq::new(32, |i: int| 0u8));
            }
        }
        let e = vstd::bytes::u64_to_le_bytes(epoch);
        let s = vstd::bytes::u64_to_le_bytes(slot);
        let parts: [&[u8]; 3] = [&base, e.as_slice(), s.as_slice()];
        let tag = beacon_slot_bytes();
        let out = kmac256_hash(tag.as_slice(), &parts);
        assert(views_of(parts@) =~= seq![base@, le64(epoch), le64(slot)]);
        out
    }
}

/// With a single reveal, the beacon is that reveal.
pub proof fn lemma_single_reveal_beacon(who: NodeId, secret: [u8; 32])
    ensures
        xor_all(seq![(who, secret)]) == secret@,
{
    let s = seq![(who, secret)];
    assert(s.drop_last() =~= Seq::<(NodeId, [u8; 32])>::empty());
    let z = Seq::new(32, |i: int| 0u8);
    assert(xor_all(s.drop_last()) == z);
    assert(xor_all(s) == xor32(z, secret@));
    assert forall|i: int| 0 <= i < 32 implies #[trigger] xor32(z, secret@)[i] == secret@[i] by {
        let x = secret@[i];
        assert(0u8 ^ x == x) by (bit_vector);
    }
    assert(xor_all(s) =~= secret@);
}

/// XOR-ing a reveal in twice cancels it.
pub proof fn lemma_xor_self_cancels(a: Seq<u8>, b: Seq<u8>)
    requires
        a.len() == 32,
        b.len() == 32,
    ensures
        xor32(xor32(a, b), b) == a,
{
    assert forall|i: int| 0 <= i < 32 implies #[trigger] xor32(xor32(a, b), b)[i] == a[i] by {
        let x = a[i];
        let y = b[i];
        assert((x ^ y) ^ y == x) by (bit_vector);
    }
    assert(xor32(xor32(a, b), b) =~= a);
}

} // verus!
