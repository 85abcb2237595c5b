//! RANDAO commit-reveal beacon.
//!
//! Each epoch collects commitments `H(epoch, who, r)` and their reveals `r`.
//! An epoch's seed is the previous beacon when the epoch is first touched (by a
//! commit, a reveal or its finalization); the slot randomness of the epoch is
//! derived from that seed, so it stays the same through the epoch. Finalizing an
//! epoch mixes the reveals into its seed in ascending identifier order and makes
//! the result the previous beacon of the next epoch.
use vstd::prelude::*;
use crate::bytes::{append_bytes, append_u64_le, le64, eq32, is_zero32};
use crate::crypto_kmac_consensus::{kmac256_hash_data, spec_consensus_hash};
use crate::ordmap::{OrdMap, MapKey};
use crate::pot::trust::NodeId;
use crate::tags::{
    randao_commit_v1, randao_commit_v1_bytes, randao_slot_v1, randao_slot_v1_bytes, randao_mix_v1,
    randao_mix_v1_bytes,
};

verus! {

/// Commitment of `who` to `r` in `epoch`.
pub open spec fn spec_commit_hash(epoch: u64, who: Seq<u8>, r: Seq<u8>) -> Seq<u8> {
    spec_consensus_hash(randao_commit_v1(), le64(epoch) + who + r)
}

/// One mixing step of a reveal into the running beacon.
pub open spec fn spec_mix_hash(prev: Seq<u8>, who: Seq<u8>, r: Seq<u8>) -> Seq<u8> {
    spec_consensus_hash(randao_mix_v1(), prev + who + r)
}

/// The beacon obtained by mixing `reveals` (in order) into `seed`.
pub open spec fn spec_mix_all(seed: Seq<u8>, reveals: Seq<(NodeId, [u8; 32])>) -> Seq<u8>
    decreases reveals.len(),
{
    if reveals.len() == 0 {
        seed
    } else {
        spec_mix_hash(spec_mix_all(seed, reveals.drop_last()), reveals.last().0@, reveals.last().1@)
    }
}

/// Slot randomness from an epoch's base value.
pub open spec fn spec_slot_value(epoch: u64, slot: u64, base: Seq<u8>) -> Seq<u8> {
    spec_consensus_hash(randao_slot_v1(), le64(epoch) + le64(slot) + base)
}

/// Thirty-two zero bytes.
pub open spec fn zero32() -> Seq<u8> {
    Seq::new(32, |i: int| 0u8)
}

/// The commit-reveal state of one epoch.
#[derive(Debug)]
pub struct RandaoEpoch {
    pub commits: OrdMap<NodeId, [u8; 32]>,
    pub reveals: OrdMap<NodeId, [u8; 32]>,
    pub finalized: bool,
    /// The previous beacon when this epoch was first touched; the sortition seed of
    /// this epoch.
    pub seed: [u8; 32],
    /// The beacon computed from this epoch's reveals.
    pub beacon: [u8; 32],
}

impl RandaoEpoch {
    /// Both maps well formed.
    pub open spec fn wf(&self) -> bool {
        self.commits.wf() && self.reveals.wf()
    }

    /// An epoch nobody has committed in yet.
    pub fn fresh() -> (e: Self)
        ensures
            e.wf(),
            e.commits.view() == Map::<NodeId, [u8; 32]>::empty(),
            e.reveals.view() == Map::<NodeId, [u8; 32]>::empty(),
            e.reveals.entries() == Seq::<(NodeId, [u8; 32])>::empty(),
            e.commits.entries() == Seq::<(NodeId, [u8; 32])>::empty(),
            !e.finalized,
            e.seed@ == zero32(),
            e.beacon@ == zero32(),
    {
        let e = RandaoEpoch {
            commits: OrdMap::new(),
            reveals: OrdMap::new(),
            finalized: false,
            seed: [0u8; 32],
            beacon: [0u8; 32],
        };
        assert(e.seed@ =~= zero32());
        e
    }
}

/// The RANDAO beacon across epochs.
#[derive(Debug)]
pub struct RandaoBeacon {
    pub epochs: OrdMap<u64, RandaoEpoch>,
    pub prev_beacon: [u8; 32],
    pub slash_noreveal_bps: u32,
}

impl RandaoBeacon {
    /// All maps well formed.
    pub open spec fn wf(&self) -> bool {
        &&& self.epochs.wf()
        &&& forall|k: u64| #[trigger] self.epochs.view().contains_key(k) ==> self.epochs.view()[k].wf()
    }

    /// Whether `epoch` has any recorded state.
    pub open spec fn known(&self, epoch: u64) -> bool {
        self.epochs.view().contains_key(epoch)
    }

    /// Commitments of `epoch`.
    pub open spec fn commits_of(&self, epoch: u64) -> Map<NodeId, [u8; 32]> {
        if self.known(epoch) { self.epochs.view()[epoch].commits.view() } else { Map::empty() }
    }

    /// Accepted reveals of `epoch`.
    pub open spec fn reveals_of(&self, epoch: u64) -> Map<NodeId, [u8; 32]> {
        if self.known(epoch) { self.epochs.view()[epoch].reveals.view() } else { Map::empty() }
    }

    /// Accepted reveals of `epoch` in ascending identifier order.
    pub open spec fn reveal_list(&self, epoch: u64) -> Seq<(NodeId, [u8; 32])> {
        if self.known(epoch) { self.epochs.view()[epoch].reveals.entries() } else { Seq::empty() }
    }

    /// Whether `epoch` is finalized.
    pub open spec fn finalized_of(&self, epoch: u64) -> bool {
        self.known(epoch) && self.epochs.view()[epoch].finalized
    }

    /// Seed of `epoch` (zero while the epoch is unknown).
    pub open spec fn seed_of(&self, epoch: u64) -> Seq<u8> {
        if self.known(epoch) { self.epochs.view()[epoch].seed@ } else { zero32() }
    }

    /// The seed `epoch` has, or gets when it is first touched: the previous beacon.
    pub open spec fn start_seed(&self, epoch: u64) -> Seq<u8> {
        if self.known(epoch) { self.epochs.view()[epoch].seed@ } else { self.prev_beacon@ }
    }

    /// Beacon of `epoch` (zero until finalized).
    pub open spec fn beacon_of(&self, epoch: u64) -> Seq<u8> {
        if self.known(epoch) { self.epochs.view()[epoch].beacon@ } else { zero32() }
    }

    /// `new` agrees with `self` on every epoch other than `epoch`, on the previous beacon
    /// and on the no-reveal penalty.
    pub open spec fn same_except(&self, new: &Self, epoch: u64) -> bool {
        &&& new.prev_beacon == self.prev_beacon
        &&& new.slash_noreveal_bps == self.slash_noreveal_bps
        &&& new.epochs.view().dom() == self.epochs.view().dom().insert(epoch)
        &&& forall|k: u64| k != epoch && #[trigger] self.epochs.view().contains_key(k) ==> new.epochs.view()[k] == self.epochs.view()[k]
    }

    /// Base value of the slot randomness of `epoch`: its seed once the epoch is known
    /// (the previous beacon where a finalized epoch's seed is zero), else the previous
    /// beacon, which is the seed the epoch will get.
    pub open spec fn value_base(&self, epoch: u64) -> Seq<u8> {
        if self.known(epoch) {
            let e = self.epochs.view()[epoch];
            if e.finalized && e.seed@ == zero32() {
                self.prev_beacon@
            } else {
                e.seed@
            }
        } else {
            self.prev_beacon@
        }
    }

    /// Slot randomness of `(epoch, slot)`.
    pub open spec fn spec_value(&self, epoch: u64, slot: u64) -> Seq<u8> {
        spec_slot_value(epoch, slot, self.value_base(epoch))
    }

    /// Whether revealing `r` for `who` in `epoch` is accepted.
    pub open spec fn reveal_accepts(&self, epoch: u64, who: NodeId, r: [u8; 32]) -> bool {
        self.commits_of(epoch).contains_key(who) && self.commits_of(epoch)[who]@ == spec_commit_hash(
            epoch,
            who@,
            r@,
        )
    }

    /// A beacon with no epochs yet.
    pub fn new(slash_noreveal_bps: u32, genesis_beacon: [u8; 32]) -> (b: Self)
        ensures
            b.wf(),
            b.epochs.view() == Map::<u64, RandaoEpoch>::empty(),
            b.prev_beacon == genesis_beacon,
            b.slash_noreveal_bps == slash_noreveal_bps,
    {
        RandaoBeacon { epochs: OrdMap::new(), prev_beacon: genesis_beacon, slash_noreveal_bps }
    }

    /// Commitment of `who` to `r` in `epoch`.
    pub fn commit_hash(epoch: u64, who: &NodeId, r: &[u8; 32]) -> (h: [u8; 32])
        ensures
            h@ == spec_commit_hash(epoch, who@, r@),
    {
        let mut data: Vec<u8> = Vec::new();
        append_u64_le(&mut data, epoch);
        append_bytes(&mut data, who);
        append_bytes(&mut data, r);
        let tag = randao_commit_v1_bytes();
        kmac256_hash_data(tag.as_slice(), data.as_slice())
    }

    fn take_epoch(&mut self, epoch: u64) -> (e: RandaoEpoch)
        requires
            old(self).wf(),
        ensures
            e.wf(),
            final(self).epochs.wf(),
            forall|k: u64| #[trigger] final(self).epochs.view().contains_key(k) ==> final(self).epochs.view()[k].wf(),
            final(self).epochs.view() == old(self).epochs.view().remove(epoch),
            final(self).prev_beacon == old(self).prev_beacon,
            final(self).slash_noreveal_bps == old(self).slash_noreveal_bps,
            old(self).known(epoch) ==> e == old(self).epochs.view()[epoch],
            !old(self).known(epoch) ==> e.commits.view() == Map::<NodeId, [u8; 32]>::empty()
                && e.reveals.view() == Map::<NodeId, [u8; 32]>::empty()
                && e.reveals.entries() == Seq::<(NodeId, [u8; 32])>::empty()
                && e.commits.entries() == Seq::<(NodeId, [u8; 32])>::empty()
                && !e.finalized && e.seed == old(self).prev_beacon && e.beacon@ == zero32(),
    {
        match self.epochs.remove(&epoch) {
            Some(e) => e,
            None => {
                let mut e = RandaoEpoch::fresh();
                e.seed = self.prev_beacon;
                e
            },
        }
    }

    /// Records the commitment `c` of `who` for `epoch`.
    pub fn commit(&mut self, epoch: u64, who: NodeId, c: [u8; 32])
        requires
            old(self).wf(),
        ensures
            final(self).wf(),
            old(self).same_except(final(self), epoch),
            final(self).commits_of(epoch) == old(self).commits_of(epoch).insert(who, c),
            final(self).reveals_of(epoch) == old(self).reveals_of(epoch),
            final(self).reveal_list(epoch) == old(self).reveal_list(epoch),
            final(self).finalized_of(epoch) == old(self).finalized_of(epoch),
            final(self).known(epoch),
            final(self).seed_of(epoch) == old(self).start_seed(epoch),
            final(self).beacon_of(epoch) == old(self).beacon_of(epoch),
    {
        let mut e = self.take_epoch(epoch);
        e.commits.insert(who, c);
        self.epochs.insert(epoch, e);
        proof {
            assert(self.epochs.view().dom() =~= old(self).epochs.view().dom().insert(epoch));
        }
    }

    /// Accepts `r` as the reveal of `who` for `epoch` when it opens `who`'s commitment.
    pub fn submit_reveal(&mut self, epoch: u64, who: NodeId, r: [u8; 32]) -> (ok: bool)
        requires
            old(self).wf(),
        ensures
            final(self).wf(),
            ok == old(self).reveal_accepts(epoch, who, r),
            old(self).same_except(final(self), epoch),
            final(self).commits_of(epoch) == old(self).commits_of(epoch),
            final(self).reveals_of(epoch) == (if ok {
                old(self).reveals_of(epoch).insert(who, r)
            } else {
                old(self).reveals_of(epoch)
            }),
            !ok ==> final(self).reveal_list(epoch) == old(self).reveal_list(epoch),
            final(self).finalized_of(epoch) == old(self).finalized_of(epoch),
            final(self).known(epoch),
            final(self).seed_of(epoch) == old(self).start_seed(epoch),
            final(self).beacon_of(epoch) == old(self).beacon_of(epoch),
    {
        let mut e = self.take_epoch(epoch);
        let ok = match e.commits.get(&who) {
            None => false,
            Some(c) => {
                let h = Self::commit_hash(epoch, &who, &r);
                if !eq32(&h, c) {
                    false
                } else {
                    e.reveals.insert(who, r);
                    true
                }
            },
        };
        self.epochs.insert(epoch, e);
        proof {
            assert(self.epochs.view().dom() =~= old(self).epochs.view().dom().insert(epoch));
        }
        ok
    }

    /// Finalizes `epoch`: its beacon becomes the mix of its reveals, in ascending
    /// identifier order, into its seed (the previous beacon where the epoch was not
    /// touched before), and that beacon the new previous beacon.
    /// Returns the beacon and the committers that did not reveal.  A finalized epoch is
    /// left as it is and reports its beacon and nobody missing.
    pub fn finalize_epoch(&mut self, epoch: u64) -> (r: ([u8; 32], Vec<NodeId>))
        requires
            old(self).wf(),
        ensures
            final(self).wf(),
            final(self).known(epoch),
            final(self).slash_noreveal_bps == old(self).slash_noreveal_bps,
            final(self).commits_of(epoch) == old(self).commits_of(epoch),
            final(self).reveals_of(epoch) == old(self).reveals_of(epoch),
            final(self).reveal_list(epoch) == old(self).reveal_list(epoch),
            final(self).finalized_of(epoch),
            forall|k: u64| k != epoch && #[trigger] old(self).epochs.view().contains_key(k) ==> final(self).epochs.view()[k] == old(self).epochs.view()[k],
            final(self).epochs.view().dom() == old(self).epochs.view().dom().insert(epoch),
            old(self).finalized_of(epoch) ==> {
                &&& r.0@ == old(self).beacon_of(epoch)
                &&& r.1@ == Seq::<NodeId>::empty()
                &&& final(self).prev_beacon == old(self).prev_beacon
                &&& final(self).seed_of(epoch) == old(self).seed_of(epoch)
                &&& final(self).beacon_of(epoch) == old(self).beacon_of(epoch)
            },
            !old(self).finalized_of(epoch) ==> {
                &&& r.0@ == spec_mix_all(old(self).start_seed(epoch), old(self).reveal_list(epoch))
                &&& final(self).seed_of(epoch) == old(self).start_seed(epoch)
                &&& final(self).beacon_of(epoch) == r.0@
                &&& final(self).prev_beacon == r.0
                &&& r.1@.no_duplicates()
                &&& forall|w: NodeId| r.1@.contains(w) <==> old(self).commits_of(epoch).contains_key(w)
                    && !old(self).reveals_of(epoch).contains_key(w)
            },
    {
        let mut e = self.take_epoch(epoch);
        if e.finalized {
            let b = e.beacon;
            self.epochs.insert(epoch, e);
            proof {
                assert(self.epochs.view() =~= old(self).epochs.view());
            }
            return (b, Vec::new());
        }
        let seed = e.seed;
        let mut mix = seed;
        let n = e.reveals.len();
        let ghost rl = e.reveals.entries();
        let mut i: usize = 0;
        while i < n
            invariant
                n == rl.len(),
                rl == e.reveals.entries(),
                i <= n,
                mix@ == spec_mix_all(seed@, rl.subrange(0, i as int)),
            decreases n - i,
        {
            let who = e.reveals.key_at(i);
            let rv = *e.reveals.value_at(i);
            let mut data: Vec<u8> = Vec::new();
            append_bytes(&mut data, &mix);
            append_bytes(&mut data, &who);
            append_bytes(&mut data, &rv);
            let tag = randao_mix_v1_bytes();
            mix = kmac256_hash_data(tag.as_slice(), data.as_slice());
            proof {
                assert(rl.subrange(0, i + 1).drop_last() =~= rl.subrange(0, i as int));
                assert(rl.subrange(0, i + 1).last() == rl[i as int]);
            }
            i = i + 1;
        }
        proof {
            assert(rl.subrange(0, n as int) =~= rl);
        }
        e.beacon = mix;
        e.finalized = true;
        // committers without a reveal, in ascending identifier order
        let mut missing: Vec<NodeId> = Vec::new();
        let m = e.commits.len();
        let ghost cl = e.commits.entries();
        proof {
            e.commits.lemma_entries_in_view();
            assert forall|w: NodeId| e.commits.view().contains_key(w) implies exists|q: int| 0 <= q < cl.len() && (#[trigger] cl[q]).0 == w by {
                e.commits.lemma_view(w);
                let q = choose|q: int| 0 <= q < e.commits.entries().len() && (#[trigger] e.commits.entries()[q]).0 == w;
                assert(cl[q].0 == w);
            }
        }
        let mut j: usize = 0;
        while j < m
            invariant
                m == cl.len(),
                cl == e.commits.entries(),
                e.wf(),
                j <= m,
                crate::ordmap::sorted_keys(cl),
                forall|q: int| 0 <= q < cl.len() ==> e.commits.view().contains_key((#[trigger] cl[q]).0),
                forall|w: NodeId| e.commits.view().contains_key(w) ==> exists|q: int| 0 <= q < cl.len() && (#[trigger] cl[q]).0 == w,
                missing@.no_duplicates(),
                forall|w: NodeId| missing@.contains(w) <==> (exists|q: int| 0 <= q < j && (#[trigger] cl[q]).0 == w)
                    && !e.reveals.view().contains_key(w),
                forall|t: int, q: int| 0 <= t < missing@.len() && j <= q < m ==> (#[trigger] missing@[t]).key_lt(#[trigger] cl[q].0),
            decreases m - j,
        {
            let who = e.commits.key_at(j);
            if !e.reveals.contains_key(&who) {
                let ghost before = missing@;
                missing.push(who);
                proof {
                    assert forall|t: int, u: int| 0 <= t < u < missing@.len() implies missing@[t] != missing@[u] by {
                        if u == missing@.len() - 1 {
                            assert(missing@[t].key_lt(cl[j as int].0));
                            <[u8; 32] as crate::ordmap::MapKey>::lemma_key_trichotomy(who, who);
                        }
                    }
                    assert forall|w: NodeId| missing@.contains(w) <==> (exists|q: int| 0 <= q < j + 1 && (#[trigger] cl[q]).0 == w)
                        && !e.reveals.view().contains_key(w) by {
                        if missing@.contains(w) && w != who {
                            let t = choose|t: int| 0 <= t < missing@.len() && missing@[t] == w;
                            assert(before.contains(w)) by { assert(before[t] == w); }
                        }
                        if (exists|q: int| 0 <= q < j + 1 && (#[trigger] cl[q]).0 == w) && !e.reveals.view().contains_key(w) {
                            let q = choose|q: int| 0 <= q < j + 1 && (#[trigger] cl[q]).0 == w;
                            if q < j {
                                assert(before.contains(w));
                                let t = choose|t: int| 0 <= t < before.len() && before[t] == w;
                                assert(missing@[t] == w);
                            } else {
                                assert(missing@[missing@.len() - 1] == w);
                            }
                        }
                    }
                    assert forall|t: int, q: int| 0 <= t < missing@.len() && j + 1 <= q < m implies (#[trigger] missing@[t]).key_lt(#[trigger] cl[q].0) by {
                        if t == missing@.len() - 1 {
                            assert(cl[j as int].0.key_lt(cl[q].0));
                        } else {
                            assert(missing@[t] == before[t]);
                        }
                    }
                }
            } else {
                proof {
                    assert forall|w: NodeId| missing@.contains(w) <==> (exists|q: int| 0 <= q < j + 1 && (#[trigger] cl[q]).0 == w)
                        && !e.reveals.view().contains_key(w) by {
                        if (exists|q: int| 0 <= q < j + 1 && (#[trigger] cl[q]).0 == w) && !e.reveals.view().contains_key(w) {
                            let q = choose|q: int| 0 <= q < j + 1 && (#[trigger] cl[q]).0 == w;
                            if q == j {
                                assert(w == who);
                            }
                        }
                    }
                }
            }
            j = j + 1;
        }
        self.prev_beacon = mix;
        self.epochs.insert(epoch, e);
        proof {
            assert(self.epochs.view().dom() =~= old(self).epochs.view().dom().insert(epoch));
        }
        (mix, missing)
    }

    /// Slot randomness of `(epoch, slot)` from [`Self::value_base`].
    pub fn value(&self, epoch: u64, slot: u64) -> (v: [u8; 32])
        requires
            self.wf(),
        ensures
            v@ == self.spec_value(epoch, slot),
    {
        let base: [u8; 32] = match self.epochs.get(&epoch) {
            Some(e) => {
                if e.finalized && is_zero32(&e.seed) {
                    self.prev_beacon
                } else {
                    e.seed
                }
            },
            None => self.prev_beacon,
        };
        let mut data: Vec<u8> = Vec::new();
        append_u64_le(&mut data, epoch);
        append_u64_le(&mut data, slot);
        append_bytes(&mut data, &base);
        let tag = randao_slot_v1_bytes();
        kmac256_hash_data(tag.as_slice(), data.as_slice())
    }
}

/// After `commit` records `H(epoch, who, r)` for `who`, revealing `r` is accepted.
pub proof fn lemma_commit_then_reveal(b: RandaoBeacon, epoch: u64, who: NodeId, r: [u8; 32])
    requires
        b.commits_of(epoch).contains_key(who),
        b.commits_of(epoch)[who]@ == spec_commit_hash(epoch, who@, r@),
    ensures
        b.reveal_accepts(epoch, who, r),
{
}

/// The slot randomness of an epoch stays what it was before the epoch had any state,
/// through its commits and reveals and after its finalization, as long as the previous
/// beacon at its start was nonzero: every later state holds that beacon as the
/// epoch's seed.
pub proof fn lemma_value_stable_across_finalize(before: RandaoBeacon, later: RandaoBeacon, epoch: u64, slot: u64)
    requires
        !before.known(epoch),
        before.prev_beacon@ != zero32(),
        later.known(epoch),
        later.seed_of(epoch) == before.start_seed(epoch),
    ensures
        later.spec_value(epoch, slot) == before.spec_value(epoch, slot),
{
}

} // verus!
