//! Equivocation detection and the stake/trust penalties of misbehaviour.
use vstd::prelude::*;
use crate::qmath::{Q, min_int};
use crate::pot::trust::{NodeId, TrustParams, TrustState};
use crate::pot::registry::{RegEntry, Registry};
use crate::pot::randao::{RandaoBeacon, spec_mix_all};

verus! {

/// A block proposal of `who` for `slot`.
#[derive(Clone, Copy)]
pub struct Proposal {
    pub who: NodeId,
    pub slot: u64,
    pub header_hash: [u8; 32],
}

/// The proposals all come from one proposer for one slot, with at least two different headers.
pub open spec fn spec_equivocation(ps: Seq<Proposal>) -> bool {
    &&& ps.len() > 0
    &&& forall|i: int| 0 <= i < ps.len() ==> (#[trigger] ps[i]).slot == ps[0].slot && ps[i].who == ps[0].who
    &&& exists|i: int| 0 <= i < ps.len() && (#[trigger] ps[i]).header_hash != ps[0].header_hash
}

/// An equivocation is one proposer signing two different headers for one slot:
/// proposals found to equivocate share a slot and a proposer, and two of them carry
/// different headers; proposals for two different slots, or from two different
/// proposers, never equivocate.
pub proof fn lemma_equivocation_is_one_slot_one_proposer(ps: Seq<Proposal>)
    ensures
        spec_equivocation(ps) ==> forall|i: int, j: int|
            0 <= i < ps.len() && 0 <= j < ps.len() ==> (#[trigger] ps[i]).slot == (#[trigger] ps[j]).slot
                && ps[i].who == ps[j].who,
        spec_equivocation(ps) ==> exists|i: int, j: int|
            0 <= i < ps.len() && 0 <= j < ps.len() && (#[trigger] ps[i]).header_hash != (#[trigger] ps[j]).header_hash,
        (exists|i: int, j: int|
            0 <= i < ps.len() && 0 <= j < ps.len() && ((#[trigger] ps[i]).slot != (#[trigger] ps[j]).slot || ps[i].who
                != ps[j].who)) ==> !spec_equivocation(ps),
        (forall|i: int, j: int|
            0 <= i < ps.len() && 0 <= j < ps.len() ==> (#[trigger] ps[i]).slot == (#[trigger] ps[j]).slot
                && ps[i].who == ps[j].who) && (exists|i: int, j: int|
            0 <= i < ps.len() && 0 <= j < ps.len() && (#[trigger] ps[i]).header_hash != (#[trigger] ps[j]).header_hash)
            ==> spec_equivocation(ps),
{
    if (forall|i: int, j: int|
        0 <= i < ps.len() && 0 <= j < ps.len() ==> (#[trigger] ps[i]).slot == (#[trigger] ps[j]).slot
            && ps[i].who == ps[j].who) && (exists|i: int, j: int|
        0 <= i < ps.len() && 0 <= j < ps.len() && (#[trigger] ps[i]).header_hash != (#[trigger] ps[j]).header_hash) {
        let (a, b) = choose|i: int, j: int|
            0 <= i < ps.len() && 0 <= j < ps.len() && (#[trigger] ps[i]).header_hash != (#[trigger] ps[j]).header_hash;
        assert(ps.len() > 0);
        assert forall|i: int| 0 <= i < ps.len() implies (#[trigger] ps[i]).slot == ps[0].slot && ps[i].who == ps[0].who by {
            assert(ps[i].slot == ps[0].slot && ps[i].who == ps[0].who);
        }
        if ps[a].header_hash != ps[0].header_hash {
            assert(exists|i: int| 0 <= i < ps.len() && (#[trigger] ps[i]).header_hash != ps[0].header_hash);
        } else {
            assert(ps[b].header_hash != ps[0].header_hash);
        }
    }
    if spec_equivocation(ps) {
        assert forall|i: int, j: int| 0 <= i < ps.len() && 0 <= j < ps.len() implies (#[trigger] ps[i]).slot == (
        #[trigger] ps[j]).slot && ps[i].who == ps[j].who by {
            assert(ps[i].slot == ps[0].slot && ps[i].who == ps[0].who);
            assert(ps[j].slot == ps[0].slot && ps[j].who == ps[0].who);
        }
        let k = choose|k: int| 0 <= k < ps.len() && (#[trigger] ps[k]).header_hash != ps[0].header_hash;
        assert(ps[k].header_hash != ps[0].header_hash);
    }
}

/// Whether `proposals` prove an equivocation.
pub fn detect_equivocation(proposals: &[Proposal]) -> (b: bool)
    ensures
        b == spec_equivocation(proposals@),
{
    if proposals.len() == 0 {
        return false;
    }
    let slot = proposals[0].slot;
    let who = proposals[0].who;
    let mut i: usize = 1;
    while i < proposals.len()
        invariant
            1 <= i <= proposals@.len(),
            slot == proposals@[0].slot,
            who == proposals@[0].who,
            forall|j: int| 0 <= j < i ==> (#[trigger] proposals@[j]).slot == slot && proposals@[j].who == who,
        decreases proposals@.len() - i,
    {
        let p = proposals[i];
        if p.slot != slot || !crate::bytes::eq32(&p.who, &who) {
            proof {
                if p.slot == slot {
                    assert(p.who != who) by {
                        if p.who == who {
                            assert(p.who@ == who@);
                        }
                    }
                }
            }
            return false;
        }
        proof {
            assert(p.who =~= who);
        }
        i = i + 1;
    }
    let first = proposals[0].header_hash;
    let mut k: usize = 1;
    while k < proposals.len()
        invariant
            1 <= k <= proposals@.len(),
            first == proposals@[0].header_hash,
            forall|j: int| 0 <= j < k ==> (#[trigger] proposals@[j]).header_hash == first,
            forall|j: int| 0 <= j < proposals@.len() ==> (#[trigger] proposals@[j]).slot == proposals@[0].slot && proposals@[j].who == proposals@[0].who,
        decreases proposals@.len() - k,
    {
        if !crate::bytes::eq32(&proposals[k].header_hash, &first) {
            proof {
                assert(proposals@[k as int].header_hash != first) by {
                    if proposals@[k as int].header_hash == first {
                        assert(proposals@[k as int].header_hash@ == first@);
                    }
                }
                assert(spec_equivocation(proposals@));
            }
            return true;
        }
        proof {
            assert(proposals@[k as int].header_hash =~= first);
        }
        k = k + 1;
    }
    false
}

/// Stake left after cutting `min(bps, 10000)` basis points from it.
pub open spec fn spec_slash_bps(stake: u64, bps: u32) -> u64 {
    (stake - min_int((stake as int) * min_int(bps as int, 10000) / 10000, stake as int)) as u64
}

/// Cuts `bps` basis points (at most all of it) from `stake`.
pub fn slash_bps(stake: u64, bps: u32) -> (r: u64)
    ensures
        r == spec_slash_bps(stake, bps),
        r <= stake,
{
    let bps = if bps < 10000 { bps } else { 10000 };
    proof {
        assert((stake as int) * (bps as int) <= (stake as int) * 10000) by (nonlinear_arith)
            requires bps <= 10000;
        assert((stake as int) * 10000 <= (u64::MAX as int) * 10000) by (nonlinear_arith);
    }
    let cut: u128 = ((stake as u128) * (bps as u128)) / 10000u128;
    let cut: u64 = if cut < stake as u128 { cut as u64 } else { stake };
    stake - cut
}

/// The registry after cutting `bps` basis points from the stake of everyone in `who`.
pub open spec fn slashed_registry(m: Map<NodeId, RegEntry>, who: Set<NodeId>, bps: u32) -> Map<NodeId, RegEntry> {
    Map::new(
        |w: NodeId| m.contains_key(w),
        |w: NodeId| if who.contains(w) { RegEntry { stake: spec_slash_bps(m[w].stake, bps), ..m[w] } } else { m[w] },
    )
}

/// The trust after resetting everyone in `who` to `init`.
pub open spec fn reset_trust(m: Map<NodeId, Q>, who: Set<NodeId>, init: Q) -> Map<NodeId, Q> {
    Map::new(|w: NodeId| m.contains_key(w) || who.contains(w), |w: NodeId| if who.contains(w) { init } else { m[w] })
}

/// Penalizes an equivocating `who`: trust back to `tp.init_q`, stake cut by `penalty_bps`.
pub fn slash_equivocation(reg: &mut Registry, trust: &mut TrustState, who: &NodeId, tp: TrustParams, penalty_bps: u32)
    requires
        old(reg).wf(),
        old(trust).wf(),
    ensures
        final(reg).wf(),
        final(trust).wf(),
        final(trust).view() == old(trust).view().insert(*who, tp.init_q),
        final(reg).view() == slashed_registry(old(reg).view(), set![*who], penalty_bps),
{
    trust.set(*who, tp.init_q);
    let st = reg.stake(who);
    let found = reg.set_stake(who, slash_bps(st, penalty_bps));
    proof {
        assert(final(reg).view() =~= slashed_registry(old(reg).view(), set![*who], penalty_bps));
    }
}

/// Finalizes `epoch` of the beacon and penalizes every committer that did not reveal:
/// stake cut by the beacon's no-reveal penalty, trust back to `tp.init_q`.  Returns the
/// epoch's beacon, which the beacon stores for the epoch. An epoch finalized before is
/// left as it is: the same beacon comes back and nobody is penalized again.
pub fn finalize_epoch_and_slash(
    beacon: &mut RandaoBeacon,
    epoch: u64,
    registry: &mut Registry,
    trust: &mut TrustState,
    tp: TrustParams,
) -> (val: [u8; 32])
    requires
        old(beacon).wf(),
        old(registry).wf(),
        old(trust).wf(),
    ensures
        final(beacon).wf(),
        final(registry).wf(),
        final(trust).wf(),
        final(beacon).finalized_of(epoch),
        final(beacon).beacon_of(epoch) == val@,
        final(beacon).seed_of(epoch) == old(beacon).start_seed(epoch),
        final(beacon).slash_noreveal_bps == old(beacon).slash_noreveal_bps,
        final(beacon).commits_of(epoch) == old(beacon).commits_of(epoch),
        final(beacon).reveals_of(epoch) == old(beacon).reveals_of(epoch),
        forall|k: u64| k != epoch && #[trigger] old(beacon).epochs.view().contains_key(k) ==> final(beacon).epochs.view()[k] == old(beacon).epochs.view()[k],
        final(beacon).epochs.view().dom() == old(beacon).epochs.view().dom().insert(epoch),
        old(beacon).finalized_of(epoch) ==> val@ == old(beacon).beacon_of(epoch)
            && final(beacon).prev_beacon == old(beacon).prev_beacon
            && final(registry).view() == old(registry).view() && final(trust).view() == old(trust).view(),
        !old(beacon).finalized_of(epoch) ==> {
            let missing = old(beacon).commits_of(epoch).dom().difference(old(beacon).reveals_of(epoch).dom());
            &&& val@ == spec_mix_all(old(beacon).start_seed(epoch), old(beacon).reveal_list(epoch))
            &&& final(beacon).prev_beacon == val
            &&& final(registry).view() == slashed_registry(old(registry).view(), missing, old(beacon).slash_noreveal_bps)
            &&& final(trust).view() == reset_trust(old(trust).view(), missing, tp.init_q)
        },
{
    let (val, missing) = beacon.finalize_epoch(epoch);
    let bps = beacon.slash_noreveal_bps;
    let ghost reg0 = registry.view();
    let ghost tr0 = trust.view();
    let mut i: usize = 0;
    proof {
        assert(reg0 =~= slashed_registry(reg0, missing@.subrange(0, 0).to_set(), bps));
        assert(tr0 =~= reset_trust(tr0, missing@.subrange(0, 0).to_set(), tp.init_q));
    }
    while i < missing.len()
        invariant
            missing@.no_duplicates(),
            i <= missing@.len(),
            registry.wf(),
            trust.wf(),
            registry.view() == slashed_registry(reg0, missing@.subrange(0, i as int).to_set(), bps),
            trust.view() == reset_trust(tr0, missing@.subrange(0, i as int).to_set(), tp.init_q),
        decreases missing@.len() - i,
    {
        let who = missing[i];
        let ghost done = missing@.subrange(0, i as int).to_set();
        let ghost next = missing@.subrange(0, i + 1).to_set();
        proof {
            assert(next =~= done.insert(who)) by {
                assert(missing@.subrange(0, i + 1) =~= missing@.subrange(0, i as int).push(who));
                broadcast use vstd::seq_lib::group_seq_properties;
            }
            assert(!done.contains(who)) by {
                if done.contains(who) {
                    let j = choose|j: int| 0 <= j < i && missing@.subrange(0, i as int)[j] == who;
                    assert(missing@[j] == missing@[i as int]);
                }
            }
        }
        let st = registry.stake(&who);
        registry.set_stake(&who, slash_bps(st, bps));
        trust.set(who, tp.init_q);
        proof {
            assert(registry.view() =~= slashed_registry(reg0, next, bps));
            assert(trust.view() =~= reset_trust(tr0, next, tp.init_q));
        }
        i = i + 1;
    }
    proof {
        assert(missing@.subrange(0, missing@.len() as int) =~= missing@);
        if !old(beacon).finalized_of(epoch) {
            let ms = old(beacon).commits_of(epoch).dom().difference(old(beacon).reveals_of(epoch).dom());
            assert(missing@.to_set() =~= ms) by {
                assert forall|w: NodeId| missing@.to_set().contains(w) <==> ms.contains(w) by {
                    broadcast use vstd::seq_lib::group_seq_properties;
                }
            }
        } else {
            assert(missing@.to_set() =~= Set::<NodeId>::empty()) by {
                broadcast use vstd::seq_lib::group_seq_properties;
            }
            assert(registry.view() =~= reg0);
            assert(trust.view() =~= tr0);
        }
    }
    val
}

} // verus!
