//! Validator registry: bonded stake and activity flags.
use vstd::prelude::*;
use crate::ordmap::OrdMap;
use crate::pot::trust::NodeId;

verus! {

/// A registered validator.
#[derive(Clone, Copy)]
pub struct RegEntry {
    pub who: NodeId,
    pub stake: u64,
    pub active: bool,
}

/// Registered validators, kept in ascending identifier order.
pub struct Registry {
    map: OrdMap<NodeId, RegEntry>,
}

/// A validator counts toward consensus: active and bonded at least `min_bond`.
pub open spec fn eligible(e: RegEntry, min_bond: u64) -> bool {
    e.active && e.stake >= min_bond
}

impl Registry {
    /// The registered entries by identifier.
    pub closed spec fn view(&self) -> Map<NodeId, RegEntry> {
        self.map.view()
    }

    /// The entries in ascending identifier order.
    pub closed spec fn entries(&self) -> Seq<(NodeId, RegEntry)> {
        self.map.entries()
    }

    /// Internal consistency: entries ascending, each entry filed under its own identifier.
    pub closed spec fn wf(&self) -> bool {
        &&& self.map.wf()
        &&& forall|i: int| 0 <= i < self.map.entries().len() ==> (#[trigger] self.map.entries()[i]).1.who
            == self.map.entries()[i].0
    }

    /// Registries with the same contents list the same entries, whatever order the
    /// validators were registered in.
    pub proof fn lemma_same_view_same_entries(a: &Registry, b: &Registry)
        requires
            a.wf(),
            b.wf(),
            a.view() == b.view(),
        ensures
            a.entries() == b.entries(),
    {
        OrdMap::lemma_same_view_same_entries(&a.map, &b.map);
    }

    /// The ordering and denotation facts callers may rely on.
    pub proof fn lemma_wf(&self)
        requires
            self.wf(),
        ensures
            crate::ordmap::sorted_keys(self.entries()),
            forall|i: int|
                0 <= i < self.entries().len() ==> self.view().contains_key(
                    (#[trigger] self.entries()[i]).0,
                ) && self.view()[self.entries()[i].0] == self.entries()[i].1
                    && self.entries()[i].1.who == self.entries()[i].0,
            forall|w: NodeId| #[trigger] self.view().contains_key(w) ==> exists|i: int|
                0 <= i < self.entries().len() && (#[trigger] self.entries()[i]).0 == w,
            forall|w: NodeId| #[trigger] self.view().contains_key(w) ==> self.view()[w].who == w,
    {
        self.map.lemma_entries_in_view();
        assert forall|w: NodeId| #[trigger] self.view().contains_key(w) implies exists|i: int|
            0 <= i < self.entries().len() && (#[trigger] self.entries()[i]).0 == w by {
            self.map.lemma_view(w);
            let i = choose|i: int| 0 <= i < self.map.entries().len() && (#[trigger] self.map.entries()[i]).0 == w;
            assert(self.entries()[i].0 == w);
        }
        assert forall|w: NodeId| #[trigger] self.view().contains_key(w) implies self.view()[w].who == w by {
            self.map.lemma_view(w);
            let i = choose|i: int| 0 <= i < self.entries().len() && (#[trigger] self.entries()[i]).0 == w;
        }
    }

    /// Stake of `who`, zero when not registered.
    pub open spec fn stake_of(&self, who: NodeId) -> u64 {
        if self.view().contains_key(who) { self.view()[who].stake } else { 0 }
    }

    /// An empty registry.
    pub fn new() -> (r: Self)
        ensures
            r.wf(),
            r.view() == Map::<NodeId, RegEntry>::empty(),
    {
        Registry { map: OrdMap::new() }
    }

    /// Registers (or replaces) `who` with `stake` and activity `active`.
    pub fn insert(&mut self, who: NodeId, stake: u64, active: bool)
        requires
            old(self).wf(),
        ensures
            final(self).wf(),
            final(self).view() == old(self).view().insert(who, RegEntry { who, stake, active }),
    {
        proof {
            self.map.lemma_entries_in_view();
        }
        self.map.insert(who, RegEntry { who, stake, active });
        proof {
            let m = self.map;
            m.lemma_entries_in_view();
            assert forall|i: int| 0 <= i < m.entries().len() implies (#[trigger] m.entries()[i]).1.who
                == m.entries()[i].0 by {
                let k = m.entries()[i].0;
                if k != who {
                    old(self).map.lemma_view(k);
                    let j = choose|j: int| 0 <= j < old(self).map.entries().len() && (#[trigger] old(self).map.entries()[j]).0 == k;
                }
            }
        }
    }

    /// Whether `who` is active with at least `min_bond` staked.
    pub fn is_active(&self, who: &NodeId, min_bond: u64) -> (b: bool)
        requires
            self.wf(),
        ensures
            b <==> self.view().contains_key(*who) && eligible(self.view()[*who], min_bond),
    {
        match self.map.get(who) {
            Some(e) => e.active && e.stake >= min_bond,
            None => false,
        }
    }

    /// Stake of `who`, zero when not registered.
    pub fn stake(&self, who: &NodeId) -> (s: u64)
        requires
            self.wf(),
        ensures
            s == self.stake_of(*who),
    {
        match self.map.get(who) {
            Some(e) => e.stake,
            None => 0,
        }
    }

    /// Replaces the stake of a registered `who`; reports whether `who` was registered.
    pub fn set_stake(&mut self, who: &NodeId, stake: u64) -> (found: bool)
        requires
            old(self).wf(),
        ensures
            final(self).wf(),
            found <==> old(self).view().contains_key(*who),
            found ==> final(self).view() == old(self).view().insert(
                *who,
                RegEntry { stake, ..old(self).view()[*who] },
            ),
            !found ==> final(self).view() == old(self).view(),
    {
        match self.map.get(who) {
            Some(e) => {
                let active = e.active;
                proof {
                    self.lemma_wf();
                }
                self.insert(*who, stake, active);
                true
            },
            None => false,
        }
    }

    /// Number of registered validators.
    pub fn len(&self) -> (n: usize)
        ensures
            n == self.entries().len(),
    {
        self.map.len()
    }

    /// The `i`-th entry in ascending identifier order.
    pub fn entry_at(&self, i: usize) -> (e: RegEntry)
        requires
            i < self.entries().len(),
        ensures
            e == self.entries()[i as int].1,
    {
        *self.map.value_at(i)
    }
}

impl Default for Registry {
    fn default() -> (r: Self)
        ensures
            r.wf(),
            r.view() == Map::<NodeId, RegEntry>::empty(),
    {
        Registry::new()
    }
}

} // verus!
