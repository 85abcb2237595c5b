//! A map kept as a vector of entries in strictly ascending key order.
//!
//! Iterating the entries visits the keys in ascending order, which the
//! consensus code relies on for deterministic Merkle leaves and beacon mixing.
use vstd::prelude::*;

verus! {

/// Keys with a strict total order and an executable three-way comparison.
pub trait MapKey: Sized + Copy {
    /// `self` sorts strictly before `other`.
    spec fn key_lt(self, other: Self) -> bool;

    /// The order is transitive.
    proof fn lemma_key_lt_trans(a: Self, b: Self, c: Self)
        requires
            a.key_lt(b),
            b.key_lt(c),
        ensures
            a.key_lt(c),
    ;

    /// Exactly one of `a < b`, `a == b`, `b < a` holds.
    proof fn lemma_key_trichotomy(a: Self, b: Self)
        ensures
            a == b || a.key_lt(b) || b.key_lt(a),
            !(a.key_lt(b) && b.key_lt(a)),
            !a.key_lt(a),
    ;

    /// Three-way comparison: negative, zero or positive.
    fn key_order(&self, other: &Self) -> (r: i8)
        ensures
            r < 0 <==> self.key_lt(*other),
            r == 0 <==> *self == *other,
            r > 0 <==> other.key_lt(*self),
    ;
}

impl MapKey for u64 {
    open spec fn key_lt(self, other: Self) -> bool {
        self < other
    }

    proof fn lemma_key_lt_trans(a: Self, b: Self, c: Self) {
    }

    proof fn lemma_key_trichotomy(a: Self, b: Self) {
    }

    fn key_order(&self, other: &Self) -> (r: i8) {
        if *self < *other {
            -1
        } else if *self == *other {
            0
        } else {
            1
        }
    }
}

/// Lexicographic "less than" of two byte strings, looking from index `i` on.
pub open spec fn lex_lt_from(a: Seq<u8>, b: Seq<u8>, i: int) -> bool
    decreases 32 - i,
{
    if i < 0 || i >= 32 {
        false
    } else if a[i] < b[i] {
        true
    } else if a[i] > b[i] {
        false
    } else {
        lex_lt_from(a, b, i + 1)
    }
}

proof fn lemma_lex_trans(a: Seq<u8>, b: Seq<u8>, c: Seq<u8>, i: int)
    requires
        lex_lt_from(a, b, i),
        lex_lt_from(b, c, i),
    ensures
        lex_lt_from(a, c, i),
    decreases 32 - i,
{
    if 0 <= i < 32 && a[i] == b[i] && b[i] == c[i] {
        lemma_lex_trans(a, b, c, i + 1);
    }
}

proof fn lemma_lex_tri(a: Seq<u8>, b: Seq<u8>, i: int)
    requires
        0 <= i <= 32,
    ensures
        (forall|j: int| i <= j < 32 ==> a[j] == b[j]) || lex_lt_from(a, b, i) || lex_lt_from(b, a, i),
        !(lex_lt_from(a, b, i) && lex_lt_from(b, a, i)),
        !lex_lt_from(a, a, i),
    decreases 32 - i,
{
    if i < 32 {
        lemma_lex_tri(a, b, i + 1);
        lemma_lex_tri(a, a, i + 1);
        if a[i] == b[i] {
            if forall|j: int| i + 1 <= j < 32 ==> a[j] == b[j] {
                assert forall|j: int| i <= j < 32 implies a[j] == b[j] by {
                    if j > i {
                    }
                }
            }
        }
    }
}

proof fn lemma_lex_prefix(a: Seq<u8>, b: Seq<u8>, i: int)
    requires
        0 <= i <= 32,
        forall|j: int| 0 <= j < i ==> a[j] == b[j],
    ensures
        lex_lt_from(a, b, 0) == lex_lt_from(a, b, i),
    decreases i,
{
    if i > 0 {
        lemma_lex_prefix(a, b, i - 1);
    }
}

impl MapKey for [u8; 32] {
    open spec fn key_lt(self, other: Self) -> bool {
        lex_lt_from(self@, other@, 0)
    }

    proof fn lemma_key_lt_trans(a: Self, b: Self, c: Self) {
        lemma_lex_trans(a@, b@, c@, 0);
    }

    proof fn lemma_key_trichotomy(a: Self, b: Self) {
        lemma_lex_tri(a@, b@, 0);
        if forall|j: int| 0 <= j < 32 ==> a@[j] == b@[j] {
            assert(a =~= b);
        }
    }

    fn key_order(&self, other: &Self) -> (r: i8) {
        let mut i: usize = 0;
        while i < 32
            invariant
                i <= 32,
                forall|j: int| 0 <= j < i ==> self@[j] == other@[j],
            decreases 32 - i,
        {
            if self[i] < other[i] {
                proof {
                    lemma_lex_prefix(self@, other@, i as int);
                    lemma_lex_prefix(other@, self@, i as int);
                    lemma_lex_tri(self@, other@, 0);
                    assert(*self != *other) by {
                        assert(self@[i as int] != other@[i as int]);
                    }
                }
                return -1;
            } else if self[i] > other[i] {
                proof {
                    lemma_lex_prefix(self@, other@, i as int);
                    lemma_lex_prefix(other@, self@, i as int);
                    lemma_lex_tri(self@, other@, 0);
                    assert(*self != *other) by {
                        assert(self@[i as int] != other@[i as int]);
                    }
                }
                return 1;
            }
            i = i + 1;
        }
        proof {
            assert(*self =~= *other);
            lemma_lex_tri(self@, other@, 0);
        }
        0
    }
}

/// Index of the last entry with key `k`, or `-1`.
pub open spec fn key_index<K, V>(s: Seq<(K, V)>, k: K) -> int
    decreases s.len(),
{
    if s.len() == 0 {
        -1
    } else if s.last().0 == k {
        s.len() - 1
    } else {
        key_index(s.drop_last(), k)
    }
}

/// Keys strictly ascending.
pub open spec fn sorted_keys<K: MapKey, V>(s: Seq<(K, V)>) -> bool {
    forall|i: int, j: int| 0 <= i < j < s.len() ==> (#[trigger] s[i].0).key_lt(#[trigger] s[j].0)
}

/// The map that an entry sequence denotes.
pub open spec fn entries_map<K, V>(s: Seq<(K, V)>) -> Map<K, V> {
    Map::new(|k: K| key_index(s, k) >= 0, |k: K| s[key_index(s, k)].1)
}

proof fn lemma_key_index<K: MapKey, V>(s: Seq<(K, V)>, k: K)
    requires
        sorted_keys(s),
    ensures
        -1 <= key_index(s, k) < s.len(),
        key_index(s, k) >= 0 ==> s[key_index(s, k)].0 == k,
        forall|i: int| 0 <= i < s.len() && (#[trigger] s[i]).0 == k ==> key_index(s, k) == i,
        key_index(s, k) == -1 ==> forall|i: int| 0 <= i < s.len() ==> (#[trigger] s[i]).0 != k,
    decreases s.len(),
{
    if s.len() > 0 {
        let t = s.drop_last();
        assert(sorted_keys(t)) by {
            assert forall|i: int, j: int| 0 <= i < j < t.len() implies (#[trigger] t[i].0).key_lt(
                #[trigger] t[j].0,
            ) by {
                assert(t[i] == s[i] && t[j] == s[j]);
            }
        }
        lemma_key_index(t, k);
        if s.last().0 == k {
            assert forall|i: int| 0 <= i < s.len() && (#[trigger] s[i]).0 == k implies i == s.len()
                - 1 by {
                if i < s.len() - 1 {
                    assert(s[i].0.key_lt(s[s.len() - 1].0));
                    K::lemma_key_trichotomy(k, k);
                }
            }
        } else {
            assert forall|i: int| 0 <= i < s.len() && (#[trigger] s[i]).0 == k implies key_index(
                s,
                k,
            ) == i by {
                assert(i < s.len() - 1);
                assert(t[i] == s[i]);
            }
            assert forall|i: int| 0 <= i < s.len() && key_index(s, k) == -1 implies (#[trigger] s[
                i]).0 != k by {
                if i < s.len() - 1 {
                    assert(t[i] == s[i]);
                }
            }
        }
    }
}

/// An ordered map from `K` to `V`.
#[derive(Debug)]
pub struct OrdMap<K, V> {
    entries: Vec<(K, V)>,
}

impl<K: MapKey, V> OrdMap<K, V> {
    /// The entries in ascending key order.
    pub closed spec fn entries(&self) -> Seq<(K, V)> {
        self.entries@
    }

    /// The map denoted.
    pub open spec fn view(&self) -> Map<K, V> {
        entries_map(self.entries())
    }

    /// Keys strictly ascending.
    pub open spec fn wf(&self) -> bool {
        sorted_keys(self.entries())
    }

    /// Facts about how the entries denote the map.
    pub proof fn lemma_view(&self, k: K)
        requires
            self.wf(),
        ensures
            self.view().contains_key(k) <==> exists|i: int|
                0 <= i < self.entries().len() && (#[trigger] self.entries()[i]).0 == k,
            forall|i: int|
                0 <= i < self.entries().len() && (#[trigger] self.entries()[i]).0 == k
                    ==> self.view()[k] == self.entries()[i].1,
    {
        lemma_key_index(self.entries(), k);
        if key_index(self.entries(), k) >= 0 {
            let i = key_index(self.entries(), k);
            assert(self.entries()[i].0 == k);
        }
    }

    /// Every entry's key is in the map with that entry's value.
    pub proof fn lemma_entries_in_view(&self)
        requires
            self.wf(),
        ensures
            forall|i: int|
                0 <= i < self.entries().len() ==> self.view().contains_key(
                    (#[trigger] self.entries()[i]).0,
                ) && self.view()[self.entries()[i].0] == self.entries()[i].1,
            self.view().dom().finite(),
            self.view().dom().len() == self.entries().len(),
    {
        assert forall|i: int| 0 <= i < self.entries().len() implies self.view().contains_key(
            (#[trigger] self.entries()[i]).0,
        ) && self.view()[self.entries()[i].0] == self.entries()[i].1 by {
            lemma_key_index(self.entries(), self.entries()[i].0);
        }
        lemma_dom_finite(self.entries());
    }

    /// An empty map.
    pub fn new() -> (m: Self)
        ensures
            m.wf(),
            m.view() == Map::<K, V>::empty(),
            m.entries() == Seq::<(K, V)>::empty(),
    {
        let m = OrdMap { entries: Vec::new() };
        assert(m.view() =~= Map::<K, V>::empty());
        m
    }

    /// Number of entries.
    pub fn len(&self) -> (n: usize)
        ensures
            n == self.entries().len(),
    {
        self.entries.len()
    }

    /// The key of the `i`-th entry.
    pub fn key_at(&self, i: usize) -> (k: K)
        requires
            i < self.entries().len(),
        ensures
            k == self.entries()[i as int].0,
    {
        self.entries[i].0
    }

    /// The value of the `i`-th entry.
    pub fn value_at(&self, i: usize) -> (v: &V)
        requires
            i < self.entries().len(),
        ensures
            *v == self.entries()[i as int].1,
    {
        &self.entries[i].1
    }

    /// Position of `k` among the entries, if present.
    pub fn find(&self, k: &K) -> (r: Option<usize>)
        requires
            self.wf(),
        ensures
            r.is_some() <==> self.view().contains_key(*k),
            r.is_some() ==> r.unwrap() < self.entries().len() && self.entries()[r.unwrap() as int].0
                == *k && self.view()[*k] == self.entries()[r.unwrap() as int].1,
    {
        let mut i: usize = 0;
        while i < self.entries.len()
            invariant
                self.wf(),
                i <= self.entries().len(),
                forall|j: int| 0 <= j < i ==> (#[trigger] self.entries()[j]).0 != *k,
            decreases self.entries().len() - i,
        {
            if self.entries[i].0.key_order(k) == 0 {
                proof {
                    self.lemma_view(*k);
                }
                return Some(i);
            }
            i = i + 1;
        }
        proof {
            self.lemma_view(*k);
        }
        None
    }

    /// Whether `k` has an entry.
    pub fn contains_key(&self, k: &K) -> (b: bool)
        requires
            self.wf(),
        ensures
            b <==> self.view().contains_key(*k),
    {
        self.find(k).is_some()
    }

    /// The value stored under `k`, if any.
    pub fn get(&self, k: &K) -> (r: Option<&V>)
        requires
            self.wf(),
        ensures
            r.is_some() <==> self.view().contains_key(*k),
            r.is_some() ==> *r.unwrap() == self.view()[*k],
    {
        match self.find(k) {
            Some(i) => Some(&self.entries[i].1),
            None => None,
        }
    }

    /// Stores `v` under `k`, replacing any previous value.
    pub fn insert(&mut self, k: K, v: V)
        requires
            old(self).wf(),
        ensures
            final(self).wf(),
            final(self).view() == old(self).view().insert(k, v),
    {
        let ghost s = self.entries@;
        let mut p: usize = 0;
        while p < self.entries.len() && self.entries[p].0.key_order(&k) < 0
            invariant
                self.entries@ == s,
                p <= s.len(),
                forall|q: int| 0 <= q < p ==> (#[trigger] s[q]).0.key_lt(k),
            decreases s.len() - p,
        {
            p = p + 1;
        }
        if p < self.entries.len() && self.entries[p].0.key_order(&k) == 0 {
            self.entries.set(p, (k, v));
            proof {
                let t = self.entries@;
                assert(t == s.update(p as int, (k, v)));
                assert(sorted_keys(t)) by {
                    assert forall|i: int, j: int| 0 <= i < j < t.len() implies (#[trigger] t[i].0).key_lt(
                        #[trigger] t[j].0,
                    ) by {
                        assert(t[i].0 == s[i].0 && t[j].0 == s[j].0);
                    }
                }
                assert forall|x: K| #[trigger] agrees(t, entries_map(s).insert(k, v), x) by {
                    lemma_key_index(s, x);
                    lemma_key_index(t, x);
                    if x != k {
                        if key_index(s, x) >= 0 {
                            assert(t[key_index(s, x)] == s[key_index(s, x)]);
                        }
                        if key_index(t, x) >= 0 {
                            assert(t[key_index(t, x)].0 == s[key_index(t, x)].0);
                        }
                    } else {
                        assert(t[p as int].0 == k);
                    }
                }
                lemma_agrees_eq(t, entries_map(s).insert(k, v));
            }
        } else {
            proof {
                if p < s.len() {
                    K::lemma_key_trichotomy(s[p as int].0, k);
                }
            }
            self.entries.insert(p, (k, v));
            proof {
                let t = self.entries@;
                assert(t == s.insert(p as int, (k, v)));
                assert(sorted_keys(t)) by {
                    assert forall|i: int, j: int| 0 <= i < j < t.len() implies (#[trigger] t[i].0).key_lt(
                        #[trigger] t[j].0,
                    ) by {
                        if j < p {
                            assert(t[i] == s[i] && t[j] == s[j]);
                        } else if j == p {
                            assert(t[i] == s[i]);
                        } else if i == p {
                            assert(t[j] == s[j - 1]);
                            if j - 1 > p {
                                K::lemma_key_lt_trans(k, s[p as int].0, s[j - 1].0);
                            }
                        } else if i < p {
                            assert(t[i] == s[i] && t[j] == s[j - 1]);
                        } else {
                            assert(t[i] == s[i - 1] && t[j] == s[j - 1]);
                        }
                    }
                }
                assert forall|x: K| #[trigger] agrees(t, entries_map(s).insert(k, v), x) by {
                    lemma_key_index(s, x);
                    lemma_key_index(t, x);
                    if x != k {
                        if key_index(s, x) >= 0 {
                            let i = key_index(s, x);
                            if i < p {
                                assert(t[i] == s[i]);
                            } else {
                                assert(t[i + 1] == s[i]);
                            }
                        }
                        if key_index(t, x) >= 0 {
                            let i = key_index(t, x);
                            if i < p {
                                assert(t[i] == s[i]);
                            } else {
                                assert(i != p);
                                assert(t[i] == s[i - 1]);
                            }
                        }
                    } else {
                        assert(t[p as int].0 == k);
                    }
                }
                lemma_agrees_eq(t, entries_map(s).insert(k, v));
            }
        }
    }

    /// Mutable access to the value of the `i`-th entry.
    pub fn value_mut_at(&mut self, i: usize) -> (r: &mut V)
        requires
            i < old(self).entries().len(),
        ensures
            *r == old(self).entries()[i as int].1,
            final(self).entries() == old(self).entries().update(i as int, (old(self).entries()[i as int].0, *final(r))),
    {
        &mut self.entries[i].1
    }

    /// Appends `(k, v)` where `k` is above every present key.
    pub fn push_max(&mut self, k: K, v: V)
        requires
            old(self).wf(),
            forall|i: int| 0 <= i < old(self).entries().len() ==> (#[trigger] old(self).entries()[i]).0.key_lt(k),
        ensures
            final(self).wf(),
            final(self).entries() == old(self).entries().push((k, v)),
            final(self).view() == old(self).view().insert(k, v),
    {
        let ghost s = self.entries@;
        self.entries.push((k, v));
        proof {
            let t = self.entries@;
            assert(sorted_keys(t)) by {
                assert forall|i: int, j: int| 0 <= i < j < t.len() implies (#[trigger] t[i].0).key_lt(
                    #[trigger] t[j].0,
                ) by {
                    if j < s.len() {
                        assert(t[i] == s[i] && t[j] == s[j]);
                    } else {
                        assert(t[i] == s[i]);
                    }
                }
            }
            assert forall|x: K| #[trigger] agrees(t, entries_map(s).insert(k, v), x) by {
                lemma_key_index(s, x);
                lemma_key_index(t, x);
                if x != k {
                    if key_index(s, x) >= 0 {
                        assert(t[key_index(s, x)] == s[key_index(s, x)]);
                    }
                    if key_index(t, x) >= 0 {
                        assert(key_index(t, x) < s.len());
                        assert(t[key_index(t, x)] == s[key_index(t, x)]);
                    }
                } else {
                    assert(t[s.len() as int].0 == k);
                }
            }
            lemma_agrees_eq(t, entries_map(s).insert(k, v));
        }
    }

    /// Removes the entry of `k`, returning its value.
    pub fn remove(&mut self, k: &K) -> (r: Option<V>)
        requires
            old(self).wf(),
        ensures
            final(self).wf(),
            final(self).view() == old(self).view().remove(*k),
            r.is_some() <==> old(self).view().contains_key(*k),
            r.is_some() ==> r.unwrap() == old(self).view()[*k],
    {
        let ghost s = self.entries@;
        match self.find(k) {
            None => {
                assert(entries_map(s) =~= entries_map(s).remove(*k));
                None
            },
            Some(p) => {
                let (_, v) = self.entries.remove(p);
                proof {
                    let t = self.entries@;
                    assert(t == s.remove(p as int));
                    assert(sorted_keys(t)) by {
                        assert forall|i: int, j: int| 0 <= i < j < t.len() implies (#[trigger] t[i].0).key_lt(
                            #[trigger] t[j].0,
                        ) by {
                            if j < p {
                                assert(t[i] == s[i] && t[j] == s[j]);
                            } else if i < p {
                                assert(t[i] == s[i] && t[j] == s[j + 1]);
                            } else {
                                assert(t[i] == s[i + 1] && t[j] == s[j + 1]);
                            }
                        }
                    }
                    assert forall|x: K| #[trigger] agrees(t, entries_map(s).remove(*k), x) by {
                        lemma_key_index(s, x);
                        lemma_key_index(t, x);
                        if key_index(s, x) >= 0 {
                            let i = key_index(s, x);
                            if i < p {
                                assert(t[i] == s[i]);
                            } else if i > p {
                                assert(t[i - 1] == s[i]);
                            }
                        }
                        if key_index(t, x) >= 0 {
                            let i = key_index(t, x);
                            if i < p {
                                assert(t[i] == s[i]);
                            } else {
                                assert(t[i] == s[i + 1]);
                            }
                        }
                    }
                    lemma_agrees_eq(t, entries_map(s).remove(*k));
                }
                Some(v)
            },
        }
    }
}

spec fn agrees<K, V>(t: Seq<(K, V)>, m: Map<K, V>, x: K) -> bool {
    &&& (key_index(t, x) >= 0 <==> m.contains_key(x))
    &&& (key_index(t, x) >= 0 ==> t[key_index(t, x)].1 == m[x])
}

proof fn lemma_agrees_eq<K, V>(t: Seq<(K, V)>, m: Map<K, V>)
    requires
        forall|x: K| #[trigger] agrees(t, m, x),
    ensures
        entries_map(t) == m,
{
    assert forall|x: K| entries_map(t).contains_key(x) <==> m.contains_key(x) by {
        assert(agrees(t, m, x));
    }
    assert forall|x: K| entries_map(t).contains_key(x) implies entries_map(t)[x] == m[x] by {
        assert(agrees(t, m, x));
    }
    assert(entries_map(t) =~= m);
}

proof fn lemma_dom_finite<K: MapKey, V>(s: Seq<(K, V)>)
    requires
        sorted_keys(s),
    ensures
        entries_map(s).dom().finite(),
        entries_map(s).dom().len() == s.len(),
    decreases s.len(),
{
    if s.len() == 0 {
        assert(entries_map(s).dom() =~= Set::<K>::empty());
    } else {
        let t = s.drop_last();
        assert(sorted_keys(t)) by {
            assert forall|i: int, j: int| 0 <= i < j < t.len() implies (#[trigger] t[i].0).key_lt(
                #[trigger] t[j].0,
            ) by {
                assert(t[i] == s[i] && t[j] == s[j]);
            }
        }
        lemma_dom_finite(t);
        let last = s.last().0;
        lemma_key_index(t, last);
        assert(key_index(t, last) == -1) by {
            if key_index(t, last) >= 0 {
                let i = key_index(t, last);
                assert(t[i] == s[i]);
                assert(s[i].0.key_lt(s[s.len() - 1].0));
                K::lemma_key_trichotomy(last, last);
            }
        }
        assert(entries_map(s).dom() =~= entries_map(t).dom().insert(last)) by {
            assert forall|x: K| #![auto] entries_map(s).dom().contains(x) <==> entries_map(t).dom().insert(
                last,
            ).contains(x) by {
                lemma_key_index(s, x);
                lemma_key_index(t, x);
                if x != last && key_index(t, x) >= 0 {
                    assert(t[key_index(t, x)] == s[key_index(t, x)]);
                }
                if x != last && key_index(s, x) >= 0 {
                    assert(key_index(s, x) < s.len() - 1);
                    assert(t[key_index(s, x)] == s[key_index(s, x)]);
                }
            }
        }
    }
}

proof fn lemma_sorted_drop_last<K: MapKey, V>(s: Seq<(K, V)>)
    requires
        sorted_keys(s),
        s.len() > 0,
    ensures
        sorted_keys(s.drop_last()),
        entries_map(s.drop_last()) == entries_map(s).remove(s.last().0),
        entries_map(s).contains_key(s.last().0),
        entries_map(s)[s.last().0] == s.last().1,
{
    let t = s.drop_last();
    let last = s.last().0;
    assert(sorted_keys(t)) by {
        assert forall|i: int, j: int| 0 <= i < j < t.len() implies (#[trigger] t[i].0).key_lt(#[trigger] t[j].0) by {
            assert(t[i] == s[i] && t[j] == s[j]);
        }
    }
    lemma_key_index(t, last);
    assert(key_index(t, last) == -1) by {
        if key_index(t, last) >= 0 {
            let i = key_index(t, last);
            assert(t[i] == s[i]);
            assert(s[i].0.key_lt(s[s.len() - 1].0));
            K::lemma_key_trichotomy(last, last);
        }
    }
    assert forall|x: K| #[trigger] agrees(t, entries_map(s).remove(last), x) by {
        lemma_key_index(t, x);
        if x != last && key_index(t, x) >= 0 {
            assert(t[key_index(t, x)] == s[key_index(t, x)]);
        }
    }
    lemma_agrees_eq(t, entries_map(s).remove(last));
}

/// Two sorted entry sequences that denote the same map are the same sequence.
proof fn lemma_sorted_canonical<K: MapKey, V>(s1: Seq<(K, V)>, s2: Seq<(K, V)>)
    requires
        sorted_keys(s1),
        sorted_keys(s2),
        entries_map(s1) == entries_map(s2),
    ensures
        s1 == s2,
    decreases s1.len() + s2.len(),
{
    if s1.len() == 0 || s2.len() == 0 {
        if s1.len() > 0 {
            lemma_key_index(s1, s1[0].0);
            assert(entries_map(s1).contains_key(s1[0].0));
            assert(key_index(s2, s1[0].0) == -1);
        }
        if s2.len() > 0 {
            lemma_key_index(s2, s2[0].0);
            assert(entries_map(s2).contains_key(s2[0].0));
            assert(key_index(s1, s2[0].0) == -1);
        }
        assert(s1 =~= s2);
    } else {
        let a = s1.last().0;
        let b = s2.last().0;
        lemma_sorted_drop_last(s1);
        lemma_sorted_drop_last(s2);
        lemma_key_index(s1, b);
        lemma_key_index(s2, a);
        if a != b {
            let i = key_index(s2, a);
            let j = key_index(s1, b);
            assert(i < s2.len() - 1);
            assert(s2[i].0.key_lt(s2[s2.len() - 1].0));
            assert(j < s1.len() - 1);
            assert(s1[j].0.key_lt(s1[s1.len() - 1].0));
            K::lemma_key_trichotomy(a, b);
        }
        lemma_sorted_canonical(s1.drop_last(), s2.drop_last());
        assert(s1 =~= s1.drop_last().push(s1.last()));
        assert(s2 =~= s2.drop_last().push(s2.last()));
    }
}

impl<K: MapKey, V> OrdMap<K, V> {
    /// The entries are determined by the map: two well-formed maps with the same
    /// contents list the same entries, however they were built.
    pub proof fn lemma_same_view_same_entries(a: &Self, b: &Self)
        requires
            a.wf(),
            b.wf(),
            a.view() == b.view(),
        ensures
            a.entries() == b.entries(),
    {
        lemma_sorted_canonical(a.entries(), b.entries());
    }
}

} // verus!
