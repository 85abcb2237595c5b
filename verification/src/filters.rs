//! A Bloom filter over 16-bit stealth tags.
//!
//! Probe `i` of a tag hits bit `(tag * (i + 1)) mod size`, the product wrapping in
//! a `usize`. Inserting sets every probed bit; a lookup reports membership when all
//! probed bits are set, so an inserted tag is always found.
use vstd::prelude::*;

verus! {

/// Bit probed for `tag` by hash function `i` in a filter of `size` bits.
pub open spec fn probe(tag: u16, i: int, size: nat) -> int {
    (vstd::wrapping::usize_specs::wrapping_mul(tag as usize, (i + 1) as usize) as int) % (size as int)
}

/// Whether `bits` has every probe of `tag` set.
pub open spec fn all_probes_set(bits: Seq<bool>, k: nat, tag: u16) -> bool {
    forall|i: int| 0 <= i < k ==> #[trigger] bits[probe(tag, i, bits.len())]
}

/// `bits` with every probe of `tag` set.
pub open spec fn with_probes(bits: Seq<bool>, k: nat, tag: u16) -> Seq<bool> {
    Seq::new(
        bits.len(),
        |j: int| bits[j] || exists|i: int| 0 <= i < k && probe(tag, i, bits.len()) == j,
    )
}

/// A Bloom filter.
pub struct BloomFilter {
    bits: Vec<bool>,
    k: usize,
}

impl BloomFilter {
    /// The bits.
    pub closed spec fn spec_bits(&self) -> Seq<bool> {
        self.bits@
    }

    /// The number of hash functions.
    pub closed spec fn spec_k(&self) -> nat {
        self.k as nat
    }

    /// Probing needs at least one bit unless there are no hash functions.
    pub open spec fn usable(&self) -> bool {
        self.spec_bits().len() > 0 || self.spec_k() == 0
    }

    /// An empty filter of `size` bits with `k` hash functions.
    pub fn new(size: usize, k: usize) -> (f: Self)
        ensures
            f.spec_bits() == Seq::new(size as nat, |j: int| false),
            f.spec_bits() == unset_bits(size as nat),
            f.spec_k() == k,
    {
        let bits = vec![false; size];
        let f = Self { bits, k };
        assert(f.spec_bits() =~= Seq::new(size as nat, |j: int| false));
        assert(f.spec_bits() =~= unset_bits(size as nat));
        f
    }

    fn hash_idx(&self, tag: u16, i: usize) -> (idx: usize)
        requires
            self.spec_bits().len() > 0,
            i < usize::MAX,
        ensures
            idx == probe(tag, i as int, self.spec_bits().len()),
            idx < self.spec_bits().len(),
    {
        let val = (tag as usize).wrapping_mul(i + 1);
        val % self.bits.len()
    }

    /// Sets every probed bit of `tag`.
    pub fn insert(&mut self, tag: u16)
        requires
            old(self).usable(),
        ensures
            final(self).spec_k() == old(self).spec_k(),
            final(self).spec_bits() == with_probes(old(self).spec_bits(), old(self).spec_k(), tag),
    {
        let ghost before = self.bits@;
        let n = self.bits.len();
        let mut i: usize = 0;
        while i < self.k
            invariant
                self.k == old(self).k,
                n == self.bits@.len(),
                n == before.len(),
                n > 0 || self.k == 0,
                i <= self.k,
                forall|j: int| 0 <= j < n ==> #[trigger] self.bits@[j] == (before[j] || exists|q: int|
                    0 <= q < i && probe(tag, q, n as nat) == j),
            decreases self.k - i,
        {
            let idx = self.hash_idx(tag, i);
            self.bits.set(idx, true);
            proof {
                assert forall|j: int| 0 <= j < n implies #[trigger] self.bits@[j] == (before[j] || exists|q: int|
                    0 <= q < i + 1 && probe(tag, q, n as nat) == j) by {
                    if j == idx as int {
                        assert(probe(tag, i as int, n as nat) == j);
                    } else {
                        if exists|q: int| 0 <= q < i + 1 && probe(tag, q, n as nat) == j {
                            let q = choose|q: int| 0 <= q < i + 1 && probe(tag, q, n as nat) == j;
                            assert(q != i);
                        }
                    }
                }
            }
            i = i + 1;
        }
        assert(self.bits@ =~= with_probes(before, self.k as nat, tag));
    }

    /// Whether every probed bit of `tag` is set.
    pub fn contains(&self, tag: u16) -> (b: bool)
        requires
            self.usable(),
        ensures
            b == all_probes_set(self.spec_bits(), self.spec_k(), tag),
    {
        let mut i: usize = 0;
        while i < self.k
            invariant
                self.usable(),
                i <= self.k,
                forall|q: int| 0 <= q < i ==> #[trigger] self.bits@[probe(tag, q, self.bits@.len())],
            decreases self.k - i,
        {
            let idx = self.hash_idx(tag, i);
            if !self.bits[idx] {
                return false;
            }
            i = i + 1;
        }
        true
    }
}

/// An inserted tag is found: a filter has no false negatives.
pub proof fn lemma_inserted_tag_found(bits: Seq<bool>, k: nat, tag: u16)
    requires
        bits.len() > 0 || k == 0,
    ensures
        all_probes_set(with_probes(bits, k, tag), k, tag),
{
    assert forall|i: int| 0 <= i < k implies #[trigger] with_probes(bits, k, tag)[probe(tag, i, bits.len())] by {
        let j = probe(tag, i, bits.len());
        assert(0 <= j < bits.len());
        assert(exists|q: int| 0 <= q < k && probe(tag, q, bits.len()) == j);
    }
}

/// Inserting never clears a bit, so tags found before an insert are found after it.
pub proof fn lemma_insert_keeps_members(bits: Seq<bool>, k: nat, tag: u16, other: u16)
    requires
        bits.len() > 0 || k == 0,
        all_probes_set(bits, k, other),
    ensures
        all_probes_set(with_probes(bits, k, tag), k, other),
{
    assert forall|i: int| 0 <= i < k implies #[trigger] with_probes(bits, k, tag)[probe(other, i, bits.len())] by {
        assert(bits[probe(other, i, bits.len())]);
    }
}

/// `bits` after inserting each of `tags`, in order.
pub open spec fn with_all(bits: Seq<bool>, k: nat, tags: Seq<u16>) -> Seq<bool>
    decreases tags.len(),
{
    if tags.len() == 0 {
        bits
    } else {
        with_probes(with_all(bits, k, tags.drop_last()), k, tags.last())
    }
}

proof fn lemma_with_all_len(bits: Seq<bool>, k: nat, tags: Seq<u16>)
    ensures
        with_all(bits, k, tags).len() == bits.len(),
    decreases tags.len(),
{
    if tags.len() > 0 {
        lemma_with_all_len(bits, k, tags.drop_last());
    }
}

/// After any sequence of inserts, every tag inserted along the way is found.
pub proof fn lemma_inserts_found(bits: Seq<bool>, k: nat, tags: Seq<u16>, t: u16)
    requires
        bits.len() > 0 || k == 0,
        tags.contains(t),
    ensures
        all_probes_set(with_all(bits, k, tags), k, t),
    decreases tags.len(),
{
    let rest = tags.drop_last();
    lemma_with_all_len(bits, k, rest);
    if tags.last() == t {
        lemma_inserted_tag_found(with_all(bits, k, rest), k, t);
    } else {
        let i = choose|i: int| 0 <= i < tags.len() && tags[i] == t;
        assert(rest[i] == t);
        lemma_inserts_found(bits, k, rest, t);
        lemma_insert_keeps_members(with_all(bits, k, rest), k, tags.last(), t);
    }
}

/// A fresh filter finds nothing when it has hash functions and bits, and finds
/// every tag when it has no hash functions.
pub proof fn lemma_fresh_filter(size: nat, k: nat, t: u16)
    requires
        size > 0 || k == 0,
    ensures
        k >= 1 ==> !all_probes_set(Seq::new(size, |j: int| false), k, t),
        k == 0 ==> all_probes_set(Seq::new(size, |j: int| false), k, t),
{
    if k >= 1 {
        let bits = Seq::new(size, |j: int| false);
        assert(bits.len() == size);
        let j = probe(t, 0, bits.len());
        assert(0 <= j < size);
        assert(!bits[probe(t, 0, bits.len())]);
    }
}

/// Probe `i` of a tag hits bit `(tag * (i + 1)) mod size`: with at most 65536
/// hash functions the product of a 16-bit tag never wraps.
pub proof fn lemma_probe_value(tag: u16, i: int, size: nat)
    requires
        size > 0,
        0 <= i < 65536,
    ensures
        probe(tag, i, size) == ((tag as int) * (i + 1)) % (size as int),
{
    let p = (tag as int) * (i + 1);
    assert(0 <= p <= 65535 * 65536) by (nonlinear_arith)
        requires 0 <= tag <= 65535, 0 <= i < 65536, p == (tag as int) * (i + 1);
    assert(usize::MAX >= 0xffff_ffff);
    assert(((i + 1) as usize) as int == i + 1);
    assert(((tag as usize) as nat * ((i + 1) as usize) as nat) == p);
    assert((p as nat) % (usize::MAX as nat + 1) == p) by {
        vstd::arithmetic::div_mod::lemma_small_mod(p as nat, (usize::MAX as nat + 1) as nat);
    }
}

/// `size` bits, none of them set.
pub open spec fn unset_bits(size: nat) -> Seq<bool> {
    Seq::new(size, |j: int| false)
}

proof fn lemma_member_probe_hits(size: nat, k: nat, t: u16, u: u16, i: int) -> (q: int)
    requires
        size > 0,
        k <= 65536,
        0 <= i < k,
        with_probes(unset_bits(size), k, t)[probe(u, i, size)],
    ensures
        0 <= q < k,
        bit_of_product(u, i, size) == bit_of_product(t, q, size),
{
    let z = unset_bits(size);
    lemma_probe_value(u, i, size);
    let j = probe(u, i, size);
    assert(0 <= j < size);
    assert(z.len() == size);
    assert(!z[j]);
    let q = choose|q: int| 0 <= q < k && probe(t, q, size) == j;
    lemma_probe_value(t, q, size);
    q
}

/// `(x * (i + 1)) mod size`, computed without wrapping.
pub open spec fn bit_of_product(x: u16, i: int, size: nat) -> int {
    ((x as int) * (i + 1)) % (size as int)
}

/// Probe `i` of `u` hits the same bit as some probe of `t`.
pub open spec fn covered_at(size: nat, k: nat, t: u16, u: u16, i: int) -> bool {
    exists|q: int| 0 <= q < k && bit_of_product(u, i, size) == #[trigger] bit_of_product(t, q, size)
}

/// Every probe bit of `u` is one of the probe bits of `t`, probe `i` of a tag `x`
/// being bit `(x * (i + 1)) mod size`.
pub open spec fn probes_covered(size: nat, k: nat, t: u16, u: u16) -> bool {
    forall|i: int| 0 <= i < k ==> #[trigger] covered_at(size, k, t, u, i)
}

proof fn lemma_covered_of_member(size: nat, k: nat, t: u16, u: u16)
    requires
        size > 0,
        k <= 65536,
        all_probes_set(with_probes(unset_bits(size), k, t), k, u),
    ensures
        probes_covered(size, k, t, u),
{
    let w = with_probes(unset_bits(size), k, t);
    assert(w.len() == size);
    assert forall|i: int| 0 <= i < k implies #[trigger] covered_at(size, k, t, u, i) by {
        assert(w[probe(u, i, w.len())]);
        let q = lemma_member_probe_hits(size, k, t, u, i);
        assert(bit_of_product(t, q, size) == bit_of_product(t, q, size));
    }
    assert(probes_covered(size, k, t, u));
}

proof fn lemma_member_of_covered(size: nat, k: nat, t: u16, u: u16)
    requires
        size > 0,
        k <= 65536,
        probes_covered(size, k, t, u),
    ensures
        all_probes_set(with_probes(unset_bits(size), k, t), k, u),
{
    let w = with_probes(unset_bits(size), k, t);
    assert(w.len() == size);
    assert forall|i: int| 0 <= i < k implies #[trigger] w[probe(u, i, w.len())] by {
        lemma_probe_value(u, i, size);
        let j = probe(u, i, size);
        assert(0 <= j < size);
        assert(bit_of_product(u, i, size) == bit_of_product(u, i, size));
        assert(covered_at(size, k, t, u, i));
        let q = choose|q: int| 0 <= q < k && bit_of_product(u, i, size) == #[trigger] bit_of_product(t, q, size);
        lemma_probe_value(t, q, size);
        assert(probe(t, q, size) == j);
    }
}

/// Probe `i` of tag `t` hits bit `(t * (i + 1)) mod size`, so a filter into which
/// only `t` was inserted (with at most 65536 hash functions) reports `u` present
/// exactly when every probe bit of `u` is one of the probe bits of `t`.
pub proof fn lemma_single_insert_membership(size: nat, k: nat, t: u16, u: u16)
    requires
        size > 0,
        k <= 65536,
    ensures
        all_probes_set(with_probes(unset_bits(size), k, t), k, u) <==> probes_covered(size, k, t, u),
{
    if all_probes_set(with_probes(unset_bits(size), k, t), k, u) {
        lemma_covered_of_member(size, k, t, u);
    }
    if probes_covered(size, k, t, u) {
        lemma_member_of_covered(size, k, t, u);
    }
}

} // verus!
