//! Byte-string helpers: concatenation, fixed-size arrays and integer encodings.
use vstd::prelude::*;
use vstd::bytes::{
    lemma_auto_spec_u128_to_from_le_bytes, spec_u128_to_le_bytes, spec_u64_to_le_bytes, u128_to_le_bytes,
    u64_to_le_bytes,
};

verus! {

/// Appends `s` to `v`.
pub fn append_bytes(v: &mut Vec<u8>, s: &[u8])
    ensures
        final(v)@ == old(v)@ + s@,
{
    let ghost start = v@;
    let mut i: usize = 0;
    while i < s.len()
        invariant
            i <= s@.len(),
            v@ == start + s@.subrange(0, i as int),
        decreases s@.len() - i,
    {
        v.push(s[i]);
        i = i + 1;
        assert(v@ =~= start + s@.subrange(0, i as int));
    }
    assert(s@.subrange(0, s@.len() as int) =~= s@);
}

/// A copy of `s`.
pub fn copy_bytes(s: &[u8]) -> (v: Vec<u8>)
    ensures
        v@ == s@,
{
    let mut v: Vec<u8> = Vec::new();
    append_bytes(&mut v, s);
    assert(v@ =~= s@);
    v
}

/// Little-endian encoding of a `u64`.
pub open spec fn le64(x: u64) -> Seq<u8> {
    spec_u64_to_le_bytes(x)
}

/// Appends the little-endian encoding of `x` to `v`.
pub fn append_u64_le(v: &mut Vec<u8>, x: u64)
    ensures
        final(v)@ == old(v)@ + le64(x),
{
    let b = u64_to_le_bytes(x);
    append_bytes(v, b.as_slice());
}

/// The first 32 bytes of `s` as an array.
pub fn to_array32(s: &[u8]) -> (out: [u8; 32])
    requires
        s@.len() >= 32,
    ensures
        out@ == s@.subrange(0, 32),
{
    let mut out = [0u8; 32];
    let mut i: usize = 0;
    while i < 32
        invariant
            i <= 32,
            s@.len() >= 32,
            forall|j: int| 0 <= j < i ==> out@[j] == s@[j],
        decreases 32 - i,
    {
        out[i] = s[i];
        i = i + 1;
    }
    assert(out@ =~= s@.subrange(0, 32));
    out
}

/// Equality of two 32-byte strings, byte by byte.
pub fn eq32(a: &[u8; 32], b: &[u8; 32]) -> (r: bool)
    ensures
        r <==> a@ == b@,
{
    let mut i: usize = 0;
    while i < 32
        invariant
            i <= 32,
            forall|j: int| 0 <= j < i ==> a@[j] == b@[j],
        decreases 32 - i,
    {
        if a[i] != b[i] {
            return false;
        }
        i = i + 1;
    }
    assert(a@ =~= b@);
    true
}

/// Whether every byte of `a` is zero.
pub fn is_zero32(a: &[u8; 32]) -> (r: bool)
    ensures
        r <==> a@ == Seq::new(32, |i: int| 0u8),
{
    let mut i: usize = 0;
    while i < 32
        invariant
            i <= 32,
            forall|j: int| 0 <= j < i ==> a@[j] == 0u8,
        decreases 32 - i,
    {
        if a[i] != 0 {
            assert(a@[i as int] != Seq::new(32, |k: int| 0u8)[i as int]);
            return false;
        }
        i = i + 1;
    }
    assert(a@ =~= Seq::new(32, |k: int| 0u8));
    true
}

} // verus!

verus! {

/// `256^n`.
pub open spec fn pow256(n: nat) -> nat
    decreases n,
{
    if n == 0 { 1 } else { 256 * pow256((n - 1) as nat) }
}

/// Big-endian value of a byte string.
pub open spec fn be_value(s: Seq<u8>) -> nat
    decreases s.len(),
{
    if s.len() == 0 { 0 } else { be_value(s.drop_last()) * 256 + (s.last() as nat) }
}

/// A big-endian value is below `256^len`.
pub proof fn lemma_be_value_bound(s: Seq<u8>)
    ensures
        be_value(s) < pow256(s.len()),
    decreases s.len(),
{
    if s.len() > 0 {
        lemma_be_value_bound(s.drop_last());
        let a = be_value(s.drop_last());
        let p = pow256((s.len() - 1) as nat);
        assert(a * 256 + s.last() < p * 256) by (nonlinear_arith)
            requires a < p, s.last() < 256;
    }
}

/// The first eight bytes of `h` read as a big-endian `u64`.
pub fn be_u64_prefix(h: &[u8; 32]) -> (r: u64)
    ensures
        r == be_value(h@.subrange(0, 8)),
{
    let mut acc: u64 = 0;
    let mut i: usize = 0;
    while i < 8
        invariant
            i <= 8,
            acc == be_value(h@.subrange(0, i as int)),
        decreases 8 - i,
    {
        proof {
            lemma_be_value_bound(h@.subrange(0, i as int));
            assert(pow256(i as nat) <= pow256(7)) by {
                lemma_pow256_mono(i as nat, 7);
            }
            assert(pow256(7) == 72057594037927936) by {
                reveal_with_fuel(pow256, 8);
            }
            assert(h@.subrange(0, i + 1).drop_last() =~= h@.subrange(0, i as int));
        }
        acc = acc * 256 + h[i] as u64;
        i = i + 1;
    }
    acc
}

/// Bytes `start .. start + 16` of `s` read as a big-endian `u128`.
pub fn be_u128_at(s: &[u8], start: usize) -> (r: u128)
    requires
        start + 16 <= s@.len(),
    ensures
        r == be_value(s@.subrange(start as int, start + 16)),
{
    let n = s.len();
    let mut acc: u128 = 0;
    let mut i: usize = 0;
    while i < 16
        invariant
            i <= 16,
            n == s@.len(),
            start + 16 <= s@.len(),
            acc == be_value(s@.subrange(start as int, start + i)),
        decreases 16 - i,
    {
        proof {
            lemma_be_value_bound(s@.subrange(start as int, start + i));
            assert(pow256(i as nat) <= pow256(15)) by {
                lemma_pow256_mono(i as nat, 15);
            }
            assert(pow256(15) == 0x1000000000000000000000000000000) by {
                reveal_with_fuel(pow256, 16);
            }
            assert(s@.subrange(start as int, start + i + 1).drop_last() =~= s@.subrange(start as int, start + i));
            assert(acc < 0x1000000000000000000000000000000);
            assert(acc * 256 + 255 <= u128::MAX) by (nonlinear_arith)
                requires
                    acc < 0x1000000000000000000000000000000,
            ;
        }
        acc = acc * 256 + s[start + i] as u128;
        i = i + 1;
    }
    acc
}

/// The big-endian encoding of `x`: its little-endian bytes reversed.
pub open spec fn be128(x: u128) -> Seq<u8> {
    spec_u128_to_le_bytes(x).reverse()
}

/// Appends the big-endian encoding of `x` to `v`.
pub fn append_u128_be(v: &mut Vec<u8>, x: u128)
    ensures
        final(v)@ == old(v)@ + be128(x),
{
    let le = u128_to_le_bytes(x);
    proof {
        lemma_auto_spec_u128_to_from_le_bytes();
    }
    let n = le.len();
    let ghost start = v@;
    let mut i: usize = 0;
    while i < n
        invariant
            n == le@.len(),
            i <= n,
            v@ == start + le@.reverse().subrange(0, i as int),
        decreases n - i,
    {
        v.push(le[n - 1 - i]);
        i = i + 1;
        assert(v@ =~= start + le@.reverse().subrange(0, i as int));
    }
    assert(le@.reverse().subrange(0, n as int) =~= le@.reverse());
}

proof fn lemma_pow256_mono(a: nat, b: nat)
    requires
        a <= b,
    ensures
        pow256(a) <= pow256(b),
    decreases b,
{
    if a < b {
        lemma_pow256_mono(a, (b - 1) as nat);
    }
}

} // verus!
