//! Hybrid post-quantum commitments `C = r·G + v·H + fp·F` over Ristretto, where
//! `fp` is a fingerprint of the owner's Falcon and ML-KEM public keys, and the
//! scalar balance check of a transaction.
//!
//! `H` and `F` are mapped from 64 bytes of cSHAKE256 output under the labels
//! `TT-PEDERSEN-H` and `TT-PQC-GEN`. With `fp = 0` the commitment is a classical
//! Pedersen commitment. Scalars are held as their canonical 32-byte little-endian
//! encodings, reduced modulo the group order ℓ.
use vstd::prelude::*;
use curve25519_dalek::ristretto::CompressedRistretto;
use curve25519_dalek::scalar::Scalar;
use crate::bp::{basepoint, basepoint_bytes, point_from_uniform, point_lincomb, pt_seq, ristretto_from_uniform, ristretto_lincomb, sv_seq, Point};
use crate::bytes::{append_bytes, append_u64_le, le64, to_array32};
use crate::crypto::kmac::derive_tag;
use crate::hashing::{cshake256_output, sha3_shake256, shake256_xof, tk_cshake256};
use crate::tags::{agg_priv_key, agg_priv_key_bytes, pedersen_h, pedersen_h_bytes, pqc_fp_v1, pqc_fp_v1_bytes, pqc_gen, pqc_gen_bytes};

verus! {

/// A 32-byte hash.
pub type Hash32 = [u8; 32];

/// The order ℓ of the Ristretto group.
pub open spec fn group_order() -> nat {
    7237005577332262213973186563042994240857116359379907606001950938285454250989nat
}

/// The little-endian value of a byte string.
pub open spec fn le_value(s: Seq<u8>) -> nat
    decreases s.len(),
{
    if s.len() == 0 { 0 } else { (s[0] as nat) + 256 * le_value(s.drop_first()) }
}

/// `Scalar::from_bytes_mod_order(..).to_bytes()` from `curve25519-dalek`.
/// Trusted: the canonical encoding of the 256-bit little-endian integer reduced
/// modulo ℓ.
#[verifier::external_body]
pub(crate) fn scalar_reduce(b: &[u8; 32]) -> (s: [u8; 32])
    ensures
        le_value(s@) == le_value(b@) % group_order(),
{
    Scalar::from_bytes_mod_order(*b).to_bytes()
}

/// `Scalar::from(u64).to_bytes()` from `curve25519-dalek`.
/// Trusted: the canonical encoding of `v`.
#[verifier::external_body]
pub(crate) fn scalar_of_u64(v: u64) -> (s: [u8; 32])
    ensures
        le_value(s@) == v,
{
    Scalar::from(v).to_bytes()
}

/// `Scalar` addition from `curve25519-dalek` on canonical encodings.
/// Trusted: the canonical encoding of the sum modulo ℓ.
#[verifier::external_body]
pub(crate) fn scalar_add(a: &[u8; 32], b: &[u8; 32]) -> (s: [u8; 32])
    requires
        le_value(a@) < group_order(),
        le_value(b@) < group_order(),
    ensures
        le_value(s@) == (le_value(a@) + le_value(b@)) % group_order(),
{
    (Scalar::from_bytes_mod_order(*a) + Scalar::from_bytes_mod_order(*b)).to_bytes()
}

/// The compressed sum (`add`) or difference (`!add`) of two compressed points, or
/// `None` where either does not decompress.
pub uninterp spec fn compressed_combine(c1: Seq<u8>, c2: Seq<u8>, add: bool) -> Option<Seq<u8>>;

/// `CompressedRistretto::decompress`, point addition or subtraction, and `compress`
/// from `curve25519-dalek`.
/// Trusted: the result is the named combination.
#[verifier::external_body]
fn curve_combine(c1: &[u8; 32], c2: &[u8; 32], add: bool) -> (r: Option<[u8; 32]>)
    ensures
        r is Some <==> compressed_combine(c1@, c2@, add) is Some,
        r matches Some(c) ==> compressed_combine(c1@, c2@, add) == Some(c@),
{
    let p1 = CompressedRistretto(*c1).decompress()?;
    let p2 = CompressedRistretto(*c2).decompress()?;
    if add { Some((p1 + p2).compress().to_bytes()) } else { Some((p1 - p2).compress().to_bytes()) }
}

/// The 64 uniform bytes for `H`.
pub open spec fn h_uniform() -> Seq<u8> {
    cshake256_output(pedersen_h(), Seq::empty(), 64)
}

/// The 64 uniform bytes for `F`.
pub open spec fn f_uniform() -> Seq<u8> {
    cshake256_output(pqc_gen(), Seq::empty(), 64)
}

fn uniform_bytes(name: &[u8]) -> (u: [u8; 64])
    ensures
        u@ == cshake256_output(name@, Seq::empty(), 64),
{
    let empty: Vec<u8> = Vec::new();
    let v = tk_cshake256(name, empty.as_slice(), 64);
    let mut u = [0u8; 64];
    let mut i: usize = 0;
    while i < 64
        invariant
            v@.len() == 64,
            i <= 64,
            forall|j: int| 0 <= j < i ==> u@[j] == v@[j],
        decreases 64 - i,
    {
        u[i] = v[i];
        i = i + 1;
    }
    assert(u@ =~= v@);
    assert(empty@ =~= Seq::<u8>::empty());
    u
}

/// The encoding of the value generator `H`.
pub open spec fn spec_generator_h() -> Seq<u8> {
    ristretto_from_uniform(h_uniform())
}

/// The encoding of the fingerprint generator `F`.
pub open spec fn spec_generator_f() -> Seq<u8> {
    ristretto_from_uniform(f_uniform())
}

/// The value generator `H`: the point that 64 bytes of cSHAKE256 with name
/// `TT-PEDERSEN-H` map to.
#[allow(non_snake_case)]
pub fn generator_H() -> (h: Point)
    ensures
        h.bytes() == spec_generator_h(),
{
    let name = pedersen_h_bytes();
    let u = uniform_bytes(name.as_slice());
    Point::from_uniform(&u)
}

/// The fingerprint generator `F`: the point that 64 bytes of cSHAKE256 with name
/// `TT-PQC-GEN` map to.
#[allow(non_snake_case)]
pub fn generator_F() -> (f: Point)
    ensures
        f.bytes() == spec_generator_f(),
{
    let name = pqc_gen_bytes();
    let u = uniform_bytes(name.as_slice());
    Point::from_uniform(&u)
}

/// The key-derivation input of a fingerprint: the derive tag, then the key, the
/// label and both public keys, each prefixed by its little-endian `u64` length.
pub open spec fn fingerprint_input(falcon_pk: Seq<u8>, mlkem_pk: Seq<u8>) -> Seq<u8> {
    derive_tag() + le64(agg_priv_key().len() as u64) + agg_priv_key() + le64(pqc_fp_v1().len() as u64)
        + pqc_fp_v1() + le64(falcon_pk.len() as u64) + falcon_pk + le64(mlkem_pk.len() as u64) + mlkem_pk
}

/// The fingerprint of a Falcon and an ML-KEM public key.
pub open spec fn spec_pqc_fingerprint(falcon_pk: Seq<u8>, mlkem_pk: Seq<u8>) -> Seq<u8> {
    shake256_xof(fingerprint_input(falcon_pk, mlkem_pk), 32)
}

fn push_len_prefixed(v: &mut Vec<u8>, field: &[u8])
    ensures
        final(v)@ == old(v)@ + le64(field@.len() as u64) + field@,
{
    append_u64_le(v, field.len() as u64);
    append_bytes(v, field);
}

/// The post-quantum fingerprint of a Falcon and an ML-KEM public key.
pub fn pqc_fingerprint(falcon_pk: &[u8], mlkem_pk: &[u8]) -> (fp: Hash32)
    ensures
        fp@ == spec_pqc_fingerprint(falcon_pk@, mlkem_pk@),
{
    let mut v = crate::crypto::kmac::derive_tag_bytes();
    let k = agg_priv_key_bytes();
    let t = pqc_fp_v1_bytes();
    push_len_prefixed(&mut v, k.as_slice());
    push_len_prefixed(&mut v, t.as_slice());
    push_len_prefixed(&mut v, falcon_pk);
    push_len_prefixed(&mut v, mlkem_pk);
    let h = sha3_shake256(v.as_slice(), 32);
    let out = to_array32(h.as_slice());
    assert(out@ =~= h@);
    out
}

/// The commitment to `value` with blinding `blind` and fingerprint `fp`: the
/// encoding of `r·G + v·H + fp·F`, with `r` and `fp` read as little-endian integers
/// reduced modulo ℓ.
pub open spec fn spec_hybrid_commit(value: u64, blind: Seq<u8>, fp: Seq<u8>) -> Seq<u8> {
    ristretto_lincomb(
        seq![le_value(blind) % group_order(), value as nat, le_value(fp) % group_order()],
        seq![basepoint_bytes(), spec_generator_h(), spec_generator_f()],
    )
}

/// An opening of a hybrid commitment.
#[derive(Clone, Debug)]
pub struct HybridOpening {
    pub value: u64,
    pub blind: [u8; 32],
    pub pqc_fingerprint: Hash32,
}

/// The hybrid commitment `r·G + v·H + fp·F`, compressed.
pub fn hybrid_commit(value: u64, blind: &[u8; 32], pqc_fp: &Hash32) -> (c: [u8; 32])
    ensures
        c@ == spec_hybrid_commit(value, blind@, pqc_fp@),
{
    let r = scalar_reduce(blind);
    let v = scalar_of_u64(value);
    let f = scalar_reduce(pqc_fp);
    proof {
        assert(group_order() > u64::MAX);
        vstd::arithmetic::div_mod::lemma_mod_bound(le_value(blind@) as int, group_order() as int);
        vstd::arithmetic::div_mod::lemma_mod_bound(le_value(pqc_fp@) as int, group_order() as int);
    }
    let g = basepoint();
    let h = generator_H().to_bytes();
    let fg = generator_F().to_bytes();
    let scalars = [r, v, f];
    let points = [g, h, fg];
    let c = point_lincomb(&scalars, &points);
    assert(sv_seq(scalars@) =~= seq![le_value(blind@) % group_order(), value as nat, le_value(pqc_fp@) % group_order()]);
    assert(pt_seq(points@) =~= seq![basepoint_bytes(), spec_generator_h(), spec_generator_f()]);
    c
}

/// `opening` opens `commitment`: the commitment is the one its value, blinding and
/// fingerprint make.
pub open spec fn opens(commitment: Seq<u8>, opening: HybridOpening) -> bool {
    commitment == spec_hybrid_commit(opening.value, opening.blind@, opening.pqc_fingerprint@)
}

/// Whether `opening` opens `commitment`.
pub fn hybrid_verify(commitment: &[u8; 32], opening: &HybridOpening) -> (b: bool)
    ensures
        b == opens(commitment@, *opening),
{
    let expected = hybrid_commit(opening.value, &opening.blind, &opening.pqc_fingerprint);
    let r = crate::bytes::eq32(commitment, &expected);
    proof {
        if r {
            assert(commitment@ =~= expected@);
        }
    }
    r
}

/// A commitment opens with the opening it was made from.
pub proof fn lemma_commit_opens(value: u64, blind: [u8; 32], fp: Hash32)
    ensures
        opens(spec_hybrid_commit(value, blind@, fp@), HybridOpening { value, blind, pqc_fingerprint: fp }),
{
}

/// Thirty-two zero bytes.
pub open spec fn zero_fp() -> Seq<u8> {
    Seq::new(32, |i: int| 0u8)
}

/// The classical Pedersen commitment: the hybrid commitment with a zero fingerprint.
pub fn classical_commit(value: u64, blind: &[u8; 32]) -> (c: [u8; 32])
    ensures
        c@ == spec_hybrid_commit(value, blind@, zero_fp()),
{
    let zero = [0u8; 32];
    assert(zero@ =~= zero_fp());
    hybrid_commit(value, blind, &zero)
}

/// Whether a commitment with fingerprint `pqc_fp` is classical (zero fingerprint).
pub fn is_classical_commitment(pqc_fp: &Hash32) -> (b: bool)
    ensures
        b == (pqc_fp@ == zero_fp()),
{
    let r = crate::bytes::is_zero32(pqc_fp);
    proof {
        if r {
            assert(pqc_fp@ =~= zero_fp());
        }
    }
    r
}

/// The sum of two commitments, or `None` where either is not a point encoding.
pub fn hybrid_add(c1: &[u8; 32], c2: &[u8; 32]) -> (r: Option<[u8; 32]>)
    ensures
        r is Some <==> compressed_combine(c1@, c2@, true) is Some,
        r matches Some(c) ==> compressed_combine(c1@, c2@, true) == Some(c@),
{
    curve_combine(c1, c2, true)
}

/// The difference of two commitments, or `None` where either is not a point encoding.
pub fn hybrid_sub(c1: &[u8; 32], c2: &[u8; 32]) -> (r: Option<[u8; 32]>)
    ensures
        r is Some <==> compressed_combine(c1@, c2@, false) is Some,
        r matches Some(c) ==> compressed_combine(c1@, c2@, false) == Some(c@),
{
    curve_combine(c1, c2, false)
}

/// The sum of the values.
pub open spec fn sum_values(s: Seq<(u64, [u8; 32], Hash32)>) -> nat
    decreases s.len(),
{
    if s.len() == 0 { 0 } else { sum_values(s.drop_last()) + (s.last().0 as nat) }
}

/// The sum of the blinding factors as integers.
pub open spec fn sum_blinds(s: Seq<(u64, [u8; 32], Hash32)>) -> nat
    decreases s.len(),
{
    if s.len() == 0 { 0 } else { sum_blinds(s.drop_last()) + le_value(s.last().1@) }
}

/// The sum of the fingerprints as integers.
pub open spec fn sum_fps(s: Seq<(u64, [u8; 32], Hash32)>) -> nat
    decreases s.len(),
{
    if s.len() == 0 { 0 } else { sum_fps(s.drop_last()) + le_value(s.last().2@) }
}

/// `a` and `b` agree modulo ℓ.
pub open spec fn congruent(a: nat, b: nat) -> bool {
    a % group_order() == b % group_order()
}

pub(crate) proof fn lemma_le_value_zero(s: Seq<u8>)
    requires
        forall|i: int| 0 <= i < s.len() ==> s[i] == 0,
    ensures
        le_value(s) == 0,
    decreases s.len(),
{
    if s.len() > 0 {
        lemma_le_value_zero(s.drop_first());
    }
}

pub(crate) proof fn lemma_le_value_injective(a: Seq<u8>, b: Seq<u8>)
    requires
        a.len() == b.len(),
        le_value(a) == le_value(b),
    ensures
        a == b,
    decreases a.len(),
{
    if a.len() > 0 {
        assert(a[0] == b[0]) by {
            assert(le_value(a) % 256 == a[0] as nat) by (nonlinear_arith)
                requires le_value(a) == a[0] + 256 * le_value(a.drop_first()), a[0] < 256;
            assert(le_value(b) % 256 == b[0] as nat) by (nonlinear_arith)
                requires le_value(b) == b[0] + 256 * le_value(b.drop_first()), b[0] < 256;
        }
        lemma_le_value_injective(a.drop_first(), b.drop_first());
        assert(a =~= b) by {
            assert forall|i: int| 0 <= i < a.len() implies a[i] == b[i] by {
                if i > 0 {
                    assert(a[i] == a.drop_first()[i - 1]);
                    assert(b[i] == b.drop_first()[i - 1]);
                }
            }
        }
    }
}

proof fn lemma_mod_step(s: nat, x: nat, xr: nat)
    requires
        xr == x % group_order(),
    ensures
        ((s % group_order()) + xr) % group_order() == (s + x) % group_order(),
{
    vstd::arithmetic::div_mod::lemma_add_mod_noop(s as int, x as int, group_order() as int);
    vstd::arithmetic::div_mod::lemma_mod_bound(x as int, group_order() as int);
    vstd::arithmetic::div_mod::lemma_small_mod(xr, group_order());
}

/// Running sums modulo ℓ of the values, blinds and fingerprints of `rows`, starting
/// from `init` (already reduced).
pub(crate) fn accumulate(
    rows: &[(u64, [u8; 32], Hash32)],
    init: ([u8; 32], [u8; 32], [u8; 32]),
    base: Ghost<(nat, nat, nat)>,
) -> (acc: ([u8; 32], [u8; 32], [u8; 32]))
    requires
        le_value(init.0@) == base@.0 % group_order(),
        le_value(init.1@) == base@.1 % group_order(),
        le_value(init.2@) == base@.2 % group_order(),
    ensures
        le_value(acc.0@) == (base@.0 + sum_values(rows@)) % group_order(),
        le_value(acc.1@) == (base@.1 + sum_blinds(rows@)) % group_order(),
        le_value(acc.2@) == (base@.2 + sum_fps(rows@)) % group_order(),
{
    let (mut sv, mut sr, mut sf) = init;
    let mut i: usize = 0;
    while i < rows.len()
        invariant
            i <= rows@.len(),
            le_value(sv@) == (base@.0 + sum_values(rows@.subrange(0, i as int))) % group_order(),
            le_value(sr@) == (base@.1 + sum_blinds(rows@.subrange(0, i as int))) % group_order(),
            le_value(sf@) == (base@.2 + sum_fps(rows@.subrange(0, i as int))) % group_order(),
        decreases rows@.len() - i,
    {
        let (v, r, fp) = rows[i];
        let ghost pre = rows@.subrange(0, i + 1);
        proof {
            assert(pre.drop_last() =~= rows@.subrange(0, i as int));
            assert(pre.last() == rows@[i as int]);
        }
        let xv = scalar_of_u64(v);
        let xr = scalar_reduce(&r);
        let xf = scalar_reduce(&fp);
        proof {
            vstd::arithmetic::div_mod::lemma_mod_bound((base@.0 + sum_values(rows@.subrange(0, i as int))) as int, group_order() as int);
            vstd::arithmetic::div_mod::lemma_mod_bound((base@.1 + sum_blinds(rows@.subrange(0, i as int))) as int, group_order() as int);
            vstd::arithmetic::div_mod::lemma_mod_bound((base@.2 + sum_fps(rows@.subrange(0, i as int))) as int, group_order() as int);
            vstd::arithmetic::div_mod::lemma_mod_bound(le_value(r@) as int, group_order() as int);
            vstd::arithmetic::div_mod::lemma_mod_bound(le_value(fp@) as int, group_order() as int);
            vstd::arithmetic::div_mod::lemma_small_mod(v as nat, group_order());
        }
        let nv = scalar_add(&sv, &xv);
        let nr = scalar_add(&sr, &xr);
        let nf = scalar_add(&sf, &xf);
        proof {
            lemma_mod_step(base@.0 + sum_values(rows@.subrange(0, i as int)), v as nat, le_value(xv@));
            lemma_mod_step(base@.1 + sum_blinds(rows@.subrange(0, i as int)), le_value(r@), le_value(xr@));
            lemma_mod_step(base@.2 + sum_fps(rows@.subrange(0, i as int)), le_value(fp@), le_value(xf@));
        }
        sv = nv;
        sr = nr;
        sf = nf;
        i = i + 1;
    }
    assert(rows@.subrange(0, rows@.len() as int) =~= rows@);
    (sv, sr, sf)
}

/// The balance check: the values, the blinding factors and the fingerprints of the
/// inputs each sum, modulo ℓ, to those of the outputs plus the fee.
pub fn verify_balance_scalar(
    inputs: &[(u64, [u8; 32], Hash32)],
    outputs: &[(u64, [u8; 32], Hash32)],
    fee: &(u64, [u8; 32], Hash32),
) -> (b: bool)
    ensures
        b == (congruent(sum_values(inputs@), sum_values(outputs@) + (fee.0 as nat)) && congruent(
            sum_blinds(inputs@),
            sum_blinds(outputs@) + le_value(fee.1@),
        ) && congruent(sum_fps(inputs@), sum_fps(outputs@) + le_value(fee.2@))),
{
    let zero = [0u8; 32];
    proof {
        lemma_le_value_zero(zero@);
        vstd::arithmetic::div_mod::lemma_small_mod(0, group_order());
    }
    let ins = accumulate(inputs, (zero, zero, zero), Ghost((0nat, 0nat, 0nat)));
    let fv = scalar_of_u64(fee.0);
    let fr = scalar_reduce(&fee.1);
    let ff = scalar_reduce(&fee.2);
    proof {
        vstd::arithmetic::div_mod::lemma_small_mod(fee.0 as nat, group_order());
    }
    let outs = accumulate(
        outputs,
        (fv, fr, ff),
        Ghost((fee.0 as nat, le_value(fee.1@), le_value(fee.2@))),
    );
    let eq_v = crate::bytes::eq32(&ins.0, &outs.0);
    let eq_r = crate::bytes::eq32(&ins.1, &outs.1);
    let eq_f = crate::bytes::eq32(&ins.2, &outs.2);
    proof {
        if eq_v { assert(ins.0@ =~= outs.0@); }
        if eq_r { assert(ins.1@ =~= outs.1@); }
        if eq_f { assert(ins.2@ =~= outs.2@); }
        if le_value(ins.0@) == le_value(outs.0@) { lemma_le_value_injective(ins.0@, outs.0@); }
        if le_value(ins.1@) == le_value(outs.1@) { lemma_le_value_injective(ins.1@, outs.1@); }
        if le_value(ins.2@) == le_value(outs.2@) { lemma_le_value_injective(ins.2@, outs.2@); }
        assert(sum_values(outputs@) + (fee.0 as nat) == (fee.0 as nat) + sum_values(outputs@));
    }
    eq_v && eq_r && eq_f
}

} // verus!
