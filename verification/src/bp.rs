//! Verification of 64-bit Bulletproofs range proofs over Ristretto, with Merlin
//! transcripts for the Fiat–Shamir challenges, and Pedersen commitments
//! `r·G + v·H` with `H` derived by cSHAKE256 from `TT-PEDERSEN-H`.
//!
//! Points are held as their compressed encodings and scalars as their canonical
//! little-endian encodings; the group and field operations are those of
//! `curve25519-dalek`. A linear combination of points is compared by its compressed
//! encoding, which is canonical.
use vstd::prelude::*;
use curve25519_dalek::constants::RISTRETTO_BASEPOINT_COMPRESSED;
use curve25519_dalek::ristretto::{CompressedRistretto, RistrettoPoint};
use curve25519_dalek::scalar::Scalar;
use curve25519_dalek::traits::MultiscalarMul;
use merlin::Transcript;
use crate::bytes::{eq32, le64, to_array32};
use crate::hashing::{cshake256_output, tk_cshake256};
use crate::hybrid_commit::{group_order, le_value, scalar_add, scalar_of_u64, scalar_reduce};
use crate::keysearch::slice_copy;
use crate::tags::{pedersen_h, pedersen_h_bytes};

verus! {

#[verifier::external_type_specification]
#[verifier::external_body]
pub struct ExTranscript(Transcript);

/// Whether a 32-byte string is the canonical encoding of a Ristretto point.
pub uninterp spec fn ristretto_decompresses(b: Seq<u8>) -> bool;

/// The compressed encoding of `Σ scalars[i]·points[i]` for encoded points.
pub uninterp spec fn ristretto_lincomb(scalars: Seq<nat>, points: Seq<Seq<u8>>) -> Seq<u8>;

/// The compressed encoding of the point that 64 uniform bytes map to.
pub uninterp spec fn ristretto_from_uniform(b: Seq<u8>) -> Seq<u8>;

/// The operations a transcript has absorbed, in order: `(0, domain label, [])` first,
/// then `(1, label, message)` for each message and `(2, label, LE64(length))` for each
/// challenge drawn.
pub uninterp spec fn transcript_ops(t: Transcript) -> Seq<(u8, Seq<char>, Seq<u8>)>;

/// The `n` challenge bytes that a transcript having absorbed `ops` gives for `label`.
pub uninterp spec fn merlin_challenge(ops: Seq<(u8, Seq<char>, Seq<u8>)>, label: Seq<char>, n: nat) -> Seq<u8>;

/// The values of a sequence of scalar encodings.
pub open spec fn sv_seq(s: Seq<[u8; 32]>) -> Seq<nat> {
    s.map_values(|x: [u8; 32]| sv(x))
}

/// The byte strings of a sequence of point encodings.
pub open spec fn pt_seq(s: Seq<[u8; 32]>) -> Seq<Seq<u8>> {
    s.map_values(|x: [u8; 32]| x@)
}

/// The compressed Ristretto base point.
pub open spec fn basepoint_bytes() -> Seq<u8> {
    seq![
        0xe2u8, 0xf2u8, 0xaeu8, 0x0au8, 0x6au8, 0xbcu8, 0x4eu8, 0x71u8, 0xa8u8, 0x84u8, 0xa9u8, 0x61u8, 0xc5u8,
        0x00u8, 0x51u8, 0x5fu8, 0x58u8, 0xe3u8, 0x0bu8, 0x6au8, 0xa5u8, 0x82u8, 0xddu8, 0x8du8, 0xb6u8, 0xa6u8,
        0x59u8, 0x45u8, 0xe0u8, 0x8du8, 0x2du8, 0x76u8,
    ]
}

/// The value of a scalar encoding.
pub open spec fn sv(s: [u8; 32]) -> nat {
    le_value(s@)
}

/// A canonical scalar encoding: its value is below the group order.
pub open spec fn canonical(s: [u8; 32]) -> bool {
    sv(s) < group_order()
}

/// Product modulo the group order.
pub open spec fn smul(a: nat, b: nat) -> nat {
    (a * b) % group_order()
}

/// Sum modulo the group order.
pub open spec fn sadd(a: nat, b: nat) -> nat {
    (a + b) % group_order()
}

/// Difference modulo the group order.
pub open spec fn ssub(a: nat, b: nat) -> nat {
    ((a - b) % (group_order() as int)) as nat
}

/// `a^e` modulo the group order.
pub open spec fn spow(a: nat, e: nat) -> nat
    decreases e,
{
    if e == 0 { 1 } else { smul(spow(a, (e - 1) as nat), a) }
}

/// The inverse `a^(ℓ-2)` modulo the group order (zero for zero).
pub open spec fn sinv(a: nat) -> nat {
    vstd::arithmetic::power::pow(a as int, (group_order() - 2) as nat) as nat % group_order()
}

/// `Scalar::from_canonical_bytes` from `curve25519-dalek`.
/// Trusted: it accepts exactly the encodings of values below the group order.
#[verifier::external_body]
fn scalar_is_canonical(b: &[u8; 32]) -> (ok: bool)
    ensures
        ok == canonical(*b),
{
    bool::from(Scalar::from_canonical_bytes(*b).is_some())
}

/// `Scalar::from_bytes_mod_order_wide` from `curve25519-dalek`.
/// Trusted: the canonical encoding of the 512-bit little-endian value modulo ℓ.
#[verifier::external_body]
fn scalar_from_wide(b: &[u8; 64]) -> (s: [u8; 32])
    ensures
        sv(s) == le_value(b@) % group_order(),
{
    Scalar::from_bytes_mod_order_wide(b).to_bytes()
}

/// `Scalar` multiplication from `curve25519-dalek` on canonical encodings.
/// Trusted: the canonical encoding of the product modulo ℓ.
#[verifier::external_body]
fn scalar_mul(a: &[u8; 32], b: &[u8; 32]) -> (s: [u8; 32])
    requires
        canonical(*a),
        canonical(*b),
    ensures
        sv(s) == smul(sv(*a), sv(*b)),
{
    (Scalar::from_bytes_mod_order(*a) * Scalar::from_bytes_mod_order(*b)).to_bytes()
}

/// `Scalar` subtraction from `curve25519-dalek` on canonical encodings.
/// Trusted: the canonical encoding of the difference modulo ℓ.
#[verifier::external_body]
fn scalar_sub(a: &[u8; 32], b: &[u8; 32]) -> (s: [u8; 32])
    requires
        canonical(*a),
        canonical(*b),
    ensures
        sv(s) == ssub(sv(*a), sv(*b)),
{
    (Scalar::from_bytes_mod_order(*a) - Scalar::from_bytes_mod_order(*b)).to_bytes()
}

/// `Scalar::invert` from `curve25519-dalek` on a canonical encoding.
/// Trusted: the canonical encoding of `a^(ℓ-2)` modulo ℓ, the inverse of a nonzero
/// scalar.
#[verifier::external_body]
fn scalar_invert(a: &[u8; 32]) -> (s: [u8; 32])
    requires
        canonical(*a),
    ensures
        sv(s) == sinv(sv(*a)),
{
    Scalar::from_bytes_mod_order(*a).invert().to_bytes()
}

/// `CompressedRistretto::decompress` from `curve25519-dalek`.
/// Trusted: whether the bytes are the canonical encoding of a point.
#[verifier::external_body]
pub(crate) fn point_decompresses(b: &[u8; 32]) -> (ok: bool)
    ensures
        ok == ristretto_decompresses(b@),
{
    CompressedRistretto(*b).decompress().is_some()
}

/// `RistrettoPoint::multiscalar_mul` from `curve25519-dalek` on decompressed points,
/// compressed.
/// Trusted: the named linear combination, itself a point's encoding.
#[verifier::external_body]
pub(crate) fn point_lincomb(scalars: &[[u8; 32]], points: &[[u8; 32]]) -> (r: [u8; 32])
    requires
        scalars@.len() == points@.len(),
        forall|i: int| 0 <= i < points@.len() ==> ristretto_decompresses((#[trigger] points@[i])@),
        forall|i: int| 0 <= i < scalars@.len() ==> canonical(#[trigger] scalars@[i]),
    ensures
        r@ == ristretto_lincomb(sv_seq(scalars@), pt_seq(points@)),
        ristretto_decompresses(r@),
{
    let ps: Vec<RistrettoPoint> = points.iter().map(|p| CompressedRistretto(*p).decompress().unwrap()).collect();
    let ss: Vec<Scalar> = scalars.iter().map(|s| Scalar::from_bytes_mod_order(*s)).collect();
    RistrettoPoint::multiscalar_mul(ss, ps).compress().to_bytes()
}

/// `RistrettoPoint::from_uniform_bytes` from `curve25519-dalek`, compressed.
/// Trusted: the named point, whose encoding decompresses.
#[verifier::external_body]
pub(crate) fn point_from_uniform(b: &[u8; 64]) -> (r: [u8; 32])
    ensures
        r@ == ristretto_from_uniform(b@),
        ristretto_decompresses(r@),
{
    RistrettoPoint::from_uniform_bytes(b).compress().to_bytes()
}

/// `RISTRETTO_BASEPOINT_COMPRESSED` from `curve25519-dalek`.
/// Trusted: the documented encoding of the base point, which decompresses.
#[verifier::external_body]
pub(crate) fn basepoint() -> (g: [u8; 32])
    ensures
        g@ == basepoint_bytes(),
        ristretto_decompresses(g@),
{
    RISTRETTO_BASEPOINT_COMPRESSED.to_bytes()
}

/// `Transcript::new` from `merlin`.
/// Trusted: a transcript that has absorbed only its domain label.
#[verifier::external_body]
fn transcript_new(label: &'static str) -> (t: Transcript)
    ensures
        transcript_ops(t) == seq![(0u8, label@, Seq::<u8>::empty())],
{
    Transcript::new(label.as_bytes())
}

/// `Transcript::append_message` from `merlin`.
/// Trusted: the transcript has absorbed the labelled message after what it held. The
/// message length must fit in 32 bits, as `append_message` asserts.
#[verifier::external_body]
fn transcript_append(t: &mut Transcript, label: &'static str, msg: &[u8])
    requires
        msg@.len() <= u32::MAX,
    ensures
        transcript_ops(*final(t)) == transcript_ops(*old(t)).push((1u8, label@, msg@)),
{
    t.append_message(label.as_bytes(), msg);
}

/// `Transcript::challenge_bytes` from `merlin` into 64 bytes.
/// Trusted: the named challenge of what the transcript held; the transcript has then
/// absorbed the challenge's label and length.
#[verifier::external_body]
fn transcript_challenge64(t: &mut Transcript, label: &'static str) -> (c: [u8; 64])
    ensures
        c@ == merlin_challenge(transcript_ops(*old(t)), label@, 64),
        transcript_ops(*final(t)) == transcript_ops(*old(t)).push((2u8, label@, le64(64))),
{
    let mut out = [0u8; 64];
    t.challenge_bytes(label.as_bytes(), &mut out);
    out
}

/// Why a range proof is refused.
#[derive(Clone, Copy, Debug, PartialEq, Eq)]
pub enum BpError {
    /// A point does not decompress.
    BadCompressedPoint,
    /// The polynomial commitment check fails.
    PolyCheckFailed,
    /// The inner-product proof has different numbers of left and right points.
    LrLenMismatch,
    /// The inner-product proof does not have log2(64) rounds.
    LrLenNotLog2,
    /// The inner-product check fails.
    IppCheckFailed,
    /// `t_hat` is not `a·b`.
    THatMismatch,
    /// A serialized proof is not 672 bytes.
    BadLength,
    /// A serialized scalar is not canonical.
    BadScalar,
}

/// The inner-product argument of a range proof.
#[allow(non_snake_case)]
#[derive(Clone, Debug)]
pub struct IppProof {
    pub L_vec: Vec<[u8; 32]>,
    pub R_vec: Vec<[u8; 32]>,
    pub a: [u8; 32],
    pub b: [u8; 32],
}

/// A 64-bit range proof: points as compressed encodings, scalars as canonical
/// encodings.
#[allow(non_snake_case)]
#[derive(Clone, Debug)]
pub struct RangeProof {
    pub A: [u8; 32],
    pub S: [u8; 32],
    pub T1: [u8; 32],
    pub T2: [u8; 32],
    pub taux: [u8; 32],
    pub mu: [u8; 32],
    pub t_hat: [u8; 32],
    pub ipp: IppProof,
}

impl RangeProof {
    /// Every scalar is canonical.
    pub open spec fn wf(&self) -> bool {
        canonical(self.taux) && canonical(self.mu) && canonical(self.t_hat) && canonical(self.ipp.a) && canonical(
            self.ipp.b,
        )
    }
}

/// The 32-byte field at `off` of a serialized proof.
pub open spec fn field_at(b: Seq<u8>, i: int) -> Seq<u8> {
    b.subrange(32 * i, 32 * i + 32)
}

/// What parsing a serialized proof gives: `BadLength` unless it has 672 bytes,
/// `BadScalar` where one of `t_hat`, `taux`, `mu`, `a`, `b` (fields 4, 5, 6, 19, 20)
/// is not canonical; otherwise the proof of fields A, S, T1, T2, the three scalars,
/// six left and six right points, and `a`, `b`, in that order.
pub open spec fn parse_ok(b: Seq<u8>) -> bool {
    b.len() == 672 && le_value(field_at(b, 4)) < group_order() && le_value(field_at(b, 5)) < group_order()
        && le_value(field_at(b, 6)) < group_order() && le_value(field_at(b, 19)) < group_order() && le_value(
        field_at(b, 20),
    ) < group_order()
}

/// The proof holds the fields of `b` as [`parse_ok`] lays them out.
pub open spec fn parsed_from(p: RangeProof, b: Seq<u8>) -> bool {
    &&& p.A@ == field_at(b, 0)
    &&& p.S@ == field_at(b, 1)
    &&& p.T1@ == field_at(b, 2)
    &&& p.T2@ == field_at(b, 3)
    &&& p.t_hat@ == field_at(b, 4)
    &&& p.taux@ == field_at(b, 5)
    &&& p.mu@ == field_at(b, 6)
    &&& p.ipp.L_vec@.len() == 6
    &&& p.ipp.R_vec@.len() == 6
    &&& forall|k: int| 0 <= k < 6 ==> (#[trigger] p.ipp.L_vec@[k])@ == field_at(b, 7 + k)
    &&& forall|k: int| 0 <= k < 6 ==> (#[trigger] p.ipp.R_vec@[k])@ == field_at(b, 13 + k)
    &&& p.ipp.a@ == field_at(b, 19)
    &&& p.ipp.b@ == field_at(b, 20)
}

fn field32(b: &[u8], i: usize) -> (f: [u8; 32])
    requires
        32 * i + 32 <= b@.len(),
    ensures
        f@ == field_at(b@, i as int),
{
    let n = b.len();
    assert(32 * i + 32 <= n);
    let s = slice_copy(b, 32 * i, 32);
    let f = to_array32(s.as_slice());
    assert(f@ =~= s@);
    f
}

fn canonical_field(b: &[u8], i: usize) -> (r: Result<[u8; 32], BpError>)
    requires
        32 * i + 32 <= b@.len(),
    ensures
        r is Ok <==> le_value(field_at(b@, i as int)) < group_order(),
        r matches Ok(f) ==> f@ == field_at(b@, i as int),
        r matches Err(e) ==> e == BpError::BadScalar,
{
    let f = field32(b, i);
    if scalar_is_canonical(&f) { Ok(f) } else { Err(BpError::BadScalar) }
}

/// Parses a serialized 64-bit range proof (672 bytes).
pub fn parse_dalek_range_proof_64(bytes: &[u8]) -> (r: Result<RangeProof, BpError>)
    ensures
        r is Ok <==> parse_ok(bytes@),
        bytes@.len() != 672 ==> r == Err::<RangeProof, BpError>(BpError::BadLength),
        (bytes@.len() == 672 && !parse_ok(bytes@)) ==> r == Err::<RangeProof, BpError>(BpError::BadScalar),
        r matches Ok(p) ==> parsed_from(p, bytes@) && p.wf(),
{
    if bytes.len() != 672 {
        return Err(BpError::BadLength);
    }
    let a_point = field32(bytes, 0);
    let s_point = field32(bytes, 1);
    let t1 = field32(bytes, 2);
    let t2 = field32(bytes, 3);
    let t_hat = match canonical_field(bytes, 4) {
        Ok(f) => f,
        Err(e) => {
            return Err(e);
        },
    };
    let taux = match canonical_field(bytes, 5) {
        Ok(f) => f,
        Err(e) => {
            return Err(e);
        },
    };
    let mu = match canonical_field(bytes, 6) {
        Ok(f) => f,
        Err(e) => {
            return Err(e);
        },
    };
    let mut l_vec: Vec<[u8; 32]> = Vec::new();
    let mut k: usize = 0;
    while k < 6
        invariant
            bytes@.len() == 672,
            k <= 6,
            l_vec@.len() == k,
            forall|j: int| 0 <= j < k ==> (#[trigger] l_vec@[j])@ == field_at(bytes@, 7 + j),
        decreases 6 - k,
    {
        l_vec.push(field32(bytes, 7 + k));
        k = k + 1;
    }
    let mut r_vec: Vec<[u8; 32]> = Vec::new();
    k = 0;
    while k < 6
        invariant
            bytes@.len() == 672,
            k <= 6,
            r_vec@.len() == k,
            forall|j: int| 0 <= j < k ==> (#[trigger] r_vec@[j])@ == field_at(bytes@, 13 + j),
        decreases 6 - k,
    {
        r_vec.push(field32(bytes, 13 + k));
        k = k + 1;
    }
    let a = match canonical_field(bytes, 19) {
        Ok(f) => f,
        Err(e) => {
            return Err(e);
        },
    };
    let b = match canonical_field(bytes, 20) {
        Ok(f) => f,
        Err(e) => {
            return Err(e);
        },
    };
    Ok(
        RangeProof { A: a_point, S: s_point, T1: t1, T2: t2, taux, mu, t_hat, ipp: IppProof { L_vec: l_vec, R_vec: r_vec, a, b } },
    )
}

/// A Ristretto point, held as its canonical compressed encoding.
#[derive(Clone, Copy, Debug)]
pub struct Point {
    enc: [u8; 32],
}

impl Point {
    #[verifier::type_invariant]
    spec fn decodes(self) -> bool {
        ristretto_decompresses(self.enc@)
    }

    /// The compressed encoding.
    pub closed spec fn bytes(self) -> Seq<u8> {
        self.enc@
    }

    /// The point that `b` encodes, if `b` is the canonical encoding of a point.
    pub fn from_compressed(b: [u8; 32]) -> (r: Option<Point>)
        ensures
            r is Some <==> ristretto_decompresses(b@),
            r matches Some(p) ==> p.bytes() == b@,
    {
        if point_decompresses(&b) {
            Some(Point { enc: b })
        } else {
            None
        }
    }

    /// The point that 64 uniform bytes map to.
    pub fn from_uniform(b: &[u8; 64]) -> (p: Point)
        ensures
            p.bytes() == ristretto_from_uniform(b@),
    {
        Point { enc: point_from_uniform(b) }
    }

    /// The compressed encoding, which decompresses.
    pub fn to_bytes(&self) -> (b: [u8; 32])
        ensures
            b@ == self.bytes(),
            ristretto_decompresses(b@),
    {
        proof {
            use_type_invariant(self);
        }
        self.enc
    }
}

/// The encoding of `H`: the point that 64 bytes of cSHAKE256 with name
/// `TT-PEDERSEN-H` map to.
pub open spec fn spec_h_pedersen() -> Seq<u8> {
    ristretto_from_uniform(cshake256_output(pedersen_h(), Seq::empty(), 64))
}

/// The Pedersen generator `H`.
#[allow(non_snake_case)]
pub fn derive_H_pedersen() -> (h: Point)
    ensures
        h.bytes() == spec_h_pedersen(),
{
    let name = pedersen_h_bytes();
    let empty: Vec<u8> = Vec::new();
    let u = tk_cshake256(name.as_slice(), empty.as_slice(), 64);
    let mut b = [0u8; 64];
    let mut i: usize = 0;
    while i < 64
        invariant
            u@.len() == 64,
            i <= 64,
            forall|j: int| 0 <= j < i ==> b@[j] == u@[j],
        decreases 64 - i,
    {
        b[i] = u[i];
        i = i + 1;
    }
    assert(b@ =~= u@);
    assert(empty@ =~= Seq::<u8>::empty());
    Point { enc: point_from_uniform(&b) }
}

/// The encoding of the commitment `r·G + v·H` with `r` the blinding bytes reduced
/// modulo ℓ.
pub open spec fn spec_pedersen_commit(value: u64, blind: Seq<u8>, h: Seq<u8>) -> Seq<u8> {
    ristretto_lincomb(seq![le_value(blind) % group_order(), value as nat], seq![basepoint_bytes(), h])
}

/// The Pedersen commitment `r·G + v·H`.
#[allow(non_snake_case)]
pub fn pedersen_commit_bytes(value: u64, blind32: [u8; 32], H_pedersen: Point) -> (c: [u8; 32])
    ensures
        c@ == spec_pedersen_commit(value, blind32@, H_pedersen.bytes()),
{
    let h_pedersen = &H_pedersen.to_bytes();
    let r = scalar_reduce(&blind32);
    let v = scalar_of_u64(value);
    let g = basepoint();
    let scalars = [r, v];
    let points = [g, *h_pedersen];
    proof {
        assert(group_order() > u64::MAX);
    }
    let c = point_lincomb(&scalars, &points);
    assert(sv_seq(scalars@) =~= seq![le_value(blind32@) % group_order(), value as nat]);
    assert(pt_seq(points@) =~= seq![basepoint_bytes(), h_pedersen@]);
    c
}

/// A transcript operation appending message `m` under `label`.
pub open spec fn msg_op(label: Seq<char>, m: Seq<u8>) -> (u8, Seq<char>, Seq<u8>) {
    (1u8, label, m)
}

/// A transcript operation drawing 64 challenge bytes under `label`.
pub open spec fn chal_op(label: Seq<char>) -> (u8, Seq<char>, Seq<u8>) {
    (2u8, label, le64(64))
}

/// The scalar of the 64 challenge bytes a transcript with `ops` gives for `label`.
pub open spec fn chal(ops: Seq<(u8, Seq<char>, Seq<u8>)>, label: Seq<char>) -> nat {
    le_value(merlin_challenge(ops, label, 64)) % group_order()
}

/// The generator of index `i` under `domain`: the point that the 64 challenge bytes
/// `point` of a transcript with domain `domain` and message `idx` = LE64(i) map to.
pub open spec fn gen_point(domain: Seq<char>, i: u64) -> Seq<u8> {
    ristretto_from_uniform(merlin_challenge(seq![(0u8, domain, Seq::<u8>::empty()), msg_op("idx"@, le64(i))], "point"@, 64))
}

/// The 64 generators under `domain`.
pub open spec fn gens(domain: Seq<char>) -> Seq<Seq<u8>> {
    Seq::new(64, |i: int| gen_point(domain, i as u64))
}

/// `Σ_{i<n} y^i` modulo the group order.
pub open spec fn geo(y: nat, n: nat) -> nat
    decreases n,
{
    if n == 0 { 0 } else { sadd(geo(y, (n - 1) as nat), spow(y, (n - 1) as nat)) }
}

/// `δ(y, z) = (z − z²)·Σ y^i − z³·Σ 2^i` over 64 bits, modulo the group order.
#[verifier::opaque]
pub open spec fn delta(y: nat, z: nat) -> nat {
    ssub(smul(ssub(z, smul(z, z)), geo(y, 64)), smul(smul(smul(z, z), z), geo(2, 64)))
}

/// The transcript before the first challenge: the domain, then `V`, `A`, `S`.
pub open spec fn ops_vas(p: RangeProof, v: Seq<u8>) -> Seq<(u8, Seq<char>, Seq<u8>)> {
    seq![
        (0u8, "TT-BULLETPROOF64"@, Seq::<u8>::empty()),
        msg_op("V"@, v),
        msg_op("A"@, p.A@),
        msg_op("S"@, p.S@),
    ]
}

/// The challenge `y`.
pub open spec fn ch_y(p: RangeProof, v: Seq<u8>) -> nat {
    chal(ops_vas(p, v), "y"@)
}

/// The challenge `z`.
pub open spec fn ch_z(p: RangeProof, v: Seq<u8>) -> nat {
    chal(ops_vas(p, v).push(chal_op("y"@)), "z"@)
}

/// The transcript before the challenge `x`.
pub open spec fn ops_t(p: RangeProof, v: Seq<u8>) -> Seq<(u8, Seq<char>, Seq<u8>)> {
    ops_vas(p, v).push(chal_op("y"@)).push(chal_op("z"@)).push(msg_op("T1"@, p.T1@)).push(msg_op("T2"@, p.T2@))
}

/// The challenge `x`.
pub open spec fn ch_x(p: RangeProof, v: Seq<u8>) -> nat {
    chal(ops_t(p, v), "x"@)
}

/// The transcript after round `k` of the inner-product argument.
pub open spec fn ops_u(p: RangeProof, v: Seq<u8>, k: nat) -> Seq<(u8, Seq<char>, Seq<u8>)>
    decreases k,
{
    if k == 0 {
        ops_t(p, v).push(chal_op("x"@))
    } else {
        ops_u(p, v, (k - 1) as nat).push(msg_op("L"@, p.ipp.L_vec@[k - 1]@)).push(msg_op("R"@, p.ipp.R_vec@[k - 1]@)).push(
            chal_op("u"@),
        )
    }
}

/// The challenge `u_k` of round `k`.
pub open spec fn ch_u(p: RangeProof, v: Seq<u8>, k: nat) -> nat {
    chal(ops_u(p, v, k).push(msg_op("L"@, p.ipp.L_vec@[k as int]@)).push(msg_op("R"@, p.ipp.R_vec@[k as int]@)), "u"@)
}

/// Bit `j` (from the top of six) of index `i` selects `u_j` over its inverse.
pub open spec fn sel_bit(i: u64, j: u64) -> bool {
    (i >> ((5 - j) as u64)) & 1u64 == 1u64
}

/// The six round challenges.
pub open spec fn u_vals(p: RangeProof, v: Seq<u8>) -> Seq<nat> {
    Seq::new(6, |k: int| ch_u(p, v, k as nat))
}

/// `s_i` after `j` factors: the product of `u_j` or its inverse as the bits of `i`
/// select.
pub open spec fn s_prod(us: Seq<nat>, i: u64, j: nat) -> nat
    decreases j,
{
    if j == 0 {
        1
    } else {
        let u = us[j - 1];
        smul(s_prod(us, i, (j - 1) as nat), if sel_bit(i, (j - 1) as u64) { u } else { sinv(u) })
    }
}

/// The points of the inner-product check's right side `P`: `A`, `S`, the `G` and `H`
/// generators, the Pedersen `H`, the left and the right points.
#[verifier::opaque]
pub open spec fn p_points(p: RangeProof, h: Seq<u8>) -> Seq<Seq<u8>> {
    seq![p.A@, p.S@] + gens("TT-BP-GVEC"@) + gens("TT-BP-HVEC"@) + seq![h] + pt_seq(p.ipp.L_vec@) + pt_seq(
        p.ipp.R_vec@,
    )
}

/// The scalars of `P`: `1`, `x`, `−z` for each `G`, `z·y^i + z²·2^i` for each `H`,
/// `−μ`, `u_k²` and `u_k^−2`.
#[verifier::opaque]
pub open spec fn p_scalars(p: RangeProof, v: Seq<u8>) -> Seq<nat> {
    let y = ch_y(p, v);
    let z = ch_z(p, v);
    seq![1nat, ch_x(p, v)] + Seq::new(64, |i: int| ssub(0, z)) + Seq::new(
        64,
        |i: int| sadd(smul(z, spow(y, i as nat)), smul(smul(z, z), spow(2, i as nat))),
    ) + seq![ssub(0, sv(p.mu))] + Seq::new(6, |k: int| smul(ch_u(p, v, k as nat), ch_u(p, v, k as nat))) + Seq::new(
        6,
        |k: int| smul(sinv(ch_u(p, v, k as nat)), sinv(ch_u(p, v, k as nat))),
    )
}

/// The points of the left side: the `G` and `H` generators and `Q`.
#[verifier::opaque]
pub open spec fn left_points() -> Seq<Seq<u8>> {
    gens("TT-BP-GVEC"@) + gens("TT-BP-HVEC"@) + seq![gen_point("TT-BP-Q"@, 0)]
}

/// The scalars of the left side: `a·s_i`, `b·s_i^−1·y^−i`, and `a·b`.
#[verifier::opaque]
pub open spec fn left_scalars(p: RangeProof, v: Seq<u8>) -> Seq<nat> {
    let yinv = sinv(ch_y(p, v));
    let us = u_vals(p, v);
    Seq::new(64, |i: int| smul(sv(p.ipp.a), s_prod(us, i as u64, 6))) + Seq::new(
        64,
        |i: int| smul(smul(sv(p.ipp.b), sinv(s_prod(us, i as u64, 6))), spow(yinv, i as nat)),
    ) + seq![smul(sv(p.ipp.a), sv(p.ipp.b))]
}

/// The polynomial check `t̂·H + τx·G = z²·V + δ(y,z)·H + x·T1 + x²·T2` under the
/// transcript's challenges.
#[verifier::opaque]
pub open spec fn poly_holds(p: RangeProof, v: Seq<u8>, h: Seq<u8>) -> bool {
    let y = ch_y(p, v);
    let z = ch_z(p, v);
    let x = ch_x(p, v);
    ristretto_lincomb(seq![sv(p.t_hat), sv(p.taux)], seq![h, basepoint_bytes()]) == ristretto_lincomb(
        seq![smul(z, z), delta(y, z), x, smul(x, x)],
        seq![v, h, p.T1@, p.T2@],
    )
}

/// The inner-product check: the left side equals `P`.
#[verifier::opaque]
pub open spec fn ipp_holds(p: RangeProof, v: Seq<u8>, h: Seq<u8>) -> bool {
    ristretto_lincomb(left_scalars(p, v), left_points()) == ristretto_lincomb(p_scalars(p, v), p_points(p, h))
}

/// Every left and right point of the inner-product argument decompresses.
pub open spec fn lr_decompress(p: RangeProof) -> bool {
    forall|k: int|
        0 <= k < 6 ==> ristretto_decompresses((#[trigger] p.ipp.L_vec@[k])@) && ristretto_decompresses(
            p.ipp.R_vec@[k]@,
        )
}

/// The outcome of verifying `p` against the commitment `v` with Pedersen generator
/// `h`: points that do not decompress, the polynomial check, the shape of the
/// inner-product argument, its points, the inner-product check, and `t̂ = a·b`, in
/// that order.
pub open spec fn bp_verify(p: RangeProof, v: Seq<u8>, h: Seq<u8>) -> Result<(), BpError> {
    if !ristretto_decompresses(p.A@) || !ristretto_decompresses(p.S@) || !ristretto_decompresses(p.T1@)
        || !ristretto_decompresses(p.T2@) || !ristretto_decompresses(v) {
        Err(BpError::BadCompressedPoint)
    } else if !poly_holds(p, v, h) {
        Err(BpError::PolyCheckFailed)
    } else if p.ipp.L_vec@.len() != p.ipp.R_vec@.len() {
        Err(BpError::LrLenMismatch)
    } else if p.ipp.L_vec@.len() != 6 {
        Err(BpError::LrLenNotLog2)
    } else if !lr_decompress(p) {
        Err(BpError::BadCompressedPoint)
    } else if !ipp_holds(p, v, h) {
        Err(BpError::IppCheckFailed)
    } else if sv(p.t_hat) != smul(sv(p.ipp.a), sv(p.ipp.b)) {
        Err(BpError::THatMismatch)
    } else {
        Ok(())
    }
}

proof fn lemma_mod_canonical(a: nat)
    ensures
        a % group_order() < group_order(),
{
}

fn challenge_scalar(t: &mut Transcript, label: &'static str) -> (s: [u8; 32])
    ensures
        sv(s) == chal(transcript_ops(*old(t)), label@),
        canonical(s),
        transcript_ops(*final(t)) == transcript_ops(*old(t)).push(chal_op(label@)),
{
    let buf = transcript_challenge64(t, label);
    let s = scalar_from_wide(&buf);
    proof {
        lemma_mod_canonical(le_value(buf@));
    }
    s
}

fn hash_to_point(domain: &'static str, idx: u64) -> (q: [u8; 32])
    ensures
        q@ == gen_point(domain@, idx),
        ristretto_decompresses(q@),
{
    let mut t = transcript_new(domain);
    let ib = vstd::bytes::u64_to_le_bytes(idx);
    transcript_append(&mut t, "idx", ib.as_slice());
    let c = transcript_challenge64(&mut t, "point");
    proof {
        assert(seq![(0u8, domain@, Seq::<u8>::empty())].push((1u8, "idx"@, ib@)) =~= seq![
            (0u8, domain@, Seq::<u8>::empty()),
            msg_op("idx"@, le64(idx)),
        ]);
    }
    point_from_uniform(&c)
}

fn generators(domain: &'static str) -> (g: Vec<[u8; 32]>)
    ensures
        pt_seq(g@) == gens(domain@),
        g@.len() == 64,
        forall|i: int| 0 <= i < 64 ==> ristretto_decompresses((#[trigger] g@[i])@),
{
    let mut g: Vec<[u8; 32]> = Vec::new();
    let mut i: u64 = 0;
    while i < 64
        invariant
            i <= 64,
            g@.len() == i,
            forall|j: int| 0 <= j < i ==> (#[trigger] g@[j])@ == gen_point(domain@, j as u64),
            forall|j: int| 0 <= j < i ==> ristretto_decompresses((#[trigger] g@[j])@),
        decreases 64 - i,
    {
        g.push(hash_to_point(domain, i));
        i = i + 1;
    }
    assert(pt_seq(g@) =~= gens(domain@));
    g
}

fn fixed_generators() -> (r: (Vec<[u8; 32]>, Vec<[u8; 32]>, [u8; 32]))
    ensures
        pt_seq(r.0@) == gens("TT-BP-GVEC"@),
        pt_seq(r.1@) == gens("TT-BP-HVEC"@),
        r.2@ == gen_point("TT-BP-Q"@, 0),
        r.0@.len() == 64,
        r.1@.len() == 64,
        forall|i: int| 0 <= i < 64 ==> ristretto_decompresses((#[trigger] r.0@[i])@),
        forall|i: int| 0 <= i < 64 ==> ristretto_decompresses((#[trigger] r.1@[i])@),
        ristretto_decompresses(r.2@),
{
    let g = generators("TT-BP-GVEC");
    let h = generators("TT-BP-HVEC");
    let q = hash_to_point("TT-BP-Q", 0);
    (g, h, q)
}

fn scalar_one() -> (s: [u8; 32])
    ensures
        sv(s) == 1,
        canonical(s),
{
    let s = scalar_of_u64(1);
    proof {
        assert(group_order() > 1);
    }
    s
}

fn scalar_zero() -> (s: [u8; 32])
    ensures
        sv(s) == 0,
        canonical(s),
{
    scalar_of_u64(0)
}

fn powers(y: &[u8; 32]) -> (v: Vec<[u8; 32]>)
    requires
        canonical(*y),
    ensures
        v@.len() == 64,
        forall|i: int| 0 <= i < 64 ==> sv(#[trigger] v@[i]) == spow(sv(*y), i as nat) && canonical(v@[i]),
{
    let mut v: Vec<[u8; 32]> = Vec::new();
    let mut cur = scalar_one();
    let mut i: usize = 0;
    while i < 64
        invariant
            canonical(*y),
            i <= 64,
            v@.len() == i,
            sv(cur) == spow(sv(*y), i as nat),
            canonical(cur),
            forall|j: int| 0 <= j < i ==> sv(#[trigger] v@[j]) == spow(sv(*y), j as nat) && canonical(v@[j]),
        decreases 64 - i,
    {
        v.push(cur);
        cur = scalar_mul(&cur, y);
        proof {
            lemma_mod_canonical(sv(cur));
        }
        i = i + 1;
    }
    v
}

fn delta_yz(y: &[u8; 32], z: &[u8; 32]) -> (d: [u8; 32])
    requires
        canonical(*y),
        canonical(*z),
    ensures
        sv(d) == delta(sv(*y), sv(*z)),
        canonical(d),
{
    let mut y_pow = scalar_one();
    let mut sum_y = scalar_zero();
    let mut i: usize = 0;
    while i < 64
        invariant
            canonical(*y),
            i <= 64,
            sv(y_pow) == spow(sv(*y), i as nat),
            sv(sum_y) == geo(sv(*y), i as nat),
            canonical(y_pow),
            canonical(sum_y),
        decreases 64 - i,
    {
        sum_y = scalar_add(&sum_y, &y_pow);
        y_pow = scalar_mul(&y_pow, y);
        i = i + 1;
    }
    let mut two_pow_sum = scalar_zero();
    let mut cur = scalar_one();
    let two = scalar_of_u64(2);
    proof {
        assert(group_order() > 2);
    }
    i = 0;
    while i < 64
        invariant
            i <= 64,
            sv(two) == 2,
            canonical(two),
            sv(cur) == spow(2, i as nat),
            sv(two_pow_sum) == geo(2, i as nat),
            canonical(cur),
            canonical(two_pow_sum),
        decreases 64 - i,
    {
        two_pow_sum = scalar_add(&two_pow_sum, &cur);
        cur = scalar_mul(&cur, &two);
        i = i + 1;
    }
    let zz = scalar_mul(z, z);
    let z_minus = scalar_sub(z, &zz);
    let first = scalar_mul(&z_minus, &sum_y);
    let zzz = scalar_mul(&zz, z);
    let second = scalar_mul(&zzz, &two_pow_sum);
    proof {
        reveal(delta);
    }
    scalar_sub(&first, &second)
}

/// The exponent of `n` as a power of two, or `None`.
pub open spec fn log2_spec(n: nat) -> Option<nat>
    decreases n,
{
    if n <= 1 {
        Some(0)
    } else if n % 2 != 0 {
        None
    } else {
        match log2_spec(n / 2) {
            Some(k) => Some(k + 1),
            None => None,
        }
    }
}

proof fn lemma_log2_le(m: nat)
    ensures
        log2_spec(m) matches Some(k) ==> k <= m,
    decreases m,
{
    if m > 1 && m % 2 == 0 {
        lemma_log2_le(m / 2);
    }
}

fn log2_exact(n: usize) -> (r: Option<usize>)
    ensures
        r is Some <==> log2_spec(n as nat) is Some,
        r matches Some(k) ==> log2_spec(n as nat) == Some(k as nat),
    decreases n,
{
    if n <= 1 {
        Some(0)
    } else if n % 2 != 0 {
        None
    } else {
        match log2_exact(n / 2) {
            Some(k) => {
                proof {
                    lemma_log2_le((n / 2) as nat);
                }
                Some(k + 1)
            },
            None => None,
        }
    }
}

proof fn lemma_seqs_add(a: Seq<[u8; 32]>, b: Seq<[u8; 32]>)
    ensures
        sv_seq(a + b) == sv_seq(a) + sv_seq(b),
        pt_seq(a + b) == pt_seq(a) + pt_seq(b),
{
    assert(sv_seq(a + b) =~= sv_seq(a) + sv_seq(b));
    assert(pt_seq(a + b) =~= pt_seq(a) + pt_seq(b));
}

fn cat(a: Vec<[u8; 32]>, b: &[[u8; 32]]) -> (r: Vec<[u8; 32]>)
    ensures
        r@ == a@ + b@,
{
    let mut r = a;
    let ghost start = r@;
    let mut i: usize = 0;
    while i < b.len()
        invariant
            i <= b@.len(),
            r@ == start + b@.subrange(0, i as int),
        decreases b@.len() - i,
    {
        r.push(b[i]);
        proof {
            assert(start + b@.subrange(0, i + 1) =~= (start + b@.subrange(0, i as int)).push(b@[i as int]));
        }
        i = i + 1;
    }
    assert(b@.subrange(0, b@.len() as int) =~= b@);
    r
}

fn ipp_s_vector(us: &[[u8; 32]]) -> (r: (Vec<[u8; 32]>, Vec<[u8; 32]>))
    requires
        us@.len() == 6,
        forall|j: int| 0 <= j < 6 ==> canonical(#[trigger] us@[j]),
    ensures
        r.0@.len() == 64,
        r.1@.len() == 64,
        forall|i: int|
            0 <= i < 64 ==> sv(#[trigger] r.0@[i]) == s_prod(sv_seq(us@), i as u64, 6) && canonical(r.0@[i]),
        forall|i: int|
            0 <= i < 64 ==> sv(#[trigger] r.1@[i]) == sinv(s_prod(sv_seq(us@), i as u64, 6)) && canonical(r.1@[i]),
{
    let mut u_inv: Vec<[u8; 32]> = Vec::new();
    let mut j: usize = 0;
    while j < 6
        invariant
            us@.len() == 6,
            forall|k: int| 0 <= k < 6 ==> canonical(#[trigger] us@[k]),
            j <= 6,
            u_inv@.len() == j,
            forall|k: int| 0 <= k < j ==> sv(#[trigger] u_inv@[k]) == sinv(sv(us@[k])) && canonical(u_inv@[k]),
        decreases 6 - j,
    {
        let inv = scalar_invert(&us[j]);
        proof {
            lemma_mod_canonical(vstd::arithmetic::power::pow(sv(us@[j as int]) as int, (group_order() - 2) as nat) as nat);
        }
        u_inv.push(inv);
        j = j + 1;
    }
    let ghost uv = sv_seq(us@);
    let mut s: Vec<[u8; 32]> = Vec::new();
    let mut s_inv: Vec<[u8; 32]> = Vec::new();
    let mut i: usize = 0;
    while i < 64
        invariant
            us@.len() == 6,
            forall|k: int| 0 <= k < 6 ==> canonical(#[trigger] us@[k]),
            uv == sv_seq(us@),
            u_inv@.len() == 6,
            forall|k: int| 0 <= k < 6 ==> sv(#[trigger] u_inv@[k]) == sinv(sv(us@[k])) && canonical(u_inv@[k]),
            i <= 64,
            s@.len() == i,
            s_inv@.len() == i,
            forall|k: int| 0 <= k < i ==> sv(#[trigger] s@[k]) == s_prod(uv, k as u64, 6) && canonical(s@[k]),
            forall|k: int| 0 <= k < i ==> sv(#[trigger] s_inv@[k]) == sinv(s_prod(uv, k as u64, 6)) && canonical(s_inv@[k]),
        decreases 64 - i,
    {
        let mut acc = scalar_one();
        let mut jj: usize = 0;
        while jj < 6
            invariant
                us@.len() == 6,
                forall|k: int| 0 <= k < 6 ==> canonical(#[trigger] us@[k]),
                uv == sv_seq(us@),
                u_inv@.len() == 6,
                forall|k: int| 0 <= k < 6 ==> sv(#[trigger] u_inv@[k]) == sinv(sv(us@[k])) && canonical(u_inv@[k]),
                i < 64,
                jj <= 6,
                sv(acc) == s_prod(uv, i as u64, jj as nat),
                canonical(acc),
            decreases 6 - jj,
        {
            let bit = ((i as u64) >> ((5 - jj) as u64)) & 1u64;
            let f = if bit == 1u64 { us[jj] } else { u_inv[jj] };
            acc = scalar_mul(&acc, &f);
            proof {
                assert(uv[jj as int] == sv(us@[jj as int]));
            }
            jj = jj + 1;
        }
        s.push(acc);
        let ai = scalar_invert(&acc);
        proof {
            lemma_mod_canonical(vstd::arithmetic::power::pow(sv(acc) as int, (group_order() - 2) as nat) as nat);
        }
        s_inv.push(ai);
        i = i + 1;
    }
    (s, s_inv)
}

fn repeat(x: [u8; 32], n: usize) -> (v: Vec<[u8; 32]>)
    ensures
        v@ == Seq::new(n as nat, |i: int| x),
{
    let mut v: Vec<[u8; 32]> = Vec::new();
    let mut i: usize = 0;
    while i < n
        invariant
            i <= n,
            v@ == Seq::new(i as nat, |k: int| x),
        decreases n - i,
    {
        v.push(x);
        i = i + 1;
        assert(v@ =~= Seq::new(i as nat, |k: int| x));
    }
    v
}

fn transcript_yzx(proof: &RangeProof, v_bytes: &[u8; 32]) -> (r: (Transcript, [u8; 32], [u8; 32], [u8; 32]))
    ensures
        transcript_ops(r.0) == ops_u(*proof, v_bytes@, 0),
        sv(r.1) == ch_y(*proof, v_bytes@),
        sv(r.2) == ch_z(*proof, v_bytes@),
        sv(r.3) == ch_x(*proof, v_bytes@),
        canonical(r.1),
        canonical(r.2),
        canonical(r.3),
{
    let ghost pv = *proof;
    let ghost v = v_bytes@;
    let mut t = transcript_new("TT-BULLETPROOF64");
    transcript_append(&mut t, "V", v_bytes);
    transcript_append(&mut t, "A", &proof.A);
    transcript_append(&mut t, "S", &proof.S);
    assert(transcript_ops(t) =~= ops_vas(pv, v));
    let y = challenge_scalar(&mut t, "y");
    let z = challenge_scalar(&mut t, "z");
    transcript_append(&mut t, "T1", &proof.T1);
    transcript_append(&mut t, "T2", &proof.T2);
    assert(transcript_ops(t) =~= ops_t(pv, v));
    let x = challenge_scalar(&mut t, "x");
    assert(transcript_ops(t) =~= ops_u(pv, v, 0));
    (t, y, z, x)
}

/// Whether `t̂·H + τx·G = z²·V + δ(y,z)·H + x·T1 + x²·T2`.
fn poly_check(proof: &RangeProof, v_bytes: &[u8; 32], h: &[u8; 32], y: &[u8; 32], z: &[u8; 32], x: &[u8; 32]) -> (ok: bool)
    requires
        proof.wf(),
        ristretto_decompresses(v_bytes@),
        ristretto_decompresses(h@),
        ristretto_decompresses(proof.T1@),
        ristretto_decompresses(proof.T2@),
        sv(*y) == ch_y(*proof, v_bytes@),
        sv(*z) == ch_z(*proof, v_bytes@),
        sv(*x) == ch_x(*proof, v_bytes@),
        canonical(*y),
        canonical(*z),
        canonical(*x),
    ensures
        ok == poly_holds(*proof, v_bytes@, h@),
{
    let g = basepoint();
    let lhs_s = [proof.t_hat, proof.taux];
    let lhs_p = [*h, g];
    let lhs = point_lincomb(&lhs_s, &lhs_p);
    let zz = scalar_mul(z, z);
    let d = delta_yz(y, z);
    let xx = scalar_mul(x, x);
    proof {
        lemma_mod_canonical(sv(zz));
        lemma_mod_canonical(sv(xx));
    }
    let rhs_s = [zz, d, *x, xx];
    let rhs_p = [*v_bytes, *h, proof.T1, proof.T2];
    let rhs = point_lincomb(&rhs_s, &rhs_p);
    proof {
        assert(sv_seq(lhs_s@) =~= seq![sv(proof.t_hat), sv(proof.taux)]);
        assert(pt_seq(lhs_p@) =~= seq![h@, basepoint_bytes()]);
        assert(sv_seq(rhs_s@) =~= seq![smul(sv(*z), sv(*z)), delta(sv(*y), sv(*z)), sv(*x), smul(sv(*x), sv(*x))]);
        assert(pt_seq(rhs_p@) =~= seq![v_bytes@, h@, proof.T1@, proof.T2@]);
        reveal(poly_holds);
    }
    eq32(&lhs, &rhs)
}

/// The six round challenges `u_k`, drawn after absorbing `L_k` and `R_k`.
fn round_challenges(t: &mut Transcript, proof: &RangeProof, v_bytes: &[u8; 32]) -> (us: Vec<[u8; 32]>)
    requires
        transcript_ops(*old(t)) == ops_u(*proof, v_bytes@, 0),
        proof.ipp.L_vec@.len() == 6,
        proof.ipp.R_vec@.len() == 6,
    ensures
        us@.len() == 6,
        forall|j: int| 0 <= j < 6 ==> sv(#[trigger] us@[j]) == ch_u(*proof, v_bytes@, j as nat) && canonical(us@[j]),
{
    let ghost pv = *proof;
    let ghost v = v_bytes@;
    let mut us: Vec<[u8; 32]> = Vec::new();
    let mut k: usize = 0;
    while k < 6
        invariant
            pv == *proof,
            v == v_bytes@,
            pv.ipp.L_vec@.len() == 6,
            pv.ipp.R_vec@.len() == 6,
            k <= 6,
            us@.len() == k,
            transcript_ops(*t) == ops_u(pv, v, k as nat),
            forall|j: int| 0 <= j < k ==> sv(#[trigger] us@[j]) == ch_u(pv, v, j as nat) && canonical(us@[j]),
        decreases 6 - k,
    {
        transcript_append(t, "L", &proof.ipp.L_vec[k]);
        transcript_append(t, "R", &proof.ipp.R_vec[k]);
        let u = challenge_scalar(t, "u");
        us.push(u);
        k = k + 1;
    }
    us
}

/// Whether every left and right point of the inner-product argument decompresses.
fn lr_points_decompress(proof: &RangeProof) -> (ok: bool)
    requires
        proof.ipp.L_vec@.len() == 6,
        proof.ipp.R_vec@.len() == 6,
    ensures
        ok == lr_decompress(*proof),
{
    let mut k: usize = 0;
    while k < 6
        invariant
            proof.ipp.L_vec@.len() == 6,
            proof.ipp.R_vec@.len() == 6,
            k <= 6,
            forall|j: int|
                0 <= j < k ==> ristretto_decompresses((#[trigger] proof.ipp.L_vec@[j])@) && ristretto_decompresses(
                    proof.ipp.R_vec@[j]@,
                ),
        decreases 6 - k,
    {
        let lk = proof.ipp.L_vec[k];
        let rk = proof.ipp.R_vec[k];
        let okl = point_decompresses(&lk);
        let okr = point_decompresses(&rk);
        if !okl || !okr {
            return false;
        }
        assert(lk@ == proof.ipp.L_vec@[k as int]@);
        assert(ristretto_decompresses(lk@));
        assert(ristretto_decompresses(proof.ipp.L_vec@[k as int]@));
        assert(ristretto_decompresses(proof.ipp.R_vec@[k as int]@));
        assert forall|j: int| 0 <= j < k + 1 implies ristretto_decompresses((#[trigger] proof.ipp.L_vec@[j])@) && ristretto_decompresses(
                    proof.ipp.R_vec@[j]@) by {
            if j < k {
            }
        }
        k = k + 1;
    }
    true
}

/// The scalars `z·y^i + z²·2^i` of the `H` generators.
fn h_scalars(y: &[u8; 32], z: &[u8; 32]) -> (h: Vec<[u8; 32]>)
    requires
        canonical(*y),
        canonical(*z),
    ensures
        h@.len() == 64,
        forall|j: int|
            0 <= j < 64 ==> sv(#[trigger] h@[j]) == sadd(
                smul(sv(*z), spow(sv(*y), j as nat)),
                smul(smul(sv(*z), sv(*z)), spow(2, j as nat)),
            ) && canonical(h@[j]),
{
    let y_pows = powers(y);
    let two = scalar_of_u64(2);
    proof {
        assert(group_order() > 2);
    }
    let two_pows = powers(&two);
    let zz = scalar_mul(z, z);
    proof {
        lemma_mod_canonical(sv(zz));
    }
    let mut h_terms: Vec<[u8; 32]> = Vec::new();
    let mut i: usize = 0;
    while i < 64
        invariant
            i <= 64,
            y_pows@.len() == 64,
            two_pows@.len() == 64,
            forall|j: int| 0 <= j < 64 ==> sv(#[trigger] y_pows@[j]) == spow(sv(*y), j as nat) && canonical(y_pows@[j]),
            forall|j: int| 0 <= j < 64 ==> sv(#[trigger] two_pows@[j]) == spow(2, j as nat) && canonical(two_pows@[j]),
            canonical(*z),
            sv(zz) == smul(sv(*z), sv(*z)),
            canonical(zz),
            h_terms@.len() == i,
            forall|j: int|
                0 <= j < i ==> sv(#[trigger] h_terms@[j]) == sadd(
                    smul(sv(*z), spow(sv(*y), j as nat)),
                    smul(smul(sv(*z), sv(*z)), spow(2, j as nat)),
                ) && canonical(h_terms@[j]),
        decreases 64 - i,
    {
        let a1 = scalar_mul(z, &y_pows[i]);
        let a2 = scalar_mul(&zz, &two_pows[i]);
        proof {
            lemma_mod_canonical(sv(a1));
            lemma_mod_canonical(sv(a2));
        }
        let hterm = scalar_add(&a1, &a2);
        proof {
            lemma_mod_canonical(sv(hterm));
        }
        h_terms.push(hterm);
        i = i + 1;
    }
    h_terms
}

/// The squares `u_k²` and `u_k^−2` of the round challenges.
fn u_squares(us: &[[u8; 32]]) -> (r: (Vec<[u8; 32]>, Vec<[u8; 32]>))
    requires
        us@.len() == 6,
        forall|j: int| 0 <= j < 6 ==> canonical(#[trigger] us@[j]),
    ensures
        r.0@.len() == 6,
        r.1@.len() == 6,
        forall|j: int| 0 <= j < 6 ==> sv(#[trigger] r.0@[j]) == smul(sv(us@[j]), sv(us@[j])) && canonical(r.0@[j]),
        forall|j: int|
            0 <= j < 6 ==> sv(#[trigger] r.1@[j]) == smul(sinv(sv(us@[j])), sinv(sv(us@[j]))) && canonical(r.1@[j]),
{
    let mut u2: Vec<[u8; 32]> = Vec::new();
    let mut ui2: Vec<[u8; 32]> = Vec::new();
    let mut k: usize = 0;
    while k < 6
        invariant
            k <= 6,
            us@.len() == 6,
            forall|j: int| 0 <= j < 6 ==> canonical(#[trigger] us@[j]),
            u2@.len() == k,
            ui2@.len() == k,
            forall|j: int| 0 <= j < k ==> sv(#[trigger] u2@[j]) == smul(sv(us@[j]), sv(us@[j])) && canonical(u2@[j]),
            forall|j: int|
                0 <= j < k ==> sv(#[trigger] ui2@[j]) == smul(sinv(sv(us@[j])), sinv(sv(us@[j]))) && canonical(ui2@[j]),
        decreases 6 - k,
    {
        let uk = us[k];
        let uk2 = scalar_mul(&uk, &uk);
        let uinv = scalar_invert(&uk);
        proof {
            lemma_mod_canonical(vstd::arithmetic::power::pow(sv(uk) as int, (group_order() - 2) as nat) as nat);
        }
        let ukm2 = scalar_mul(&uinv, &uinv);
        proof {
            lemma_mod_canonical(sv(uk2));
            lemma_mod_canonical(sv(ukm2));
        }
        u2.push(uk2);
        ui2.push(ukm2);
        k = k + 1;
    }
    (u2, ui2)
}

/// The scalars of `P`, in the order of [`p_scalars`].
#[verifier::rlimit(40)]
fn p_scalar_vec(
    proof: &RangeProof,
    v_bytes: &[u8; 32],
    y: &[u8; 32],
    z: &[u8; 32],
    x: &[u8; 32],
    us: &[[u8; 32]],
) -> (p_s: Vec<[u8; 32]>)
    requires
        proof.wf(),
        sv(*y) == ch_y(*proof, v_bytes@),
        sv(*z) == ch_z(*proof, v_bytes@),
        sv(*x) == ch_x(*proof, v_bytes@),
        canonical(*y),
        canonical(*z),
        canonical(*x),
        us@.len() == 6,
        forall|j: int| 0 <= j < 6 ==> sv(#[trigger] us@[j]) == ch_u(*proof, v_bytes@, j as nat) && canonical(us@[j]),
    ensures
        sv_seq(p_s@) == p_scalars(*proof, v_bytes@),
        p_s@.len() == 143,
        forall|j: int| 0 <= j < p_s@.len() ==> canonical(#[trigger] p_s@[j]),
{
    let ghost pv = *proof;
    let ghost v = v_bytes@;
    let one = scalar_one();
    let zero = scalar_zero();
    let neg_z = scalar_sub(&zero, z);
    let neg_mu = scalar_sub(&zero, &proof.mu);
    proof {
        lemma_mod_canonical(sv(neg_z));
        lemma_mod_canonical(sv(neg_mu));
    }
    let h_terms = h_scalars(y, z);
    let (u2, ui2) = u_squares(us);
    let first_s = vec![one, *x];
    let neg_zs = repeat(neg_z, 64);
    let mu_s = vec![neg_mu];
    let p_s = cat(
        cat(cat(cat(cat(first_s, neg_zs.as_slice()), h_terms.as_slice()), mu_s.as_slice()), u2.as_slice()),
        ui2.as_slice(),
    );
    proof {
        let f1 = first_s@;
        let f2 = neg_zs@;
        let f3 = h_terms@;
        let f4 = mu_s@;
        let f5 = u2@;
        let f6 = ui2@;
        lemma_seqs_add(f1, f2);
        lemma_seqs_add(f1 + f2, f3);
        lemma_seqs_add(f1 + f2 + f3, f4);
        lemma_seqs_add(f1 + f2 + f3 + f4, f5);
        lemma_seqs_add(f1 + f2 + f3 + f4 + f5, f6);
        assert(sv_seq(f1) =~= seq![1nat, ch_x(pv, v)]);
        assert(sv_seq(f2) =~= Seq::new(64, |i: int| ssub(0, ch_z(pv, v))));
        assert(sv_seq(f3) =~= Seq::new(
            64,
            |i: int|
                sadd(
                    smul(ch_z(pv, v), spow(ch_y(pv, v), i as nat)),
                    smul(smul(ch_z(pv, v), ch_z(pv, v)), spow(2, i as nat)),
                ),
        ));
        assert(sv_seq(f4) =~= seq![ssub(0, sv(pv.mu))]);
        assert(sv_seq(f5) =~= Seq::new(6, |k: int| smul(ch_u(pv, v, k as nat), ch_u(pv, v, k as nat)))) by {
            assert forall|k: int| 0 <= k < 6 implies sv(#[trigger] f5[k]) == smul(ch_u(pv, v, k as nat), ch_u(pv, v, k as nat)) by {
                assert(sv(us@[k]) == ch_u(pv, v, k as nat));
            }
        }
        assert(sv_seq(f6) =~= Seq::new(6, |k: int| smul(sinv(ch_u(pv, v, k as nat)), sinv(ch_u(pv, v, k as nat))))) by {
            assert forall|k: int| 0 <= k < 6 implies sv(#[trigger] f6[k]) == smul(sinv(ch_u(pv, v, k as nat)), sinv(ch_u(pv, v, k as nat))) by {
                assert(sv(us@[k]) == ch_u(pv, v, k as nat));
            }
        }
        assert(sv_seq(p_s@) =~= p_scalars(pv, v)) by {
            reveal(p_scalars);
        }
        assert forall|j: int| 0 <= j < p_s@.len() implies canonical(#[trigger] p_s@[j]) by {
            if j < 2 {
            } else if j < 66 {
                assert(p_s@[j] == neg_zs@[j - 2]);
            } else if j < 130 {
                assert(p_s@[j] == h_terms@[j - 66]);
            } else if j < 131 {
            } else if j < 137 {
                assert(p_s@[j] == u2@[j - 131]);
            } else {
                assert(p_s@[j] == ui2@[j - 137]);
            }
        }
    }
    p_s
}

/// The points of `P`, in the order of [`p_points`].
#[verifier::rlimit(40)]
fn p_point_vec(proof: &RangeProof, h: &[u8; 32], gi: &[[u8; 32]], hi: &[[u8; 32]]) -> (p_p: Vec<[u8; 32]>)
    requires
        ristretto_decompresses(proof.A@),
        ristretto_decompresses(proof.S@),
        ristretto_decompresses(h@),
        proof.ipp.L_vec@.len() == 6,
        proof.ipp.R_vec@.len() == 6,
        forall|k: int|
            0 <= k < 6 ==> ristretto_decompresses((#[trigger] proof.ipp.L_vec@[k])@) && ristretto_decompresses(
                proof.ipp.R_vec@[k]@,
            ),
        pt_seq(gi@) == gens("TT-BP-GVEC"@),
        pt_seq(hi@) == gens("TT-BP-HVEC"@),
        gi@.len() == 64,
        hi@.len() == 64,
        forall|i: int| 0 <= i < 64 ==> ristretto_decompresses((#[trigger] gi@[i])@),
        forall|i: int| 0 <= i < 64 ==> ristretto_decompresses((#[trigger] hi@[i])@),
    ensures
        pt_seq(p_p@) == p_points(*proof, h@),
        p_p@.len() == 143,
        forall|j: int| 0 <= j < p_p@.len() ==> ristretto_decompresses((#[trigger] p_p@[j])@),
{
    let ghost pv = *proof;
    let first_p = vec![proof.A, proof.S];
    let hp = vec![*h];
    let p_p = cat(
        cat(cat(cat(cat(first_p, gi), hi), hp.as_slice()), proof.ipp.L_vec.as_slice()),
        proof.ipp.R_vec.as_slice(),
    );
    proof {
        let g1 = first_p@;
        let g2 = gi@;
        let g3 = hi@;
        let g4 = hp@;
        let g5 = pv.ipp.L_vec@;
        let g6 = pv.ipp.R_vec@;
        lemma_seqs_add(g1, g2);
        lemma_seqs_add(g1 + g2, g3);
        lemma_seqs_add(g1 + g2 + g3, g4);
        lemma_seqs_add(g1 + g2 + g3 + g4, g5);
        lemma_seqs_add(g1 + g2 + g3 + g4 + g5, g6);
        assert(pt_seq(g1) =~= seq![pv.A@, pv.S@]);
        assert(pt_seq(g4) =~= seq![h@]);
        assert(pt_seq(p_p@) =~= p_points(pv, h@)) by {
            reveal(p_points);
        }
        assert forall|j: int| 0 <= j < p_p@.len() implies ristretto_decompresses((#[trigger] p_p@[j])@) by {
            if j < 2 {
                assert(p_p@[j] == g1[j]);
            } else if j < 66 {
                assert(p_p@[j] == gi@[j - 2]);
            } else if j < 130 {
                assert(p_p@[j] == hi@[j - 66]);
            } else if j < 131 {
                assert(p_p@[j] == g4[0]);
            } else if j < 137 {
                assert(p_p@[j] == pv.ipp.L_vec@[j - 131]);
            } else {
                assert(p_p@[j] == pv.ipp.R_vec@[j - 137]);
                assert(ristretto_decompresses(pv.ipp.L_vec@[j - 137]@));
            }
        }
    }
    p_p
}

/// The left side of the inner-product check.
#[verifier::rlimit(40)]
fn left_side(
    proof: &RangeProof,
    v_bytes: &[u8; 32],
    y: &[u8; 32],
    us: &[[u8; 32]],
    gi: &[[u8; 32]],
    hi: &[[u8; 32]],
    q: &[u8; 32],
) -> (l: [u8; 32])
    requires
        proof.wf(),
        sv(*y) == ch_y(*proof, v_bytes@),
        canonical(*y),
        us@.len() == 6,
        forall|j: int| 0 <= j < 6 ==> sv(#[trigger] us@[j]) == ch_u(*proof, v_bytes@, j as nat) && canonical(us@[j]),
        pt_seq(gi@) == gens("TT-BP-GVEC"@),
        pt_seq(hi@) == gens("TT-BP-HVEC"@),
        q@ == gen_point("TT-BP-Q"@, 0),
        gi@.len() == 64,
        hi@.len() == 64,
        forall|i: int| 0 <= i < 64 ==> ristretto_decompresses((#[trigger] gi@[i])@),
        forall|i: int| 0 <= i < 64 ==> ristretto_decompresses((#[trigger] hi@[i])@),
        ristretto_decompresses(q@),
    ensures
        l@ == ristretto_lincomb(left_scalars(*proof, v_bytes@), left_points()),
{
    let ghost pv = *proof;
    let ghost v = v_bytes@;
    let y_inv = scalar_invert(y);
    proof {
        lemma_mod_canonical(vstd::arithmetic::power::pow(sv(*y) as int, (group_order() - 2) as nat) as nat);
    }
    let y_inv_pows = powers(&y_inv);
    proof {
        assert(sv_seq(us@) =~= u_vals(pv, v));
    }
    let (s, s_inv) = ipp_s_vector(us);
    let ab = scalar_mul(&proof.ipp.a, &proof.ipp.b);
    proof {
        lemma_mod_canonical(sv(ab));
    }
    let mut g_sc: Vec<[u8; 32]> = Vec::new();
    let mut h_sc: Vec<[u8; 32]> = Vec::new();
    let mut i: usize = 0;
    while i < 64
        invariant
            i <= 64,
            pv == *proof,
            pv.wf(),
            s@.len() == 64,
            s_inv@.len() == 64,
            y_inv_pows@.len() == 64,
            forall|j: int|
                0 <= j < 64 ==> sv(#[trigger] s@[j]) == s_prod(u_vals(pv, v), j as u64, 6) && canonical(s@[j]),
            forall|j: int|
                0 <= j < 64 ==> sv(#[trigger] s_inv@[j]) == sinv(s_prod(u_vals(pv, v), j as u64, 6)) && canonical(
                    s_inv@[j],
                ),
            forall|j: int|
                0 <= j < 64 ==> sv(#[trigger] y_inv_pows@[j]) == spow(sinv(ch_y(pv, v)), j as nat) && canonical(
                    y_inv_pows@[j],
                ),
            g_sc@.len() == i,
            h_sc@.len() == i,
            forall|j: int|
                0 <= j < i ==> sv(#[trigger] g_sc@[j]) == smul(sv(pv.ipp.a), s_prod(u_vals(pv, v), j as u64, 6))
                    && canonical(g_sc@[j]),
            forall|j: int|
                0 <= j < i ==> sv(#[trigger] h_sc@[j]) == smul(
                    smul(sv(pv.ipp.b), sinv(s_prod(u_vals(pv, v), j as u64, 6))),
                    spow(sinv(ch_y(pv, v)), j as nat),
                ) && canonical(h_sc@[j]),
        decreases 64 - i,
    {
        let gs = scalar_mul(&proof.ipp.a, &s[i]);
        let bs = scalar_mul(&proof.ipp.b, &s_inv[i]);
        proof {
            lemma_mod_canonical(sv(gs));
            lemma_mod_canonical(sv(bs));
        }
        let hs = scalar_mul(&bs, &y_inv_pows[i]);
        proof {
            lemma_mod_canonical(sv(hs));
        }
        g_sc.push(gs);
        h_sc.push(hs);
        i = i + 1;
    }
    let ab_s = vec![ab];
    let left_s = cat(cat(g_sc, h_sc.as_slice()), ab_s.as_slice());
    let qp = vec![*q];
    let left_p = cat(cat(Vec::new(), gi), hi);
    let left_p = cat(left_p, qp.as_slice());
    proof {
        lemma_seqs_add(g_sc@, h_sc@);
        lemma_seqs_add(g_sc@ + h_sc@, ab_s@);
        assert(Seq::<[u8; 32]>::empty() + gi@ =~= gi@);
        lemma_seqs_add(gi@, hi@);
        lemma_seqs_add(gi@ + hi@, qp@);
        reveal(left_scalars);
        reveal(left_points);
        assert(sv_seq(left_s@) =~= left_scalars(pv, v));
        assert(pt_seq(left_p@) =~= left_points());
        assert forall|j: int| 0 <= j < left_p@.len() implies ristretto_decompresses((#[trigger] left_p@[j])@) by {
            if j < 64 {
                assert(left_p@[j] == gi@[j]);
            } else if j < 128 {
                assert(left_p@[j] == hi@[j - 64]);
            }
        }
        assert forall|j: int| 0 <= j < left_s@.len() implies canonical(#[trigger] left_s@[j]) by {
            if j < 64 {
                assert(left_s@[j] == g_sc@[j]);
            } else if j < 128 {
                assert(left_s@[j] == h_sc@[j - 64]);
            }
        }
    }
    point_lincomb(left_s.as_slice(), left_p.as_slice())
}

/// Verifies a 64-bit range proof for the commitment encoded by `v_bytes`, with the
/// Pedersen generator `H_pedersen`.
#[allow(non_snake_case)]
pub fn verify_range_proof_64(proof: &RangeProof, V_bytes: [u8; 32], H_pedersen: Point) -> (r: Result<(), BpError>)
    requires
        proof.wf(),
    ensures
        r == bp_verify(*proof, V_bytes@, H_pedersen.bytes()),
{
    let v_bytes = V_bytes;
    let h_pedersen = &H_pedersen.to_bytes();
    let ghost pv = *proof;
    let ghost v = v_bytes@;
    if !point_decompresses(&proof.A) || !point_decompresses(&proof.S) || !point_decompresses(&proof.T1)
        || !point_decompresses(&proof.T2) || !point_decompresses(&v_bytes) {
        return Err(BpError::BadCompressedPoint);
    }
    let (mut t, y, z, x) = transcript_yzx(proof, &v_bytes);
    if !poly_check(proof, &v_bytes, h_pedersen, &y, &z, &x) {
        return Err(BpError::PolyCheckFailed);
    }
    let lg = proof.ipp.L_vec.len();
    if lg != proof.ipp.R_vec.len() {
        return Err(BpError::LrLenMismatch);
    }
    proof {
        reveal_with_fuel(log2_spec, 8);
        assert(log2_spec(64) == Some(6nat));
    }
    match log2_exact(64) {
        Some(k) => {
            if lg != k {
                return Err(BpError::LrLenNotLog2);
            }
        },
        None => {
            return Err(BpError::LrLenNotLog2);
        },
    }
    let us = round_challenges(&mut t, proof, &v_bytes);
    if !lr_points_decompress(proof) {
        return Err(BpError::BadCompressedPoint);
    }
    let (gi, hi, q) = fixed_generators();
    let p_s = p_scalar_vec(proof, &v_bytes, &y, &z, &x, us.as_slice());
    let p_p = p_point_vec(proof, h_pedersen, gi.as_slice(), hi.as_slice());
    let p_point = point_lincomb(p_s.as_slice(), p_p.as_slice());
    let left = left_side(proof, &v_bytes, &y, us.as_slice(), gi.as_slice(), hi.as_slice(), &q);
    if !eq32(&left, &p_point) {
        proof {
            reveal(ipp_holds);
        }
        return Err(BpError::IppCheckFailed);
    }
    let ab = scalar_mul(&proof.ipp.a, &proof.ipp.b);
    proof {
        reveal(ipp_holds);
    }
    if !eq32(&proof.t_hat, &ab) {
        proof {
            if sv(pv.t_hat) == sv(ab) {
                crate::hybrid_commit::lemma_le_value_injective(pv.t_hat@, ab@);
            }
        }
        return Err(BpError::THatMismatch);
    }
    Ok(())
}

/// Parses a serialized 64-bit range proof and verifies it against the commitment
/// encoded by `C_out_bytes`.
#[allow(non_snake_case)]
pub fn verify_bound_range_proof_64_bytes(proof_bytes: &[u8], C_out_bytes: [u8; 32], H_pedersen: Point) -> (r: Result<
    (),
    BpError,
>)
    ensures
        proof_bytes@.len() != 672 ==> r == Err::<(), BpError>(BpError::BadLength),
        (proof_bytes@.len() == 672 && !parse_ok(proof_bytes@)) ==> r == Err::<(), BpError>(BpError::BadScalar),
        parse_ok(proof_bytes@) ==> exists|p: RangeProof|
            parsed_from(p, proof_bytes@) && r == bp_verify(p, C_out_bytes@, H_pedersen.bytes()),
{
    match parse_dalek_range_proof_64(proof_bytes) {
        Ok(rp) => {
            let r = verify_range_proof_64(&rp, C_out_bytes, H_pedersen);
            assert(parsed_from(rp, proof_bytes@) && r == bp_verify(rp, C_out_bytes@, H_pedersen.bytes()));
            r
        },
        Err(e) => Err(e),
    }
}

} // verus!
