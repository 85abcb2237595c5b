//! Q32.32 fixed-point arithmetic used on every consensus path.
use vstd::prelude::*;

verus! {

/// A Q32.32 fixed-point number.
pub type Q = u64;

/// 1.0 in Q32.32.
pub const ONE_Q: Q = 4294967296u64;

/// 2^32 as a mathematical integer.
pub open spec fn q_scale() -> int {
    4294967296
}

/// The smaller of two integers.
pub open spec fn min_int(a: int, b: int) -> int {
    if a <= b { a } else { b }
}

/// The larger of two integers.
pub open spec fn max_int(a: int, b: int) -> int {
    if a >= b { a } else { b }
}

/// Q32.32 product, saturating at `u64::MAX`.
pub open spec fn spec_qmul(a: int, b: int) -> int {
    min_int((a * b) / q_scale(), u64::MAX as int)
}

/// Q32.32 quotient, `0` when dividing by zero, saturating at `u64::MAX`.
pub open spec fn spec_qdiv(a: int, b: int) -> int {
    if b == 0 { 0 } else { min_int((a * q_scale()) / b, u64::MAX as int) }
}

/// Saturating Q32.32 addition.
pub open spec fn spec_qadd(a: int, b: int) -> int {
    min_int(a + b, u64::MAX as int)
}

/// Clamp to `[0, 1.0]`.
pub open spec fn spec_qclamp01(x: int) -> int {
    min_int(x, q_scale())
}

/// Saturating Q32.32 multiplication.
pub fn qmul(a: Q, b: Q) -> (r: Q)
    ensures
        r == spec_qmul(a as int, b as int),
{
    proof {
        assert((a as int) * (b as int) <= (u64::MAX as int) * (u64::MAX as int)) by (nonlinear_arith);
        assert((a as int) * (b as int) >= 0) by (nonlinear_arith);
    }
    let z: u128 = (a as u128) * (b as u128);
    let shifted: u128 = z / 4294967296u128;
    if shifted > 18446744073709551615u128 {
        u64::MAX
    } else {
        shifted as u64
    }
}

/// Saturating Q32.32 addition.
pub fn qadd(a: Q, b: Q) -> (r: Q)
    ensures
        r == spec_qadd(a as int, b as int),
{
    a.saturating_add(b)
}

/// Q32.32 division; division by zero gives 0.
pub fn qdiv(a: Q, b: Q) -> (r: Q)
    ensures
        r == spec_qdiv(a as int, b as int),
{
    if b == 0 {
        0
    } else {
        let z: u128 = (a as u128) * 4294967296u128;
        let d: u128 = z / (b as u128);
        if d > 18446744073709551615u128 {
            u64::MAX
        } else {
            d as u64
        }
    }
}

/// Clamp a Q32.32 value to at most 1.0.
pub fn qclamp01(x: Q) -> (r: Q)
    ensures
        r == spec_qclamp01(x as int),
{
    if x > ONE_Q { ONE_Q } else { x }
}

/// `num / max(den, 1)` in Q32.32; the result is truncated to 64 bits.
pub fn q_from_ratio(num: u64, den: u64) -> (r: Q)
    ensures
        r == ((q_scale() * num) / max_int(den as int, 1)) as u64,
        num <= den ==> r == (q_scale() * num) / max_int(den as int, 1),
{
    let d: u64 = if den > 1 { den } else { 1 };
    proof {
        assert(q_scale() * (num as int) <= q_scale() * (u64::MAX as int)) by (nonlinear_arith);
        if num <= den {
            assert(q_scale() * (num as int) / (d as int) <= q_scale() * (d as int) / (d as int)) by (nonlinear_arith)
                requires num <= d, d >= 1;
            assert(q_scale() * (d as int) / (d as int) == q_scale()) by (nonlinear_arith) requires d >= 1;
        }
    }
    let z: u128 = 4294967296u128 * (num as u128);
    (z / (d as u128)) as u64
}

/// `num / den` in Q32.32, saturating at `u64::MAX`; zero when `den == 0`.
pub fn q_from_ratio128(num: u128, den: u128) -> (r: Q)
    requires
        den == 0 || num * q_scale() <= u128::MAX,
    ensures
        r == (if den == 0 { 0 } else { min_int((q_scale() * num) / (den as int), u64::MAX as int) }),
{
    if den == 0 {
        return 0;
    }
    let z: u128 = 4294967296u128 * num;
    let d: u128 = z / den;
    if d > 18446744073709551615u128 {
        u64::MAX
    } else {
        d as u64
    }
}

/// `bp / 10000` in Q32.32 (basis points to a fraction).
pub fn q_from_basis_points(bp: u32) -> (r: Q)
    ensures
        r == (q_scale() * bp) / 10000,
{
    proof {
        assert(q_scale() * (bp as int) <= q_scale() * (u32::MAX as int)) by (nonlinear_arith)
            requires bp <= u32::MAX;
    }
    let z: u128 = 4294967296u128 * (bp as u128);
    (z / 10000u128) as u64
}

/// Q32.32 product is monotone in both factors.
pub proof fn lemma_qmul_monotone(a1: int, a2: int, b1: int, b2: int)
    requires
        0 <= a1 <= a2,
        0 <= b1 <= b2,
    ensures
        spec_qmul(a1, b1) <= spec_qmul(a2, b2),
{
    assert(a1 * b1 <= a2 * b2) by (nonlinear_arith)
        requires 0 <= a1 <= a2, 0 <= b1 <= b2;
    assert((a1 * b1) / q_scale() <= (a2 * b2) / q_scale()) by (nonlinear_arith)
        requires a1 * b1 <= a2 * b2;
}

/// Q32.32 quotient is monotone in its numerator.
pub proof fn lemma_qdiv_monotone(a1: int, a2: int, b: int)
    requires
        0 <= a1 <= a2,
        b > 0,
    ensures
        spec_qdiv(a1, b) <= spec_qdiv(a2, b),
{
    assert(a1 * q_scale() <= a2 * q_scale()) by (nonlinear_arith)
        requires a1 <= a2;
    assert((a1 * q_scale()) / b <= (a2 * q_scale()) / b) by (nonlinear_arith)
        requires a1 * q_scale() <= a2 * q_scale(), b > 0;
}

/// Q32.32 product and quotient are never negative.
pub proof fn lemma_q_nonneg(a: int, b: int)
    requires
        0 <= a,
        0 <= b,
    ensures
        0 <= spec_qmul(a, b),
        0 <= spec_qdiv(a, b),
{
    assert(0 <= a * b) by (nonlinear_arith) requires 0 <= a, 0 <= b;
    assert(0 <= a * q_scale()) by (nonlinear_arith) requires 0 <= a;
    if b > 0 {
        assert(0 <= (a * q_scale()) / b) by (nonlinear_arith) requires 0 <= a * q_scale(), b > 0;
    }
}

} // verus!
