//! SHAKE256 helpers for key search: the framed extendable output of
//! [`crate::crypto::kmac`] and a 32-byte digest of several inputs under the domain
//! tag `SHAKE256_32`.
use vstd::prelude::*;
use crate::bytes::{append_bytes, to_array32};
use crate::hashing::{sha3_shake256, shake256_xof};
pub use crate::crypto::kmac::kmac256_xof_fill;

verus! {

/// The domain tag `SHAKE256_32`.
pub open spec fn shake32_tag() -> Seq<u8> {
    seq![83u8, 72u8, 65u8, 75u8, 69u8, 50u8, 53u8, 54u8, 95u8, 51u8, 50u8]
}

/// The inputs one after another.
pub open spec fn concat_all(parts: Seq<Seq<u8>>) -> Seq<u8>
    decreases parts.len(),
{
    if parts.len() == 0 {
        Seq::empty()
    } else {
        concat_all(parts.drop_last()) + parts.last()
    }
}

/// The byte strings of a list of slices.
pub open spec fn views(inputs: Seq<&[u8]>) -> Seq<Seq<u8>> {
    inputs.map_values(|s: &[u8]| s@)
}

/// The 32-byte SHAKE256 digest of the tag followed by every input, in order.
pub open spec fn spec_shake256_32(inputs: Seq<Seq<u8>>) -> Seq<u8> {
    shake256_xof(shake32_tag() + concat_all(inputs), 32)
}

/// 32 bytes of SHAKE256 over `SHAKE256_32` and the inputs, in order.
pub fn shake256_32(inputs: &[&[u8]]) -> (out: [u8; 32])
    ensures
        out@ == spec_shake256_32(views(inputs@)),
{
    let mut v: Vec<u8> = vec![83u8, 72u8, 65u8, 75u8, 69u8, 50u8, 53u8, 54u8, 95u8, 51u8, 50u8];
    assert(v@ =~= shake32_tag());
    let mut i: usize = 0;
    while i < inputs.len()
        invariant
            i <= inputs@.len(),
            v@ == shake32_tag() + concat_all(views(inputs@.subrange(0, i as int))),
        decreases inputs@.len() - i,
    {
        let part: &[u8] = inputs[i];
        append_bytes(&mut v, part);
        proof {
            let pre = views(inputs@.subrange(0, i as int));
            let post = views(inputs@.subrange(0, i + 1));
            assert(post.drop_last() =~= pre);
            assert(post.last() == part@);
        }
        i = i + 1;
    }
    assert(inputs@.subrange(0, inputs@.len() as int) =~= inputs@);
    let h = sha3_shake256(v.as_slice(), 32);
    let out = to_array32(h.as_slice());
    assert(out@ =~= h@);
    out
}

} // verus!
