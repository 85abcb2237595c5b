//! KMAC256-style derivations framed over SHAKE256.
//!
//! Every derivation absorbs a domain tag followed by length-prefixed
//! (little-endian `u64`) fields, so distinct field splits never collide.
use vstd::prelude::*;
use crate::bytes::{append_bytes, append_u64_le, le64, to_array32};
use crate::hashing::{sha3_shake256, shake256_xof};

verus! {

/// `tag || len(a) || a || len(b) || b || len(c) || c`, lengths as little-endian `u64`.
pub open spec fn frame3(tag: Seq<u8>, a: Seq<u8>, b: Seq<u8>, c: Seq<u8>) -> Seq<u8> {
    tag + le64(a.len() as u64) + a + le64(b.len() as u64) + b + le64(c.len() as u64) + c
}

/// Domain tag of key derivation.
pub open spec fn derive_tag() -> Seq<u8> {
    seq![75u8, 77u8, 65u8, 67u8, 50u8, 53u8, 54u8, 45u8, 68u8, 69u8, 82u8, 73u8, 86u8, 69u8, 45u8, 118u8, 49u8]
}

/// Domain tag of the extendable output.
pub open spec fn xof_tag() -> Seq<u8> {
    seq![75u8, 77u8, 65u8, 67u8, 50u8, 53u8, 54u8, 45u8, 88u8, 79u8, 70u8, 45u8, 118u8, 49u8]
}

/// Domain tag of message authentication.
pub open spec fn tag_tag() -> Seq<u8> {
    seq![75u8, 77u8, 65u8, 67u8, 50u8, 53u8, 54u8, 45u8, 84u8, 65u8, 71u8, 45u8, 118u8, 49u8]
}

/// The `len`-byte extendable output for `(key, label, context)`.
pub open spec fn spec_kmac256_xof(key: Seq<u8>, label: Seq<u8>, context: Seq<u8>, len: nat) -> Seq<u8> {
    shake256_xof(frame3(xof_tag(), key, label, context), len)
}

/// The 32-byte derived key for `(key, label, context)`.
pub open spec fn spec_kmac256_derive_key(key: Seq<u8>, label: Seq<u8>, context: Seq<u8>) -> Seq<u8> {
    shake256_xof(frame3(derive_tag(), key, label, context), 32)
}

/// The 32-byte tag of `message` under `(key, label)`.
pub open spec fn spec_kmac256_tag(key: Seq<u8>, label: Seq<u8>, message: Seq<u8>) -> Seq<u8> {
    shake256_xof(
        tag_tag() + le64(key.len() as u64) + key + le64(label.len() as u64) + label + message,
        32,
    )
}

fn push_framed(v: &mut Vec<u8>, field: &[u8])
    ensures
        final(v)@ == old(v)@ + le64(field@.len() as u64) + field@,
{
    append_u64_le(v, field.len() as u64);
    append_bytes(v, field);
}

fn frame_bytes(tag: &[u8], a: &[u8], b: &[u8], c: &[u8]) -> (out: Vec<u8>)
    ensures
        out@ == frame3(tag@, a@, b@, c@),
{
    let mut v: Vec<u8> = Vec::new();
    append_bytes(&mut v, tag);
    push_framed(&mut v, a);
    push_framed(&mut v, b);
    push_framed(&mut v, c);
    assert(v@ =~= frame3(tag@, a@, b@, c@));
    v
}

pub(crate) fn derive_tag_bytes() -> (out: Vec<u8>)
    ensures
        out@ == derive_tag(),
{
    let out: Vec<u8> = vec![75u8, 77u8, 65u8, 67u8, 50u8, 53u8, 54u8, 45u8, 68u8, 69u8, 82u8, 73u8, 86u8, 69u8, 45u8, 118u8, 49u8];
    assert(out@ =~= derive_tag());
    out
}

fn xof_tag_bytes() -> (out: Vec<u8>)
    ensures
        out@ == xof_tag(),
{
    let out: Vec<u8> = vec![75u8, 77u8, 65u8, 67u8, 50u8, 53u8, 54u8, 45u8, 88u8, 79u8, 70u8, 45u8, 118u8, 49u8];
    assert(out@ =~= xof_tag());
    out
}

fn tag_tag_bytes() -> (out: Vec<u8>)
    ensures
        out@ == tag_tag(),
{
    let out: Vec<u8> = vec![75u8, 77u8, 65u8, 67u8, 50u8, 53u8, 54u8, 45u8, 84u8, 65u8, 71u8, 45u8, 118u8, 49u8];
    assert(out@ =~= tag_tag());
    out
}

/// Derives a 32-byte key from `(key, label, context)`.
pub fn kmac256_derive_key(key: &[u8], label: &[u8], context: &[u8]) -> (out: [u8; 32])
    ensures
        out@ == spec_kmac256_derive_key(key@, label@, context@),
{
    let tag = derive_tag_bytes();
    let framed = frame_bytes(tag.as_slice(), key, label, context);
    let h = sha3_shake256(framed.as_slice(), 32);
    let out = to_array32(h.as_slice());
    assert(out@ =~= h@);
    out
}

/// Extendable output of `output_len` bytes for `(key, label, context)`.
pub fn kmac256_xof(key: &[u8], label: &[u8], context: &[u8], output_len: usize) -> (out: Vec<u8>)
    ensures
        out@ == spec_kmac256_xof(key@, label@, context@, output_len as nat),
        out@.len() == output_len,
{
    let tag = xof_tag_bytes();
    let framed = frame_bytes(tag.as_slice(), key, label, context);
    sha3_shake256(framed.as_slice(), output_len)
}

/// Fills `output` with the extendable output for `(key, label, context)`.
pub fn kmac256_xof_fill(key: &[u8], label: &[u8], context: &[u8], output: &mut Vec<u8>)
    ensures
        final(output)@ == spec_kmac256_xof(key@, label@, context@, old(output)@.len()),
        final(output)@.len() == old(output)@.len(),
{
    let n = output.len();
    *output = kmac256_xof(key, label, context, n);
}

/// 32-byte authentication tag of `message` under `(key, label)`.
pub fn kmac256_tag(key: &[u8], label: &[u8], message: &[u8]) -> (out: [u8; 32])
    ensures
        out@ == spec_kmac256_tag(key@, label@, message@),
{
    let mut v = tag_tag_bytes();
    push_framed(&mut v, key);
    push_framed(&mut v, label);
    append_bytes(&mut v, message);
    let h = sha3_shake256(v.as_slice(), 32);
    let out = to_array32(h.as_slice());
    assert(out@ =~= h@);
    out
}

} // verus!
