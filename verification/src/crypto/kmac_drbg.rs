//! A deterministic random bit generator over the KMAC256-style XOF.
//!
//! Block `i` of the stream is the 64-byte XOF output under the current key, the
//! label `DRBG/stream` and the personalization followed by the 128-bit
//! little-endian block counter. After a configurable number of blocks the key is
//! ratcheted forward, for forward secrecy.
use vstd::prelude::*;
use vstd::bytes::{spec_u128_to_le_bytes, spec_u32_from_le_bytes, spec_u64_from_le_bytes, u128_to_le_bytes, u32_from_le_bytes, u64_from_le_bytes};
use crate::bytes::{append_bytes, copy_bytes};
use crate::crypto::kmac::{kmac256_derive_key, kmac256_xof, spec_kmac256_derive_key, spec_kmac256_xof};
use crate::tags::{drbg_ratchet, drbg_ratchet_bytes, drbg_reseed, drbg_reseed_bytes, drbg_seed, drbg_seed_bytes, drbg_stream, drbg_stream_bytes};

verus! {

/// The bytes of one stream block.
pub const DRBG_BLOCK: usize = 64;

/// The default number of blocks between ratchets.
pub const DEFAULT_RATCHET_EVERY: u64 = 65536;

/// The abstract state of a generator.
pub struct DrbgView {
    pub key: Seq<u8>,
    pub ctr: u128,
    pub pers: Seq<u8>,
    pub since_ratchet: u64,
    pub ratchet_every: u64,
}

/// The customization of the current block: personalization, then the counter.
pub open spec fn stream_custom(v: DrbgView) -> Seq<u8> {
    v.pers + spec_u128_to_le_bytes(v.ctr)
}

/// The state after a ratchet: a key derived from the old key, the label
/// `DRBG/ratchet` and the current customization; the ratchet count restarts.
pub open spec fn ratcheted(v: DrbgView) -> DrbgView {
    DrbgView { key: spec_kmac256_derive_key(v.key, drbg_ratchet(), stream_custom(v)), since_ratchet: 0, ..v }
}

/// The current block.
pub open spec fn stream_block(v: DrbgView) -> Seq<u8> {
    spec_kmac256_xof(v.key, drbg_stream(), stream_custom(v), DRBG_BLOCK as nat)
}

/// The state after one block: the counter advances (wrapping), the ratchet count
/// too (saturating), and the key ratchets once the count reaches the interval.
pub open spec fn after_block(v: DrbgView) -> DrbgView {
    let w = DrbgView {
        ctr: vstd::wrapping::u128_specs::wrapping_add(v.ctr, 1),
        since_ratchet: if v.since_ratchet == u64::MAX { u64::MAX } else { (v.since_ratchet + 1) as u64 },
        ..v
    };
    if w.since_ratchet >= w.ratchet_every { ratcheted(w) } else { w }
}

/// The first `n` blocks from state `v`, concatenated, and the state after them.
pub open spec fn blocks(v: DrbgView, n: nat) -> (Seq<u8>, DrbgView)
    decreases n,
{
    if n == 0 {
        (Seq::empty(), v)
    } else {
        let prev = blocks(v, (n - 1) as nat);
        (prev.0 + stream_block(prev.1), after_block(prev.1))
    }
}

/// The number of blocks drawn for `len` bytes.
pub open spec fn blocks_for(len: nat) -> nat {
    ((len + 63) / 64) as nat
}

/// The deterministic generator.
pub struct KmacDrbg {
    k: [u8; 32],
    ctr: u128,
    pers: Vec<u8>,
    blocks_since_ratchet: u64,
    ratchet_every_blocks: u64,
}

impl KmacDrbg {
    /// The abstract state.
    pub closed spec fn view(&self) -> DrbgView {
        DrbgView {
            key: self.k@,
            ctr: self.ctr,
            pers: self.pers@,
            since_ratchet: self.blocks_since_ratchet,
            ratchet_every: self.ratchet_every_blocks,
        }
    }

    /// A generator keyed from `seed_material` under the label `DRBG/seed` and the
    /// personalization.
    pub fn new(seed_material: &[u8], personalization: &[u8]) -> (d: Self)
        ensures
            d.view() == (DrbgView {
                key: spec_kmac256_derive_key(seed_material@, drbg_seed(), personalization@),
                ctr: 0,
                pers: personalization@,
                since_ratchet: 0,
                ratchet_every: DEFAULT_RATCHET_EVERY,
            }),
    {
        let label = drbg_seed_bytes();
        let k = kmac256_derive_key(seed_material, label.as_slice(), personalization);
        Self { k, ctr: 0, pers: copy_bytes(personalization), blocks_since_ratchet: 0, ratchet_every_blocks: DEFAULT_RATCHET_EVERY }
    }

    /// A generator with the given key.
    pub fn from_key(key32: [u8; 32], personalization: &[u8]) -> (d: Self)
        ensures
            d.view() == (DrbgView {
                key: key32@,
                ctr: 0,
                pers: personalization@,
                since_ratchet: 0,
                ratchet_every: DEFAULT_RATCHET_EVERY,
            }),
    {
        Self { k: key32, ctr: 0, pers: copy_bytes(personalization), blocks_since_ratchet: 0, ratchet_every_blocks: DEFAULT_RATCHET_EVERY }
    }

    /// Mixes `additional` into the key under the label `DRBG/reseed`, and restarts the
    /// counter and the ratchet count.
    pub fn reseed(&mut self, additional: &[u8])
        ensures
            final(self).view() == (DrbgView {
                key: spec_kmac256_derive_key(old(self).view().key, drbg_reseed(), additional@),
                ctr: 0,
                since_ratchet: 0,
                ..old(self).view()
            }),
    {
        let label = drbg_reseed_bytes();
        let newk = kmac256_derive_key(&self.k, label.as_slice(), additional);
        self.k = newk;
        self.ctr = 0;
        self.blocks_since_ratchet = 0;
    }

    /// Sets the ratchet interval, at least one block.
    pub fn set_ratchet_interval(&mut self, every_blocks: u64)
        ensures
            final(self).view() == (DrbgView {
                ratchet_every: if every_blocks >= 1 { every_blocks } else { 1 },
                ..old(self).view()
            }),
    {
        self.ratchet_every_blocks = if every_blocks >= 1 { every_blocks } else { 1 };
    }

    /// Blocks drawn since the last ratchet.
    pub fn blocks_since_ratchet(&self) -> (n: u64)
        ensures
            n == self.view().since_ratchet,
    {
        self.blocks_since_ratchet
    }

    fn custom(&self) -> (c: Vec<u8>)
        ensures
            c@ == stream_custom(self.view()),
    {
        let mut c = copy_bytes(self.pers.as_slice());
        let b = u128_to_le_bytes(self.ctr);
        append_bytes(&mut c, b.as_slice());
        c
    }

    /// Ratchets the key forward.
    pub fn ratchet(&mut self)
        ensures
            final(self).view() == ratcheted(old(self).view()),
    {
        let custom = self.custom();
        let label = drbg_ratchet_bytes();
        let newk = kmac256_derive_key(&self.k, label.as_slice(), custom.as_slice());
        self.k = newk;
        self.blocks_since_ratchet = 0;
    }

    fn gen_block_into(&mut self, out: &mut [u8; 64])
        ensures
            final(out)@ == stream_block(old(self).view()),
            final(self).view() == after_block(old(self).view()),
    {
        let custom = self.custom();
        let label = drbg_stream_bytes();
        let blk = kmac256_xof(&self.k, label.as_slice(), custom.as_slice(), 64);
        let mut i: usize = 0;
        while i < 64
            invariant
                blk@.len() == 64,
                i <= 64,
                forall|j: int| 0 <= j < i ==> out@[j] == blk@[j],
            decreases 64 - i,
        {
            out[i] = blk[i];
            i = i + 1;
        }
        assert(out@ =~= blk@);
        self.ctr = self.ctr.wrapping_add(1);
        self.blocks_since_ratchet = self.blocks_since_ratchet.saturating_add(1);
        if self.blocks_since_ratchet >= self.ratchet_every_blocks {
            self.ratchet();
        }
    }

    /// Fills `dest` with the next bytes of the stream, drawing whole blocks.
    pub fn fill_bytes(&mut self, dest: &mut [u8])
        ensures
            final(dest)@.len() == old(dest)@.len(),
            final(dest)@ == blocks(old(self).view(), blocks_for(old(dest)@.len())).0.subrange(
                0,
                old(dest)@.len() as int,
            ),
            final(self).view() == blocks(old(self).view(), blocks_for(old(dest)@.len())).1,
    {
        let ghost v0 = self.view();
        let len = dest.len();
        let mut buf = [0u8; 64];
        let mut off: usize = 0;
        let mut c: usize = 0;
        while off < len
            invariant
                len == dest@.len(),
                len == old(dest)@.len(),
                off <= len,
                64 * c <= len ==> off == 64 * c,
                64 * c > len ==> off == len,
                c == 0 || 64 * (c - 1) < len,
                blocks(v0, c as nat).0.len() == 64 * c,
                forall|j: int| 0 <= j < off ==> dest@[j] == blocks(v0, c as nat).0[j],
                self.view() == blocks(v0, c as nat).1,
            decreases len - off,
        {
            let ghost pre = blocks(v0, c as nat);
            self.gen_block_into(&mut buf);
            proof {
                assert(blocks(v0, (c + 1) as nat) == (pre.0 + buf@, after_block(pre.1)));
            }
            let n: usize = if len - off >= 64 { 64 } else { len - off };
            let mut j: usize = 0;
            while j < n
                invariant
                    n <= 64,
                    off + n <= len,
                    len == dest@.len(),
                    j <= n,
                    off == 64 * c,
                    buf@.len() == 64,
                    pre.0.len() == 64 * c,
                    forall|t: int| 0 <= t < off ==> dest@[t] == pre.0[t],
                    forall|t: int| off <= t < off + j ==> dest@[t] == buf@[t - off],
                decreases n - j,
            {
                dest[off + j] = buf[j];
                j = j + 1;
            }
            proof {
                let nb = pre.0 + buf@;
                assert forall|t: int| 0 <= t < off + n implies dest@[t] == nb[t] by {
                    if t < off {
                        assert(nb[t] == pre.0[t]);
                    } else {
                        assert(nb[t] == buf@[t - off]);
                    }
                }
            }
            if len - off > 64 {
                off = off + 64;
            } else {
                off = len;
            }
            c = c + 1;
        }
        proof {
            assert(c as nat == blocks_for(len as nat));
            assert(dest@ =~= blocks(v0, c as nat).0.subrange(0, len as int));
        }
    }

    /// The next four stream bytes as a little-endian `u32`.
    pub fn next_u32(&mut self) -> (x: u32)
        ensures
            x == spec_u32_from_le_bytes(blocks(old(self).view(), 1).0.subrange(0, 4)),
            final(self).view() == blocks(old(self).view(), 1).1,
    {
        let mut b = [0u8; 4];
        self.fill_bytes(&mut b);
        proof {
            assert(blocks_for(4) == 1);
        }
        u32_from_le_bytes(&b)
    }

    /// The next eight stream bytes as a little-endian `u64`.
    pub fn next_u64(&mut self) -> (x: u64)
        ensures
            x == spec_u64_from_le_bytes(blocks(old(self).view(), 1).0.subrange(0, 8)),
            final(self).view() == blocks(old(self).view(), 1).1,
    {
        let mut b = [0u8; 8];
        self.fill_bytes(&mut b);
        proof {
            assert(blocks_for(8) == 1);
        }
        u64_from_le_bytes(&b)
    }
}

/// Two generators in the same state produce the same bytes and end in the same
/// state: the stream is a function of the state alone.
pub proof fn lemma_stream_deterministic(a: DrbgView, b: DrbgView, n: nat)
    requires
        a == b,
    ensures
        blocks(a, n) == blocks(b, n),
{
}

/// Drawing `m` blocks and then `n` more gives the same bytes and state as drawing
/// `m + n` at once.
pub proof fn lemma_blocks_split(v: DrbgView, m: nat, n: nat)
    ensures
        blocks(v, m + n).0 == blocks(v, m).0 + blocks(blocks(v, m).1, n).0,
        blocks(v, m + n).1 == blocks(blocks(v, m).1, n).1,
    decreases n,
{
    if n == 0 {
        assert(blocks(v, m).0 + Seq::<u8>::empty() =~= blocks(v, m).0);
    } else {
        lemma_blocks_split(v, m, (n - 1) as nat);
        assert((m + n - 1) as nat == m + (n - 1) as nat);
        let p = blocks(v, m);
        let q = blocks(p.1, (n - 1) as nat);
        assert(blocks(v, m + n).0 =~= p.0 + q.0 + stream_block(q.1));
        assert(blocks(p.1, n).0 =~= q.0 + stream_block(q.1));
    }
}

} // verus!
