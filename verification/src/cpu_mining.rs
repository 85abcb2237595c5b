//! RandomX-lite: a small interpreted virtual machine over a memory-hard
//! scratchpad, for CPU mining without a GPU advantage.
//!
//! The scratchpad is filled by a SHAKE256 chain from a seed; a program run mixes
//! its input into eight registers, runs a fixed number of rounds of integer
//! operations and scratchpad reads and writes, and hashes the registers and a
//! sample of the scratchpad.
use vstd::prelude::*;
use vstd::bytes::{spec_u32_from_le_bytes, spec_u64_from_le_bytes, u32_from_le_bytes, u64_from_le_bytes};
use crate::chain_core::{shake256_bytes, Hash32};
use crate::hashing::{keccak_shake256, tk_shake256};
use crate::bytes::{append_bytes, append_u64_le, le64};
use crate::tags::{final_label, final_label_bytes, randomx_lite, randomx_lite_bytes, seed_label, seed_label_bytes};
use crate::cpu_proof::{mine_micro_pow, verify_micro_pow, none_below, pow_accepts, spec_pow_hash, meets_difficulty, MicroPowParams, PowProof};
use crate::qmath::Q;

verus! {

/// The `i`-th 8-byte block of the fill chain: SHAKE256 of the label and the seed,
/// then SHAKE256 of the previous block.
pub open spec fn fill_block(seed: Seq<u8>, i: nat) -> Seq<u8>
    decreases i,
{
    if i == 0 {
        keccak_shake256(randomx_lite() + seed, 8)
    } else {
        keccak_shake256(fill_block(seed, (i - 1) as nat), 8)
    }
}

/// The `i`-th scratchpad word after initialisation with `seed`.
pub open spec fn fill_word(seed: Seq<u8>, i: nat) -> u64 {
    spec_u64_from_le_bytes(fill_block(seed, i))
}

/// A scratchpad of 64-bit words.
pub struct Scratchpad {
    data: Vec<u64>,
    size: usize,
}

impl Scratchpad {
    /// The words.
    pub closed spec fn words(&self) -> Seq<u64> {
        self.data@
    }

    /// The number of words.
    pub closed spec fn spec_size(&self) -> usize {
        self.size
    }

    /// The number of words matches the storage, and a word index plus a stride of
    /// 32 cannot overflow.
    pub open spec fn wf(&self) -> bool {
        &&& self.words().len() == self.spec_size()
        &&& self.spec_size() <= usize::MAX / 8
    }

    /// A zeroed scratchpad of `size_kb` KiB (`size_kb * 1024 / 8` words).
    pub fn new(size_kb: usize) -> (s: Self)
        requires
            size_kb * 1024 <= usize::MAX,
        ensures
            s.wf(),
            s.spec_size() == (size_kb * 1024) / 8,
            s.words() == Seq::new(s.spec_size() as nat, |i: int| 0u64),
    {
        let size: usize = (size_kb * 1024) / 8;
        let data = vec![0u64; size];
        let s = Self { data, size };
        assert(s.words() =~= Seq::new(size as nat, |i: int| 0u64));
        s
    }

    /// Fills the scratchpad from `seed`: word `i` is the little-endian value of the
    /// `i`-th block of the fill chain.
    pub fn init(&mut self, seed: &Hash32)
        requires
            old(self).wf(),
        ensures
            final(self).wf(),
            final(self).spec_size() == old(self).spec_size(),
            final(self).words() == Seq::new(
                old(self).spec_size() as nat,
                |i: int| fill_word(seed@, i as nat),
            ),
    {
        let mut first = randomx_lite_bytes();
        append_bytes(&mut first, seed);
        let mut buf = tk_shake256(first.as_slice(), 8);
        let mut i: usize = 0;
        while i < self.size
            invariant
                self.wf(),
                self.spec_size() == old(self).spec_size(),
                i <= self.size,
                buf@ == fill_block(seed@, i as nat),
                buf@.len() == 8,
                forall|j: int| 0 <= j < i ==> self.words()[j] == fill_word(seed@, j as nat),
            decreases self.size - i,
        {
            let w = u64_from_le_bytes(buf.as_slice());
            self.data.set(i, w);
            buf = tk_shake256(buf.as_slice(), 8);
            i = i + 1;
        }
        assert(self.words() =~= Seq::new(self.size as nat, |i: int| fill_word(seed@, i as nat)));
    }

    /// The word at `index` modulo the size.
    pub fn read(&self, index: usize) -> (v: u64)
        requires
            self.wf(),
            self.spec_size() > 0,
        ensures
            v == self.words()[(index % self.spec_size()) as int],
    {
        self.data[index % self.size]
    }

    /// Writes `value` at `index` modulo the size.
    pub fn write(&mut self, index: usize, value: u64)
        requires
            old(self).wf(),
            old(self).spec_size() > 0,
        ensures
            final(self).wf(),
            final(self).spec_size() == old(self).spec_size(),
            final(self).words() == old(self).words().update((index % old(self).spec_size()) as int, value),
    {
        let k = index % self.size;
        self.data.set(k, value);
    }
}

/// `x` rotated left by `n` bits (modulo 64).
pub open spec fn rotl(x: u64, n: u32) -> u64 {
    let k = (n % 64) as u64;
    if k == 0 { x } else { ((x << k) | (x >> ((64 - k) as u64))) as u64 }
}

/// `x` rotated right by `n` bits (modulo 64).
pub open spec fn rotr(x: u64, n: u32) -> u64 {
    let k = (n % 64) as u64;
    if k == 0 { x } else { ((x >> k) | (x << ((64 - k) as u64))) as u64 }
}

fn rotate_left64(x: u64, n: u32) -> (r: u64)
    ensures
        r == rotl(x, n),
{
    let k: u64 = (n % 64) as u64;
    if k == 0 { x } else { (x << k) | (x >> (64 - k)) }
}

fn rotate_right64(x: u64, n: u32) -> (r: u64)
    ensures
        r == rotr(x, n),
{
    let k: u64 = (n % 64) as u64;
    if k == 0 { x } else { (x >> k) | (x << (64 - k)) }
}

/// The registers initialised from `seed`: register `i` holds the little-endian
/// 32-bit value of seed bytes `4i .. 4i + 4`.
pub open spec fn init_registers(seed: Seq<u8>) -> Seq<u64> {
    Seq::new(8, |i: int| spec_u32_from_le_bytes(seed.subrange(4 * i, 4 * i + 4)) as u64)
}

/// The number of 8-byte chunks of an input of `len` bytes.
pub open spec fn num_chunks(len: int) -> int {
    (len + 7) / 8
}

/// Chunk `c` of `input` as a little-endian word, zero-padded.
pub open spec fn chunk_word(input: Seq<u8>, c: int) -> u64 {
    spec_u64_from_le_bytes(Seq::new(8, |j: int| if 8 * c + j < input.len() { input[8 * c + j] } else { 0u8 }))
}

/// The registers after XOR-ing the first `n` chunks of `input` into them in turn.
pub open spec fn mix_input(regs: Seq<u64>, input: Seq<u8>, n: int) -> Seq<u64>
    decreases n,
{
    if n <= 0 {
        regs
    } else {
        let prev = mix_input(regs, input, n - 1);
        let r = (n - 1) % 8;
        prev.update(r, prev[r] ^ chunk_word(input, n - 1))
    }
}

/// One round of the machine on registers `regs` and memory `mem`.
pub open spec fn round_step(regs: Seq<u64>, mem: Seq<u64>, round: u32) -> (Seq<u64>, Seq<u64>) {
    let size = mem.len() as usize;
    let r0 = regs[0];
    let r1 = regs[1];
    let addr = ((#[verifier::truncate] (r0 as usize)) ^ (round as usize)) % size;
    let r2 = vstd::wrapping::u64_specs::wrapping_add(regs[2], mem[addr as int]);
    let r3 = vstd::wrapping::u64_specs::wrapping_mul(rotl(regs[3], r1 as u32), r0 | 1);
    let store = ((r2 as usize) ^ (round as usize)) % size;
    let mem2 = mem.update(store as int, r3);
    let r4 = regs[4] ^ regs[5];
    let r5 = vstd::wrapping::u64_specs::wrapping_add(regs[5], regs[6]);
    let r6 = regs[6] ^ regs[7];
    let r7 = rotr(regs[7], 17);
    (seq![r1, r2, r3, r4, r5, r6, r7, r0], mem2)
}

/// The state after rounds `0 .. n`.
pub open spec fn run_rounds(regs: Seq<u64>, mem: Seq<u64>, n: nat) -> (Seq<u64>, Seq<u64>)
    decreases n,
{
    if n == 0 {
        (regs, mem)
    } else {
        let prev = run_rounds(regs, mem, (n - 1) as nat);
        round_step(prev.0, prev.1, (n - 1) as u32)
    }
}

/// The little-endian bytes of the first `n` registers.
pub open spec fn regs_bytes(regs: Seq<u64>, n: int) -> Seq<u8>
    decreases n,
{
    if n <= 0 { Seq::empty() } else { regs_bytes(regs, n - 1) + le64(regs[n - 1]) }
}

/// The little-endian bytes of memory words `0, 32, 64, ...` below `32 * n`.
pub open spec fn sample_bytes(mem: Seq<u64>, n: int) -> Seq<u8>
    decreases n,
{
    if n <= 0 { Seq::empty() } else { sample_bytes(mem, n - 1) + le64(mem[32 * (n - 1)]) }
}

/// The number of sampled words of a memory of `size` words.
pub open spec fn num_samples(size: int) -> int {
    (size + 31) / 32
}

/// The bytes hashed at the end of a run.
pub open spec fn final_input(regs: Seq<u64>, mem: Seq<u64>) -> Seq<u8> {
    final_label() + regs_bytes(regs, 8) + sample_bytes(mem, num_samples(mem.len() as int))
}

/// The RandomX-lite machine.
pub struct RandomXLite {
    registers: [u64; 8],
    scratchpad: Scratchpad,
    iterations: u32,
}

impl RandomXLite {
    /// The registers.
    pub closed spec fn spec_registers(&self) -> Seq<u64> {
        self.registers@
    }

    /// The scratchpad words.
    pub closed spec fn spec_memory(&self) -> Seq<u64> {
        self.scratchpad.words()
    }

    /// The number of rounds per run.
    pub closed spec fn spec_iterations(&self) -> u32 {
        self.iterations
    }

    /// Internal consistency.
    pub closed spec fn wf(&self) -> bool {
        &&& self.scratchpad.wf()
        &&& self.scratchpad.spec_size() == self.scratchpad.words().len()
    }

    /// A machine seeded with `seed`: the scratchpad of `scratchpad_kb` KiB filled from
    /// the seed, and the registers from the seed's bytes.
    pub fn new(seed: &Hash32, scratchpad_kb: usize, iterations: u32) -> (vm: Self)
        requires
            scratchpad_kb * 1024 <= usize::MAX,
        ensures
            vm.wf(),
            vm.spec_iterations() == iterations,
            vm.spec_registers() == init_registers(seed@),
            vm.spec_memory() == Seq::new(((scratchpad_kb * 1024) / 8) as nat, |i: int| fill_word(seed@, i as nat)),
    {
        let mut scratchpad = Scratchpad::new(scratchpad_kb);
        scratchpad.init(seed);
        let mut registers = [0u64; 8];
        let mut i: usize = 0;
        while i < 8
            invariant
                i <= 8,
                forall|j: int| 0 <= j < i ==> registers@[j] == init_registers(seed@)[j],
            decreases 8 - i,
        {
            let offset = i * 4;
            let w = u32_from_le_bytes(&seed[offset..offset + 4]);
            registers[i] = w as u64;
            i = i + 1;
        }
        assert(registers@ =~= init_registers(seed@));
        Self { registers, scratchpad, iterations }
    }

    /// Runs the program on `input`: mixes the input into the registers, runs the
    /// rounds, and returns the 32-byte SHAKE256 hash of the label `FINAL`, the
    /// registers and every 32nd scratchpad word.
    pub fn execute(&mut self, input: &[u8]) -> (h: Hash32)
        requires
            old(self).wf(),
            old(self).spec_iterations() == 0 || old(self).spec_memory().len() > 0,
        ensures
            final(self).wf(),
            final(self).spec_iterations() == old(self).spec_iterations(),
            ({
                let mixed = mix_input(old(self).spec_registers(), input@, num_chunks(input@.len() as int));
                let st = run_rounds(mixed, old(self).spec_memory(), old(self).spec_iterations() as nat);
                &&& final(self).spec_registers() == st.0
                &&& final(self).spec_memory() == st.1
                &&& h@ == keccak_shake256(final_input(st.0, st.1), 32)
            }),
    {
        self.mix(input);
        let ghost mixed = self.registers@;
        let ghost mem0 = self.scratchpad.words();
        let mut round: u32 = 0;
        while round < self.iterations
            invariant
                self.wf(),
                self.iterations == old(self).spec_iterations(),
                round <= self.iterations,
                self.iterations == 0 || self.scratchpad.words().len() > 0,
                self.scratchpad.words().len() == mem0.len(),
                (self.registers@, self.scratchpad.words()) == run_rounds(mixed, mem0, round as nat),
            decreases self.iterations - round,
        {
            self.execute_round(round);
            round = round + 1;
        }
        self.finalize()
    }

    fn mix(&mut self, input: &[u8])
        requires
            old(self).wf(),
        ensures
            final(self).wf(),
            final(self).iterations == old(self).iterations,
            final(self).scratchpad == old(self).scratchpad,
            final(self).registers@ == mix_input(old(self).registers@, input@, num_chunks(input@.len() as int)),
    {
        let len = input.len();
        let mut off: usize = 0;
        let mut c: usize = 0;
        while off < len
            invariant
                self.wf(),
                self.iterations == old(self).iterations,
                self.scratchpad == old(self).scratchpad,
                len == input@.len(),
                off <= len,
                8 * c <= len ==> off == 8 * c,
                8 * c > len ==> off == len,
                c == 0 || 8 * (c - 1) < len,
                self.registers@ == mix_input(old(self).registers@, input@, c as int),
            decreases len - off,
        {
            let mut buf = [0u8; 8];
            let take: usize = if len - off >= 8 { 8 } else { len - off };
            let mut j: usize = 0;
            while j < take
                invariant
                    take <= 8,
                    off + take <= len,
                    len == input@.len(),
                    j <= take,
                    forall|t: int| 0 <= t < j ==> buf@[t] == input@[off + t],
                    forall|t: int| j <= t < 8 ==> buf@[t] == 0u8,
                decreases take - j,
            {
                buf[j] = input[off + j];
                j = j + 1;
            }
            proof {
                assert(off == 8 * c);
                assert(buf@ =~= Seq::new(
                    8,
                    |t: int| if 8 * c + t < input@.len() { input@[8 * c + t] } else { 0u8 },
                ));
            }
            let val = u64_from_le_bytes(buf.as_slice());
            let r = c % 8;
            self.registers[r] = self.registers[r] ^ val;
            if len - off > 8 {
                off = off + 8;
            } else {
                off = len;
            }
            c = c + 1;
        }
        assert(c as int == num_chunks(len as int));
    }

    fn execute_round(&mut self, round: u32)
        requires
            old(self).wf(),
            old(self).scratchpad.words().len() > 0,
        ensures
            final(self).wf(),
            final(self).iterations == old(self).iterations,
            final(self).scratchpad.words().len() == old(self).scratchpad.words().len(),
            (final(self).registers@, final(self).scratchpad.words()) == round_step(
                old(self).registers@,
                old(self).scratchpad.words(),
                round,
            ),
    {
        let ghost regs = self.registers@;
        let ghost mem = self.scratchpad.words();
        let size = self.scratchpad.size;
        let r0 = self.registers[0];
        let r1 = self.registers[1];
        let addr = ((#[verifier::truncate] (r0 as usize)) ^ (round as usize)) % size;
        let mem_val = self.scratchpad.read(addr);
        let r2 = self.registers[2].wrapping_add(mem_val);
        let r3 = rotate_left64(self.registers[3], #[verifier::truncate] (r1 as u32)).wrapping_mul(r0 | 1);
        let store_addr = ((#[verifier::truncate] (r2 as usize)) ^ (round as usize)) % size;
        self.scratchpad.write(store_addr, r3);
        let r4 = self.registers[4] ^ self.registers[5];
        let r5 = self.registers[5].wrapping_add(self.registers[6]);
        let r6 = self.registers[6] ^ self.registers[7];
        let r7 = rotate_right64(self.registers[7], 17);
        self.registers = [r1, r2, r3, r4, r5, r6, r7, r0];
        proof {
            let st = round_step(regs, mem, round);
            assert(size == mem.len() as usize);
            let raw_a = ((r0 as usize) ^ (round as usize));
            vstd::arithmetic::div_mod::lemma_mod_twice(raw_a as int, size as int);
            assert(mem_val == mem[addr as int]);
            assert(r2 == st.0[1]);
            assert(r3 == st.0[2]);
            let raw_s = ((r2 as usize) ^ (round as usize));
            vstd::arithmetic::div_mod::lemma_mod_twice(raw_s as int, size as int);
            assert(self.scratchpad.words() =~= st.1);
            assert(self.registers@ =~= st.0);
        }
    }

    fn finalize(&self) -> (h: Hash32)
        requires
            self.wf(),
        ensures
            h@ == keccak_shake256(final_input(self.registers@, self.scratchpad.words()), 32),
    {
        let mut buf = final_label_bytes();
        let mut i: usize = 0;
        while i < 8
            invariant
                i <= 8,
                buf@ == final_label() + regs_bytes(self.registers@, i as int),
            decreases 8 - i,
        {
            append_u64_le(&mut buf, self.registers[i]);
            i = i + 1;
        }
        let size = self.scratchpad.size;
        let ghost mem = self.scratchpad.words();
        let mut k: usize = 0;
        let mut t: usize = 0;
        while k < size
            invariant
                self.wf(),
                size == mem.len(),
                mem == self.scratchpad.words(),
                size <= usize::MAX / 8,
                k == 32 * t,
                t == 0 || 32 * (t - 1) < size,
                buf@ == final_label() + regs_bytes(self.registers@, 8) + sample_bytes(mem, t as int),
            decreases size + 32 - k,
        {
            append_u64_le(&mut buf, self.scratchpad.data[k]);
            k = k + 32;
            t = t + 1;
        }
        assert(t as int == num_samples(size as int));
        shake256_bytes(buf.as_slice())
    }
}

/// The seed of the mining machine for a block: 32 bytes of SHAKE256 over the label
/// `SEED` and the block data.
pub open spec fn spec_mining_seed(block: Seq<u8>) -> Seq<u8> {
    keccak_shake256(seed_label() + block, 32)
}

/// The mining hash of a block: the machine seeded from the block, with a scratchpad
/// of `scratchpad_kb` KiB and 1024 rounds, run on the block data.
pub open spec fn spec_randomx_hash(block: Seq<u8>, scratchpad_kb: usize) -> Seq<u8> {
    let seed = spec_mining_seed(block);
    let mem = Seq::new(((scratchpad_kb * 1024) / 8) as nat, |i: int| fill_word(seed, i as nat));
    let mixed = mix_input(init_registers(seed), block, num_chunks(block.len() as int));
    let st = run_rounds(mixed, mem, 1024);
    keccak_shake256(final_input(st.0, st.1), 32)
}

/// The proof-of-work parameters of hybrid mining: the difficulty, over a million nonces.
pub open spec fn hybrid_pow_params(difficulty_bits: u8) -> MicroPowParams {
    MicroPowParams { difficulty_bits, max_iterations: 1_000_000 }
}

/// The stake requirement of hybrid mining: the whole units of `stake_q` reach `min_stake`.
pub fn check_min_stake(stake_q: Q, min_stake: u64) -> (b: bool)
    ensures
        b == ((stake_q >> 32u64) >= min_stake),
{
    (stake_q >> 32u64) >= min_stake
}

/// The mining hash of a block.
pub fn compute_randomx_hash(block_data: &[u8], scratchpad_kb: usize) -> (h: Hash32)
    requires
        0 < scratchpad_kb,
        scratchpad_kb * 1024 <= usize::MAX,
    ensures
        h@ == spec_randomx_hash(block_data@, scratchpad_kb),
{
    let mut d = seed_label_bytes();
    append_bytes(&mut d, block_data);
    let s = tk_shake256(d.as_slice(), 32);
    let seed = crate::bytes::to_array32(s.as_slice());
    assert(seed@ =~= spec_mining_seed(block_data@));
    let mut vm = RandomXLite::new(&seed, scratchpad_kb, 1024);
    proof {
        assert(((scratchpad_kb * 1024) / 8) > 0) by (nonlinear_arith)
            requires
                0 < scratchpad_kb,
        ;
    }
    vm.execute(block_data)
}

/// The integer part of hybrid mining: nothing below the minimum stake; otherwise the
/// block's mining hash and the first micro proof of work on it, if one of the million
/// nonces meets the difficulty.
pub fn mine_hybrid(
    block_data: &[u8],
    stake_q: Q,
    min_stake: u64,
    difficulty_bits: u8,
    scratchpad_kb: usize,
) -> (r: Option<(Hash32, PowProof)>)
    requires
        0 < scratchpad_kb,
        scratchpad_kb * 1024 <= usize::MAX,
    ensures
        ({
            let h = spec_randomx_hash(block_data@, scratchpad_kb);
            &&& r is None <==> ((stake_q >> 32u64) < min_stake || none_below(h, difficulty_bits, 1_000_000))
            &&& r matches Some((rh, p)) ==> {
                &&& rh@ == h
                &&& p.nonce < 1_000_000
                &&& p.iterations == p.nonce + 1
                &&& p.hash@ == spec_pow_hash(h, p.nonce)
                &&& meets_difficulty(p.hash@, difficulty_bits)
                &&& none_below(h, difficulty_bits, p.nonce as int)
            }
        }),
{
    if !check_min_stake(stake_q, min_stake) {
        return None;
    }
    let randomx_hash = compute_randomx_hash(block_data, scratchpad_kb);
    let params = MicroPowParams { difficulty_bits, max_iterations: 1_000_000 };
    match mine_micro_pow(&randomx_hash, &params) {
        Some(p) => Some((randomx_hash, p)),
        None => None,
    }
}

/// The integer checks of a mining result: the micro proof of work holds on the
/// claimed mining hash, and that hash is the block's.
pub fn verify_hybrid_pow(
    block_data: &[u8],
    randomx_hash: &Hash32,
    pow_proof: &PowProof,
    difficulty_bits: u8,
    scratchpad_kb: usize,
) -> (b: bool)
    requires
        0 < scratchpad_kb,
        scratchpad_kb * 1024 <= usize::MAX,
    ensures
        b == (pow_accepts(randomx_hash@, *pow_proof, hybrid_pow_params(difficulty_bits))
            && randomx_hash@ == spec_randomx_hash(block_data@, scratchpad_kb)),
{
    let params = MicroPowParams { difficulty_bits, max_iterations: 1_000_000 };
    if !verify_micro_pow(randomx_hash, pow_proof, &params) {
        return false;
    }
    let computed = compute_randomx_hash(block_data, scratchpad_kb);
    crate::bytes::eq32(&computed, randomx_hash)
}

/// What hybrid mining finds, verification accepts: a hash and proof that mining
/// returned for a block pass the integer checks for the same block and parameters.
pub proof fn lemma_mined_block_verifies(block: Seq<u8>, bits: u8, scratchpad_kb: usize, h: Hash32, p: PowProof)
    requires
        h@ == spec_randomx_hash(block, scratchpad_kb),
        p.hash@ == spec_pow_hash(h@, p.nonce),
        meets_difficulty(p.hash@, bits),
    ensures
        pow_accepts(h@, p, hybrid_pow_params(bits)) && h@ == spec_randomx_hash(block, scratchpad_kb),
{
}

} // verus!
