# tt_priv_cli

A Proof-of-Trust blockchain library with post-quantum keys, written in Verus.

- `src/` is the verified library. Verus checks every function there against its
  contract; calls into outside crates (hashes, curve and scalar arithmetic, AEAD
  ciphers, Falcon-512, ML-KEM, X25519, Merlin transcripts, the LRU cache, the clock
  and the system RNG) go through small trusted wrappers whose doc comments say what
  is assumed of them.
- `tests/` exercises the library with concrete values.
- `app/` is the command-line node: wallet files, the slot and mining loop, the
  validator key file and consensus round, the chain store with floating-point fork
  choice, and the floating-point reporting helpers.

Layout of `src/`:

| module | contents |
|---|---|
| `qmath`, `pot/*`, `snapshot`, `pot_node` | Q32.32 arithmetic, trust, registry, epoch snapshots with Merkle weight commitments, RANDAO, sortition, equivocation, the validator node |
| `consensus/*`, `consensus_weights`, `consensus_pro*` | the second PoT engine (XOR RANDAO, SHA-256 snapshots), deterministic weights and leader choice, validator bookkeeping |
| `cpu_proof`, `cpu_mining`, `pow_randomx`, `block_assembly` | micro proof of work, RandomX-lite and hybrid mining, target comparison, block production decisions |
| `bp`, `hybrid_commit`, `guests/*` | Bulletproofs range-proof verification, hybrid and Pedersen commitments, the private-transaction and aggregation rules |
| `crypto/*`, `crypto_kmac*`, `keysearch`, `zk_host*`, `p2p_channel`, `falcon_*`, `filters` | KMAC-style derivations, DRBGs, hints and key search, the P2P channel core, Falcon signatures, Bloom filters |
| `hashing`, `bytes`, `ordmap`, `tags`, `time` | trusted hash bridges, byte helpers, an ordered map, domain labels, the clock |
