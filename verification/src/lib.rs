//! TRUE_TRUST: a Proof-of-Trust blockchain library with post-quantum keys.
//!
//! Consensus: Q32.32 fixed-point arithmetic, trust decay and reward, epoch weight
//! snapshots with Merkle commitments, RANDAO commit-reveal beacons, leader sortition,
//! equivocation slashing, deterministic weights and leader choice, and a CPU-only
//! hybrid proof of work. Privacy: hybrid and Pedersen commitments, Bulletproofs range
//! proof verification, the private-transaction and aggregation rules of the
//! zero-knowledge guests, and encrypted hints keyed by X25519, ML-KEM and Falcon-512
//! with KMAC-style derivations over SHAKE256.

pub mod qmath;
pub mod hashing;
pub mod bytes;
pub mod crypto;
pub mod crypto_kmac_consensus;
pub mod crypto_kmac;
pub mod ordmap;
pub mod pot;
pub mod tags;
pub mod snapshot;
pub mod consensus;
pub mod time;
pub mod pot_node;
pub mod pozs;
pub mod chain_core;
pub mod block_assembly;
pub mod pozs_lite;
pub mod cpu_proof;
pub mod cpu_mining;
pub mod consensus_weights;
pub mod consensus_pro_v2;
pub mod consensus_pro;
pub mod p2p_channel;
pub mod keysearch;
pub mod falcon_sigs;
pub mod hybrid_commit;
pub mod filters;
pub mod zk_host;
pub mod zk_host_v2;
pub mod pow_randomx;
pub mod guests;
pub mod falcon_seeded;
pub mod bp_prover;
pub mod bp;
