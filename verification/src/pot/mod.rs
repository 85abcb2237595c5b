//! Proof-of-Trust consensus: trust, stake registry, epoch snapshots with
//! Merkle weight commitments, the RANDAO beacon, leader sortition and
//! equivocation slashing.
pub mod trust;
pub mod registry;
pub mod merkle;
pub mod epoch;
pub mod randao;
pub mod sortition;
pub mod equivocation;

pub use crate::qmath::{Q, ONE_Q, q_from_ratio, q_from_ratio128, q_from_basis_points};
pub use trust::{TrustParams, TrustState, NodeId};
pub use registry::{RegEntry, Registry};
pub use merkle::{MerkleProof, verify_merkle};
pub use epoch::{EpochSnapshot, SnapshotEntry};
pub use randao::{RandaoBeacon, RandaoEpoch};
pub use sortition::{PotParams, LeaderWitness, verify_leader_and_update_trust, verify_leader_with_witness};
pub use equivocation::{Proposal, detect_equivocation, slash_equivocation, finalize_epoch_and_slash, slash_bps};
