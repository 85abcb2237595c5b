//! A second Proof-of-Trust engine: XOR RANDAO, SHA-256 weight snapshots and
//! multiplicative trust updates.
pub mod types;
pub mod randao;
pub mod snapshot;
pub mod pot;




pub use types::{
    NodeId, Q, StakeQ, ONE_Q, PotParams, TrustParams, ValidatorInfo, Registry, TrustState, BlockHeader,
    Transaction, Block, Proposal, LeaderWitness,
};



pub use randao::RandaoBeacon;
pub use snapshot::EpochSnapshot;
pub use pot::{PotConsensus, verify_leader_eligibility};
