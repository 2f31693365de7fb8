//! Proof-of-work search fleet: nonce partitioning, the per-lane search
//! loop, the challenge text codec, and the coordinator's aggregation rule.

pub mod partition;
pub mod pow;
pub mod engine;
pub mod protocol;
pub mod coordinator;
pub mod epoch;
