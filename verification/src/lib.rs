//! Consensus core of the ZHTP network: the BFT step machine and its timers,
//! quorum thresholds, fee splitting, proof-of-useful-work construction and
//! checking, and the epoch-gated validator-set bookkeeping of the engine.

pub mod step;
pub mod config;
pub mod quorum;
pub mod fees;
pub mod external;
pub mod encoding;
pub mod work_proof;
pub mod proof_verify;
pub mod order;
pub mod validators;
pub mod engine;
pub mod zk;
pub mod types;
