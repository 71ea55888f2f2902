//! Consensus configuration and the round timer derived from it.

use vstd::prelude::*;
use crate::step::ConsensusStep;

verus! {

/// The consensus parameters that the engine and its timers read.
#[derive(Clone, Copy, Debug, PartialEq, Eq, Structural)]
pub struct ConsensusConfig {
    /// Proposal timeout in milliseconds.
    pub propose_timeout: u64,
    /// Prevote timeout in milliseconds.
    pub prevote_timeout: u64,
    /// Precommit timeout in milliseconds.
    pub precommit_timeout: u64,
    /// Length of an epoch in blocks; validator-set changes take effect at epoch boundaries.
    pub epoch_length_blocks: u64,
    /// Minimum stake for a non-genesis validator.
    pub min_stake: u64,
    /// Minimum storage capacity for a validator.
    pub min_storage: u64,
    /// Maximum number of validators in the set.
    pub max_validators: u64,
    /// Development mode of the validator registry.
    pub development_mode: bool,
}

/// Timeout (milliseconds) used for a step: Commit reuses the precommit window and
/// NewRound gives the new proposer the full proposal window.
pub open spec fn step_timeout_ms(config: ConsensusConfig, step: ConsensusStep) -> u64 {
    match step {
        ConsensusStep::Propose => config.propose_timeout,
        ConsensusStep::PreVote => config.prevote_timeout,
        ConsensusStep::PreCommit => config.precommit_timeout,
        ConsensusStep::Commit => config.precommit_timeout,
        ConsensusStep::NewRound => config.propose_timeout,
    }
}

/// Round timer holding the per-phase timeouts (milliseconds).
#[derive(Clone, Copy, Debug, PartialEq, Eq, Structural)]
pub struct RoundTimer {
    pub proposal_timeout_ms: u64,
    pub prevote_timeout_ms: u64,
    pub precommit_timeout_ms: u64,
}

impl RoundTimer {
    /// The timeout this timer uses for `step`.
    pub open spec fn timeout_of(&self, step: ConsensusStep) -> u64 {
        match step {
            ConsensusStep::Propose => self.proposal_timeout_ms,
            ConsensusStep::PreVote => self.prevote_timeout_ms,
            ConsensusStep::PreCommit => self.precommit_timeout_ms,
            ConsensusStep::Commit => self.precommit_timeout_ms,
            ConsensusStep::NewRound => self.proposal_timeout_ms,
        }
    }

    pub fn new(config: &ConsensusConfig) -> (timer: RoundTimer)
        ensures
            forall|step: ConsensusStep| #[trigger] timer.timeout_of(step) == step_timeout_ms(*config, step),
    {
        RoundTimer {
            proposal_timeout_ms: config.propose_timeout,
            prevote_timeout_ms: config.prevote_timeout,
            precommit_timeout_ms: config.precommit_timeout,
        }
    }

    /// Length in milliseconds of the deadline armed for `step`.
    pub fn timeout_ms(&self, step: &ConsensusStep) -> (ms: u64)
        ensures
            ms == self.timeout_of(*step),
    {
        match step {
            ConsensusStep::Propose => self.proposal_timeout_ms,
            ConsensusStep::PreVote => self.prevote_timeout_ms,
            ConsensusStep::PreCommit => self.precommit_timeout_ms,
            ConsensusStep::Commit => self.precommit_timeout_ms,
            ConsensusStep::NewRound => self.proposal_timeout_ms,
        }
    }
}

} // verus!
