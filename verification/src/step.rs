//! Consensus steps, the tokens that bind a timer to one (height, round, step),
//! and the per-step timeouts.

use vstd::prelude::*;

verus! {

/// One phase of a Tendermint-like consensus round.
#[derive(Clone, Copy, Debug, PartialEq, Eq, Structural)]
pub enum ConsensusStep {
    Propose,
    PreVote,
    PreCommit,
    Commit,
    NewRound,
}

/// Ordinal of a step: Propose=0, PreVote=1, PreCommit=2, Commit=3, NewRound=4.
pub open spec fn step_ordinal(step: ConsensusStep) -> u8 {
    match step {
        ConsensusStep::Propose => 0,
        ConsensusStep::PreVote => 1,
        ConsensusStep::PreCommit => 2,
        ConsensusStep::Commit => 3,
        ConsensusStep::NewRound => 4,
    }
}

/// The step whose ordinal is `ordinal`, if there is one.
pub open spec fn step_from_ordinal(ordinal: u8) -> Option<ConsensusStep> {
    if ordinal == 0 {
        Some(ConsensusStep::Propose)
    } else if ordinal == 1 {
        Some(ConsensusStep::PreVote)
    } else if ordinal == 2 {
        Some(ConsensusStep::PreCommit)
    } else if ordinal == 3 {
        Some(ConsensusStep::Commit)
    } else if ordinal == 4 {
        Some(ConsensusStep::NewRound)
    } else {
        None
    }
}

/// Human-readable name of a step.
pub open spec fn step_name(step: ConsensusStep) -> Seq<char> {
    match step {
        ConsensusStep::Propose => "Propose"@,
        ConsensusStep::PreVote => "PreVote"@,
        ConsensusStep::PreCommit => "PreCommit"@,
        ConsensusStep::Commit => "Commit"@,
        ConsensusStep::NewRound => "NewRound"@,
    }
}

/// Ordinal conversion and display name of a consensus step.
pub trait ConsensusStepExt {
    /// Convert the step to its ordinal value for comparison and serialization.
    fn as_ordinal(&self) -> u8;

    /// Convert an ordinal value back to a step.
    fn from_ordinal(ordinal: u8) -> Option<ConsensusStep>;

    /// The display name of the step.
    fn display_name(&self) -> &'static str;
}

impl ConsensusStepExt for ConsensusStep {
    /// Convert the step to its ordinal value.
    fn as_ordinal(&self) -> (ordinal: u8)
        ensures
            ordinal == step_ordinal(*self),
    {
        match self {
            ConsensusStep::Propose => 0,
            ConsensusStep::PreVote => 1,
            ConsensusStep::PreCommit => 2,
            ConsensusStep::Commit => 3,
            ConsensusStep::NewRound => 4,
        }
    }

    /// Convert an ordinal back to a step; `None` for ordinals above 4.
    fn from_ordinal(ordinal: u8) -> (step: Option<ConsensusStep>)
        ensures
            step == step_from_ordinal(ordinal),
    {
        match ordinal {
            0 => Some(ConsensusStep::Propose),
            1 => Some(ConsensusStep::PreVote),
            2 => Some(ConsensusStep::PreCommit),
            3 => Some(ConsensusStep::Commit),
            4 => Some(ConsensusStep::NewRound),
            _ => None,
        }
    }

    /// The display name of the step.
    fn display_name(&self) -> (name: &'static str)
        ensures
            name@ == step_name(*self),
    {
        match self {
            ConsensusStep::Propose => "Propose",
            ConsensusStep::PreVote => "PreVote",
            ConsensusStep::PreCommit => "PreCommit",
            ConsensusStep::Commit => "Commit",
            ConsensusStep::NewRound => "NewRound",
        }
    }
}

/// Converting a step to its ordinal and back gives the step again.
pub proof fn lemma_ordinal_round_trip(step: ConsensusStep)
    ensures
        step_from_ordinal(step_ordinal(step)) == Some(step),
{
}

/// Every ordinal that names a step is that step's ordinal; the ordinals that
/// name a step are exactly 0 through 4.
pub proof fn lemma_ordinal_inverse(ordinal: u8)
    ensures
        step_from_ordinal(ordinal) is Some <==> ordinal <= 4,
        step_from_ordinal(ordinal) matches Some(step) ==> step_ordinal(step) == ordinal,
{
}

/// Token binding a timer to a specific consensus state (height, round, step).
/// A timer fire is acted on only if its token matches the current state.
#[derive(Clone, Copy, Debug, PartialEq, Eq, Structural)]
pub struct TimerToken {
    pub height: u64,
    pub round: u32,
    pub step_ordinal: u8,
}

/// Whether a token was issued for exactly (height, round, step).
pub open spec fn token_matches(token: TimerToken, height: u64, round: u32, step: ConsensusStep) -> bool {
    token.height == height && token.round == round && token.step_ordinal == step_ordinal(step)
}

impl TimerToken {
    pub fn new(height: u64, round: u32, step: &ConsensusStep) -> (token: TimerToken)
        ensures
            token.height == height,
            token.round == round,
            token.step_ordinal == step_ordinal(*step),
    {
        TimerToken { height, round, step_ordinal: step.as_ordinal() }
    }

    pub fn matches(&self, height: u64, round: u32, step: &ConsensusStep) -> (m: bool)
        ensures
            m == token_matches(*self, height, round, *step),
    {
        self.height == height && self.round == round && self.step_ordinal == step.as_ordinal()
    }
}

/// A token matches the state it was issued for, and no other state: a stale
/// timer (any other height, round or step) never matches.
pub proof fn lemma_token_binds_state(
    height: u64,
    round: u32,
    step: ConsensusStep,
    other_height: u64,
    other_round: u32,
    other_step: ConsensusStep,
)
    ensures
        token_matches(TimerToken { height, round, step_ordinal: step_ordinal(step) }, height, round, step),
        token_matches(
            TimerToken { height, round, step_ordinal: step_ordinal(step) },
            other_height,
            other_round,
            other_step,
        ) <==> (other_height == height && other_round == round && other_step == step),
{
}

} // verus!
