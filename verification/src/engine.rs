//! Consensus engine state: the local validator, the validator registry, the
//! current round, epoch-gated validator-set changes with a churn cap,
//! write-once validator snapshots per height, and round-robin leader rotation.
//!
//! Validator-set changes queued while the chain runs take effect only at epoch
//! boundaries (every `epoch_length_blocks` blocks). At a boundary at most
//! `max(floor(active / 3), 1)` changes are applied; removals go before additions
//! and the rest is deferred to the next epoch.

use std::collections::VecDeque;
use vstd::prelude::*;
use crate::config::{ConsensusConfig, RoundTimer};
use crate::encoding::{bytes32_eq, bytes2592_eq};
use crate::external::unix_now_secs;
use crate::order::sort_ids;
use crate::step::ConsensusStep;
use crate::validators::{
    IdentityId, RegistryError, Validator, ValidatorManager, check_keys_separated, identities, identities_unique,
    is_registered, keys_separated, position_of, register_outcome, removal_outcome,
};

verus! {

/// Numerator of the maximum-churn fraction per epoch (1/3).
pub const MAX_CHURN_NUMERATOR: usize = 1;
/// Denominator of the maximum-churn fraction per epoch (1/3).
pub const MAX_CHURN_DENOMINATOR: usize = 3;
/// Minimum number of validators for BFT mode.
pub const BFT_MIN_VALIDATORS: usize = 3;
/// Consensus wire-protocol version.
pub const CONSENSUS_PROTOCOL_VERSION: u32 = 1;
/// Number of validator snapshots kept.
pub const SNAPSHOT_HISTORY_LIMIT: usize = 100;

/// Consensus round information.
#[derive(Debug)]
pub struct ConsensusRound {
    pub height: u64,
    pub round: u32,
    pub step: ConsensusStep,
    pub start_time: u64,
    pub proposer: Option<IdentityId>,
    pub proposals: Vec<[u8; 32]>,
    /// Votes received per proposal hash.
    pub votes: Vec<([u8; 32], Vec<[u8; 32]>)>,
    pub timed_out: bool,
    pub locked_proposal: Option<[u8; 32]>,
    pub valid_proposal: Option<[u8; 32]>,
}

/// All fields needed to register a validator at an upcoming epoch boundary.
#[derive(Debug)]
pub struct PendingValidatorAdd {
    pub identity: IdentityId,
    pub stake: u64,
    pub storage_capacity: u64,
    pub consensus_key: [u8; 2592],
    pub networking_key: Vec<u8>,
    pub rewards_key: Vec<u8>,
    pub commission_rate: u8,
}

/// A pending mutation of the active validator set.
#[derive(Debug)]
pub enum ValidatorSetChange {
    Add(PendingValidatorAdd),
    Remove(IdentityId),
}

/// A validator-set change and the epoch boundary height at which it takes effect.
#[derive(Debug)]
pub struct PendingValidatorChange {
    pub effective_height: u64,
    pub change: ValidatorSetChange,
}

/// A scheduled change of the epoch length.
#[derive(Clone, Copy, Debug, PartialEq, Eq, Structural)]
pub struct PendingEpochLengthUpdate {
    pub effective_height: u64,
    pub new_length: u64,
}

/// Validator membership sealed for one height.
#[derive(Debug)]
pub struct ValidatorSetSnapshot {
    pub height: u64,
    pub validators: Vec<IdentityId>,
}

/// Why a validator operation was refused.
#[derive(Clone, Copy, Debug, PartialEq, Eq, Structural)]
pub enum ValidatorIssue {
    /// No local validator identity is configured.
    IdentityNotConfigured,
    /// The local validator is not registered.
    LocalValidatorNotRegistered,
    /// A keypair does not match the registered consensus key.
    KeypairMismatch,
    /// No validator is registered for the given local identity.
    LocalIdentityNotFound,
    /// An epoch length of zero was requested.
    EpochLengthZero,
    /// Stake below the minimum for a non-genesis validator.
    InsufficientStake,
    /// Storage capacity below the minimum.
    InsufficientStorage,
    /// Commission rate above 100.
    InvalidCommissionRate,
    /// The validator is already registered.
    AlreadyRegistered,
    /// An addition of the validator is already pending.
    AlreadyPending,
    /// The validator to remove is neither active nor pending.
    NotFoundForRemoval,
    /// Height synchronisation would move the height backwards.
    HeightNotMonotonic,
    /// The validator registry refused the operation.
    Registry(RegistryError),
}

/// Consensus errors.
#[derive(Clone, Copy, Debug, PartialEq, Eq, Structural)]
pub enum ConsensusError {
    ValidatorError(ValidatorIssue),
}

/// The engine's state as the contracts see it.
pub struct EngineView {
    pub identity: Option<IdentityId>,
    pub validators: Seq<Validator>,
    pub max_validators: u64,
    pub min_stake: u64,
    pub development_mode: bool,
    pub round: ConsensusRound,
    pub config: ConsensusConfig,
    pub snapshots: Seq<ValidatorSetSnapshot>,
    pub pending: Seq<PendingValidatorChange>,
    pub pending_epoch_update: Option<PendingEpochLengthUpdate>,
    pub chain_started: bool,
    pub keypair_pk: Option<[u8; 2592]>,
    pub round_timer: RoundTimer,
    pub start_time: u64,
}

/// Main consensus engine state.
pub struct ConsensusEngine {
    validator_identity: Option<IdentityId>,
    validator_manager: ValidatorManager,
    current_round: ConsensusRound,
    config: ConsensusConfig,
    validator_set_history: VecDeque<ValidatorSetSnapshot>,
    pending_validator_changes: VecDeque<PendingValidatorChange>,
    pending_epoch_length_update: Option<PendingEpochLengthUpdate>,
    chain_started: bool,
    validator_consensus_pk: Option<[u8; 2592]>,
    round_timer: RoundTimer,
    engine_start_time: u64,
}

impl View for ConsensusEngine {
    type V = EngineView;

    closed spec fn view(&self) -> EngineView {
        EngineView {
            identity: self.validator_identity,
            validators: self.validator_manager.validators(),
            max_validators: self.validator_manager.max_validators(),
            min_stake: self.validator_manager.spec_min_stake(),
            development_mode: self.validator_manager.spec_development_mode(),
            round: self.current_round,
            config: self.config,
            snapshots: self.validator_set_history@,
            pending: self.pending_validator_changes@,
            pending_epoch_update: self.pending_epoch_length_update,
            chain_started: self.chain_started,
            keypair_pk: self.validator_consensus_pk,
            round_timer: self.round_timer,
            start_time: self.engine_start_time,
        }
    }
}

/// Snapshot heights are unique, each snapshot lists distinct validators, and
/// at most `SNAPSHOT_HISTORY_LIMIT` are kept.
pub open spec fn snapshots_wf(snapshots: Seq<ValidatorSetSnapshot>) -> bool {
    &&& snapshots.len() <= SNAPSHOT_HISTORY_LIMIT
    &&& forall|i: int, j: int| 0 <= i < j < snapshots.len() ==> (#[trigger] snapshots[i]).height != (#[trigger] snapshots[j]).height
    &&& forall|i: int| 0 <= i < snapshots.len() ==> (#[trigger] snapshots[i]).validators@.no_duplicates()
}

/// Each proposal hash has at most one entry among a round's votes.
pub open spec fn votes_keyed_uniquely(votes: Seq<([u8; 32], Vec<[u8; 32]>)>) -> bool {
    forall|i: int, j: int| 0 <= i < j < votes.len() ==> (#[trigger] votes[i]).0 != (#[trigger] votes[j]).0
}

/// Engine invariant.
pub open spec fn engine_wf(v: EngineView) -> bool {
    &&& identities_unique(v.validators)
    &&& snapshots_wf(v.snapshots)
    &&& votes_keyed_uniquely(v.round.votes@)
}

/// The epoch length in force (a configured 0 counts as 1).
pub open spec fn epoch_len(config: ConsensusConfig) -> nat {
    if config.epoch_length_blocks == 0 { 1 } else { config.epoch_length_blocks as nat }
}

/// Whether `height` is an epoch boundary.
pub open spec fn epoch_boundary(config: ConsensusConfig, height: u64) -> bool {
    (height as nat) % epoch_len(config) == 0
}

/// First height of the epoch after the one containing `height`.
pub open spec fn epoch_start_after(config: ConsensusConfig, height: u64) -> nat {
    ((height as nat) / epoch_len(config) + 1) * epoch_len(config)
}

/// Whether the next epoch start after `height` fits in a u64.
pub open spec fn epoch_start_fits(config: ConsensusConfig, height: u64) -> bool {
    epoch_start_after(config, height) <= u64::MAX
}

/// The next epoch start lies strictly after `height`, at most one epoch later,
/// and is itself an epoch boundary.
pub proof fn lemma_epoch_start_after(config: ConsensusConfig, height: u64)
    ensures
        height < epoch_start_after(config, height) <= height + epoch_len(config),
        epoch_start_after(config, height) % epoch_len(config) == 0,
{
    let len = epoch_len(config) as int;
    let h = height as int;
    assert(h < (h / len + 1) * len <= h + len) by (nonlinear_arith)
        requires
            len >= 1,
            h >= 0,
    {
        vstd::arithmetic::div_mod::lemma_fundamental_div_mod(h, len);
    }
    vstd::arithmetic::div_mod::lemma_mod_multiples_basic(h / len + 1, len);
}

/// Whether the BFT mode is active for a validator count.
pub open spec fn bft_mode(validator_count: nat) -> bool {
    validator_count >= BFT_MIN_VALIDATORS
}

/// The state of a freshly created engine for `config`, whatever its start
/// time: height 0, round 0, step Propose, a round with no start time, proposer,
/// proposals or votes, not timed out, with no locked or valid proposal; an
/// empty registry with the configured limits; no snapshots, no pending
/// changes, the chain not started, no local identity or keypair; round
/// timeouts from `config`.
pub open spec fn initial_engine(v: EngineView, config: ConsensusConfig) -> bool {
    &&& engine_wf(v)
    &&& v.identity is None
    &&& v.validators == Seq::<Validator>::empty()
    &&& v.max_validators == config.max_validators
    &&& v.min_stake == config.min_stake
    &&& v.development_mode == config.development_mode
    &&& v.round.height == 0
    &&& v.round.round == 0
    &&& v.round.step == ConsensusStep::Propose
    &&& v.round.start_time == 0
    &&& v.round.proposer is None
    &&& v.round.proposals@.len() == 0
    &&& v.round.votes@.len() == 0
    &&& !v.round.timed_out
    &&& v.round.locked_proposal is None
    &&& v.round.valid_proposal is None
    &&& v.config == config
    &&& v.snapshots.len() == 0
    &&& v.pending.len() == 0
    &&& v.pending_epoch_update is None
    &&& !v.chain_started
    &&& v.keypair_pk is None
    &&& forall|step: ConsensusStep| #[trigger] v.round_timer.timeout_of(step) == crate::config::step_timeout_ms(config, step)
}

impl ConsensusEngine {
    /// Create an engine started at `start_time` (seconds since the Unix
    /// epoch): height 0, round 0, step Propose, an empty round, an empty
    /// validator set and no pending changes.
    pub fn new_at(config: ConsensusConfig, start_time: u64) -> (engine: ConsensusEngine)
        ensures
            initial_engine(engine@, config),
            engine@.start_time == start_time,
    {
        let validator_manager = ValidatorManager::new_with_development_mode(
            config.max_validators,
            config.min_stake,
            config.development_mode,
        );
        let current_round = ConsensusRound {
            height: 0,
            round: 0,
            step: ConsensusStep::Propose,
            start_time: 0,
            proposer: None,
            proposals: Vec::new(),
            votes: Vec::new(),
            timed_out: false,
            locked_proposal: None,
            valid_proposal: None,
        };
        let round_timer = RoundTimer::new(&config);
        ConsensusEngine {
            validator_identity: None,
            validator_manager,
            current_round,
            config,
            validator_set_history: VecDeque::new(),
            pending_validator_changes: VecDeque::new(),
            pending_epoch_length_update: None,
            chain_started: false,
            validator_consensus_pk: None,
            round_timer,
            engine_start_time: start_time,
        }
    }

    /// Create an engine started now by the system clock (0 when the clock
    /// reads earlier than the Unix epoch); otherwise as `new_at`.
    pub fn new(config: ConsensusConfig) -> (result: Result<ConsensusEngine, ConsensusError>)
        ensures
            result matches Ok(engine) && initial_engine(engine@, config),
    {
        let start_time: u64 = match unix_now_secs() {
            Some(secs) => secs,
            None => 0,
        };
        Ok(Self::new_at(config, start_time))
    }

    /// Current consensus round.
    pub fn current_round(&self) -> (r: &ConsensusRound)
        ensures
            *r == self@.round,
    {
        &self.current_round
    }

    /// Consensus configuration.
    pub fn config(&self) -> (c: &ConsensusConfig)
        ensures
            *c == self@.config,
    {
        &self.config
    }

    /// Validator registry.
    pub fn validator_manager(&self) -> (m: &ValidatorManager)
        ensures
            m.validators() == self@.validators,
            m.max_validators() == self@.max_validators,
    {
        &self.validator_manager
    }

    /// Validator-set changes waiting for an epoch boundary, in queue order.
    pub fn pending_validator_changes(&self) -> (q: &VecDeque<PendingValidatorChange>)
        ensures
            q@ == self@.pending,
    {
        &self.pending_validator_changes
    }

    /// Epoch-length change waiting for an epoch boundary.
    pub fn pending_epoch_length_update(&self) -> (u: Option<PendingEpochLengthUpdate>)
        ensures
            u == self@.pending_epoch_update,
    {
        self.pending_epoch_length_update
    }

    /// Round timer.
    pub fn round_timer(&self) -> (t: &RoundTimer)
        ensures
            *t == self@.round_timer,
    {
        &self.round_timer
    }

    /// Unix time (seconds) at which the engine was created.
    pub fn engine_start_time(&self) -> (t: u64)
        ensures
            t == self@.start_time,
    {
        self.engine_start_time
    }

    /// The local validator identity, if configured.
    pub fn local_validator_identity(&self) -> (id: Option<IdentityId>)
        ensures
            id == self@.identity,
    {
        self.validator_identity
    }

    /// Number of active validators.
    pub fn get_validator_count(&self) -> (n: usize)
        ensures
            n == self@.validators.len(),
    {
        self.validator_manager.active_count()
    }

    /// BFT mode is active with at least `BFT_MIN_VALIDATORS` validators.
    pub fn is_bft_mode_active(&self) -> (active: bool)
        ensures
            active == bft_mode(self@.validators.len()),
    {
        self.validator_manager.active_count() >= BFT_MIN_VALIDATORS
    }

    /// Mark that consensus has begun (the genesis window is closed): from now
    /// on non-genesis registrations wait for the next epoch boundary.
    pub fn mark_chain_started(&mut self)
        ensures
            final(self)@ == (EngineView { chain_started: true, ..old(self)@ }),
    {
        self.chain_started = true;
    }

    /// The epoch length in force (a configured 0 counts as 1).
    pub fn epoch_length_blocks(&self) -> (len: u64)
        ensures
            len == epoch_len(self@.config),
    {
        if self.config.epoch_length_blocks == 0 {
            return 1;
        }
        self.config.epoch_length_blocks
    }

    /// Whether `height` is an epoch boundary.
    pub fn is_epoch_boundary(&self, height: u64) -> (b: bool)
        ensures
            b == epoch_boundary(self@.config, height),
    {
        height % self.epoch_length_blocks() == 0
    }

    /// First height of the epoch after the one containing `height`.
    pub fn next_epoch_start(&self, height: u64) -> (start: u64)
        requires
            epoch_start_fits(self@.config, height),
        ensures
            start == epoch_start_after(self@.config, height),
    {
        let epoch_len = self.epoch_length_blocks();
        let epochs = height / epoch_len;
        proof {
            let e = epochs as int;
            let l = epoch_len as int;
            assert((e + 1) * l <= u64::MAX);
            assert(e + 1 <= (e + 1) * l) by (nonlinear_arith)
                requires
                    l >= 1,
                    e >= 0,
            ;
        }
        (epochs + 1) * epoch_len
    }

    /// Set the local validator's consensus public key. The local identity must
    /// be configured and registered with exactly this key.
    pub fn set_validator_keypair(&mut self, consensus_public_key: [u8; 2592]) -> (result: Result<(), ConsensusError>)
        requires
            engine_wf(old(self)@),
        ensures
            match old(self)@.identity {
                None => result == Err::<(), ConsensusError>(
                    ConsensusError::ValidatorError(ValidatorIssue::IdentityNotConfigured),
                ) && final(self)@ == old(self)@,
                Some(id) => if !is_registered(old(self)@.validators, id) {
                    result == Err::<(), ConsensusError>(
                        ConsensusError::ValidatorError(ValidatorIssue::LocalValidatorNotRegistered),
                    ) && final(self)@ == old(self)@
                } else if old(self)@.validators[position_of(old(self)@.validators, id)].consensus_key
                    != consensus_public_key {
                    result == Err::<(), ConsensusError>(
                        ConsensusError::ValidatorError(ValidatorIssue::KeypairMismatch),
                    ) && final(self)@ == old(self)@
                } else {
                    result is Ok && final(self)@ == (EngineView {
                        keypair_pk: Some(consensus_public_key),
                        ..old(self)@
                    })
                },
            },
    {
        let identity = match self.validator_identity {
            Some(id) => id,
            None => {
                return Err(ConsensusError::ValidatorError(ValidatorIssue::IdentityNotConfigured));
            },
        };
        let key = match self.validator_manager.consensus_key_of(&identity) {
            Some(k) => k,
            None => {
                return Err(ConsensusError::ValidatorError(ValidatorIssue::LocalValidatorNotRegistered));
            },
        };
        if !bytes2592_eq(&key, &consensus_public_key) {
            return Err(ConsensusError::ValidatorError(ValidatorIssue::KeypairMismatch));
        }
        self.validator_consensus_pk = Some(consensus_public_key);
        Ok(())
    }

    /// Set the local validator identity. A no-op if one is already set; the
    /// identity must be registered, and match the configured key if any.
    pub fn set_local_validator_identity(&mut self, identity: IdentityId) -> (result: Result<(), ConsensusError>)
        requires
            engine_wf(old(self)@),
        ensures
            if old(self)@.identity is Some {
                result is Ok && final(self)@ == old(self)@
            } else if !is_registered(old(self)@.validators, identity) {
                result == Err::<(), ConsensusError>(
                    ConsensusError::ValidatorError(ValidatorIssue::LocalIdentityNotFound),
                ) && final(self)@ == old(self)@
            } else if old(self)@.keypair_pk matches Some(pk) && pk
                != old(self)@.validators[position_of(old(self)@.validators, identity)].consensus_key {
                result == Err::<(), ConsensusError>(ConsensusError::ValidatorError(ValidatorIssue::KeypairMismatch))
                    && final(self)@ == old(self)@
            } else {
                result is Ok && final(self)@ == (EngineView { identity: Some(identity), ..old(self)@ })
            },
    {
        if self.validator_identity.is_some() {
            return Ok(());
        }
        let key = match self.validator_manager.consensus_key_of(&identity) {
            Some(k) => k,
            None => {
                return Err(ConsensusError::ValidatorError(ValidatorIssue::LocalIdentityNotFound));
            },
        };
        if let Some(pk) = &self.validator_consensus_pk {
            if !bytes2592_eq(pk, &key) {
                return Err(ConsensusError::ValidatorError(ValidatorIssue::KeypairMismatch));
            }
        }
        self.validator_identity = Some(identity);
        Ok(())
    }

    /// Schedule an epoch-length change for the next epoch boundary.
    pub fn schedule_epoch_length_update(&mut self, new_length: u64) -> (result: Result<(), ConsensusError>)
        requires
            new_length != 0 ==> epoch_start_fits(old(self)@.config, old(self)@.round.height),
        ensures
            new_length == 0 ==> result == Err::<(), ConsensusError>(
                ConsensusError::ValidatorError(ValidatorIssue::EpochLengthZero),
            ) && final(self)@ == old(self)@,
            new_length != 0 ==> result is Ok && final(self)@ == (EngineView {
                pending_epoch_update: Some(
                    PendingEpochLengthUpdate {
                        effective_height: epoch_start_after(old(self)@.config, old(self)@.round.height) as u64,
                        new_length,
                    },
                ),
                ..old(self)@
            }),
    {
        if new_length == 0 {
            return Err(ConsensusError::ValidatorError(ValidatorIssue::EpochLengthZero));
        }
        let effective_height = self.next_epoch_start(self.current_round.height);
        self.pending_epoch_length_update = Some(PendingEpochLengthUpdate { effective_height, new_length });
        Ok(())
    }

    /// Synchronise the consensus height with the blockchain before the
    /// consensus loop starts: with a known blockchain height `b` the engine
    /// proposes for `max(b, 0) + 1`; without one (no provider, or the provider
    /// failed) the height is unchanged. A move that would not increase a
    /// non-zero height is reported; the height is already updated then.
    pub fn sync_height_with_blockchain(&mut self, blockchain_height: Option<u64>) -> (result: Result<(), ConsensusError>)
        requires
            blockchain_height matches Some(b) ==> b < u64::MAX,
        ensures
            match blockchain_height {
                None => result is Ok && final(self)@ == old(self)@,
                Some(b) => {
                    let new_height: u64 = if b == 0 { 1 } else { (b + 1) as u64 };
                    let old_height = old(self)@.round.height;
                    &&& final(self)@ == (EngineView {
                        round: ConsensusRound { height: new_height, ..old(self)@.round },
                        ..old(self)@
                    })
                    &&& if new_height != old_height && old_height != 0 && new_height <= old_height {
                        result == Err::<(), ConsensusError>(
                            ConsensusError::ValidatorError(ValidatorIssue::HeightNotMonotonic),
                        )
                    } else {
                        result is Ok
                    }
                },
            },
    {
        match blockchain_height {
            None => Ok(()),
            Some(b) => {
                let old_height = self.current_round.height;
                self.current_round.height = if b == 0 { 1 } else { b + 1 };
                let new_height = self.current_round.height;
                if new_height != old_height && old_height != 0 && new_height <= old_height {
                    return Err(ConsensusError::ValidatorError(ValidatorIssue::HeightNotMonotonic));
                }
                Ok(())
            },
        }
    }
}


/// Whether a change concerns `id` (adds it or removes it).
pub open spec fn change_concerns(change: ValidatorSetChange, id: IdentityId) -> bool {
    match change {
        ValidatorSetChange::Add(add) => add.identity == id,
        ValidatorSetChange::Remove(removed) => removed == id,
    }
}

/// Whether a change adds `id`.
pub open spec fn change_adds(change: ValidatorSetChange, id: IdentityId) -> bool {
    match change {
        ValidatorSetChange::Add(add) => add.identity == id,
        ValidatorSetChange::Remove(_) => false,
    }
}

/// Pending entries that do not concern `id`.
pub open spec fn unrelated_to(id: IdentityId) -> spec_fn(PendingValidatorChange) -> bool {
    |e: PendingValidatorChange| !change_concerns(e.change, id)
}

/// Pending entries that do not add `id`.
pub open spec fn not_adding(id: IdentityId) -> spec_fn(PendingValidatorChange) -> bool {
    |e: PendingValidatorChange| !change_adds(e.change, id)
}

/// Whether an addition of `id` is pending.
pub open spec fn has_pending_add(pending: Seq<PendingValidatorChange>, id: IdentityId) -> bool {
    exists|i: int| 0 <= i < pending.len() && change_adds((#[trigger] pending[i]).change, id)
}

/// One step of filtering a prefix.
pub proof fn lemma_filter_take_step<A>(s: Seq<A>, k: int, pred: spec_fn(A) -> bool)
    requires
        0 <= k < s.len(),
    ensures
        s.take(k + 1).filter(pred) == if pred(s[k]) {
            s.take(k).filter(pred).push(s[k])
        } else {
            s.take(k).filter(pred)
        },
{
    assert(s.take(k + 1) =~= s.take(k).push(s[k]));
    s.take(k).lemma_filter_push(s[k], pred);
}

fn change_concerns_exec(change: &ValidatorSetChange, id: &IdentityId) -> (c: bool)
    ensures
        c == change_concerns(*change, *id),
{
    match change {
        ValidatorSetChange::Add(add) => bytes32_eq(&add.identity, id),
        ValidatorSetChange::Remove(removed) => bytes32_eq(removed, id),
    }
}

fn change_adds_exec(change: &ValidatorSetChange, id: &IdentityId) -> (c: bool)
    ensures
        c == change_adds(*change, *id),
{
    match change {
        ValidatorSetChange::Add(add) => bytes32_eq(&add.identity, id),
        ValidatorSetChange::Remove(_) => false,
    }
}

/// Keep the entries that do not concern `id` (with `adds_only`, that do not
/// add `id`); report whether any entry was dropped.
fn retain_changes(changes: VecDeque<PendingValidatorChange>, id: &IdentityId, adds_only: bool) -> (r: (
    VecDeque<PendingValidatorChange>,
    bool,
))
    ensures
        r.0@ == changes@.filter(if adds_only { not_adding(*id) } else { unrelated_to(*id) }),
        adds_only ==> (r.1 == has_pending_add(changes@, *id)),
{
    let ghost orig = changes@;
    let ghost pred = if adds_only { not_adding(*id) } else { unrelated_to(*id) };
    let mut rest = changes;
    let mut kept: VecDeque<PendingValidatorChange> = VecDeque::new();
    let mut dropped = false;
    let ghost mut k: int = 0;
    proof {
        assert(orig.skip(0) =~= orig);
        assert(orig.take(0) =~= Seq::<PendingValidatorChange>::empty());
        reveal_with_fuel(Seq::filter, 1);
    }
    while rest.len() > 0
        invariant
            0 <= k <= orig.len(),
            rest@ == orig.skip(k),
            kept@ == orig.take(k).filter(pred),
            pred == (if adds_only { not_adding(*id) } else { unrelated_to(*id) }),
            adds_only ==> (dropped == exists|i: int| 0 <= i < k && change_adds((#[trigger] orig[i]).change, *id)),
        decreases rest@.len(),
    {
        let e = rest.pop_front().unwrap();
        proof {
            assert(e == orig[k]);
            assert(rest@ =~= orig.skip(k + 1));
            lemma_filter_take_step(orig, k, pred);
        }
        let keep = if adds_only {
            !change_adds_exec(&e.change, id)
        } else {
            !change_concerns_exec(&e.change, id)
        };
        if keep {
            kept.push_back(e);
        } else {
            dropped = true;
        }
        proof {
            k = k + 1;
        }
    }
    proof {
        assert(orig.take(k) =~= orig);
    }
    (kept, dropped)
}

/// Pending queue after queueing the addition `add` at height `height`.
pub open spec fn queued_addition(
    pending: Seq<PendingValidatorChange>,
    config: ConsensusConfig,
    height: u64,
    add: PendingValidatorAdd,
) -> Seq<PendingValidatorChange> {
    pending.filter(unrelated_to(add.identity)).push(
        PendingValidatorChange {
            effective_height: epoch_start_after(config, height) as u64,
            change: ValidatorSetChange::Add(add),
        },
    )
}

/// The validator a pending addition registers.
pub open spec fn validator_of(add: PendingValidatorAdd) -> Validator {
    Validator {
        identity: add.identity,
        stake: add.stake,
        storage_capacity: add.storage_capacity,
        consensus_key: add.consensus_key,
        networking_key: add.networking_key,
        rewards_key: add.rewards_key,
        commission_rate: add.commission_rate,
    }
}

/// Outcome of `queue_validator_add`: the new state and the result. An active
/// validator or one whose addition is already pending is refused; otherwise
/// the addition is queued for the next epoch start, replacing any pending
/// removal of the identity.
pub open spec fn queue_add_outcome(v: EngineView, add: PendingValidatorAdd) -> (
    EngineView,
    Result<(), ConsensusError>,
) {
    if is_registered(v.validators, add.identity) {
        (v, Err(ConsensusError::ValidatorError(ValidatorIssue::AlreadyRegistered)))
    } else if has_pending_add(v.pending, add.identity) {
        (v, Err(ConsensusError::ValidatorError(ValidatorIssue::AlreadyPending)))
    } else {
        (EngineView { pending: queued_addition(v.pending, v.config, v.round.height, add), ..v }, Ok(()))
    }
}

/// Whether `changes` holds a pending addition of `id`.
fn pending_add_exists(changes: &VecDeque<PendingValidatorChange>, id: &IdentityId) -> (found: bool)
    ensures
        found == has_pending_add(changes@, *id),
{
    let mut i: usize = 0;
    while i < changes.len()
        invariant
            0 <= i <= changes@.len(),
            forall|j: int| 0 <= j < i ==> !change_adds((#[trigger] changes@[j]).change, *id),
        decreases changes@.len() - i,
    {
        if change_adds_exec(&changes[i].change, id) {
            return true;
        }
        i = i + 1;
    }
    false
}

/// Whether `register_validator` reaches its queueing step: the stake, storage,
/// commission, keypair and key-separation checks pass, and the chain has
/// started for a non-genesis validator that is neither active nor pending.
pub open spec fn registration_queues(v: EngineView, add: PendingValidatorAdd, is_genesis: bool) -> bool {
    &&& !is_genesis
    &&& v.chain_started
    &&& add.stake >= v.config.min_stake
    &&& add.storage_capacity >= v.config.min_storage
    &&& add.commission_rate <= 100
    &&& !(v.identity is None && (v.keypair_pk matches Some(pk) && pk != add.consensus_key))
    &&& keys_separated(add.consensus_key@, add.networking_key@, add.rewards_key@)
    &&& !is_registered(v.validators, add.identity)
    &&& !has_pending_add(v.pending, add.identity)
}

/// Outcome of `register_validator`: the new state and the result.
pub open spec fn registration_outcome(v: EngineView, add: PendingValidatorAdd, is_genesis: bool) -> (
    EngineView,
    Result<(), ConsensusError>,
) {
    let refuse = |issue: ValidatorIssue| (v, Err::<(), ConsensusError>(ConsensusError::ValidatorError(issue)));
    if !is_genesis && add.stake < v.config.min_stake {
        refuse(ValidatorIssue::InsufficientStake)
    } else if add.storage_capacity < v.config.min_storage {
        refuse(ValidatorIssue::InsufficientStorage)
    } else if add.commission_rate > 100 {
        refuse(ValidatorIssue::InvalidCommissionRate)
    } else if v.identity is None && (v.keypair_pk matches Some(pk) && pk != add.consensus_key) {
        refuse(ValidatorIssue::KeypairMismatch)
    } else {
        let with_identity = |w: EngineView|
            if w.identity is None { EngineView { identity: Some(add.identity), ..w } } else { w };
        if is_genesis || !v.chain_started {
            match register_outcome(v.validators, v.max_validators, validator_of(add)) {
                Ok(vs) => (with_identity(EngineView { validators: vs, ..v }), Ok(())),
                Err(e) => refuse(ValidatorIssue::Registry(e)),
            }
        } else if !keys_separated(add.consensus_key@, add.networking_key@, add.rewards_key@) {
            refuse(ValidatorIssue::Registry(RegistryError::KeysNotSeparated))
        } else {
            let queued = queue_add_outcome(v, add);
            if queued.1 is Ok {
                (with_identity(queued.0), Ok(()))
            } else {
                queued
            }
        }
    }
}

impl ConsensusEngine {
    /// Queue a validator addition for the next epoch boundary. Refused if the
    /// identity is already active or its addition is already pending; a
    /// pending removal of the identity is dropped (the re-registration
    /// cancels it).
    pub fn queue_validator_add(&mut self, pending: PendingValidatorAdd) -> (result: Result<(), ConsensusError>)
        requires
            engine_wf(old(self)@),
            !is_registered(old(self)@.validators, pending.identity) && !has_pending_add(
                old(self)@.pending,
                pending.identity,
            ) ==> epoch_start_fits(old(self)@.config, old(self)@.round.height),
        ensures
            engine_wf(final(self)@),
            final(self)@ == queue_add_outcome(old(self)@, pending).0,
            result == queue_add_outcome(old(self)@, pending).1,
    {
        if self.validator_manager.contains(&pending.identity) {
            return Err(ConsensusError::ValidatorError(ValidatorIssue::AlreadyRegistered));
        }
        if pending_add_exists(&self.pending_validator_changes, &pending.identity) {
            return Err(ConsensusError::ValidatorError(ValidatorIssue::AlreadyPending));
        }
        let identity = pending.identity;
        let mut queue: VecDeque<PendingValidatorChange> = VecDeque::new();
        std::mem::swap(&mut queue, &mut self.pending_validator_changes);
        let (kept, _dropped) = retain_changes(queue, &identity, false);
        self.pending_validator_changes = kept;
        let effective_height = self.next_epoch_start(self.current_round.height);
        self.pending_validator_changes.push_back(
            PendingValidatorChange { effective_height, change: ValidatorSetChange::Add(pending) },
        );
        Ok(())
    }

    /// Queue a validator removal for the next epoch boundary. If an addition
    /// of the identity is pending, it is cancelled instead and nothing is
    /// queued. Refused if the identity is neither pending nor active.
    pub fn queue_validator_removal(&mut self, identity: IdentityId) -> (result: Result<(), ConsensusError>)
        requires
            engine_wf(old(self)@),
            !has_pending_add(old(self)@.pending, identity) && is_registered(old(self)@.validators, identity)
                ==> epoch_start_fits(old(self)@.config, old(self)@.round.height),
        ensures
            engine_wf(final(self)@),
            has_pending_add(old(self)@.pending, identity) ==> result is Ok && final(self)@ == (EngineView {
                pending: old(self)@.pending.filter(not_adding(identity)),
                ..old(self)@
            }),
            !has_pending_add(old(self)@.pending, identity) && !is_registered(old(self)@.validators, identity)
                ==> result == Err::<(), ConsensusError>(
                ConsensusError::ValidatorError(ValidatorIssue::NotFoundForRemoval),
            ) && final(self)@ == old(self)@,
            !has_pending_add(old(self)@.pending, identity) && is_registered(old(self)@.validators, identity)
                ==> result is Ok && final(self)@ == (EngineView {
                pending: old(self)@.pending.push(
                    PendingValidatorChange {
                        effective_height: epoch_start_after(old(self)@.config, old(self)@.round.height) as u64,
                        change: ValidatorSetChange::Remove(identity),
                    },
                ),
                ..old(self)@
            }),
    {
        let mut queue: VecDeque<PendingValidatorChange> = VecDeque::new();
        std::mem::swap(&mut queue, &mut self.pending_validator_changes);
        let ghost old_queue = queue@;
        let (kept, removed_pending_add) = retain_changes(queue, &identity, true);
        self.pending_validator_changes = kept;
        if removed_pending_add {
            return Ok(());
        }
        proof {
            lemma_filter_keeps_all(old_queue, not_adding(identity));
        }
        if !self.validator_manager.contains(&identity) {
            return Err(ConsensusError::ValidatorError(ValidatorIssue::NotFoundForRemoval));
        }
        let effective_height = self.next_epoch_start(self.current_round.height);
        self.pending_validator_changes.push_back(
            PendingValidatorChange { effective_height, change: ValidatorSetChange::Remove(identity) },
        );
        Ok(())
    }

    /// Register a validator. Non-genesis validators need the minimum stake;
    /// every validator needs the minimum storage and a commission rate of at
    /// most 100, and its three keys must be non-empty and pairwise distinct.
    /// Before the chain starts, or for a genesis validator, the validator
    /// joins at once; afterwards its addition is queued for the next epoch
    /// boundary (refused when one is already pending). The first registered
    /// validator becomes the local one.
    pub fn register_validator(
        &mut self,
        identity: IdentityId,
        stake: u64,
        storage_capacity: u64,
        consensus_key: [u8; 2592],
        networking_key: Vec<u8>,
        rewards_key: Vec<u8>,
        commission_rate: u8,
        is_genesis: bool,
    ) -> (result: Result<(), ConsensusError>)
        requires
            engine_wf(old(self)@),
            registration_queues(
                old(self)@,
                (PendingValidatorAdd {
                    identity,
                    stake,
                    storage_capacity,
                    consensus_key,
                    networking_key,
                    rewards_key,
                    commission_rate,
                }),
                is_genesis,
            ) ==> epoch_start_fits(old(self)@.config, old(self)@.round.height),
        ensures
            engine_wf(final(self)@),
            ({
                let add = PendingValidatorAdd {
                    identity,
                    stake,
                    storage_capacity,
                    consensus_key,
                    networking_key,
                    rewards_key,
                    commission_rate,
                };
                let outcome = registration_outcome(old(self)@, add, is_genesis);
                final(self)@ == outcome.0 && result == outcome.1
            }),
    {
        if !is_genesis && stake < self.config.min_stake {
            return Err(ConsensusError::ValidatorError(ValidatorIssue::InsufficientStake));
        }
        if storage_capacity < self.config.min_storage {
            return Err(ConsensusError::ValidatorError(ValidatorIssue::InsufficientStorage));
        }
        if commission_rate > 100 {
            return Err(ConsensusError::ValidatorError(ValidatorIssue::InvalidCommissionRate));
        }
        if self.validator_identity.is_none() {
            if let Some(pk) = &self.validator_consensus_pk {
                if !bytes2592_eq(pk, &consensus_key) {
                    return Err(ConsensusError::ValidatorError(ValidatorIssue::KeypairMismatch));
                }
            }
        }
        let register_immediately = is_genesis || !self.chain_started;
        if register_immediately {
            match self.validator_manager.register_validator(
                identity,
                stake,
                storage_capacity,
                consensus_key,
                networking_key,
                rewards_key,
                commission_rate,
            ) {
                Ok(()) => {},
                Err(e) => {
                    return Err(ConsensusError::ValidatorError(ValidatorIssue::Registry(e)));
                },
            }
        } else {
            if !check_keys_separated(&consensus_key, networking_key.as_slice(), rewards_key.as_slice()) {
                return Err(ConsensusError::ValidatorError(ValidatorIssue::Registry(RegistryError::KeysNotSeparated)));
            }
            let queued = self.queue_validator_add(
                PendingValidatorAdd {
                    identity,
                    stake,
                    storage_capacity,
                    consensus_key,
                    networking_key,
                    rewards_key,
                    commission_rate,
                },
            );
            if queued.is_err() {
                return queued;
            }
        }
        if self.validator_identity.is_none() {
            self.validator_identity = Some(identity);
        }
        Ok(())
    }
}

/// Filtering keeps a sequence whole when every element passes.
pub proof fn lemma_filter_keeps_all<A>(s: Seq<A>, pred: spec_fn(A) -> bool)
    requires
        forall|i: int| 0 <= i < s.len() ==> pred(#[trigger] s[i]),
    ensures
        s.filter(pred) == s,
    decreases s.len(),
{
    reveal_with_fuel(Seq::filter, 1);
    if s.len() > 0 {
        lemma_filter_keeps_all(s.drop_last(), pred);
        assert(s.drop_last().push(s.last()) =~= s);
    } else {
        assert(s.filter(pred) =~= s);
    }
}


/// Entries due at `height`.
pub open spec fn due_at(height: u64) -> spec_fn(PendingValidatorChange) -> bool {
    |e: PendingValidatorChange| e.effective_height == height
}

/// Entries not due at `height`.
pub open spec fn not_due_at(height: u64) -> spec_fn(PendingValidatorChange) -> bool {
    |e: PendingValidatorChange| e.effective_height != height
}

/// Removal entries.
pub open spec fn is_removal() -> spec_fn(PendingValidatorChange) -> bool {
    |e: PendingValidatorChange| e.change is Remove
}

/// Addition entries.
pub open spec fn is_addition() -> spec_fn(PendingValidatorChange) -> bool {
    |e: PendingValidatorChange| e.change is Add
}

/// Maximum number of validator changes applied at one epoch boundary:
/// one third of the active set, at least 1.
pub open spec fn churn_budget(active: nat) -> nat {
    if active / 3 < 1 { 1 } else { active / 3 }
}

/// The same changes, all moved to `height`.
pub open spec fn rescheduled(changes: Seq<PendingValidatorChange>, height: u64) -> Seq<PendingValidatorChange> {
    changes.map_values(|e: PendingValidatorChange| PendingValidatorChange { effective_height: height, change: e.change })
}

/// State of the registry while changes are applied in order.
pub struct ChangeOutcome {
    pub validators: Seq<Validator>,
    pub applied: nat,
    pub error: Option<RegistryError>,
}

/// Apply one change: an addition of an absent identity registers it, a
/// removal of a present identity removes it; anything else is skipped.
pub open spec fn apply_change(o: ChangeOutcome, max_validators: u64, c: PendingValidatorChange) -> ChangeOutcome {
    match c.change {
        ValidatorSetChange::Add(add) => if is_registered(o.validators, add.identity) {
            o
        } else {
            match register_outcome(o.validators, max_validators, validator_of(add)) {
                Ok(vs) => ChangeOutcome { validators: vs, applied: o.applied + 1, error: None },
                Err(e) => ChangeOutcome { validators: o.validators, applied: o.applied, error: Some(e) },
            }
        },
        ValidatorSetChange::Remove(id) => if is_registered(o.validators, id) {
            ChangeOutcome { validators: removal_outcome(o.validators, id), applied: o.applied + 1, error: None }
        } else {
            o
        },
    }
}

/// Apply changes in order, stopping at the first refusal of the registry.
pub open spec fn apply_changes(validators: Seq<Validator>, max_validators: u64, changes: Seq<PendingValidatorChange>) -> ChangeOutcome
    decreases changes.len(),
{
    if changes.len() == 0 {
        ChangeOutcome { validators, applied: 0, error: None }
    } else {
        let prev = apply_changes(validators, max_validators, changes.drop_last());
        if prev.error is Some {
            prev
        } else {
            apply_change(prev, max_validators, changes.last())
        }
    }
}

/// The configuration and pending epoch-length update after applying an update due at `height`.
pub open spec fn epoch_update_applied(v: EngineView, height: u64) -> (ConsensusConfig, Option<PendingEpochLengthUpdate>) {
    match v.pending_epoch_update {
        Some(u) => if u.effective_height == height {
            (ConsensusConfig { epoch_length_blocks: u.new_length, ..v.config }, None)
        } else {
            (v.config, v.pending_epoch_update)
        },
        None => (v.config, v.pending_epoch_update),
    }
}

/// Removals due at `height`.
pub open spec fn due_removals(v: EngineView, height: u64) -> Seq<PendingValidatorChange> {
    v.pending.filter(due_at(height)).filter(is_removal())
}

/// Additions due at `height`.
pub open spec fn due_additions(v: EngineView, height: u64) -> Seq<PendingValidatorChange> {
    v.pending.filter(due_at(height)).filter(is_addition())
}

/// Number of due removals applied at `height`.
pub open spec fn removals_taken(v: EngineView, height: u64) -> nat {
    let n = due_removals(v, height).len();
    let budget = churn_budget(v.validators.len());
    if n < budget { n } else { budget }
}

/// Number of due additions applied at `height`: what the budget leaves after removals.
pub open spec fn additions_taken(v: EngineView, height: u64) -> nat {
    let n = due_additions(v, height).len();
    let left = (churn_budget(v.validators.len()) - removals_taken(v, height)) as nat;
    if n < left { n } else { left }
}

/// The changes applied at an epoch boundary, in order: removals first.
pub open spec fn boundary_changes(v: EngineView, height: u64) -> Seq<PendingValidatorChange> {
    due_removals(v, height).take(removals_taken(v, height) as int) + due_additions(v, height).take(
        additions_taken(v, height) as int,
    )
}

/// The pending queue after an epoch boundary: changes not due stay, and due
/// changes over the budget move to the next epoch.
pub open spec fn pending_after_boundary(v: EngineView, height: u64) -> Seq<PendingValidatorChange> {
    let next = epoch_start_after(epoch_update_applied(v, height).0, height) as u64;
    v.pending.filter(not_due_at(height)) + rescheduled(
        due_removals(v, height).skip(removals_taken(v, height) as int),
        next,
    ) + rescheduled(due_additions(v, height).skip(additions_taken(v, height) as int), next)
}

/// Outcome of `apply_epoch_boundary_changes` at `height`.
pub open spec fn boundary_outcome(v: EngineView, height: u64) -> (EngineView, Result<(), ConsensusError>) {
    if !epoch_boundary(v.config, height) {
        (v, Ok(()))
    } else {
        let (config, update) = epoch_update_applied(v, height);
        let out = apply_changes(v.validators, v.max_validators, boundary_changes(v, height));
        let after = EngineView {
            config,
            pending_epoch_update: update,
            pending: pending_after_boundary(v, height),
            validators: out.validators,
            ..v
        };
        match out.error {
            Some(e) => (after, Err(ConsensusError::ValidatorError(ValidatorIssue::Registry(e)))),
            None => (after, Ok(())),
        }
    }
}

/// Split changes into those due at `height` and the rest, keeping order.
fn partition_by_height(changes: VecDeque<PendingValidatorChange>, height: u64) -> (r: (
    VecDeque<PendingValidatorChange>,
    VecDeque<PendingValidatorChange>,
))
    ensures
        r.0@ == changes@.filter(due_at(height)),
        r.1@ == changes@.filter(not_due_at(height)),
{
    let ghost orig = changes@;
    let mut rest = changes;
    let mut due: VecDeque<PendingValidatorChange> = VecDeque::new();
    let mut other: VecDeque<PendingValidatorChange> = VecDeque::new();
    let ghost mut k: int = 0;
    proof {
        assert(orig.skip(0) =~= orig);
        assert(orig.take(0) =~= Seq::<PendingValidatorChange>::empty());
        reveal_with_fuel(Seq::filter, 1);
    }
    while rest.len() > 0
        invariant
            0 <= k <= orig.len(),
            rest@ == orig.skip(k),
            due@ == orig.take(k).filter(due_at(height)),
            other@ == orig.take(k).filter(not_due_at(height)),
        decreases rest@.len(),
    {
        let e = rest.pop_front().unwrap();
        proof {
            assert(e == orig[k]);
            assert(rest@ =~= orig.skip(k + 1));
            lemma_filter_take_step(orig, k, due_at(height));
            lemma_filter_take_step(orig, k, not_due_at(height));
        }
        if e.effective_height == height {
            due.push_back(e);
        } else {
            other.push_back(e);
        }
        proof {
            k = k + 1;
        }
    }
    proof {
        assert(orig.take(k) =~= orig);
    }
    (due, other)
}

/// Split changes into removals and additions, keeping order.
fn partition_by_kind(changes: VecDeque<PendingValidatorChange>) -> (r: (
    VecDeque<PendingValidatorChange>,
    VecDeque<PendingValidatorChange>,
))
    ensures
        r.0@ == changes@.filter(is_removal()),
        r.1@ == changes@.filter(is_addition()),
{
    let ghost orig = changes@;
    let mut rest = changes;
    let mut removals: VecDeque<PendingValidatorChange> = VecDeque::new();
    let mut additions: VecDeque<PendingValidatorChange> = VecDeque::new();
    let ghost mut k: int = 0;
    proof {
        assert(orig.skip(0) =~= orig);
        assert(orig.take(0) =~= Seq::<PendingValidatorChange>::empty());
        reveal_with_fuel(Seq::filter, 1);
    }
    while rest.len() > 0
        invariant
            0 <= k <= orig.len(),
            rest@ == orig.skip(k),
            removals@ == orig.take(k).filter(is_removal()),
            additions@ == orig.take(k).filter(is_addition()),
        decreases rest@.len(),
    {
        let e = rest.pop_front().unwrap();
        proof {
            assert(e == orig[k]);
            assert(rest@ =~= orig.skip(k + 1));
            lemma_filter_take_step(orig, k, is_removal());
            lemma_filter_take_step(orig, k, is_addition());
        }
        let removal = match &e.change {
            ValidatorSetChange::Remove(_) => true,
            ValidatorSetChange::Add(_) => false,
        };
        if removal {
            removals.push_back(e);
        } else {
            additions.push_back(e);
        }
        proof {
            k = k + 1;
        }
    }
    proof {
        assert(orig.take(k) =~= orig);
    }
    (removals, additions)
}

/// Move all changes to `height`.
fn reschedule(changes: VecDeque<PendingValidatorChange>, height: u64) -> (r: VecDeque<PendingValidatorChange>)
    ensures
        r@ == rescheduled(changes@, height),
{
    let ghost orig = changes@;
    let mut rest = changes;
    let mut out: VecDeque<PendingValidatorChange> = VecDeque::new();
    let ghost mut k: int = 0;
    proof {
        assert(orig.skip(0) =~= orig);
    }
    while rest.len() > 0
        invariant
            0 <= k <= orig.len(),
            rest@ == orig.skip(k),
            out@ == rescheduled(orig.take(k), height),
        decreases rest@.len(),
    {
        let e = rest.pop_front().unwrap();
        proof {
            assert(e == orig[k]);
            assert(rest@ =~= orig.skip(k + 1));
        }
        let PendingValidatorChange { effective_height: _, change } = e;
        out.push_back(PendingValidatorChange { effective_height: height, change });
        proof {
            assert(rescheduled(orig.take(k + 1), height) =~= rescheduled(orig.take(k), height).push(
                PendingValidatorChange { effective_height: height, change: orig[k].change },
            ));
            k = k + 1;
        }
    }
    proof {
        assert(orig.take(k) =~= orig);
    }
    out
}

/// Once the registry refuses a change, later changes are not applied.
pub proof fn lemma_apply_error_persists(
    validators: Seq<Validator>,
    max_validators: u64,
    changes: Seq<PendingValidatorChange>,
    k: int,
)
    requires
        0 <= k <= changes.len(),
        apply_changes(validators, max_validators, changes.take(k)).error is Some,
    ensures
        apply_changes(validators, max_validators, changes) == apply_changes(validators, max_validators, changes.take(k)),
    decreases changes.len() - k,
{
    if k == changes.len() {
        assert(changes.take(k) =~= changes);
    } else {
        assert(changes.take(k + 1).drop_last() =~= changes.take(k));
        lemma_apply_error_persists(validators, max_validators, changes, k + 1);
    }
}

/// Each applied change is one of the changes: no more are applied than given.
pub proof fn lemma_applied_at_most_given(
    validators: Seq<Validator>,
    max_validators: u64,
    changes: Seq<PendingValidatorChange>,
)
    ensures
        apply_changes(validators, max_validators, changes).applied <= changes.len(),
    decreases changes.len(),
{
    if changes.len() > 0 {
        lemma_applied_at_most_given(validators, max_validators, changes.drop_last());
    }
}

/// Applying changes keeps identities unique.
pub proof fn lemma_apply_keeps_unique(
    validators: Seq<Validator>,
    max_validators: u64,
    changes: Seq<PendingValidatorChange>,
)
    requires
        identities_unique(validators),
    ensures
        identities_unique(apply_changes(validators, max_validators, changes).validators),
    decreases changes.len(),
{
    if changes.len() > 0 {
        lemma_apply_keeps_unique(validators, max_validators, changes.drop_last());
        let prev = apply_changes(validators, max_validators, changes.drop_last());
        if prev.error is None {
            match changes.last().change {
                ValidatorSetChange::Add(add) => {
                    if !is_registered(prev.validators, add.identity) {
                        lemma_register_keeps_unique(prev.validators, max_validators, validator_of(add));
                    }
                },
                ValidatorSetChange::Remove(id) => {
                    if is_registered(prev.validators, id) {
                        lemma_remove_keeps_unique(prev.validators, id);
                    }
                },
            }
        }
    }
}

pub proof fn lemma_register_keeps_unique(validators: Seq<Validator>, max_validators: u64, v: Validator)
    requires
        identities_unique(validators),
    ensures
        register_outcome(validators, max_validators, v) matches Ok(vs) ==> identities_unique(vs),
{
    if register_outcome(validators, max_validators, v) is Ok {
        let vs = validators.push(v);
        assert forall|i: int, j: int| 0 <= i < j < vs.len() implies (#[trigger] vs[i]).identity != (
        #[trigger] vs[j]).identity by {
            if j == validators.len() {
                assert(vs[i] == validators[i]);
            } else {
                assert(vs[i] == validators[i]);
                assert(vs[j] == validators[j]);
            }
        }
    }
}

pub proof fn lemma_remove_keeps_unique(validators: Seq<Validator>, id: IdentityId)
    requires
        identities_unique(validators),
        is_registered(validators, id),
    ensures
        identities_unique(removal_outcome(validators, id)),
{
    let p = position_of(validators, id);
    let vs = validators.remove(p);
    assert forall|a: int, b: int| 0 <= a < b < vs.len() implies (#[trigger] vs[a]).identity != (
    #[trigger] vs[b]).identity by {
        let oa = if a < p { a } else { a + 1 };
        let ob = if b < p { b } else { b + 1 };
        assert(vs[a] == validators[oa]);
        assert(vs[b] == validators[ob]);
    }
}

/// Apply changes in order to the registry, stopping at the first refusal.
fn apply_changes_to(manager: &mut ValidatorManager, changes: VecDeque<PendingValidatorChange>) -> (r: Result<usize, RegistryError>)
    requires
        old(manager).wf(),
    ensures
        final(manager).wf(),
        final(manager).max_validators() == old(manager).max_validators(),
        final(manager).spec_min_stake() == old(manager).spec_min_stake(),
        final(manager).spec_development_mode() == old(manager).spec_development_mode(),
        ({
            let out = apply_changes(old(manager).validators(), old(manager).max_validators(), changes@);
            &&& final(manager).validators() == out.validators
            &&& match r {
                Ok(n) => out.error is None && n == out.applied,
                Err(e) => out.error == Some(e),
            }
        }),
{
    let ghost orig = changes@;
    let ghost vs0 = manager.validators();
    let ghost max = manager.max_validators();
    let mut rest = changes;
    let total_len = rest.len();
    let mut applied: usize = 0;
    let ghost mut k: int = 0;
    proof {
        assert(orig.skip(0) =~= orig);
        assert(orig.take(0) =~= Seq::<PendingValidatorChange>::empty());
    }
    while rest.len() > 0
        invariant
            0 <= k <= orig.len(),
            rest@ == orig.skip(k),
            manager.wf(),
            manager.max_validators() == max,
            manager.spec_min_stake() == old(manager).spec_min_stake(),
            manager.spec_development_mode() == old(manager).spec_development_mode(),
            apply_changes(vs0, max, orig.take(k)).error is None,
            manager.validators() == apply_changes(vs0, max, orig.take(k)).validators,
            applied == apply_changes(vs0, max, orig.take(k)).applied,
            applied <= k,
            total_len == orig.len(),
            vs0 == old(manager).validators(),
            max == old(manager).max_validators(),
            orig == changes@,
        decreases rest@.len(),
    {
        let e = rest.pop_front().unwrap();
        proof {
            assert(e == orig[k]);
            assert(rest@ =~= orig.skip(k + 1));
            assert(orig.take(k + 1).drop_last() =~= orig.take(k));
            assert(orig.take(k + 1).last() == orig[k]);
        }
        let PendingValidatorChange { effective_height: _, change } = e;
        match change {
            ValidatorSetChange::Add(add) => {
                if !manager.contains(&add.identity) {
                    let PendingValidatorAdd {
                        identity,
                        stake,
                        storage_capacity,
                        consensus_key,
                        networking_key,
                        rewards_key,
                        commission_rate,
                    } = add;
                    let registered = manager.register_validator(
                        identity,
                        stake,
                        storage_capacity,
                        consensus_key,
                        networking_key,
                        rewards_key,
                        commission_rate,
                    );
                    match registered {
                        Ok(()) => {
                            applied = applied + 1;
                        },
                        Err(err) => {
                            proof {
                                lemma_apply_error_persists(vs0, max, orig, k + 1);
                            }
                            return Err(err);
                        },
                    }
                }
            },
            ValidatorSetChange::Remove(id) => {
                if manager.contains(&id) {
                    let _ = manager.remove_validator(&id);
                    applied = applied + 1;
                }
            },
        }
        proof {
            k = k + 1;
        }
    }
    proof {
        assert(orig.take(k) =~= orig);
    }
    Ok(applied)
}

impl ConsensusEngine {
    /// Apply the validator-set changes scheduled for the epoch boundary
    /// `height` (nothing happens off a boundary). A pending epoch-length
    /// update due at `height` takes effect first. At most
    /// `churn_budget(active)` changes are applied, removals before additions;
    /// due changes over the budget move to the next epoch start.
    pub fn apply_epoch_boundary_changes(&mut self, height: u64) -> (result: Result<(), ConsensusError>)
        requires
            engine_wf(old(self)@),
            epoch_boundary(old(self)@.config, height) ==> epoch_start_fits(
                epoch_update_applied(old(self)@, height).0,
                height,
            ),
        ensures
            engine_wf(final(self)@),
            final(self)@ == boundary_outcome(old(self)@, height).0,
            result == boundary_outcome(old(self)@, height).1,
    {
        let ghost v = self@;
        if !self.is_epoch_boundary(height) {
            return Ok(());
        }
        if let Some(update) = self.pending_epoch_length_update {
            if update.effective_height == height {
                self.config.epoch_length_blocks = update.new_length;
                self.pending_epoch_length_update = None;
            }
        }
        let active_count = self.validator_manager.active_count();
        let third = active_count * MAX_CHURN_NUMERATOR / MAX_CHURN_DENOMINATOR;
        let churn_budget: usize = if third < 1 { 1 } else { third };
        let mut queue: VecDeque<PendingValidatorChange> = VecDeque::new();
        std::mem::swap(&mut queue, &mut self.pending_validator_changes);
        let (due, mut deferred) = partition_by_height(queue, height);
        let (mut removals, mut additions) = partition_by_kind(due);
        let removals_to_apply = if removals.len() < churn_budget { removals.len() } else { churn_budget };
        let left = churn_budget - removals_to_apply;
        let additions_to_apply = if additions.len() < left { additions.len() } else { left };
        let deferred_removals = removals.split_off(removals_to_apply);
        let deferred_additions = additions.split_off(additions_to_apply);
        let next_epoch = self.next_epoch_start(height);
        let mut moved_removals = reschedule(deferred_removals, next_epoch);
        let mut moved_additions = reschedule(deferred_additions, next_epoch);
        deferred.append(&mut moved_removals);
        deferred.append(&mut moved_additions);
        self.pending_validator_changes = deferred;
        removals.append(&mut additions);
        proof {
            assert(removals@ =~= boundary_changes(v, height));
            assert(self.pending_validator_changes@ =~= pending_after_boundary(v, height));
            lemma_applied_at_most_given(v.validators, v.max_validators, boundary_changes(v, height));
        }
        match apply_changes_to(&mut self.validator_manager, removals) {
            Ok(_applied) => Ok(()),
            Err(e) => Err(ConsensusError::ValidatorError(ValidatorIssue::Registry(e))),
        }
    }
}


/// Whether a snapshot for `height` exists.
pub open spec fn has_snapshot(snapshots: Seq<ValidatorSetSnapshot>, height: u64) -> bool {
    exists|i: int| 0 <= i < snapshots.len() && (#[trigger] snapshots[i]).height == height
}

/// Members sealed for `height` (meaningful when a snapshot exists).
pub open spec fn snapshot_members(snapshots: Seq<ValidatorSetSnapshot>, height: u64) -> Seq<IdentityId> {
    snapshots[choose|i: int| 0 <= i < snapshots.len() && (#[trigger] snapshots[i]).height == height].validators@
}

/// Validators for `height`: the sealed snapshot if there is one, else the live set.
pub open spec fn members_for_height(v: EngineView, height: u64) -> Seq<IdentityId> {
    if has_snapshot(v.snapshots, height) {
        snapshot_members(v.snapshots, height)
    } else {
        identities(v.validators)
    }
}

/// Round-robin leader: the member at position `(height + round) % n` of the
/// ascending listing of the validators for `height`; `None` with no validators.
pub open spec fn proposer_for(v: EngineView, height: u64, round: u32) -> Option<IdentityId> {
    let members = members_for_height(v, height);
    if members.len() == 0 {
        None
    } else {
        Some(crate::order::sorted_members(members)[((height + round) % (members.len() as int))])
    }
}

/// Snapshots after sealing the live set for `height` (none exists yet): the
/// oldest is dropped when the history is full.
pub open spec fn snapshots_after_seal(
    before: Seq<ValidatorSetSnapshot>,
    after: Seq<ValidatorSetSnapshot>,
    height: u64,
    members: Seq<IdentityId>,
) -> bool {
    let base = if before.len() + 1 > SNAPSHOT_HISTORY_LIMIT { before.skip(1) } else { before };
    &&& after.len() == base.len() + 1
    &&& forall|i: int| 0 <= i < base.len() ==> after[i] == base[i]
    &&& after.last().height == height
    &&& after.last().validators@ == members
}

pub proof fn lemma_identities_distinct(validators: Seq<Validator>)
    requires
        identities_unique(validators),
    ensures
        identities(validators).no_duplicates(),
{
    let ids = identities(validators);
    assert forall|i: int, j: int| 0 <= i < ids.len() && 0 <= j < ids.len() && i != j implies ids[i] != ids[j] by {
        if i < j {
            assert(validators[i].identity != validators[j].identity);
        } else {
            assert(validators[j].identity != validators[i].identity);
        }
    }
}

fn copy_ids(ids: &Vec<IdentityId>) -> (out: Vec<IdentityId>)
    ensures
        out@ == ids@,
{
    let mut out: Vec<IdentityId> = Vec::new();
    let mut i: usize = 0;
    while i < ids.len()
        invariant
            0 <= i <= ids@.len(),
            out@ == ids@.subrange(0, i as int),
        decreases ids@.len() - i,
    {
        out.push(ids[i]);
        proof {
            assert(ids@.subrange(0, i + 1) =~= ids@.subrange(0, i as int).push(ids@[i as int]));
        }
        i = i + 1;
    }
    assert(ids@.subrange(0, ids@.len() as int) =~= ids@);
    out
}

impl ConsensusEngine {
    fn snapshot_position(&self, height: u64) -> (pos: Option<usize>)
        requires
            engine_wf(self@),
        ensures
            pos is None <==> !has_snapshot(self@.snapshots, height),
            pos matches Some(i) ==> i < self@.snapshots.len() && self@.snapshots[i as int].height == height
                && self@.snapshots[i as int].validators@ == snapshot_members(self@.snapshots, height),
    {
        let mut i: usize = 0;
        while i < self.validator_set_history.len()
            invariant
                engine_wf(self@),
                0 <= i <= self.validator_set_history@.len(),
                forall|j: int| 0 <= j < i ==> (#[trigger] self.validator_set_history@[j]).height != height,
            decreases self.validator_set_history@.len() - i,
        {
            if self.validator_set_history[i].height == height {
                proof {
                    let snaps = self@.snapshots;
                    let c = choose|c: int| 0 <= c < snaps.len() && (#[trigger] snaps[c]).height == height;
                    assert(snaps[i as int].height == height);
                    if c != i {
                        if c < i {
                            assert(snaps[c].height != snaps[i as int].height);
                        } else {
                            assert(snaps[i as int].height != snaps[c].height);
                        }
                    }
                }
                return Some(i);
            }
            i = i + 1;
        }
        None
    }

    /// The validator snapshot sealed for `height`, if any.
    pub fn validator_set_for_height(&self, height: u64) -> (ids: Option<&Vec<IdentityId>>)
        requires
            engine_wf(self@),
        ensures
            ids is None <==> !has_snapshot(self@.snapshots, height),
            ids matches Some(v) ==> v@ == snapshot_members(self@.snapshots, height),
    {
        match self.snapshot_position(height) {
            Some(i) => Some(&self.validator_set_history[i].validators),
            None => None,
        }
    }

    /// Validators for `height`: its snapshot, or the live set when none is sealed.
    pub fn get_validator_ids_for_height(&self, height: u64) -> (ids: Vec<IdentityId>)
        requires
            engine_wf(self@),
        ensures
            ids@ == members_for_height(self@, height),
    {
        match self.validator_set_for_height(height) {
            Some(snapshot) => copy_ids(snapshot),
            None => self.validator_manager.active_validator_ids(),
        }
    }

    /// Validators for the current height.
    pub fn get_active_validator_ids(&self) -> (ids: Vec<IdentityId>)
        requires
            engine_wf(self@),
        ensures
            ids@ == members_for_height(self@, self@.round.height),
    {
        self.get_validator_ids_for_height(self.current_round.height)
    }

    /// Seal the live validator set for `height`. Write-once: an existing
    /// snapshot for `height` is kept unchanged. At most
    /// `SNAPSHOT_HISTORY_LIMIT` snapshots are kept; the oldest is dropped.
    pub fn snapshot_validator_set(&mut self, height: u64)
        requires
            engine_wf(old(self)@),
        ensures
            engine_wf(final(self)@),
            has_snapshot(old(self)@.snapshots, height) ==> final(self)@ == old(self)@,
            !has_snapshot(old(self)@.snapshots, height) ==> {
                &&& final(self)@ == (EngineView { snapshots: final(self)@.snapshots, ..old(self)@ })
                &&& snapshots_after_seal(
                    old(self)@.snapshots,
                    final(self)@.snapshots,
                    height,
                    identities(old(self)@.validators),
                )
            },
    {
        if self.snapshot_position(height).is_some() {
            return;
        }
        let validators = self.validator_manager.active_validator_ids();
        let ghost before = self@.snapshots;
        proof {
            lemma_identities_distinct(self@.validators);
        }
        self.validator_set_history.push_back(ValidatorSetSnapshot { height, validators });
        if self.validator_set_history.len() > SNAPSHOT_HISTORY_LIMIT {
            let _oldest = self.validator_set_history.pop_front();
        }
        proof {
            let after = self@.snapshots;
            let pushed = before.push(after.last());
            if before.len() + 1 > SNAPSHOT_HISTORY_LIMIT {
                assert(after =~= pushed.skip(1));
                assert(after =~= before.skip(1).push(after.last()));
            } else {
                assert(after =~= pushed);
            }
            assert forall|i: int, j: int| 0 <= i < j < after.len() implies (#[trigger] after[i]).height != (
            #[trigger] after[j]).height by {
                let off = if before.len() + 1 > SNAPSHOT_HISTORY_LIMIT { 1int } else { 0int };
                if j == after.len() - 1 {
                    assert(after[i] == before[i + off]);
                    assert(before[i + off].height != height);
                } else {
                    assert(after[i] == before[i + off]);
                    assert(after[j] == before[j + off]);
                }
            }
            assert forall|i: int| 0 <= i < after.len() implies (#[trigger] after[i]).validators@.no_duplicates() by {
                let off = if before.len() + 1 > SNAPSHOT_HISTORY_LIMIT { 1int } else { 0int };
                if i < after.len() - 1 {
                    assert(after[i] == before[i + off]);
                }
            }
        }
    }

    /// Round-robin proposer for (height, round) over the validators of that
    /// height sorted by identity bytes: `sorted[(height + round) % n]`.
    pub fn compute_proposer_for_round(&self, height: u64, round: u32) -> (proposer: Option<IdentityId>)
        requires
            engine_wf(self@),
            height + round <= u64::MAX,
        ensures
            proposer == proposer_for(self@, height, round),
    {
        let members = self.get_validator_ids_for_height(height);
        if members.len() == 0 {
            return None;
        }
        proof {
            if has_snapshot(self@.snapshots, height) {
                let c = choose|i: int| 0 <= i < self@.snapshots.len() && (#[trigger] self@.snapshots[i]).height == height;
                assert(self@.snapshots[c].validators@.no_duplicates());
            } else {
                lemma_identities_distinct(self@.validators);
            }
        }
        let sorted = sort_ids(&members);
        let index = ((height + round as u64) % (sorted.len() as u64)) as usize;
        Some(sorted[index])
    }
}

/// Snapshots are write-once: sealing any height never changes the members
/// already sealed for another height that is still kept.
pub proof fn lemma_snapshot_write_once(
    before: Seq<ValidatorSetSnapshot>,
    after: Seq<ValidatorSetSnapshot>,
    height: u64,
    members: Seq<IdentityId>,
    other: u64,
)
    requires
        snapshots_wf(before),
        snapshots_wf(after),
        !has_snapshot(before, height),
        snapshots_after_seal(before, after, height, members),
        has_snapshot(before, other),
        has_snapshot(after, other),
    ensures
        snapshot_members(after, other) == snapshot_members(before, other),
{
    let off = if before.len() + 1 > SNAPSHOT_HISTORY_LIMIT { 1int } else { 0int };
    let ia = choose|i: int| 0 <= i < after.len() && (#[trigger] after[i]).height == other;
    let ib = choose|i: int| 0 <= i < before.len() && (#[trigger] before[i]).height == other;
    assert(other != height);
    assert(ia != after.len() - 1);
    assert(after[ia] == before[ia + off]);
    if ia + off != ib {
        if ia + off < ib {
            assert(before[ia + off].height != before[ib].height);
        } else {
            assert(before[ib].height != before[ia + off].height);
        }
    }
}


/// Churn cap: the number of validator changes applied at an epoch boundary
/// never exceeds `churn_budget` of the active set.
pub proof fn lemma_boundary_churn_cap(v: EngineView, height: u64)
    ensures
        apply_changes(v.validators, v.max_validators, boundary_changes(v, height)).applied <= churn_budget(
            v.validators.len(),
        ),
{
    lemma_applied_at_most_given(v.validators, v.max_validators, boundary_changes(v, height));
}

/// Removals take priority: additions get part of the budget only once every
/// due removal is applied.
pub proof fn lemma_boundary_removals_first(v: EngineView, height: u64)
    ensures
        additions_taken(v, height) > 0 ==> removals_taken(v, height) == due_removals(v, height).len(),
{
}

/// Filtering by a predicate and by its negation splits a sequence.
pub proof fn lemma_filter_split<A>(s: Seq<A>, p: spec_fn(A) -> bool, q: spec_fn(A) -> bool)
    requires
        forall|a: A| #[trigger] p(a) == !q(a),
    ensures
        s.filter(p).len() + s.filter(q).len() == s.len(),
    decreases s.len(),
{
    reveal_with_fuel(Seq::filter, 1);
    if s.len() > 0 {
        lemma_filter_split(s.drop_last(), p, q);
        assert(p(s.last()) == !q(s.last()));
    }
}

/// Nothing is lost at an epoch boundary: every pending change is either
/// applied now or still pending afterwards.
pub proof fn lemma_boundary_conserves_changes(v: EngineView, height: u64)
    ensures
        pending_after_boundary(v, height).len() + boundary_changes(v, height).len() == v.pending.len(),
{
    let due = v.pending.filter(due_at(height));
    lemma_filter_split(v.pending, due_at(height), not_due_at(height));
    assert forall|e: PendingValidatorChange| #[trigger] is_removal()(e) == !is_addition()(e) by {
        match e.change {
            ValidatorSetChange::Add(_) => {},
            ValidatorSetChange::Remove(_) => {},
        }
    }
    lemma_filter_split(due, is_removal(), is_addition());
    vstd::seq_lib::lemma_seq_skip_nothing(due_removals(v, height), 0);
}

/// Deferred changes are rescheduled onto the next epoch boundary (under the
/// epoch length in force after the boundary), strictly later than `height`.
pub proof fn lemma_deferred_land_on_next_boundary(v: EngineView, height: u64, i: int)
    requires
        epoch_boundary(v.config, height),
        epoch_start_fits(epoch_update_applied(v, height).0, height),
        v.pending.filter(not_due_at(height)).len() <= i < pending_after_boundary(v, height).len(),
    ensures
        pending_after_boundary(v, height)[i].effective_height > height,
        epoch_boundary(epoch_update_applied(v, height).0, pending_after_boundary(v, height)[i].effective_height),
{
    let config = epoch_update_applied(v, height).0;
    lemma_epoch_start_after(config, height);
}

/// Within an epoch the validator set is frozen: off an epoch boundary,
/// applying boundary changes leaves the engine as it was.
pub proof fn lemma_no_changes_off_boundary(v: EngineView, height: u64)
    requires
        !epoch_boundary(v.config, height),
    ensures
        boundary_outcome(v, height) == (v, Ok::<(), ConsensusError>(())),
{
}

/// Queueing the removal of a validator whose addition is still pending
/// cancels that addition: the queue returns to what it was before the
/// addition was queued (when that addition was the only one for the identity).
pub proof fn lemma_add_then_remove_cancels(
    pending: Seq<PendingValidatorChange>,
    config: ConsensusConfig,
    height: u64,
    add: PendingValidatorAdd,
)
    requires
        forall|i: int| 0 <= i < pending.len() ==> !change_concerns(#[trigger] pending[i].change, add.identity),
    ensures
        has_pending_add(queued_addition(pending, config, height, add), add.identity),
        queued_addition(pending, config, height, add).filter(not_adding(add.identity)) == pending,
{
    let queued = queued_addition(pending, config, height, add);
    lemma_filter_keeps_all(pending, unrelated_to(add.identity));
    assert(queued[queued.len() - 1].change == ValidatorSetChange::Add(add));
    assert(change_adds(queued[queued.len() - 1].change, add.identity));
    pending.lemma_filter_push(queued.last(), not_adding(add.identity));
    assert(queued =~= pending.push(queued.last()));
    assert forall|i: int| 0 <= i < pending.len() implies #[trigger] not_adding(add.identity)(pending[i]) by {
        assert(!change_concerns(pending[i].change, add.identity));
    }
    lemma_filter_keeps_all(pending, not_adding(add.identity));
}


/// The validators of a height are distinct.
pub proof fn lemma_members_distinct(v: EngineView, height: u64)
    requires
        engine_wf(v),
    ensures
        members_for_height(v, height).no_duplicates(),
{
    if has_snapshot(v.snapshots, height) {
        let c = choose|i: int| 0 <= i < v.snapshots.len() && (#[trigger] v.snapshots[i]).height == height;
        assert(v.snapshots[c].validators@.no_duplicates());
    } else {
        lemma_identities_distinct(v.validators);
    }
}

/// The proposer of a round is one of the validators of its height.
pub proof fn lemma_proposer_is_member(v: EngineView, height: u64, round: u32)
    requires
        engine_wf(v),
        proposer_for(v, height, round) is Some,
    ensures
        members_for_height(v, height).contains(proposer_for(v, height, round).unwrap()),
{
    let members = members_for_height(v, height);
    lemma_members_distinct(v, height);
    let s = crate::order::sorted_members(members);
    let _ = crate::order::sorted_ids_exist(members);
    let k = (height + round) % (members.len() as int);
    assert(s.contains(s[k]));
}

/// Fair rotation: within any `n` consecutive rounds of a height with `n`
/// validators, no validator proposes twice, so each proposes exactly once.
pub proof fn lemma_rotation_is_fair(v: EngineView, height: u64, r1: u32, r2: u32)
    requires
        engine_wf(v),
        r1 < r2,
        r2 - r1 < members_for_height(v, height).len(),
    ensures
        proposer_for(v, height, r1) != proposer_for(v, height, r2),
{
    let members = members_for_height(v, height);
    let n = members.len() as int;
    lemma_members_distinct(v, height);
    let _ = crate::order::sorted_ids_exist(members);
    let s = crate::order::sorted_members(members);
    let k1 = (height + r1) % n;
    let k2 = (height + r2) % n;
    assert(k1 != k2) by (nonlinear_arith)
        requires
            n > 0,
            0 < r2 - r1 < n,
            k1 == (height + r1) % n,
            k2 == (height + r2) % n,
    {
        vstd::arithmetic::div_mod::lemma_fundamental_div_mod(height + r1, n);
        vstd::arithmetic::div_mod::lemma_fundamental_div_mod(height + r2, n);
    }
    assert(crate::order::strictly_sorted(s));
    if k1 < k2 {
        assert(crate::order::lex_lt(s[k1]@, s[k2]@));
        if s[k1] == s[k2] {
            crate::order::lemma_lex_lt_irreflexive(s[k1]@);
        }
    } else {
        assert(crate::order::lex_lt(s[k2]@, s[k1]@));
        if s[k1] == s[k2] {
            crate::order::lemma_lex_lt_irreflexive(s[k2]@);
        }
    }
}


/// Rotation has period `n`: with `n` validators for a height, round `r + n`
/// has the same proposer as round `r`.
pub proof fn lemma_rotation_period(v: EngineView, height: u64, round: u32)
    requires
        round + members_for_height(v, height).len() <= u32::MAX,
    ensures
        proposer_for(v, height, (round + members_for_height(v, height).len()) as u32) == proposer_for(
            v,
            height,
            round,
        ),
{
    let n = members_for_height(v, height).len() as int;
    if n > 0 {
        let later = (round + n) as u32;
        assert(height + later == (height + round) + n);
        vstd::arithmetic::div_mod::lemma_mod_add_multiples_vanish(height + round, n);
    }
}

/// Every validator proposes in any `n` consecutive rounds of a height with
/// `n` validators: for each member `x` and each first round `first`, some
/// round in `first .. first + n` has `x` as proposer.
pub proof fn lemma_rotation_covers_members(v: EngineView, height: u64, first: u32, x: IdentityId)
    requires
        engine_wf(v),
        members_for_height(v, height).contains(x),
        first + members_for_height(v, height).len() <= u32::MAX + 1,
    ensures
        exists|r: u32|
            first <= r < first + members_for_height(v, height).len() && #[trigger] proposer_for(v, height, r)
                == Some(x),
{
    let members = members_for_height(v, height);
    let n = members.len() as int;
    lemma_members_distinct(v, height);
    let _ = crate::order::sorted_ids_exist(members);
    let s = crate::order::sorted_members(members);
    assert(s.contains(x));
    let k = choose|k: int| 0 <= k < s.len() && s[k] == x;
    let offset = (k - (height + first)) % n;
    let r_int = first + offset;
    assert(0 <= offset < n) by {
        vstd::arithmetic::div_mod::lemma_mod_bound(k - (height + first), n);
    }
    assert((height + r_int) % n == k) by {
        let a = height + first;
        vstd::arithmetic::div_mod::lemma_fundamental_div_mod(k - a, n);
        let q = (k - a) / n;
        assert(a + offset == (-q) * n + k) by (nonlinear_arith)
            requires
                k - a == n * q + offset,
        ;
        vstd::arithmetic::div_mod::lemma_fundamental_div_mod_converse(a + offset, n, -q, k);
    }
    let r = r_int as u32;
    assert(proposer_for(v, height, r) == Some(x));
}

/// A queued addition blocks a second one: once an addition of an identity has
/// been queued, queueing another addition of that identity is refused with
/// `AlreadyPending` and changes nothing.
pub proof fn lemma_duplicate_add_refused(v: EngineView, add: PendingValidatorAdd, again: PendingValidatorAdd)
    requires
        again.identity == add.identity,
        queue_add_outcome(v, add).1 is Ok,
    ensures
        queue_add_outcome(queue_add_outcome(v, add).0, again) == (
            queue_add_outcome(v, add).0,
            Err::<(), ConsensusError>(ConsensusError::ValidatorError(ValidatorIssue::AlreadyPending)),
        ),
{
    let w = queue_add_outcome(v, add).0;
    let last = w.pending.len() - 1;
    assert(change_adds(w.pending[last].change, add.identity));
}

/// Key separation is owed on every path: a registration whose networking or
/// rewards key is empty, or whose three keys are not pairwise distinct, is
/// refused and leaves the engine unchanged, before or after the chain starts,
/// genesis or not.
pub proof fn lemma_registration_requires_separated_keys(v: EngineView, add: PendingValidatorAdd, is_genesis: bool)
    requires
        !keys_separated(add.consensus_key@, add.networking_key@, add.rewards_key@),
    ensures
        registration_outcome(v, add, is_genesis).1 is Err,
        registration_outcome(v, add, is_genesis).0 == v,
{
}

/// Registration never accepts shared or missing keys: when the networking or
/// rewards key is empty, or two of the consensus, networking and rewards keys
/// are the same bytes, registration fails and the engine is left as it was,
/// whether the validator would join at once or be queued.
pub proof fn lemma_registration_refuses_shared_keys(v: EngineView, add: PendingValidatorAdd, is_genesis: bool)
    requires
        add.networking_key@.len() == 0 || add.rewards_key@.len() == 0 || add.consensus_key@ == add.networking_key@
            || add.consensus_key@ == add.rewards_key@ || add.networking_key@ == add.rewards_key@,
    ensures
        registration_outcome(v, add, is_genesis).1 is Err,
        registration_outcome(v, add, is_genesis).0 == v,
{
}

/// At an epoch boundary the due changes are taken in queue order, removals
/// before additions: with a budget of `max(floor(active / 3), 1)`, the first
/// `k` due removals and then the first `m` due additions are applied, and the
/// later due entries (a suffix of each kind, in order) stay pending, moved to
/// the next epoch start. Changes not due stay as they were.
pub proof fn lemma_boundary_applies_queue_prefix(v: EngineView, height: u64)
    requires
        epoch_boundary(v.config, height),
    ensures
        ({
            let due = v.pending.filter((|e: PendingValidatorChange| e.effective_height == height));
            let rem = due.filter((|e: PendingValidatorChange| e.change is Remove));
            let add = due.filter((|e: PendingValidatorChange| e.change is Add));
            let n = v.validators.len();
            let budget: int = if n / 3 < 1 { 1 } else { (n / 3) as int };
            let k: int = if rem.len() < budget { rem.len() as int } else { budget };
            let m: int = if add.len() < budget - k { add.len() as int } else { budget - k };
            let next = epoch_start_after(epoch_update_applied(v, height).0, height) as u64;
            let moved = (|e: PendingValidatorChange| (PendingValidatorChange { effective_height: next, change: e.change }));
            let applied = apply_changes(v.validators, v.max_validators, rem.take(k) + add.take(m));
            &&& boundary_outcome(v, height).0.validators == applied.validators
            &&& (boundary_outcome(v, height).1 is Ok <==> applied.error is None)
            &&& boundary_outcome(v, height).0.pending == v.pending.filter(
                (|e: PendingValidatorChange| e.effective_height != height),
            ) + rem.skip(k).map_values(moved) + add.skip(m).map_values(moved)
        }),
{
    assert(due_at(height) =~= (|e: PendingValidatorChange| e.effective_height == height));
    assert(not_due_at(height) =~= (|e: PendingValidatorChange| e.effective_height != height));
    assert(is_removal() =~= (|e: PendingValidatorChange| e.change is Remove));
    assert(is_addition() =~= (|e: PendingValidatorChange| e.change is Add));
    let next = epoch_start_after(epoch_update_applied(v, height).0, height) as u64;
    let moved = (|e: PendingValidatorChange| (PendingValidatorChange { effective_height: next, change: e.change }));
    assert((|e: PendingValidatorChange| (PendingValidatorChange { effective_height: next, change: e.change }))
        =~= moved);
}

/// Epoch gating: once the chain has started, registering a non-genesis
/// validator never changes the active set at once; it can only queue a change.
pub proof fn lemma_registration_epoch_gated(v: EngineView, add: PendingValidatorAdd)
    requires
        v.chain_started,
    ensures
        registration_outcome(v, add, false).0.validators == v.validators,
{
}

} // verus!
