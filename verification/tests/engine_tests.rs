use lib_consensus::config::ConsensusConfig;
use lib_consensus::engine::{ConsensusEngine, ConsensusError, PendingValidatorAdd, ValidatorIssue, ValidatorSetChange};
use lib_consensus::step::ConsensusStep;
use lib_consensus::validators::RegistryError;

fn config() -> ConsensusConfig {
    ConsensusConfig {
        propose_timeout: 3000,
        prevote_timeout: 1000,
        precommit_timeout: 1500,
        epoch_length_blocks: 10,
        min_stake: 100,
        min_storage: 50,
        max_validators: 10,
        development_mode: true,
    }
}

fn id(b: u8) -> [u8; 32] {
    [b; 32]
}

fn register(engine: &mut ConsensusEngine, b: u8, genesis: bool) -> Result<(), ConsensusError> {
    engine.register_validator(id(b), 1000, 100, [b; 2592], vec![b, 1], vec![b, 2], 5, genesis)
}

fn err(issue: ValidatorIssue) -> Result<(), ConsensusError> {
    Err(ConsensusError::ValidatorError(issue))
}

#[test]
fn test_consensus_initialization() {
    let result = ConsensusEngine::new(config());
    assert!(result.is_ok());
    let engine = result.unwrap();
    assert_eq!(engine.current_round().height, 0);
    assert_eq!(engine.current_round().round, 0);
    assert_eq!(engine.current_round().step, ConsensusStep::Propose);
    assert_eq!(engine.get_validator_count(), 0);
    assert!(!engine.is_bft_mode_active());
    assert_eq!(engine.local_validator_identity(), None);
    assert_eq!(engine.round_timer().timeout_ms(&ConsensusStep::PreVote), 1000);
    let round = engine.current_round();
    assert_eq!(round.start_time, 0);
    assert_eq!(round.proposer, None);
    assert!(round.proposals.is_empty());
    assert!(round.votes.is_empty());
    assert!(!round.timed_out);
    assert_eq!(round.locked_proposal, None);
    assert_eq!(round.valid_proposal, None);
    assert!(engine.engine_start_time() > 1_600_000_000);
}

#[test]
fn engine_created_at_a_given_time() {
    let engine = ConsensusEngine::new_at(config(), 1234);
    assert_eq!(engine.engine_start_time(), 1234);
    assert_eq!(engine.current_round().height, 0);
    assert_eq!(engine.current_round().start_time, 0);
    assert_eq!(engine.validator_manager().min_stake(), 100);
    assert!(engine.validator_manager().development_mode());
    assert!(engine.pending_validator_changes().is_empty());
}

#[test]
fn genesis_registration_and_bft_mode() {
    let mut engine = ConsensusEngine::new(config()).unwrap();
    assert_eq!(register(&mut engine, 3, true), Ok(()));
    assert_eq!(engine.local_validator_identity(), Some(id(3)));
    assert_eq!(register(&mut engine, 1, true), Ok(()));
    assert!(!engine.is_bft_mode_active());
    assert_eq!(register(&mut engine, 2, true), Ok(()));
    assert_eq!(engine.get_validator_count(), 3);
    assert!(engine.is_bft_mode_active());
    assert_eq!(engine.local_validator_identity(), Some(id(3)));
}

#[test]
fn registration_requirements() {
    let mut engine = ConsensusEngine::new(config()).unwrap();
    assert_eq!(
        engine.register_validator(id(1), 10, 100, [1; 2592], vec![1], vec![2], 5, false),
        err(ValidatorIssue::InsufficientStake)
    );
    assert_eq!(
        engine.register_validator(id(1), 1000, 10, [1; 2592], vec![1], vec![2], 5, true),
        err(ValidatorIssue::InsufficientStorage)
    );
    assert_eq!(
        engine.register_validator(id(1), 1000, 100, [1; 2592], vec![1], vec![2], 101, true),
        err(ValidatorIssue::InvalidCommissionRate)
    );
    assert_eq!(
        engine.register_validator(id(1), 1000, 100, [1; 2592], vec![7], vec![7], 5, true),
        err(ValidatorIssue::Registry(RegistryError::KeysNotSeparated))
    );
    assert_eq!(
        engine.register_validator(id(1), 1000, 100, [1; 2592], vec![], vec![7], 5, true),
        err(ValidatorIssue::Registry(RegistryError::KeysNotSeparated))
    );
    assert_eq!(
        engine.register_validator(id(1), 1000, 100, [1; 2592], vec![1; 2592], vec![7], 5, true),
        err(ValidatorIssue::Registry(RegistryError::KeysNotSeparated))
    );
    // A genesis validator may stake below the minimum.
    assert_eq!(engine.register_validator(id(1), 10, 100, [1; 2592], vec![1], vec![2], 5, true), Ok(()));
    assert_eq!(register(&mut engine, 1, true), err(ValidatorIssue::Registry(RegistryError::AlreadyRegistered)));
    assert_eq!(engine.get_validator_count(), 1);
}

#[test]
fn validator_set_is_bounded() {
    let mut cfg = config();
    cfg.max_validators = 2;
    let mut engine = ConsensusEngine::new(cfg).unwrap();
    assert_eq!(register(&mut engine, 1, true), Ok(()));
    assert_eq!(register(&mut engine, 2, true), Ok(()));
    assert_eq!(register(&mut engine, 3, true), err(ValidatorIssue::Registry(RegistryError::SetFull)));
}

#[test]
fn keypair_must_match_registered_key() {
    let mut engine = ConsensusEngine::new(config()).unwrap();
    assert_eq!(engine.set_validator_keypair([1; 2592]), err(ValidatorIssue::IdentityNotConfigured));
    assert_eq!(register(&mut engine, 1, true), Ok(()));
    assert_eq!(engine.set_validator_keypair([9; 2592]), err(ValidatorIssue::KeypairMismatch));
    assert_eq!(engine.set_validator_keypair([1; 2592]), Ok(()));
}

#[test]
fn keypair_set_before_registration_guards_the_key() {
    let mut engine = ConsensusEngine::new(config()).unwrap();
    assert_eq!(register(&mut engine, 1, true), Ok(()));
    let mut other = ConsensusEngine::new(config()).unwrap();
    assert_eq!(other.set_local_validator_identity(id(1)), err(ValidatorIssue::LocalIdentityNotFound));
    assert_eq!(register(&mut other, 2, true), Ok(()));
    assert_eq!(other.set_validator_keypair([2; 2592]), Ok(()));
    // Identity already set: setting it again is a no-op.
    assert_eq!(other.set_local_validator_identity(id(9)), Ok(()));
    assert_eq!(other.local_validator_identity(), Some(id(2)));
}

#[test]
fn proposer_rotates_over_sorted_identities() {
    let mut engine = ConsensusEngine::new(config()).unwrap();
    assert_eq!(engine.compute_proposer_for_round(0, 0), None);
    for b in [3u8, 1, 2] {
        assert_eq!(register(&mut engine, b, true), Ok(()));
    }
    assert_eq!(engine.compute_proposer_for_round(0, 0), Some(id(1)));
    assert_eq!(engine.compute_proposer_for_round(1, 0), Some(id(2)));
    assert_eq!(engine.compute_proposer_for_round(2, 0), Some(id(3)));
    assert_eq!(engine.compute_proposer_for_round(0, 2), Some(id(3)));
    assert_eq!(engine.compute_proposer_for_round(4, 0), Some(id(2)));
    assert_eq!(engine.compute_proposer_for_round(4, 1), Some(id(3)));
}

#[test]
fn snapshots_are_write_once_and_drive_proposer_selection() {
    let mut engine = ConsensusEngine::new(config()).unwrap();
    for b in [3u8, 1, 2] {
        assert_eq!(register(&mut engine, b, true), Ok(()));
    }
    assert!(engine.validator_set_for_height(5).is_none());
    engine.snapshot_validator_set(5);
    assert_eq!(engine.validator_set_for_height(5).unwrap().len(), 3);
    assert_eq!(register(&mut engine, 0, true), Ok(()));
    engine.snapshot_validator_set(5);
    assert_eq!(engine.validator_set_for_height(5).unwrap(), &vec![id(3), id(1), id(2)]);
    assert_eq!(engine.get_validator_ids_for_height(5).len(), 3);
    assert_eq!(engine.get_validator_ids_for_height(6).len(), 4);
    // Height 5 rotates over the sealed three, height 6 over the live four.
    assert_eq!(engine.compute_proposer_for_round(5, 0), Some(id(3)));
    assert_eq!(engine.compute_proposer_for_round(6, 0), Some(id(2)));
    assert_eq!(engine.compute_proposer_for_round(6, 1), Some(id(3)));
    assert_eq!(engine.compute_proposer_for_round(6, 2), Some(id(0)));
}

#[test]
fn snapshot_history_keeps_the_latest_hundred() {
    let mut engine = ConsensusEngine::new(config()).unwrap();
    assert_eq!(register(&mut engine, 1, true), Ok(()));
    for h in 0..101u64 {
        engine.snapshot_validator_set(h);
    }
    assert!(engine.validator_set_for_height(0).is_none());
    assert!(engine.validator_set_for_height(1).is_some());
    assert!(engine.validator_set_for_height(100).is_some());
}

#[test]
fn registrations_after_start_wait_for_epoch_boundary() {
    let mut engine = ConsensusEngine::new(config()).unwrap();
    for b in [1u8, 2, 3] {
        assert_eq!(register(&mut engine, b, true), Ok(()));
    }
    engine.mark_chain_started();
    assert_eq!(engine.sync_height_with_blockchain(Some(4)), Ok(()));
    assert_eq!(engine.current_round().height, 5);
    assert_eq!(register(&mut engine, 4, false), Ok(()));
    assert_eq!(engine.get_validator_count(), 3);
    assert_eq!(engine.pending_validator_changes().len(), 1);
    assert_eq!(engine.pending_validator_changes()[0].effective_height, 10);
    // Off a boundary nothing happens.
    assert_eq!(engine.apply_epoch_boundary_changes(5), Ok(()));
    assert_eq!(engine.get_validator_count(), 3);
    assert_eq!(engine.apply_epoch_boundary_changes(10), Ok(()));
    assert_eq!(engine.get_validator_count(), 4);
    assert!(engine.pending_validator_changes().is_empty());
    // Queueing an active validator is refused.
    assert_eq!(register(&mut engine, 4, false), err(ValidatorIssue::AlreadyRegistered));
}

#[test]
fn churn_cap_defers_excess_changes() {
    let mut engine = ConsensusEngine::new(config()).unwrap();
    for b in [1u8, 2, 3] {
        assert_eq!(register(&mut engine, b, true), Ok(()));
    }
    engine.mark_chain_started();
    assert_eq!(register(&mut engine, 4, false), Ok(()));
    assert_eq!(register(&mut engine, 5, false), Ok(()));
    // 3 active validators: budget max(3 / 3, 1) = 1.
    assert_eq!(engine.apply_epoch_boundary_changes(10), Ok(()));
    assert_eq!(engine.get_validator_count(), 4);
    let pending = engine.pending_validator_changes();
    assert_eq!(pending.len(), 1);
    assert_eq!(pending[0].effective_height, 20);
    assert_eq!(engine.apply_epoch_boundary_changes(20), Ok(()));
    assert_eq!(engine.get_validator_count(), 5);
}

#[test]
fn removals_take_priority_over_additions() {
    let mut engine = ConsensusEngine::new(config()).unwrap();
    for b in [1u8, 2, 3] {
        assert_eq!(register(&mut engine, b, true), Ok(()));
    }
    engine.mark_chain_started();
    assert_eq!(register(&mut engine, 4, false), Ok(()));
    assert_eq!(engine.queue_validator_removal(id(2)), Ok(()));
    assert_eq!(engine.apply_epoch_boundary_changes(10), Ok(()));
    // Budget 1: the removal is applied, the addition deferred.
    assert_eq!(engine.get_validator_ids_for_height(11), vec![id(1), id(3)]);
    let pending = engine.pending_validator_changes();
    assert_eq!(pending.len(), 1);
    assert!(matches!(pending[0].change, ValidatorSetChange::Add(_)));
    assert_eq!(pending[0].effective_height, 20);
}

#[test]
fn removal_cancels_pending_addition() {
    let mut engine = ConsensusEngine::new(config()).unwrap();
    assert_eq!(register(&mut engine, 1, true), Ok(()));
    engine.mark_chain_started();
    assert_eq!(register(&mut engine, 4, false), Ok(()));
    assert_eq!(engine.pending_validator_changes().len(), 1);
    assert_eq!(engine.queue_validator_removal(id(4)), Ok(()));
    assert!(engine.pending_validator_changes().is_empty());
    assert_eq!(engine.queue_validator_removal(id(9)), err(ValidatorIssue::NotFoundForRemoval));
}

#[test]
fn readding_waits_until_removal_is_applied() {
    let mut engine = ConsensusEngine::new(config()).unwrap();
    assert_eq!(register(&mut engine, 1, true), Ok(()));
    assert_eq!(register(&mut engine, 2, true), Ok(()));
    engine.mark_chain_started();
    assert_eq!(engine.queue_validator_removal(id(2)), Ok(()));
    assert_eq!(register(&mut engine, 2, false), err(ValidatorIssue::AlreadyRegistered));
    assert_eq!(engine.apply_epoch_boundary_changes(10), Ok(()));
    assert_eq!(engine.get_validator_ids_for_height(10), vec![id(1)]);
    assert_eq!(register(&mut engine, 2, false), Ok(()));
    assert_eq!(engine.apply_epoch_boundary_changes(10), Ok(()));
    assert_eq!(engine.get_validator_count(), 2);
}

#[test]
fn epoch_length_update_applies_at_boundary() {
    let mut engine = ConsensusEngine::new(config()).unwrap();
    assert_eq!(engine.schedule_epoch_length_update(0), err(ValidatorIssue::EpochLengthZero));
    assert_eq!(engine.schedule_epoch_length_update(4), Ok(()));
    let update = engine.pending_epoch_length_update().unwrap();
    assert_eq!(update.effective_height, 10);
    assert_eq!(update.new_length, 4);
    assert_eq!(engine.epoch_length_blocks(), 10);
    assert_eq!(engine.apply_epoch_boundary_changes(10), Ok(()));
    assert_eq!(engine.epoch_length_blocks(), 4);
    assert!(engine.pending_epoch_length_update().is_none());
    assert!(engine.is_epoch_boundary(12));
    assert!(!engine.is_epoch_boundary(10));
    assert_eq!(engine.next_epoch_start(13), 16);
}

#[test]
fn epoch_arithmetic() {
    let mut cfg = config();
    let engine = ConsensusEngine::new(cfg).unwrap();
    assert!(engine.is_epoch_boundary(0));
    assert!(engine.is_epoch_boundary(30));
    assert!(!engine.is_epoch_boundary(31));
    assert_eq!(engine.next_epoch_start(0), 10);
    assert_eq!(engine.next_epoch_start(9), 10);
    assert_eq!(engine.next_epoch_start(10), 20);
    cfg.epoch_length_blocks = 0;
    let zero = ConsensusEngine::new(cfg).unwrap();
    assert_eq!(zero.epoch_length_blocks(), 1);
    assert_eq!(zero.next_epoch_start(7), 8);
}

#[test]
fn height_sync_with_blockchain() {
    let mut engine = ConsensusEngine::new(config()).unwrap();
    assert_eq!(engine.sync_height_with_blockchain(None), Ok(()));
    assert_eq!(engine.current_round().height, 0);
    assert_eq!(engine.sync_height_with_blockchain(Some(0)), Ok(()));
    assert_eq!(engine.current_round().height, 1);
    assert_eq!(engine.sync_height_with_blockchain(Some(9)), Ok(()));
    assert_eq!(engine.current_round().height, 10);
    assert_eq!(engine.sync_height_with_blockchain(Some(9)), Ok(()));
    assert_eq!(engine.sync_height_with_blockchain(Some(3)), err(ValidatorIssue::HeightNotMonotonic));
    assert_eq!(engine.current_round().height, 4);
}

#[test]
fn rotation_gives_each_validator_one_turn_per_cycle() {
    let mut engine = ConsensusEngine::new(config()).unwrap();
    for b in [9u8, 4, 7, 1] {
        assert_eq!(register(&mut engine, b, true), Ok(()));
    }
    let members = engine.get_validator_ids_for_height(7);
    let mut seen = Vec::new();
    for round in 0..4u32 {
        let p = engine.compute_proposer_for_round(7, round).unwrap();
        assert!(members.contains(&p));
        assert!(!seen.contains(&p));
        seen.push(p);
    }
    assert_eq!(engine.compute_proposer_for_round(7, 4), engine.compute_proposer_for_round(7, 0));
}

#[test]
fn boundary_keeps_every_change_applied_or_pending() {
    let mut engine = ConsensusEngine::new(config()).unwrap();
    for b in [1u8, 2, 3] {
        assert_eq!(register(&mut engine, b, true), Ok(()));
    }
    engine.mark_chain_started();
    for b in [4u8, 5, 6] {
        assert_eq!(register(&mut engine, b, false), Ok(()));
    }
    assert_eq!(engine.queue_validator_removal(id(1)), Ok(()));
    let before = engine.pending_validator_changes().len();
    assert_eq!(before, 4);
    let active_before = engine.get_validator_count();
    assert_eq!(engine.apply_epoch_boundary_changes(10), Ok(()));
    // Budget 1: only the removal is applied; the three additions move to height 20.
    assert_eq!(engine.get_validator_count(), active_before - 1);
    let pending = engine.pending_validator_changes();
    assert_eq!(pending.len() + 1, before);
    assert!(pending.iter().all(|c| c.effective_height == 20));
}

#[test]
fn duplicate_pending_addition_is_refused() {
    let mut engine = ConsensusEngine::new(config()).unwrap();
    assert_eq!(register(&mut engine, 1, true), Ok(()));
    engine.mark_chain_started();
    assert_eq!(register(&mut engine, 4, false), Ok(()));
    assert_eq!(register(&mut engine, 4, false), err(ValidatorIssue::AlreadyPending));
    let again = PendingValidatorAdd {
        identity: id(4),
        stake: 5000,
        storage_capacity: 100,
        consensus_key: [8; 2592],
        networking_key: vec![8, 1],
        rewards_key: vec![8, 2],
        commission_rate: 1,
    };
    assert_eq!(engine.queue_validator_add(again), err(ValidatorIssue::AlreadyPending));
    let pending = engine.pending_validator_changes();
    assert_eq!(pending.len(), 1);
    match &pending[0].change {
        ValidatorSetChange::Add(add) => assert_eq!(add.stake, 1000),
        ValidatorSetChange::Remove(_) => panic!("expected a pending addition"),
    }
}

#[test]
fn queued_registration_needs_separated_keys() {
    let mut engine = ConsensusEngine::new(config()).unwrap();
    assert_eq!(register(&mut engine, 1, true), Ok(()));
    engine.mark_chain_started();
    assert_eq!(
        engine.register_validator(id(5), 1000, 100, [5; 2592], vec![], vec![7], 5, false),
        err(ValidatorIssue::Registry(RegistryError::KeysNotSeparated))
    );
    assert_eq!(
        engine.register_validator(id(5), 1000, 100, [5; 2592], vec![7], vec![7], 5, false),
        err(ValidatorIssue::Registry(RegistryError::KeysNotSeparated))
    );
    assert!(engine.pending_validator_changes().is_empty());
    assert_eq!(engine.register_validator(id(5), 1000, 100, [5; 2592], vec![6], vec![7], 5, false), Ok(()));
    assert_eq!(engine.pending_validator_changes().len(), 1);
}

#[test]
fn every_validator_proposes_in_any_window_of_n_rounds() {
    let mut engine = ConsensusEngine::new(config()).unwrap();
    for b in [9u8, 4, 7, 1, 5] {
        assert_eq!(register(&mut engine, b, true), Ok(()));
    }
    let members = engine.get_validator_ids_for_height(11);
    for first in [0u32, 3, 17] {
        let window: Vec<_> = (first..first + 5).map(|r| engine.compute_proposer_for_round(11, r).unwrap()).collect();
        for m in &members {
            assert!(window.contains(m));
        }
        for r in first..first + 5 {
            assert_eq!(engine.compute_proposer_for_round(11, r + 5), engine.compute_proposer_for_round(11, r));
        }
    }
}

#[test]
fn refusals_at_the_last_height_need_no_epoch_arithmetic() {
    let mut engine = ConsensusEngine::new(config()).unwrap();
    assert_eq!(register(&mut engine, 1, true), Ok(()));
    engine.mark_chain_started();
    assert_eq!(engine.sync_height_with_blockchain(Some(u64::MAX - 1)), Ok(()));
    assert_eq!(engine.current_round().height, u64::MAX);
    assert_eq!(
        engine.register_validator(id(5), 10, 100, [5; 2592], vec![6], vec![7], 5, false),
        err(ValidatorIssue::InsufficientStake)
    );
    assert_eq!(
        engine.register_validator(id(5), 1000, 100, [5; 2592], vec![], vec![7], 5, false),
        err(ValidatorIssue::Registry(RegistryError::KeysNotSeparated))
    );
    assert_eq!(register(&mut engine, 1, false), err(ValidatorIssue::AlreadyRegistered));
    assert!(engine.pending_validator_changes().is_empty());
}
