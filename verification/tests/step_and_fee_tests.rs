use lib_consensus::config::{ConsensusConfig, RoundTimer};
use lib_consensus::fees::{FeeDistributionResult, FeeDistributionResultExt};
use lib_consensus::quorum::check_supermajority;
use lib_consensus::step::{ConsensusStep, ConsensusStepExt, TimerToken};

const ALL_STEPS: [ConsensusStep; 5] = [
    ConsensusStep::Propose,
    ConsensusStep::PreVote,
    ConsensusStep::PreCommit,
    ConsensusStep::Commit,
    ConsensusStep::NewRound,
];

fn config() -> ConsensusConfig {
    ConsensusConfig {
        propose_timeout: 3000,
        prevote_timeout: 1000,
        precommit_timeout: 1500,
        epoch_length_blocks: 10,
        min_stake: 100,
        min_storage: 50,
        max_validators: 10,
        development_mode: true,
    }
}

#[test]
fn step_ordinals_round_trip() {
    for (i, step) in ALL_STEPS.iter().enumerate() {
        assert_eq!(step.as_ordinal(), i as u8);
        assert_eq!(ConsensusStep::from_ordinal(step.as_ordinal()), Some(*step));
    }
    assert_eq!(ConsensusStep::from_ordinal(5), None);
    assert_eq!(ConsensusStep::from_ordinal(255), None);
}

#[test]
fn step_display_names() {
    assert_eq!(ConsensusStep::Propose.display_name(), "Propose");
    assert_eq!(ConsensusStep::PreVote.display_name(), "PreVote");
    assert_eq!(ConsensusStep::PreCommit.display_name(), "PreCommit");
    assert_eq!(ConsensusStep::Commit.display_name(), "Commit");
    assert_eq!(ConsensusStep::NewRound.display_name(), "NewRound");
}

#[test]
fn timer_token_matches_only_its_state() {
    let token = TimerToken::new(7, 2, &ConsensusStep::PreVote);
    assert_eq!(token.height, 7);
    assert_eq!(token.round, 2);
    assert_eq!(token.step_ordinal, 1);
    assert!(token.matches(7, 2, &ConsensusStep::PreVote));
    assert!(!token.matches(8, 2, &ConsensusStep::PreVote));
    assert!(!token.matches(7, 3, &ConsensusStep::PreVote));
    assert!(!token.matches(7, 2, &ConsensusStep::PreCommit));
}

#[test]
fn round_timer_uses_config_timeouts() {
    let timer = RoundTimer::new(&config());
    assert_eq!(timer.timeout_ms(&ConsensusStep::Propose), 3000);
    assert_eq!(timer.timeout_ms(&ConsensusStep::PreVote), 1000);
    assert_eq!(timer.timeout_ms(&ConsensusStep::PreCommit), 1500);
    assert_eq!(timer.timeout_ms(&ConsensusStep::Commit), 1500);
    assert_eq!(timer.timeout_ms(&ConsensusStep::NewRound), 3000);
}

#[test]
fn supermajority_thresholds() {
    // 4 validators: threshold floor(8/3) + 1 = 3.
    assert!(check_supermajority(3, 4));
    assert!(!check_supermajority(2, 4));
    // 3 validators need all 3.
    assert!(check_supermajority(3, 3));
    assert!(!check_supermajority(2, 3));
    // 100 validators: threshold 67.
    assert!(check_supermajority(67, 100));
    assert!(!check_supermajority(66, 100));
    assert!(check_supermajority(1, 0));
    assert!(!check_supermajority(0, 0));
    assert!(check_supermajority(u64::MAX - 1, u64::MAX));
}

#[test]
fn two_supermajorities_of_four_share_more_than_one_validator() {
    // Quorum intersection on concrete values: two quorums of 3 among 4 share 2 > f = 1.
    let total = 4u64;
    let a = 3u64;
    let b = 3u64;
    assert!(check_supermajority(a, total) && check_supermajority(b, total));
    assert!(a + b - total > (total - 1) / 3);
}

#[test]
fn fee_split_45_30_15_10() {
    let r = FeeDistributionResult::from_total_fees(1000);
    assert_eq!(r, FeeDistributionResult::new(450, 300, 150, 100));
}

#[test]
fn fee_split_rounds_down_and_conserves() {
    let r = FeeDistributionResult::from_total_fees(99);
    assert_eq!(r.ubi_amount, 44);
    assert_eq!(r.consensus_amount, 29);
    assert_eq!(r.governance_amount, 14);
    assert_eq!(r.treasury_amount, 9);
    let distributed = r.ubi_amount + r.consensus_amount + r.governance_amount + r.treasury_amount;
    assert!(distributed <= 99 && 99 - distributed <= 3);
    for total in [0u64, 1, 7, 100, 101, 12345, 999_999] {
        let r = FeeDistributionResult::from_total_fees(total);
        let d = r.ubi_amount + r.consensus_amount + r.governance_amount + r.treasury_amount;
        assert!(d <= total && total - d <= 3);
    }
}
