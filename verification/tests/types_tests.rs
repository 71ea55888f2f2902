use lib_consensus::external::{unix_timestamp_from, unix_timestamp_now};
use lib_consensus::types::{BlockMetadata, CatchUpSyncTrigger, NoOpBlockchainProvider, NoOpCatchUpSyncTrigger};

#[test]
fn block_metadata_constructors() {
    let m = BlockMetadata::at_time(5, [1u8; 32], 77, 1_700_000_000);
    assert_eq!(m.height, 5);
    assert_eq!(m.proposer, [1u8; 32]);
    assert_eq!(m.total_fees_collected, 77);
    assert_eq!(m.timestamp, 1_700_000_000);
    assert_eq!(m.transaction_count, 0);
    let n = BlockMetadata::new(6, [2u8; 32]);
    assert_eq!(n.height, 6);
    assert_eq!(n.total_fees_collected, 0);
    assert!(n.timestamp > 1_600_000_000);
    let f = BlockMetadata::with_fees(7, [3u8; 32], 500);
    assert_eq!(f.total_fees_collected, 500);
    assert_eq!(f.transaction_count, 0);
    assert_eq!(f.proposer, [3u8; 32]);
    assert!(f.timestamp >= n.timestamp);
}

#[test]
fn noop_blockchain_provider() {
    let p = NoOpBlockchainProvider;
    assert_eq!(p.get_latest_block_hash(), [0u8; 32]);
    assert!(p.get_pending_transactions().is_empty());
    assert_eq!(p.get_blockchain_height(), 0);
    assert!(!p.is_ready());
    assert_eq!(p.decode_block_data(&[1, 2, 3]), (0, 0));
}

#[test]
fn noop_catch_up_trigger() {
    NoOpCatchUpSyncTrigger.trigger(42);
}

#[test]
fn unix_timestamps_round_down_and_clamp() {
    assert_eq!(unix_timestamp_from(false, 1_700_000_000, 999_999_999), 1_700_000_000);
    assert_eq!(unix_timestamp_from(false, u64::MAX, 0), i64::MAX);
    assert_eq!(unix_timestamp_from(true, 5, 0), -5);
    assert_eq!(unix_timestamp_from(true, 5, 1), -6);
    assert_eq!(unix_timestamp_from(true, i64::MAX as u64, 0), -i64::MAX);
    assert_eq!(unix_timestamp_from(true, i64::MAX as u64, 1), i64::MIN);
    assert_eq!(unix_timestamp_from(true, u64::MAX, 0), i64::MIN);
    let now = unix_timestamp_now();
    assert!(now > 1_600_000_000);
    let m = BlockMetadata::new(1, [0u8; 32]);
    assert!(m.timestamp >= now);
}
