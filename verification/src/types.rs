//! Block metadata, the no-op blockchain provider and catch-up sync triggers.

use vstd::prelude::*;
use crate::external::unix_timestamp_now;
use crate::validators::IdentityId;

verus! {

/// Fee and size metadata of a finalized block.
#[derive(Clone, Copy, Debug)]
pub struct BlockMetadata {
    pub height: u64,
    /// Block timestamp (Unix seconds).
    pub timestamp: i64,
    pub transaction_count: u32,
    pub total_fees_collected: u64,
    pub proposer: IdentityId,
}

impl BlockMetadata {
    /// Metadata of a block at `height` by `proposer`, stamped `timestamp`,
    /// with no transactions and `total_fees` collected.
    pub fn at_time(height: u64, proposer: IdentityId, total_fees: u64, timestamp: i64) -> (m: BlockMetadata)
        ensures
            m.height == height,
            m.proposer == proposer,
            m.total_fees_collected == total_fees,
            m.timestamp == timestamp,
            m.transaction_count == 0,
    {
        BlockMetadata { height, timestamp, transaction_count: 0, total_fees_collected: total_fees, proposer }
    }

    /// New block metadata stamped with the current Unix time (seconds, as
    /// `unix_timestamp_now` reads it), with no fees.
    pub fn new(height: u64, proposer: IdentityId) -> (m: BlockMetadata)
        ensures
            m.height == height,
            m.proposer == proposer,
            m.total_fees_collected == 0,
            m.transaction_count == 0,
    {
        Self::with_fees(height, proposer, 0)
    }

    /// Block metadata stamped with the current Unix time (seconds, as
    /// `unix_timestamp_now` reads it), with `total_fees` collected.
    pub fn with_fees(height: u64, proposer: IdentityId, total_fees: u64) -> (m: BlockMetadata)
        ensures
            m.height == height,
            m.proposer == proposer,
            m.total_fees_collected == total_fees,
            m.transaction_count == 0,
    {
        Self::at_time(height, proposer, total_fees, unix_timestamp_now())
    }
}

/// Blockchain provider that has no chain: zero hash, no transactions,
/// height 0, never ready, and decodes every block as empty.
pub struct NoOpBlockchainProvider;

impl NoOpBlockchainProvider {
    pub fn get_latest_block_hash(&self) -> (hash: [u8; 32])
        ensures
            forall|i: int| 0 <= i < 32 ==> hash@[i] == 0,
    {
        [0u8; 32]
    }

    pub fn get_pending_transactions(&self) -> (txs: Vec<u8>)
        ensures
            txs@.len() == 0,
    {
        Vec::new()
    }

    pub fn get_blockchain_height(&self) -> (height: u64)
        ensures
            height == 0,
    {
        0
    }

    pub fn is_ready(&self) -> (ready: bool)
        ensures
            !ready,
    {
        false
    }

    /// Transaction count and total fees of a block payload: always (0, 0).
    pub fn decode_block_data(&self, _block_data: &[u8]) -> (decoded: (u32, u64))
        ensures
            decoded == (0u32, 0u64),
    {
        (0, 0)
    }
}

/// Trigger for asynchronous catch-up block sync, implemented by the runtime.
/// `trigger` is called with the local blockchain height when a peer votes at a
/// higher height; it must not block.
pub trait CatchUpSyncTrigger: Send + Sync {
    fn trigger(&self, our_height: u64);
}

/// Catch-up sync trigger that does nothing.
pub struct NoOpCatchUpSyncTrigger;

impl CatchUpSyncTrigger for NoOpCatchUpSyncTrigger {
    fn trigger(&self, _our_height: u64) {
    }
}

} // verus!
