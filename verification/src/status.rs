//! The phases of synchronisation and the report on its progress.

use vstd::prelude::*;
use crate::primitives::{BlockNumber, BlockQueueInfo};

verus! {

/// Sync state
#[derive(Copy, Clone, Eq, PartialEq, Structural, Debug)]
pub enum SyncState {
    /// Collecting enough peers to start syncing.
    WaitingPeers,
    /// Waiting for snapshot manifest download
    SnapshotManifest,
    /// Snapshot service is initializing
    SnapshotInit,
    /// Downloading snapshot data
    SnapshotData,
    /// Waiting for snapshot restoration progress.
    SnapshotWaiting,
    /// Downloading new blocks
    Blocks,
    /// Initial chain sync complete. Waiting for new packets
    Idle,
    /// Block downloading paused. Waiting for block queue to process blocks and free some space
    Waiting,
    /// Downloading blocks learned from `NewHashes` packet
    NewBlocks,
}

/// Syncing status and statistics
#[derive(Clone, Copy)]
pub struct SyncStatus {
    /// State
    pub state: SyncState,
    /// Syncing protocol version. That's the maximum protocol version we connect to.
    pub protocol_version: u8,
    /// The underlying p2p network version.
    pub network_id: u64,
    /// `BlockChain` height for the moment the sync started.
    pub start_block_number: BlockNumber,
    /// Last fully downloaded and imported block number (if any).
    pub last_imported_block_number: Option<BlockNumber>,
    /// Highest block number in the download queue (if any).
    pub highest_block_number: Option<BlockNumber>,
    /// Total number of blocks for the sync process.
    pub blocks_total: BlockNumber,
    /// Number of blocks downloaded so far.
    pub blocks_received: BlockNumber,
    /// Total number of connected peers
    pub num_peers: usize,
    /// Total number of active peers.
    pub num_active_peers: usize,
    /// Heap memory used in bytes.
    pub mem_used: usize,
    /// Snapshot chunks
    pub num_snapshot_chunks: usize,
    /// Snapshot chunks downloaded
    pub snapshot_chunks_done: usize,
    /// Last fully downloaded and imported ancient block number (if any).
    pub last_imported_old_block_number: Option<BlockNumber>,
}

/// Whether a sync in `state`, with `queued` blocks waiting in the block queue, counts as a major
/// one.
pub open spec fn major_sync(state: SyncState, queued: int) -> bool {
    queued > 3 || !(state is Idle || state is NewBlocks)
}

impl SyncStatus {
    /// Indicates if snapshot download is in progress
    pub fn is_snapshot_syncing(&self) -> (r: bool)
        ensures
            r == (self.state is SnapshotManifest || self.state is SnapshotData
                || self.state is SnapshotInit || self.state is SnapshotWaiting),
    {
        match self.state {
            SyncState::SnapshotManifest
            | SyncState::SnapshotData
            | SyncState::SnapshotInit
            | SyncState::SnapshotWaiting => true,
            _ => false,
        }
    }

    /// Returns max no of peers to display in informants. The number of peers is counted modulo
    /// 2^32.
    pub fn current_max_peers(&self, min_peers: u32, max_peers: u32) -> (r: u32)
        ensures
            r == if self.num_peers as int % 0x1_0000_0000 > min_peers {
                max_peers
            } else {
                min_peers
            },
    {
        let wide: u64 = self.num_peers as u64;
        assert(wide as u32 == wide % 0x1_0000_0000) by (bit_vector);
        if wide as u32 > min_peers {
            max_peers
        } else {
            min_peers
        }
    }

    /// Is it doing a major sync?
    pub fn is_syncing(&self, queue_info: BlockQueueInfo) -> (r: bool)
        requires
            queue_info.unverified_queue_size + queue_info.verified_queue_size <= usize::MAX,
        ensures
            r == major_sync(
                self.state,
                queue_info.unverified_queue_size + queue_info.verified_queue_size,
            ),
    {
        is_major_sync(self.state, &queue_info)
    }
}

/// Whether a sync in `state` is a major one, given the block queue.
pub fn is_major_sync(state: SyncState, queue_info: &BlockQueueInfo) -> (r: bool)
    requires
        queue_info.unverified_queue_size + queue_info.verified_queue_size <= usize::MAX,
    ensures
        r == major_sync(
            state,
            queue_info.unverified_queue_size + queue_info.verified_queue_size,
        ),
{
    let is_syncing_state = match state {
        SyncState::Idle | SyncState::NewBlocks => false,
        _ => true,
    };
    let is_verifying = queue_info.unverified_queue_size + queue_info.verified_queue_size > 3;
    is_verifying || is_syncing_state
}

} // verus!
