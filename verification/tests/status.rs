use chain_sync::primitives::BlockQueueInfo;
use chain_sync::status::{SyncState, SyncStatus};

fn queue_info(unverified: usize, verified: usize) -> BlockQueueInfo {
    BlockQueueInfo {
        unverified_queue_size: unverified,
        verified_queue_size: verified,
        verifying_queue_size: 0,
        max_queue_size: 1000,
        max_mem_use: 1000,
        mem_used: 500,
    }
}

fn sync_status(state: SyncState) -> SyncStatus {
    SyncStatus {
        state: state,
        protocol_version: 0,
        network_id: 0,
        start_block_number: 0,
        last_imported_block_number: None,
        highest_block_number: None,
        blocks_total: 0,
        blocks_received: 0,
        num_peers: 0,
        num_active_peers: 0,
        mem_used: 0,
        num_snapshot_chunks: 0,
        snapshot_chunks_done: 0,
        last_imported_old_block_number: None,
    }
}

#[test]
fn is_still_verifying() {
    assert!(!sync_status(SyncState::Idle).is_syncing(queue_info(2, 1)));
    assert!(sync_status(SyncState::Idle).is_syncing(queue_info(2, 2)));
}

#[test]
fn is_synced_state() {
    assert!(sync_status(SyncState::Blocks).is_syncing(queue_info(0, 0)));
    assert!(!sync_status(SyncState::Idle).is_syncing(queue_info(0, 0)));
}

#[test]
fn every_state_but_idle_and_new_blocks_is_a_major_sync() {
    let states = [
        (SyncState::WaitingPeers, true, false),
        (SyncState::SnapshotManifest, true, true),
        (SyncState::SnapshotInit, true, true),
        (SyncState::SnapshotData, true, true),
        (SyncState::SnapshotWaiting, true, true),
        (SyncState::Blocks, true, false),
        (SyncState::Idle, false, false),
        (SyncState::Waiting, true, false),
        (SyncState::NewBlocks, false, false),
    ];
    for (state, syncing, snapshot) in states {
        assert_eq!(sync_status(state).is_syncing(queue_info(1, 2)), syncing);
        assert!(sync_status(state).is_syncing(queue_info(4, 0)));
        assert!(sync_status(state).is_syncing(queue_info(0, 4)));
        assert_eq!(sync_status(state).is_snapshot_syncing(), snapshot);
    }
}

#[test]
fn more_peers_than_the_minimum_show_the_maximum() {
    let mut status = sync_status(SyncState::Idle);
    status.num_peers = 25;
    assert_eq!(status.current_max_peers(25, 50), 25);
    status.num_peers = 26;
    assert_eq!(status.current_max_peers(25, 50), 50);
    status.num_peers = 0;
    assert_eq!(status.current_max_peers(0, 50), 0);
}
