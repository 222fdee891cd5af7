use chain_sync::agenda::{BlockDownload, Command, Job, Task, Visit};
use chain_sync::order::order_by_version;
use chain_sync::peer::{BlockSet, ForkConfirmation, PeerAsking, PeerInfo};
use chain_sync::primitives::{
    BlockChainInfo, BlockQueueInfo, PeerId, RestorationStatus, SyncConfig, WarpSync, H256, U256,
};
use chain_sync::status::SyncState;
use chain_sync::sync::{ChainSync, SnapshotProgress, SnapshotService, Surroundings};

const SECOND: u64 = 1_000_000_000;

fn hash(n: u8) -> H256 {
    let mut bytes = [0u8; 32];
    bytes[31] = n;
    H256(bytes)
}

fn chain_info(best_block_number: u64) -> BlockChainInfo {
    BlockChainInfo {
        total_difficulty: U256([100, 0, 0, 0]),
        pending_total_difficulty: U256([100, 0, 0, 0]),
        genesis_hash: hash(0),
        best_block_hash: hash(100),
        best_block_number,
        ancient_block_hash: None,
        ancient_block_number: None,
        first_block_hash: None,
    }
}

fn surroundings() -> Surroundings {
    Surroundings {
        now: 100 * SECOND,
        chain: chain_info(50),
        queue_full: false,
        service: SnapshotService {
            supported: true,
            restoration_ready: false,
            status: RestorationStatus::Inactive,
        },
        snapshot: SnapshotProgress {
            snapshot_hash: None,
            have_manifest: false,
            is_complete: false,
            done_chunks: 0,
            known_bad: Vec::new(),
        },
    }
}

fn sync_in(state: SyncState) -> ChainSync {
    let config = SyncConfig {
        download_old_blocks: true,
        network_id: 1,
        fork_block: None,
        warp_sync: WarpSync::Disabled,
    };
    let mut sync = ChainSync::new(config, &chain_info(50)).0;
    sync.state = state;
    sync
}

fn add_peer(sync: &mut ChainSync, id: PeerId, version: u8) {
    let mut peer = PeerInfo::default(0);
    peer.confirmation = ForkConfirmation::Confirmed;
    peer.latest_hash = hash(id as u8);
    peer.protocol_version = version;
    sync.peers.insert(id, peer);
    sync.active_peers.insert(id);
}

fn peer(sync: &mut ChainSync, id: PeerId) -> &mut PeerInfo {
    sync.peers.get_mut(&id).unwrap()
}

fn old_blocks() -> BlockDownload {
    BlockDownload {
        sync_receipts: true,
        unlimited_reorg: true,
        start_hash: hash(5),
        start_number: 5,
        target: None,
    }
}

fn visited(jobs: &Vec<Job>) -> Vec<PeerId> {
    jobs.iter()
        .filter_map(|job| match job {
            Task::SyncPeer { peer_id, force: false } => Some(*peer_id),
            _ => None,
        })
        .collect()
}

fn visit_of(jobs: &Vec<Job>) -> Visit {
    assert_eq!(jobs.len(), 1);
    match &jobs[0] {
        Task::AskBlockStatus(visit) => *visit,
        other => panic!("{:?}", other),
    }
}

#[test]
fn reset_keeps_peers_that_download_old_blocks() {
    let mut sync = sync_in(SyncState::Blocks);
    for id in 0..3 {
        add_peer(&mut sync, id, 63);
        peer(&mut sync, id).asking = PeerAsking::BlockBodies;
        peer(&mut sync, id).asking_blocks = vec![hash(1)];
    }
    peer(&mut sync, 1).block_set = Some(BlockSet::OldBlocks);
    peer(&mut sync, 2).block_set = Some(BlockSet::NewBlocks);
    peer(&mut sync, 2).difficulty = Some(U256([7, 0, 0, 0]));
    sync.active_peers.clear();
    let jobs = sync.reset(&chain_info(50));
    assert_eq!(jobs.len(), 1);
    assert!(matches!(jobs[0], Task::Perform(Command::ResetNewBlocks)));
    assert_eq!(sync.state, SyncState::Idle);
    assert_eq!(sync.active_peers.len(), 3);
    assert!(sync.peers[&0].expired);
    assert!(sync.peers[&0].asking_blocks.is_empty());
    assert_eq!(sync.peers[&0].difficulty.unwrap().0, [100, 0, 0, 0]);
    assert!(!sync.peers[&1].expired);
    assert_eq!(sync.peers[&1].asking_blocks, vec![hash(1)]);
    assert!(sync.peers[&1].difficulty.is_none());
    assert!(sync.peers[&2].expired);
    assert_eq!(sync.peers[&2].difficulty.unwrap().0, [7, 0, 0, 0]);

    let before = format!("{:?}", sync.peers[&0]);
    sync.reset(&chain_info(50));
    assert_eq!(format!("{:?}", sync.peers[&0]), before);
}

#[test]
fn deactivated_peer_comes_back_with_a_reset() {
    let mut sync = sync_in(SyncState::Idle);
    add_peer(&mut sync, 4, 63);
    sync.deactivate_peer(4);
    assert!(!sync.active_peers.contains(&4));
    sync.deactivate_peer(5);
    sync.complete_sync(&chain_info(50));
    assert!(sync.active_peers.contains(&4));
    assert!(!sync.active_peers.contains(&5));
}

#[test]
fn reset_aborts_a_restoration_under_way() {
    let mut sync = sync_in(SyncState::SnapshotData);
    let jobs = sync.reset_and_continue(&chain_info(50));
    assert_eq!(jobs.len(), 4);
    assert!(matches!(jobs[0], Task::Perform(Command::AbortRestore)));
    assert!(matches!(jobs[1], Task::Perform(Command::ClearSnapshot)));
    assert!(matches!(jobs[2], Task::Perform(Command::ResetNewBlocks)));
    assert!(matches!(jobs[3], Task::ContinueSync));

    let mut sync = sync_in(SyncState::SnapshotManifest);
    let jobs = sync.reset_and_continue(&chain_info(50));
    assert_eq!(jobs.len(), 3);
    assert!(matches!(jobs[0], Task::Perform(Command::ClearSnapshot)));
}

#[test]
fn restart_begins_at_the_best_block() {
    let mut sync = sync_in(SyncState::Blocks);
    let mut chain = chain_info(77);
    chain.best_block_hash = hash(77);
    let jobs = sync.restart(&chain);
    assert_eq!(sync.new_blocks.start_number, 77);
    assert_eq!(sync.new_blocks.start_hash, hash(77));
    assert_eq!(sync.state, SyncState::Idle);
    assert_eq!(jobs.len(), 5);
    assert!(matches!(
        jobs[0],
        Task::Perform(Command::StartDownload { block_set: BlockSet::NewBlocks, .. })
    ));
    assert!(matches!(jobs[4], Task::ContinueSync));
}

#[test]
fn abort_forgets_peers_at_the_end() {
    let mut sync = sync_in(SyncState::Blocks);
    add_peer(&mut sync, 1, 63);
    let jobs = sync.abort(&chain_info(50));
    assert!(matches!(jobs[jobs.len() - 1], Task::ForgetPeers));
    assert!(matches!(jobs[jobs.len() - 2], Task::ContinueSync));
    assert_eq!(sync.peers.len(), 1);
    sync.forget_peers();
    assert!(sync.peers.is_empty());
}

#[test]
fn versions_are_sorted_and_ties_stay_in_order() {
    let peers = vec![(1, 63), (2, 1), (3, 63), (4, 2), (5, 1)];
    assert_eq!(order_by_version(peers), vec![(1, 63), (3, 63), (4, 2), (2, 1), (5, 1)]);
    let jobs = ChainSync::visit_peers(vec![(1, 63), (2, 1), (3, 63)]);
    assert_eq!(visited(&jobs), vec![1, 3, 2]);
    assert!(matches!(jobs[3], Task::FinishRound));
}

#[test]
fn resumed_sync_visits_active_confirmed_peers() {
    let mut sync = sync_in(SyncState::Blocks);
    add_peer(&mut sync, 1, 63);
    add_peer(&mut sync, 2, 4);
    add_peer(&mut sync, 3, 62);
    add_peer(&mut sync, 4, 63);
    add_peer(&mut sync, 5, 63);
    peer(&mut sync, 3).expired = true;
    peer(&mut sync, 4).confirmation = ForkConfirmation::Unconfirmed;
    sync.active_peers.remove(&5);
    sync.active_peers.insert(99);
    let jobs = sync.continue_sync();
    assert_eq!(visited(&jobs), vec![1, 2]);
    assert_eq!(jobs.len(), 3);
    assert!(matches!(jobs[2], Task::FinishRound));
}

#[test]
fn peers_of_one_version_are_visited_in_random_order() {
    let mut sync = sync_in(SyncState::Blocks);
    for id in 0..20 {
        add_peer(&mut sync, id, 63);
    }
    let first = visited(&sync.continue_sync());
    let mut sorted = first.clone();
    sorted.sort();
    assert_eq!(sorted, (0..20).collect::<Vec<_>>());
    assert!((0..20).any(|_| visited(&sync.continue_sync()) != first));
}

#[test]
fn round_without_busy_peers_completes_the_sync() {
    let mut sync = sync_in(SyncState::Blocks);
    add_peer(&mut sync, 1, 63);
    peer(&mut sync, 1).asking = PeerAsking::BlockHeaders;
    assert!(sync.finish_round(&chain_info(50)).is_empty());
    assert_eq!(sync.state, SyncState::Blocks);
    peer(&mut sync, 1).block_set = Some(BlockSet::OldBlocks);
    let jobs = sync.finish_round(&chain_info(50));
    assert_eq!(jobs.len(), 1);
    assert!(matches!(jobs[0], Task::Perform(Command::ResetNewBlocks)));
    assert_eq!(sync.state, SyncState::Idle);
    assert!(sync.finish_round(&chain_info(50)).is_empty());

    let mut sync = sync_in(SyncState::NewBlocks);
    assert_eq!(sync.finish_round(&chain_info(50)).len(), 1);
    let mut sync = sync_in(SyncState::Waiting);
    assert!(sync.finish_round(&chain_info(50)).is_empty());
    assert_eq!(sync.state, SyncState::Waiting);
}

#[test]
fn busy_inactive_and_unknown_peers_are_skipped() {
    let env = surroundings();
    let mut sync = sync_in(SyncState::Idle);
    add_peer(&mut sync, 1, 63);
    assert_eq!(sync.sync_peer(&env, 1, true).len(), 1);
    peer(&mut sync, 1).asking = PeerAsking::ForkHeader;
    assert!(sync.sync_peer(&env, 1, true).is_empty());
    peer(&mut sync, 1).asking = PeerAsking::Nothing;
    peer(&mut sync, 1).expired = true;
    assert!(sync.sync_peer(&env, 1, true).is_empty());
    peer(&mut sync, 1).expired = false;
    sync.deactivate_peer(1);
    assert!(sync.sync_peer(&env, 1, true).is_empty());
    sync.active_peers.insert(2);
    assert!(sync.sync_peer(&env, 2, true).is_empty());
}

#[test]
fn paused_sync_asks_nothing() {
    let env = surroundings();
    for state in [
        SyncState::Waiting,
        SyncState::SnapshotInit,
        SyncState::SnapshotWaiting,
        SyncState::SnapshotManifest,
    ] {
        let mut sync = sync_in(state);
        add_peer(&mut sync, 1, 63);
        assert!(sync.sync_peer(&env, 1, true).is_empty());
        assert_eq!(sync.state, state);
    }
}

#[test]
fn visit_tells_what_is_known_of_the_peer() {
    let env = surroundings();
    let mut sync = sync_in(SyncState::Idle);
    add_peer(&mut sync, 1, 63);
    add_peer(&mut sync, 2, 63);
    peer(&mut sync, 2).asking = PeerAsking::BlockBodies;

    let visit = visit_of(&sync.sync_peer(&env, 1, false));
    assert_eq!(visit.peer_id, 1);
    assert_eq!(visit.latest_hash, hash(1));
    assert!(!visit.force);
    assert!(visit.higher_difficulty);
    assert_eq!(visit.num_active_peers, 1);

    peer(&mut sync, 1).difficulty = Some(U256([101, 0, 0, 0]));
    assert!(visit_of(&sync.sync_peer(&env, 1, false)).higher_difficulty);

    // No better than our chain: of interest only by force or while old blocks are missing.
    peer(&mut sync, 1).difficulty = Some(U256([100, 0, 0, 0]));
    assert!(sync.sync_peer(&env, 1, false).is_empty());
    let forced = visit_of(&sync.sync_peer(&env, 1, true));
    assert!(forced.force && !forced.higher_difficulty);
    sync.old_blocks = Some(old_blocks());
    assert!(!visit_of(&sync.sync_peer(&env, 1, false)).higher_difficulty);
}

#[test]
fn full_queue_pauses_the_sync() {
    let mut env = surroundings();
    env.queue_full = true;
    let mut sync = sync_in(SyncState::Blocks);
    add_peer(&mut sync, 1, 63);
    assert!(sync.sync_peer(&env, 1, false).is_empty());
    assert_eq!(sync.state, SyncState::Waiting);
    assert!(sync.check_resume(&env).is_empty());
    assert_eq!(sync.state, SyncState::Waiting);
    env.queue_full = false;
    let jobs = sync.check_resume(&env);
    assert_eq!(jobs.len(), 1);
    assert!(matches!(jobs[0], Task::ContinueSync));
    assert_eq!(sync.state, SyncState::Blocks);
}

#[test]
fn sync_that_waits_for_peers_looks_for_snapshots() {
    let mut sync = sync_in(SyncState::WaitingPeers);
    add_peer(&mut sync, 1, 63);
    let jobs = sync.sync_peer(&surroundings(), 1, false);
    assert_eq!(jobs.len(), 1);
    assert!(matches!(jobs[0], Task::MaybeStartSnapshotSync));
}

#[test]
fn snapshot_chunks_come_from_peers_that_have_the_snapshot() {
    let mut env = surroundings();
    env.snapshot.snapshot_hash = Some(hash(42));
    let mut sync = sync_in(SyncState::SnapshotData);
    add_peer(&mut sync, 1, 4);
    assert!(sync.sync_peer(&env, 1, false).is_empty());
    assert!(!sync.active_peers.contains(&1));

    sync.active_peers.insert(1);
    peer(&mut sync, 1).snapshot_hash = Some(hash(41));
    assert!(sync.sync_peer(&env, 1, false).is_empty());
    assert!(!sync.active_peers.contains(&1));

    sync.active_peers.insert(1);
    peer(&mut sync, 1).snapshot_hash = Some(hash(42));
    let jobs = sync.sync_peer(&env, 1, false);
    assert_eq!(jobs.len(), 1);
    assert!(matches!(jobs[0], Task::Perform(Command::RequestSnapshotBitfield { peer_id: 1 })));

    peer(&mut sync, 1).snapshot_bitfield = Some(vec![0xff]);
    let jobs = sync.sync_peer(&env, 1, false);
    assert_eq!(jobs.len(), 1);
    assert!(matches!(jobs[0], Task::Perform(Command::RequestSnapshotData { peer_id: 1 })));

    peer(&mut sync, 1).snapshot_bitfield = None;
    peer(&mut sync, 1).protocol_version = 3;
    let jobs = sync.sync_peer(&env, 1, false);
    assert!(matches!(jobs[0], Task::Perform(Command::RequestSnapshotData { peer_id: 1 })));
}

#[test]
fn peer_without_hash_does_not_match_a_missing_snapshot() {
    let env = surroundings();
    let mut sync = sync_in(SyncState::SnapshotData);
    add_peer(&mut sync, 1, 4);
    assert!(sync.sync_peer(&env, 1, false).is_empty());
    assert!(!sync.active_peers.contains(&1));
}

#[test]
fn restoration_that_lags_behind_pauses_the_sync() {
    let mut env = surroundings();
    env.snapshot.snapshot_hash = Some(hash(42));
    env.snapshot.done_chunks = 10;
    env.service.status =
        RestorationStatus::Ongoing { state_chunks_done: 3, block_chunks_done: 4 };
    let mut sync = sync_in(SyncState::SnapshotData);
    add_peer(&mut sync, 1, 3);
    peer(&mut sync, 1).snapshot_hash = Some(hash(42));
    assert!(env.is_gap_defined());
    assert_eq!(sync.sync_peer(&env, 1, false).len(), 1);
    assert_eq!(sync.state, SyncState::SnapshotData);

    env.snapshot.done_chunks = 11;
    assert!(sync.sync_peer(&env, 1, false).is_empty());
    assert_eq!(sync.state, SyncState::SnapshotWaiting);

    assert!(sync.check_resume(&env).is_empty());
    assert_eq!(sync.state, SyncState::SnapshotWaiting);
    env.service.status =
        RestorationStatus::Ongoing { state_chunks_done: 4, block_chunks_done: 4 };
    env.snapshot.is_complete = true;
    assert!(sync.check_resume(&env).is_empty());
    env.snapshot.is_complete = false;
    assert!(matches!(sync.check_resume(&env)[0], Task::ContinueSync));
    assert_eq!(sync.state, SyncState::SnapshotData);
}

#[test]
fn chunks_restored_cannot_outnumber_those_downloaded() {
    let mut env = surroundings();
    env.snapshot.done_chunks = 6;
    env.service.status =
        RestorationStatus::Ongoing { state_chunks_done: 3, block_chunks_done: 4 };
    assert!(!env.is_gap_defined());
    env.service.status =
        RestorationStatus::Ongoing { state_chunks_done: u32::MAX, block_chunks_done: 1 };
    env.snapshot.done_chunks = usize::MAX;
    assert!(!env.is_gap_defined());
    env.service.status = RestorationStatus::Failed;
    assert!(env.is_gap_defined());
    assert!(!env.is_too_far_ahead());
}

#[test]
fn restored_snapshot_restarts_the_sync() {
    let mut env = surroundings();
    let mut sync = sync_in(SyncState::SnapshotWaiting);
    let jobs = sync.check_resume(&env);
    assert_eq!(jobs.len(), 5);
    assert_eq!(sync.state, SyncState::Idle);

    env.service.status = RestorationStatus::Failed;
    let mut sync = sync_in(SyncState::SnapshotWaiting);
    let jobs = sync.check_resume(&env);
    assert_eq!(sync.state, SyncState::WaitingPeers);
    assert_eq!(jobs.len(), 2);
    assert!(matches!(jobs[0], Task::Perform(Command::ClearSnapshot)));
    assert!(matches!(jobs[1], Task::ContinueSync));
}

#[test]
fn snapshot_service_is_awaited() {
    let mut env = surroundings();
    let mut sync = sync_in(SyncState::SnapshotInit);
    assert!(sync.check_resume(&env).is_empty());
    assert_eq!(sync.state, SyncState::SnapshotInit);
    env.service.restoration_ready = true;
    let jobs = sync.check_resume(&env);
    assert_eq!(jobs.len(), 1);
    assert!(matches!(jobs[0], Task::Perform(Command::SyncSnapshot)));
    assert_eq!(sync.state, SyncState::SnapshotData);
}

#[test]
fn running_sync_has_nothing_to_resume() {
    let mut env = surroundings();
    env.service.restoration_ready = true;
    for state in [SyncState::Idle, SyncState::Blocks, SyncState::SnapshotData] {
        let mut sync = sync_in(state);
        assert!(sync.check_resume(&env).is_empty());
        assert_eq!(sync.state, state);
    }
}

fn visit(force: bool, higher_difficulty: bool) -> Visit {
    Visit { peer_id: 1, latest_hash: hash(1), force, higher_difficulty, num_active_peers: 0 }
}

#[test]
fn new_blocks_are_looked_for_where_the_best_block_is_unknown() {
    let mut sync = sync_in(SyncState::Idle);
    add_peer(&mut sync, 1, 63);
    assert!(matches!(sync.with_block_status(visit(false, true), true)[0], Task::AskNewBlocks(_)));
    assert!(matches!(sync.with_block_status(visit(true, false), true)[0], Task::AskNewBlocks(_)));
    assert!(sync.with_block_status(visit(false, true), false).is_empty());
    sync.old_blocks = Some(old_blocks());
    assert!(matches!(sync.with_block_status(visit(false, true), false)[0], Task::AskOldBlocks(_)));
    assert!(sync.active_peers.contains(&1));
    assert!(sync.with_block_status(visit(false, false), true).is_empty());
    assert!(!sync.active_peers.contains(&1));

    let mut sync = sync_in(SyncState::NewBlocks);
    assert!(matches!(sync.with_block_status(visit(false, false), true)[0], Task::AskNewBlocks(_)));
}

#[test]
fn first_request_for_new_blocks_leaves_the_idle_state() {
    let mut sync = sync_in(SyncState::Idle);
    sync.new_blocks_requested();
    assert_eq!(sync.state, SyncState::Blocks);
    let mut sync = sync_in(SyncState::NewBlocks);
    sync.new_blocks_requested();
    assert_eq!(sync.state, SyncState::NewBlocks);
}

#[test]
fn downloads_of_a_peer_are_cleared() {
    let mut sync = sync_in(SyncState::Blocks);
    add_peer(&mut sync, 1, 63);
    assert!(sync.clear_peer_download(1).is_empty());
    assert!(sync.clear_peer_download(2).is_empty());

    peer(&mut sync, 1).asking = PeerAsking::BlockHeaders;
    assert!(sync.clear_peer_download(1).is_empty());
    peer(&mut sync, 1).asking_hash = Some(hash(8));
    let jobs = sync.clear_peer_download(1);
    assert_eq!(jobs.len(), 1);
    match &jobs[0] {
        Task::Perform(Command::ClearHeaderDownload { block_set, hash: cleared }) => {
            assert_eq!(*block_set, BlockSet::NewBlocks);
            assert_eq!(*cleared, hash(8));
        }
        other => panic!("{:?}", other),
    }

    sync.old_blocks = Some(old_blocks());
    assert!(matches!(
        sync.clear_peer_download(1)[1],
        Task::Perform(Command::ClearHeaderDownload { block_set: BlockSet::OldBlocks, .. })
    ));

    peer(&mut sync, 1).asking_blocks = vec![hash(6), hash(7)];
    peer(&mut sync, 1).asking = PeerAsking::BlockBodies;
    let jobs = sync.clear_peer_download(1);
    assert_eq!(jobs.len(), 2);
    match &jobs[1] {
        Task::Perform(Command::ClearBodyDownload { block_set, hashes }) => {
            assert_eq!(*block_set, BlockSet::OldBlocks);
            assert_eq!(*hashes, vec![hash(6), hash(7)]);
        }
        other => panic!("{:?}", other),
    }

    peer(&mut sync, 1).asking = PeerAsking::BlockReceipts;
    let jobs = sync.clear_peer_download(1);
    assert_eq!(jobs.len(), 2);
    assert!(matches!(
        jobs[0],
        Task::Perform(Command::ClearReceiptDownload { block_set: BlockSet::NewBlocks, .. })
    ));

    peer(&mut sync, 1).asking = PeerAsking::SnapshotData;
    assert!(sync.clear_peer_download(1).is_empty());
    peer(&mut sync, 1).asking_snapshot_data = Some(hash(9));
    let jobs = sync.clear_peer_download(1);
    assert_eq!(jobs.len(), 1);
    match &jobs[0] {
        Task::Perform(Command::ClearChunkDownload { hash: cleared }) => {
            assert_eq!(*cleared, hash(9));
        }
        other => panic!("{:?}", other),
    }
}

#[test]
fn answers_are_matched_with_requests() {
    let mut sync = sync_in(SyncState::Blocks);
    add_peer(&mut sync, 1, 63);
    peer(&mut sync, 1).asking = PeerAsking::BlockBodies;
    peer(&mut sync, 1).expired = true;
    peer(&mut sync, 1).block_set = Some(BlockSet::OldBlocks);
    assert!(sync.reset_peer_asking(1, PeerAsking::BlockBodies));
    assert_eq!(sync.peers[&1].asking, PeerAsking::Nothing);
    assert!(!sync.peers[&1].expired);
    assert!(sync.peers[&1].block_set.is_none());
    assert!(!sync.reset_peer_asking(1, PeerAsking::BlockBodies));

    peer(&mut sync, 1).asking = PeerAsking::BlockBodies;
    assert!(!sync.reset_peer_asking(1, PeerAsking::BlockHeaders));
    assert_eq!(sync.peers[&1].asking, PeerAsking::Nothing);
    assert!(!sync.reset_peer_asking(2, PeerAsking::Nothing));
    assert_eq!(sync.peers.len(), 1);
}

#[test]
fn silent_peers_are_disconnected() {
    let mut sync = sync_in(SyncState::Blocks);
    for id in 1..4 {
        add_peer(&mut sync, id, 63);
        peer(&mut sync, id).asking = PeerAsking::BlockHeaders;
    }
    peer(&mut sync, 2).ask_time = 90 * SECOND;
    let jobs = sync.maintain_peers(100 * SECOND);
    assert_eq!(jobs.len(), 5);
    let disconnected: Vec<PeerId> = jobs[..2]
        .iter()
        .map(|job| match job {
            Task::Perform(Command::DisconnectPeer { peer_id }) => *peer_id,
            other => panic!("{:?}", other),
        })
        .collect();
    let aborted: Vec<PeerId> = jobs[2..4]
        .iter()
        .map(|job| match job {
            Task::Perform(Command::AbortPeer { peer_id }) => *peer_id,
            other => panic!("{:?}", other),
        })
        .collect();
    assert_eq!(disconnected, aborted);
    assert!(disconnected == vec![1, 3] || disconnected == vec![3, 1]);
    match jobs[4] {
        Task::CheckHandshakes { tick } => assert_eq!(tick, 100 * SECOND),
        _ => panic!(),
    }
}

#[test]
fn handshakes_are_given_up_after_their_limit() {
    let mut sync = sync_in(SyncState::Idle);
    sync.handshaking_peers.insert(1, 0);
    sync.handshaking_peers.insert(2, SECOND);
    assert!(sync.check_handshakes(0).is_empty());
    assert!(sync.check_handshakes(5 * SECOND).is_empty());
    let jobs = sync.check_handshakes(5 * SECOND + 1);
    assert_eq!(jobs.len(), 1);
    assert!(matches!(jobs[0], Task::Perform(Command::DisconnectPeer { peer_id: 1 })));
    assert_eq!(sync.check_handshakes(6 * SECOND).len(), 1);
    assert_eq!(sync.check_handshakes(6 * SECOND + 1).len(), 2);
    assert_eq!(sync.check_handshakes(60 * SECOND).len(), 2);
}

#[test]
fn maintenance_looks_for_snapshots_and_resumes() {
    let env = surroundings();
    let mut sync = sync_in(SyncState::WaitingPeers);
    sync.warp_sync = WarpSync::Enabled;
    let jobs = sync.maintain_sync(&env);
    assert_eq!(jobs.len(), 2);
    assert!(matches!(jobs[0], Task::ChooseSnapshot));
    assert!(matches!(jobs[1], Task::CheckResume));
    let sync = sync_in(SyncState::Idle);
    assert_eq!(sync.maintain_sync(&env).len(), 1);
}

fn queue_info(unverified: usize, verified: usize) -> BlockQueueInfo {
    BlockQueueInfo {
        unverified_queue_size: unverified,
        verified_queue_size: verified,
        verifying_queue_size: 0,
        max_queue_size: 1000,
        max_mem_use: 1000,
        mem_used: 500,
    }
}

#[test]
fn imported_blocks_are_propagated_when_synced() {
    let sync = sync_in(SyncState::Idle);
    let blocks = [hash(1)];
    let jobs = sync.chain_new_blocks(queue_info(0, 0), &[], &[], &blocks, &[], vec![], vec![]);
    assert_eq!(jobs.len(), 3);
    assert!(matches!(
        &jobs[0],
        Task::Perform(Command::PropagateLatestBlocks { sealed }) if sealed.is_empty()
    ));
    assert!(matches!(&jobs[1], Task::Perform(Command::PropagateProposedBlocks { .. })));
    assert!(matches!(jobs[2], Task::Rebroadcast));

    let jobs = sync.chain_new_blocks(queue_info(4, 0), &[], &[], &blocks, &[], vec![], vec![]);
    assert!(jobs.is_empty());

    let sync = sync_in(SyncState::Blocks);
    let jobs = sync.chain_new_blocks(queue_info(0, 0), &[], &[], &blocks, &[], vec![], vec![]);
    assert!(jobs.is_empty());
}

#[test]
fn own_blocks_are_propagated_while_syncing() {
    let sync = sync_in(SyncState::Blocks);
    let jobs =
        sync.chain_new_blocks(queue_info(9, 9), &[], &[], &[], &[], vec![hash(3)], vec![]);
    assert_eq!(jobs.len(), 2);
    assert!(matches!(
        &jobs[0],
        Task::Perform(Command::PropagateLatestBlocks { sealed }) if *sealed == vec![hash(3)]
    ));
    let jobs =
        sync.chain_new_blocks(queue_info(9, 9), &[], &[], &[], &[], vec![], vec![vec![1, 2]]);
    assert_eq!(jobs.len(), 2);
    assert!(matches!(
        &jobs[1],
        Task::Perform(Command::PropagateProposedBlocks { proposed })
            if *proposed == vec![vec![1, 2]]
    ));
}

#[test]
fn bad_blocks_restart_the_sync() {
    let sync = sync_in(SyncState::Blocks);
    let jobs = sync.chain_new_blocks(queue_info(0, 0), &[], &[hash(1)], &[], &[], vec![], vec![]);
    assert_eq!(jobs.len(), 1);
    assert!(matches!(jobs[0], Task::Restart));
}

#[test]
fn transactions_are_rebroadcast_to_one_random_peer() {
    let mut sync = sync_in(SyncState::Idle);
    sync.rebroadcast();
    let mut chosen: Vec<PeerId> = Vec::new();
    for id in 0..16 {
        add_peer(&mut sync, id, 63);
    }
    for _ in 0..200 {
        for id in 0..16 {
            peer(&mut sync, id).last_sent_transactions.insert(hash(1));
        }
        sync.rebroadcast();
        let cleared: Vec<PeerId> =
            (0..16).filter(|id| sync.peers[id].last_sent_transactions.len() == 0).collect();
        assert_eq!(cleared.len(), 1);
        chosen.push(cleared[0]);
    }
    assert!(chosen.iter().any(|id| *id != chosen[0]));
}

#[test]
fn forgetting_what_was_sent_concerns_one_peer() {
    let mut sync = sync_in(SyncState::Idle);
    for id in 0..2 {
        add_peer(&mut sync, id, 63);
        peer(&mut sync, id).last_sent_transactions.insert(hash(1));
    }
    sync.forget_sent_transactions(1);
    sync.forget_sent_transactions(7);
    assert_eq!(sync.peers[&0].last_sent_transactions.len(), 1);
    assert_eq!(sync.peers[&1].last_sent_transactions.len(), 0);
}

#[test]
fn expired_request_keeps_its_peer_out_until_the_answer() {
    let mut sync = sync_in(SyncState::Blocks);
    add_peer(&mut sync, 1, 63);
    peer(&mut sync, 1).asking = PeerAsking::BlockBodies;
    sync.reset(&chain_info(50));
    assert!(visited(&sync.continue_sync()).is_empty());
    assert!(sync.reset_peer_asking(1, PeerAsking::BlockBodies));
    assert_eq!(visited(&sync.continue_sync()), vec![1]);
}
