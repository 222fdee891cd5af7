use chain_sync::agenda::{Command, Job, Task};
use chain_sync::peer::{ForkConfirmation, PeerAsking, PeerInfo};
use chain_sync::primitives::{
    BlockChainInfo, PeerId, RestorationStatus, SyncConfig, WarpSync, H256, U256,
};
use chain_sync::status::SyncState;
use chain_sync::sync::{ChainSync, SnapshotProgress, SnapshotService, Surroundings};

const SECOND: u64 = 1_000_000_000;

fn hash(n: u8) -> H256 {
    H256([n; 32])
}

fn chain_info(best_block_number: u64) -> BlockChainInfo {
    BlockChainInfo {
        total_difficulty: U256([100, 0, 0, 0]),
        pending_total_difficulty: U256([100, 0, 0, 0]),
        genesis_hash: hash(0),
        best_block_hash: hash(100),
        best_block_number,
        ancient_block_hash: None,
        ancient_block_number: None,
        first_block_hash: None,
    }
}

fn surroundings() -> Surroundings {
    Surroundings {
        now: 100 * SECOND,
        chain: chain_info(50),
        queue_full: false,
        service: SnapshotService {
            supported: true,
            restoration_ready: false,
            status: RestorationStatus::Inactive,
        },
        snapshot: SnapshotProgress {
            snapshot_hash: None,
            have_manifest: false,
            is_complete: false,
            done_chunks: 0,
            known_bad: Vec::new(),
        },
    }
}

fn waiting_sync(warp_sync: WarpSync) -> ChainSync {
    let config = SyncConfig {
        download_old_blocks: true,
        network_id: 1,
        fork_block: Some((1000, hash(9))),
        warp_sync,
    };
    let mut sync = ChainSync::new(config, &chain_info(50)).0;
    sync.state = SyncState::WaitingPeers;
    sync
}

fn add_peer(sync: &mut ChainSync, id: PeerId, snapshot_hash: H256, snapshot_number: u64) {
    let mut peer = PeerInfo::default(0);
    peer.confirmation = ForkConfirmation::Confirmed;
    peer.snapshot_hash = Some(snapshot_hash);
    peer.snapshot_number = Some(snapshot_number);
    sync.peers.insert(id, peer);
    sync.active_peers.insert(id);
}

fn asked_for_manifest(jobs: &Vec<Job>) -> Vec<PeerId> {
    let mut ids: Vec<PeerId> = jobs
        .iter()
        .filter_map(|job| match job {
            Task::RequestManifest { peer_id } => Some(*peer_id),
            _ => None,
        })
        .collect();
    ids.sort();
    ids
}

#[test]
fn snapshots_are_looked_for_in_some_states_only() {
    let env = surroundings();
    let mut sync = waiting_sync(WarpSync::Enabled);
    for (state, expected) in [
        (SyncState::WaitingPeers, 1),
        (SyncState::Blocks, 1),
        (SyncState::Waiting, 1),
        (SyncState::SnapshotData, 2),
        (SyncState::Idle, 0),
        (SyncState::NewBlocks, 0),
        (SyncState::SnapshotInit, 0),
        (SyncState::SnapshotManifest, 0),
        (SyncState::SnapshotWaiting, 0),
    ] {
        sync.state = state;
        let jobs = sync.maybe_start_snapshot_sync(&env);
        assert_eq!(jobs.len(), expected);
        if expected > 0 {
            assert!(matches!(jobs[expected - 1], Task::ChooseSnapshot));
        }
    }
    sync.state = SyncState::SnapshotData;
    assert!(matches!(sync.maybe_start_snapshot_sync(&env)[0], Task::ContinueSync));
}

#[test]
fn no_snapshots_without_warp_sync_or_service() {
    let mut env = surroundings();
    assert!(waiting_sync(WarpSync::Disabled).maybe_start_snapshot_sync(&env).is_empty());
    env.service.supported = false;
    assert!(waiting_sync(WarpSync::Enabled).maybe_start_snapshot_sync(&env).is_empty());
}

#[test]
fn useful_snapshots_are_recent_and_far_ahead() {
    let mut sync = waiting_sync(WarpSync::Enabled);
    assert!(!sync.is_useful_snapshot(50, 30050));
    assert!(sync.is_useful_snapshot(50, 30051));
    assert!(!sync.is_useful_snapshot(50, 10));
    sync.highest_block = Some(90051);
    assert!(!sync.is_useful_snapshot(50, 60050));
    assert!(sync.is_useful_snapshot(50, 60051));
    assert!(sync.is_useful_snapshot(50, 200000));
    sync.fork_block = Some((60051, hash(9)));
    assert!(!sync.is_useful_snapshot(50, 60051));
    assert!(sync.is_useful_snapshot(50, 60052));
    sync.warp_sync = WarpSync::OnlyAndAfter(60060);
    assert!(!sync.is_useful_snapshot(50, 60060));
    assert!(sync.is_useful_snapshot(50, 60061));
    sync.fork_block = None;
    assert!(sync.is_useful_snapshot(50, 60061));
}

#[test]
fn snapshot_with_enough_supporters_is_taken_at_once() {
    let env = surroundings();
    let mut sync = waiting_sync(WarpSync::Enabled);
    for id in 1..4 {
        add_peer(&mut sync, id, hash(1), 50000);
    }
    add_peer(&mut sync, 4, hash(2), 60000);
    add_peer(&mut sync, 5, hash(2), 60000);
    let jobs = sync.choose_snapshot(&env);
    assert_eq!(jobs.len(), 4);
    assert_eq!(asked_for_manifest(&jobs), vec![1, 2, 3]);
    assert!(matches!(jobs[3], Task::AwaitManifest));
    assert_eq!(sync.state, SyncState::WaitingPeers);
    sync.await_manifest();
    assert_eq!(sync.state, SyncState::SnapshotManifest);
}

#[test]
fn snapshot_with_few_supporters_is_taken_after_waiting() {
    let mut env = surroundings();
    let mut sync = waiting_sync(WarpSync::Enabled);
    add_peer(&mut sync, 1, hash(1), 50000);
    add_peer(&mut sync, 2, hash(1), 50000);
    assert!(sync.choose_snapshot(&env).is_empty());
    sync.sync_start_time = Some(95 * SECOND);
    assert!(sync.choose_snapshot(&env).is_empty());
    env.now += 1;
    assert_eq!(asked_for_manifest(&sync.choose_snapshot(&env)), vec![1, 2]);

    // Only a sync that waits for peers can have waited long enough.
    sync.state = SyncState::Blocks;
    assert!(sync.choose_snapshot(&env).is_empty());
}

#[test]
fn bad_useless_and_unconfirmed_offers_do_not_count() {
    let mut env = surroundings();
    let mut sync = waiting_sync(WarpSync::Enabled);
    for id in 1..5 {
        add_peer(&mut sync, id, hash(1), 50000);
    }
    env.snapshot.known_bad = vec![hash(7), hash(1)];
    assert!(sync.choose_snapshot(&env).is_empty());
    env.snapshot.known_bad = vec![hash(7)];
    sync.peers.get_mut(&1).unwrap().snapshot_number = Some(500);
    sync.peers.get_mut(&2).unwrap().expired = true;
    assert!(sync.choose_snapshot(&env).is_empty());
    sync.peers.get_mut(&2).unwrap().expired = false;
    assert_eq!(asked_for_manifest(&sync.choose_snapshot(&env)), vec![2, 3, 4]);
    sync.peers.get_mut(&3).unwrap().snapshot_hash = None;
    assert!(sync.choose_snapshot(&env).is_empty());
    sync.peers.get_mut(&3).unwrap().snapshot_hash = Some(hash(1));
    sync.peers.get_mut(&3).unwrap().snapshot_number = None;
    assert!(sync.choose_snapshot(&env).is_empty());
}

#[test]
fn known_manifest_resumes_the_download() {
    let mut env = surroundings();
    env.snapshot.have_manifest = true;
    let mut sync = waiting_sync(WarpSync::Enabled);
    for id in 1..4 {
        add_peer(&mut sync, id, hash(1), 50000);
    }
    assert!(sync.choose_snapshot(&env).is_empty());
    assert_eq!(sync.state, SyncState::SnapshotData);
}

#[test]
fn full_sync_starts_where_no_snapshot_is_found() {
    let env = surroundings();
    let mut sync = waiting_sync(WarpSync::Enabled);
    assert!(sync.choose_snapshot(&env).is_empty());
    assert_eq!(sync.state, SyncState::WaitingPeers);
    sync.sync_start_time = Some(0);
    let jobs = sync.choose_snapshot(&env);
    assert_eq!(jobs.len(), 1);
    assert!(matches!(jobs[0], Task::ContinueSync));
    assert_eq!(sync.state, SyncState::Idle);
}

#[test]
fn warp_only_sync_keeps_waiting() {
    let env = surroundings();
    let mut sync = waiting_sync(WarpSync::OnlyAndAfter(40000));
    sync.sync_start_time = Some(0);
    assert!(sync.choose_snapshot(&env).is_empty());
    assert_eq!(sync.state, SyncState::WaitingPeers);
}

#[test]
fn manifests_are_requested_from_idle_peers() {
    let mut sync = waiting_sync(WarpSync::Enabled);
    add_peer(&mut sync, 1, hash(1), 50000);
    let jobs = sync.request_manifest(1);
    assert_eq!(jobs.len(), 1);
    assert!(matches!(jobs[0], Task::Perform(Command::RequestSnapshotManifest { peer_id: 1 })));
    sync.peers.get_mut(&1).unwrap().asking = PeerAsking::BlockHeaders;
    assert!(sync.request_manifest(1).is_empty());
    assert!(sync.request_manifest(2).is_empty());
}

#[test]
fn snapshot_sync_starts_with_the_given_peers() {
    let mut sync = waiting_sync(WarpSync::Enabled);
    let jobs = sync.start_snapshot_sync(false, &vec![5, 3]);
    assert_eq!(jobs.len(), 3);
    assert!(matches!(jobs[0], Task::RequestManifest { peer_id: 5 }));
    assert!(matches!(jobs[1], Task::RequestManifest { peer_id: 3 }));
    assert!(matches!(jobs[2], Task::AwaitManifest));
    assert_eq!(sync.state, SyncState::WaitingPeers);
    assert!(sync.start_snapshot_sync(true, &vec![5, 3]).is_empty());
    assert_eq!(sync.state, SyncState::SnapshotData);
}
