use chain_sync::agenda::{Command, Job, Task};
use chain_sync::peer::{BlockSet, ForkConfirmation, PeerAsking, PeerInfo};
use chain_sync::primitives::{BlockChainInfo, PeerId, SyncConfig, WarpSync, H256, U256};
use chain_sync::status::SyncState;
use chain_sync::sync::{ChainSync, DownloadReport, ProgressReport};

fn hash(n: u8) -> H256 {
    let mut bytes = [0u8; 32];
    bytes[31] = n;
    H256(bytes)
}

fn chain_info(best_block_number: u64) -> BlockChainInfo {
    BlockChainInfo {
        total_difficulty: U256([100, 0, 0, 0]),
        pending_total_difficulty: U256([100, 0, 0, 0]),
        genesis_hash: hash(0),
        best_block_hash: hash(100),
        best_block_number,
        ancient_block_hash: None,
        ancient_block_number: None,
        first_block_hash: None,
    }
}

fn config(warp_sync: WarpSync) -> SyncConfig {
    SyncConfig { download_old_blocks: true, network_id: 1, fork_block: None, warp_sync }
}

fn dummy_sync_with_peer(peer_latest_hash: H256, chain: &BlockChainInfo) -> ChainSync {
    let mut sync = ChainSync::new(config(WarpSync::Enabled), chain).0;
    insert_dummy_peer(&mut sync, 0, peer_latest_hash);
    sync
}

fn insert_dummy_peer(sync: &mut ChainSync, peer_id: PeerId, peer_latest_hash: H256) {
    let mut peer = PeerInfo::default(0);

    peer.confirmation = ForkConfirmation::Confirmed;
    peer.latest_hash = peer_latest_hash;
    sync.peers.insert(peer_id, peer);
}

fn progress(last_imported: u64) -> ProgressReport {
    ProgressReport {
        new_blocks: DownloadReport { last_imported_block_number: last_imported, heap_size: 1000 },
        old_blocks: None,
        total_chunks: 0,
        done_chunks: 0,
    }
}

#[test]
fn finds_lagging_peers() {
    let chain_info = chain_info(100);
    let sync = dummy_sync_with_peer(hash(90), &chain_info);

    let lagging_peers = sync.get_lagging_peers(&chain_info);

    assert_eq!(1, lagging_peers.len());
}

#[test]
fn peers_with_our_best_block_do_not_lag() {
    let chain_info = chain_info(100);
    let mut sync = dummy_sync_with_peer(hash(100), &chain_info);
    assert!(sync.get_lagging_peers(&chain_info).is_empty());
    insert_dummy_peer(&mut sync, 7, hash(99));
    insert_dummy_peer(&mut sync, 9, hash(101));
    let mut lagging = sync.get_lagging_peers(&chain_info);
    lagging.sort();
    assert_eq!(lagging, vec![7, 9]);
}

#[test]
fn peers_are_chosen_by_version() {
    let chain_info = chain_info(100);
    let mut sync = ChainSync::new(config(WarpSync::Enabled), &chain_info).0;
    for version in 0..5u8 {
        insert_dummy_peer(&mut sync, version as usize, hash(1));
        sync.peers.get_mut(&(version as usize)).unwrap().protocol_version = version;
    }
    let mut consensus = sync.get_consensus_peers();
    consensus.sort();
    assert_eq!(consensus, vec![2, 3, 4]);
    let mut private = sync.get_private_transaction_peers();
    private.sort();
    assert_eq!(private, vec![3, 4]);
}

#[test]
fn sync_starts_by_waiting_for_peers_where_warp_sync_is_wanted() {
    let chain = chain_info(50);
    let state = |warp_sync| ChainSync::new(config(warp_sync), &chain).0.state;
    assert_eq!(state(WarpSync::Enabled), SyncState::WaitingPeers);
    assert_eq!(state(WarpSync::Disabled), SyncState::Idle);
    assert_eq!(state(WarpSync::OnlyAndAfter(51)), SyncState::WaitingPeers);
    assert_eq!(state(WarpSync::OnlyAndAfter(50)), SyncState::Idle);
    assert_eq!(ChainSync::get_init_state(WarpSync::OnlyAndAfter(0), &chain), SyncState::Idle);
}

#[test]
fn new_sync_downloads_from_the_best_block() {
    let chain = chain_info(50);
    let (sync, jobs) = ChainSync::new(config(WarpSync::Enabled), &chain);
    assert_eq!(sync.starting_block, 50);
    assert_eq!(sync.network_id, 1);
    assert!(sync.highest_block.is_none());
    assert!(sync.peers.is_empty());
    assert!(sync.active_peers.is_empty());
    assert!(sync.handshaking_peers.is_empty());
    assert!(sync.sync_start_time.is_none());
    assert!(sync.old_blocks.is_none());
    assert_eq!(sync.new_blocks.start_hash, hash(100));
    assert_eq!(sync.new_blocks.start_number, 50);
    assert_eq!(jobs.len(), 2);
    match &jobs[0] {
        Task::Perform(Command::StartDownload { block_set, setup }) => {
            assert_eq!(*block_set, BlockSet::NewBlocks);
            assert!(!setup.sync_receipts);
            assert!(!setup.unlimited_reorg);
            assert_eq!(setup.start_hash, hash(100));
            assert_eq!(setup.start_number, 50);
            assert!(setup.target.is_none());
        }
        other => panic!("{:?}", other),
    }
    assert!(matches!(jobs[1], Task::Perform(Command::DropOldBlocks)));
}

fn old_download(jobs: &Vec<Job>) -> bool {
    jobs.iter().any(|job| {
        matches!(
            job,
            Task::Perform(Command::StartDownload { block_set: BlockSet::OldBlocks, .. })
        )
    })
}

#[test]
fn old_blocks_are_downloaded_up_to_the_gap() {
    let mut chain = chain_info(50);
    chain.ancient_block_hash = Some(hash(5));
    chain.ancient_block_number = Some(5);
    chain.first_block_hash = Some(hash(20));
    let (mut sync, _) = ChainSync::new(config(WarpSync::Enabled), &chain);
    let jobs = sync.update_targets(&chain);
    assert_eq!(jobs.len(), 3);
    assert!(old_download(&jobs));
    let setup = sync.old_blocks.unwrap();
    assert!(setup.sync_receipts);
    assert!(setup.unlimited_reorg);
    assert_eq!(setup.start_hash, hash(5));
    assert_eq!(setup.start_number, 5);
    assert_eq!(setup.target, Some(hash(20)));

    chain.first_block_hash = None;
    sync.update_targets(&chain);
    assert!(sync.old_blocks.unwrap().target.is_none());

    chain.ancient_block_number = None;
    let jobs = sync.update_targets(&chain);
    assert!(!old_download(&jobs));
    assert!(sync.old_blocks.is_none());
}

#[test]
fn old_blocks_are_left_alone_where_they_are_not_wanted() {
    let mut chain = chain_info(50);
    chain.ancient_block_hash = Some(hash(5));
    chain.ancient_block_number = Some(5);
    let mut config = config(WarpSync::Enabled);
    config.download_old_blocks = false;
    let (sync, jobs) = ChainSync::new(config, &chain);
    assert!(sync.old_blocks.is_none());
    assert!(!old_download(&jobs));
}

#[test]
fn status_counts_blocks_and_peers() {
    let chain = chain_info(50);
    let mut sync = ChainSync::new(config(WarpSync::Enabled), &chain).0;
    for id in 0..4 {
        insert_dummy_peer(&mut sync, id, hash(1));
    }
    sync.peers.get_mut(&0).unwrap().expired = true;
    sync.peers.get_mut(&0).unwrap().asking = PeerAsking::BlockBodies;
    sync.peers.get_mut(&1).unwrap().asking = PeerAsking::BlockHeaders;
    sync.peers.get_mut(&2).unwrap().confirmation = ForkConfirmation::Unconfirmed;
    sync.highest_block = Some(80);

    let report = ProgressReport {
        new_blocks: DownloadReport { last_imported_block_number: 60, heap_size: 1000 },
        old_blocks: Some(DownloadReport { last_imported_block_number: 9, heap_size: 200 }),
        total_chunks: 12,
        done_chunks: 7,
    };
    let status = sync.status_with(&report, 30);
    assert_eq!(status.state, SyncState::WaitingPeers);
    assert_eq!(status.protocol_version, 63);
    assert_eq!(status.network_id, 1);
    assert_eq!(status.start_block_number, 50);
    assert_eq!(status.last_imported_block_number, Some(60));
    assert_eq!(status.last_imported_old_block_number, Some(9));
    assert_eq!(status.highest_block_number, Some(80));
    assert_eq!(status.blocks_received, 10);
    assert_eq!(status.blocks_total, 30);
    assert_eq!(status.num_peers, 4);
    assert_eq!(status.num_active_peers, 1);
    assert_eq!(status.num_snapshot_chunks, 12);
    assert_eq!(status.snapshot_chunks_done, 7);
    assert_eq!(status.mem_used, 1230);
}

#[test]
fn status_of_a_chain_that_went_back() {
    let chain = chain_info(50);
    let mut sync = ChainSync::new(config(WarpSync::Enabled), &chain).0;
    let status = sync.status_with(&progress(40), 0);
    assert_eq!(status.blocks_received, 0);
    assert_eq!(status.blocks_total, 0);
    assert_eq!(status.highest_block_number, None);
    assert_eq!(status.last_imported_old_block_number, None);
    sync.highest_block = Some(50);
    let status = sync.status_with(&progress(55), 0);
    assert_eq!(status.highest_block_number, Some(55));
    assert_eq!(status.blocks_total, 0);
    assert_eq!(status.blocks_received, 5);
}

#[test]
fn memory_of_the_peers_is_counted() {
    let chain = chain_info(50);
    let mut sync = ChainSync::new(config(WarpSync::Enabled), &chain).0;
    assert_eq!(sync.status(&progress(50)).mem_used, 1000);
    insert_dummy_peer(&mut sync, 0, hash(1));
    assert!(sync.status(&progress(50)).mem_used > 1000 + 32);
}

#[test]
fn memory_that_does_not_fit_is_told_as_the_greatest_number() {
    let chain = chain_info(50);
    let mut sync = ChainSync::new(config(WarpSync::Enabled), &chain).0;
    insert_dummy_peer(&mut sync, 0, hash(1));
    let mut report = progress(50);
    report.new_blocks.heap_size = usize::MAX - 3;
    assert_eq!(sync.status_with(&report, 2).mem_used, usize::MAX - 1);
    assert_eq!(sync.status_with(&report, 3).mem_used, usize::MAX);
    assert_eq!(sync.status_with(&report, 4).mem_used, usize::MAX);
    report.old_blocks = Some(DownloadReport { last_imported_block_number: 1, heap_size: 9 });
    assert_eq!(sync.status_with(&report, 0).mem_used, usize::MAX);
    let status = sync.status(&report);
    assert_eq!(status.mem_used, usize::MAX);
    assert_eq!(status.num_peers, 1);
    assert_eq!(status.last_imported_old_block_number, Some(1));
}

#[test]
fn peer_info_tells_version_difficulty_and_head() {
    let chain = chain_info(50);
    let mut sync = dummy_sync_with_peer(hash(9), &chain);
    sync.peers.get_mut(&0).unwrap().protocol_version = 63;
    sync.peers.get_mut(&0).unwrap().difficulty = Some(U256([3, 0, 0, 0]));
    let info = sync.peer_info(&0).unwrap();
    assert_eq!(info.version, 63);
    assert_eq!(info.difficulty.unwrap().0, [3, 0, 0, 0]);
    assert_eq!(info.head, hash(9));
    assert!(sync.peer_info(&1).is_none());
}

#[test]
fn received_transactions_are_remembered() {
    let chain = chain_info(50);
    let mut sync = dummy_sync_with_peer(hash(9), &chain);
    sync.transactions_received(&[hash(1), hash(2), hash(1)], 0);
    sync.transactions_received(&[hash(2), hash(3)], 0);
    sync.transactions_received(&[hash(4)], 5);
    let known = &sync.peers[&0].last_sent_transactions;
    assert_eq!(known.len(), 3);
    assert!(known.contains(&hash(1)) && known.contains(&hash(2)) && known.contains(&hash(3)));
    assert_eq!(sync.peers.len(), 1);
}
