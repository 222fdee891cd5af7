use chain_sync::agenda::{Action, Agenda, BlockDownload, Command, Job, Reply, Step, Task};
use chain_sync::peer::{BlockSet, ForkConfirmation, PeerAsking, PeerInfo};
use chain_sync::primitives::{
    BlockChainInfo, BlockQueueInfo, PeerId, RestorationStatus, SyncConfig, WarpSync, H256, U256,
};
use chain_sync::status::SyncState;
use chain_sync::sync::{ChainSync, SnapshotProgress, SnapshotService, Surroundings};

fn hash(n: u8) -> H256 {
    H256([n; 32])
}

fn surroundings() -> Surroundings {
    Surroundings {
        now: 1_000_000_000_000,
        chain: BlockChainInfo {
            total_difficulty: U256([100, 0, 0, 0]),
            pending_total_difficulty: U256([100, 0, 0, 0]),
            genesis_hash: hash(0),
            best_block_hash: hash(100),
            best_block_number: 50,
            ancient_block_hash: None,
            ancient_block_number: None,
            first_block_hash: None,
        },
        queue_full: false,
        service: SnapshotService {
            supported: true,
            restoration_ready: false,
            status: RestorationStatus::Inactive,
        },
        snapshot: SnapshotProgress {
            snapshot_hash: None,
            have_manifest: false,
            is_complete: false,
            done_chunks: 0,
            known_bad: Vec::new(),
        },
    }
}

fn sync_with_peers(warp_sync: WarpSync, ids: &[PeerId]) -> ChainSync {
    let config =
        SyncConfig { download_old_blocks: true, network_id: 1, fork_block: None, warp_sync };
    let mut sync = ChainSync::new(config, &surroundings().chain).0;
    for id in ids {
        let mut peer = PeerInfo::default(0);
        peer.confirmation = ForkConfirmation::Confirmed;
        peer.latest_hash = hash(*id as u8);
        sync.peers.insert(*id, peer);
        sync.active_peers.insert(*id);
    }
    sync
}

fn old_blocks() -> BlockDownload {
    BlockDownload {
        sync_receipts: true,
        unlimited_reorg: true,
        start_hash: hash(5),
        start_number: 5,
        target: None,
    }
}

/// Takes steps until the agenda is done. Every block is unknown; new blocks are found `found`
/// times, old blocks always. A peer that is asked for blocks is busy from then on. Answers with
/// what was asked for.
fn run(sync: &mut ChainSync, env: &Surroundings, jobs: Vec<Job>, found: u32) -> Vec<String> {
    let mut log: Vec<String> = Vec::new();
    let mut left = found;
    let mut agenda = Agenda::new(jobs);
    let mut reply: Reply<u32> = Reply::Done;
    for _ in 0..1000 {
        assert!(sync.can_advance(&agenda, env));
        match sync.advance(&mut agenda, env, reply) {
            Step::Finished => {
                assert!(agenda.is_done());
                return log;
            }
            Step::Silent => {
                reply = Reply::Done;
            }
            Step::Act(Action::Perform(order)) => {
                log.push(format!("{:?}", order));
                reply = Reply::Done;
            }
            Step::Act(Action::BlockStatus { .. }) => {
                reply = Reply::BlockStatus { unknown: true };
            }
            Step::Act(Action::FindBlocks { block_set: BlockSet::NewBlocks, .. }) => {
                reply = Reply::Request(if left > 0 {
                    left -= 1;
                    Some(left)
                } else {
                    None
                });
            }
            Step::Act(Action::FindBlocks { block_set: BlockSet::OldBlocks, .. }) => {
                reply = Reply::Request(Some(77));
            }
            Step::Act(Action::RequestBlocks { peer_id, request, block_set }) => {
                let peer = sync.peers.get_mut(&peer_id).unwrap();
                assert_eq!(peer.asking, PeerAsking::Nothing);
                peer.asking = PeerAsking::BlockHeaders;
                peer.block_set = Some(block_set);
                log.push(format!("{:?} from {}: {}", block_set, peer_id, request));
                reply = Reply::Done;
            }
        }
    }
    panic!("the agenda is never done");
}

#[test]
fn empty_agenda_is_finished() {
    let mut sync = sync_with_peers(WarpSync::Disabled, &[]);
    assert!(run(&mut sync, &surroundings(), vec![], 0).is_empty());
}

#[test]
fn agenda_takes_tasks_in_order() {
    let mut agenda = Agenda::new(vec![Task::Restart, Task::FinishRound]);
    assert!(matches!(agenda.next(), Some(Task::Restart)));
    assert!(matches!(agenda.take_next(), Some(Task::Restart)));
    agenda.schedule(vec![Task::ContinueSync, Task::Rebroadcast]);
    assert!(!agenda.is_done());
    assert!(matches!(agenda.take_next(), Some(Task::ContinueSync)));
    assert!(matches!(agenda.take_next(), Some(Task::Rebroadcast)));
    assert!(matches!(agenda.take_next(), Some(Task::FinishRound)));
    assert!(agenda.take_next().is_none());
    assert!(agenda.next().is_none());
    assert!(agenda.is_done());
}

#[test]
fn round_asks_each_peer_for_new_blocks() {
    let env = surroundings();
    let mut sync = sync_with_peers(WarpSync::Disabled, &[1, 2]);
    let mut log = run(&mut sync, &env, vec![Task::ContinueSync], 2);
    log.sort();
    assert_eq!(log.len(), 2);
    assert!(log[0].starts_with("NewBlocks from 1: "));
    assert!(log[1].starts_with("NewBlocks from 2: "));
    assert_eq!(sync.state, SyncState::Blocks);
}

#[test]
fn round_without_blocks_to_find_changes_nothing() {
    let env = surroundings();
    let mut sync = sync_with_peers(WarpSync::Disabled, &[1, 2]);
    assert!(run(&mut sync, &env, vec![Task::ContinueSync], 0).is_empty());
    assert_eq!(sync.state, SyncState::Idle);
    assert_eq!(sync.active_peers.len(), 2);

    sync.state = SyncState::Blocks;
    let log = run(&mut sync, &env, vec![Task::ContinueSync], 0);
    assert_eq!(log, vec!["ResetNewBlocks"]);
    assert_eq!(sync.state, SyncState::Idle);
}

#[test]
fn peers_without_new_blocks_are_asked_for_old_ones() {
    let env = surroundings();
    let mut sync = sync_with_peers(WarpSync::Disabled, &[1, 2]);
    sync.old_blocks = Some(old_blocks());
    let log = run(&mut sync, &env, vec![Task::ContinueSync], 1);
    assert_eq!(log.len(), 2);
    assert!(log.iter().any(|entry| entry.starts_with("NewBlocks from ")));
    assert!(log
        .iter()
        .any(|entry| entry.starts_with("OldBlocks from ") && entry.ends_with(": 77")));
    assert_eq!(sync.state, SyncState::Blocks);
}

#[test]
fn worse_peers_are_deactivated() {
    let env = surroundings();
    let mut sync = sync_with_peers(WarpSync::Disabled, &[1]);
    sync.old_blocks = Some(old_blocks());
    sync.peers.get_mut(&1).unwrap().difficulty = Some(U256([1, 0, 0, 0]));
    assert!(run(&mut sync, &env, vec![Task::ContinueSync], 5).is_empty());
    assert!(sync.active_peers.is_empty());
}

#[test]
fn question_without_reply_is_asked_again() {
    let env = surroundings();
    let mut sync = sync_with_peers(WarpSync::Disabled, &[1]);
    let mut agenda = Agenda::new(vec![Task::SyncPeer { peer_id: 1, force: false }]);
    let step: Step<u32, _> = sync.advance(&mut agenda, &env, Reply::Done);
    assert!(matches!(step, Step::Silent));
    for _ in 0..3 {
        let step: Step<u32, _> = sync.advance(&mut agenda, &env, Reply::Done);
        match step {
            Step::Act(Action::BlockStatus { hash: asked }) => assert_eq!(asked, hash(1)),
            _ => panic!(),
        }
    }
    let step = sync.advance(&mut agenda, &env, Reply::<u32>::BlockStatus { unknown: true });
    assert!(matches!(step, Step::Silent));
    let step: Step<u32, _> = sync.advance(&mut agenda, &env, Reply::Done);
    assert!(matches!(
        step,
        Step::Act(Action::FindBlocks { block_set: BlockSet::NewBlocks, num_active_peers: 0 })
    ));
    let step = sync.advance(&mut agenda, &env, Reply::Request(Some(5u32)));
    assert!(matches!(
        step,
        Step::Act(Action::RequestBlocks { peer_id: 1, request: 5, block_set: BlockSet::NewBlocks })
    ));
    assert_eq!(sync.state, SyncState::Idle);
    let step: Step<u32, _> = sync.advance(&mut agenda, &env, Reply::Done);
    assert!(matches!(step, Step::Silent));
    assert_eq!(sync.state, SyncState::Blocks);
    let step: Step<u32, _> = sync.advance(&mut agenda, &env, Reply::Done);
    assert!(matches!(step, Step::Finished));
}

#[test]
fn aborted_sync_has_no_peers() {
    let env = surroundings();
    let mut sync = sync_with_peers(WarpSync::Disabled, &[1, 2, 3]);
    for id in 1..4 {
        sync.peers.get_mut(&id).unwrap().difficulty = Some(U256([101, 0, 0, 0]));
    }
    sync.state = SyncState::SnapshotData;
    let jobs = sync.abort(&env.chain);
    let log = run(&mut sync, &env, jobs, 1);
    assert_eq!(log.len(), 4);
    assert_eq!(log[..3], ["AbortRestore", "ClearSnapshot", "ResetNewBlocks"]);
    assert!(log[3].starts_with("NewBlocks from "));
    assert!(sync.peers.is_empty());
    assert_eq!(sync.active_peers.len(), 3);
}

#[test]
fn snapshot_sync_asks_supporters_for_the_manifest() {
    let env = surroundings();
    let mut sync = sync_with_peers(WarpSync::Enabled, &[1, 2, 3]);
    for id in 1..4 {
        let peer = sync.peers.get_mut(&id).unwrap();
        peer.snapshot_hash = Some(hash(42));
        peer.snapshot_number = Some(100000);
    }
    sync.peers.get_mut(&2).unwrap().asking = PeerAsking::ForkHeader;
    let jobs = sync.maintain_sync(&env);
    let mut log = run(&mut sync, &env, jobs, 0);
    log.sort();
    assert_eq!(
        log,
        vec![
            "RequestSnapshotManifest { peer_id: 1 }",
            "RequestSnapshotManifest { peer_id: 3 }",
        ]
    );
    assert_eq!(sync.state, SyncState::SnapshotManifest);
}

#[test]
fn sync_without_snapshots_turns_to_blocks_after_waiting() {
    let env = surroundings();
    let mut sync = sync_with_peers(WarpSync::Enabled, &[1]);
    sync.sync_start_time = Some(0);
    let log = run(&mut sync, &env, vec![Task::ContinueSync], 1);
    assert_eq!(log, vec!["NewBlocks from 1: 0"]);
    assert_eq!(sync.state, SyncState::Blocks);
}

#[test]
fn warp_only_sync_asks_for_no_blocks() {
    let env = surroundings();
    let mut sync = sync_with_peers(WarpSync::OnlyAndAfter(1000), &[1, 2]);
    sync.sync_start_time = Some(0);
    assert!(run(&mut sync, &env, vec![Task::ContinueSync, Task::CheckResume], 5).is_empty());
    assert_eq!(sync.state, SyncState::WaitingPeers);
}

#[test]
fn sync_without_warp_ignores_snapshots() {
    let env = surroundings();
    let mut sync = sync_with_peers(WarpSync::Disabled, &[1, 2, 3]);
    for id in 1..4 {
        let peer = sync.peers.get_mut(&id).unwrap();
        peer.snapshot_hash = Some(hash(42));
        peer.snapshot_number = Some(100000);
    }
    let jobs = sync.maintain_sync(&env);
    assert!(run(&mut sync, &env, jobs, 0).is_empty());
    assert_eq!(sync.state, SyncState::Idle);
}

#[test]
fn restored_snapshot_continues_with_blocks() {
    let env = surroundings();
    let mut sync = sync_with_peers(WarpSync::OnlyAndAfter(50), &[1]);
    sync.peers.get_mut(&1).unwrap().difficulty = Some(U256([101, 0, 0, 0]));
    sync.state = SyncState::SnapshotWaiting;
    let log = run(&mut sync, &env, vec![Task::CheckResume], 1);
    assert_eq!(log.len(), 5);
    assert!(log[0].starts_with("StartDownload { block_set: NewBlocks"));
    assert_eq!(log[1..4], ["DropOldBlocks", "ClearSnapshot", "ResetNewBlocks"]);
    assert_eq!(log[4], "NewBlocks from 1: 0");
    assert_eq!(sync.state, SyncState::Blocks);
}

#[test]
fn peers_of_unknown_difficulty_count_as_up_to_date_after_a_reset() {
    let env = surroundings();
    let mut sync = sync_with_peers(WarpSync::Disabled, &[1]);
    let jobs = sync.reset_and_continue(&env.chain);
    let log = run(&mut sync, &env, jobs, 1);
    assert_eq!(log, vec!["ClearSnapshot", "ResetNewBlocks"]);
    assert_eq!(sync.peers[&1].difficulty.unwrap().0, [100, 0, 0, 0]);
}

#[test]
fn bad_block_is_answered_by_a_restart() {
    let env = surroundings();
    let mut sync = sync_with_peers(WarpSync::Disabled, &[1]);
    sync.state = SyncState::Blocks;
    sync.new_blocks.start_number = 3;
    sync.peers.get_mut(&1).unwrap().asking = PeerAsking::BlockBodies;
    let log = run(&mut sync, &env, vec![Task::Restart], 1);
    assert_eq!(log.len(), 4);
    assert_eq!(sync.new_blocks.start_number, 50);
    assert!(sync.peers[&1].expired);
    assert_eq!(sync.state, SyncState::Idle);
}

#[test]
fn silent_peers_lead_to_disconnections_in_order() {
    let env = surroundings();
    let mut sync = sync_with_peers(WarpSync::Disabled, &[1]);
    sync.peers.get_mut(&1).unwrap().asking = PeerAsking::BlockBodies;
    let jobs = sync.maintain_peers(env.now);
    let log = run(&mut sync, &env, jobs, 0);
    assert_eq!(log, vec!["DisconnectPeer { peer_id: 1 }", "AbortPeer { peer_id: 1 }"]);
}

#[test]
fn step_that_cannot_be_computed_is_noticed() {
    let mut env = surroundings();
    env.snapshot.snapshot_hash = Some(hash(42));
    env.service.status =
        RestorationStatus::Ongoing { state_chunks_done: 1, block_chunks_done: 0 };
    let mut sync = sync_with_peers(WarpSync::Enabled, &[1]);
    let agenda = Agenda::new(vec![Task::SyncPeer { peer_id: 1, force: false }]);
    assert!(sync.can_advance(&agenda, &env));
    sync.state = SyncState::SnapshotData;
    assert!(sync.can_advance(&agenda, &env));
    sync.peers.get_mut(&1).unwrap().snapshot_hash = Some(hash(42));
    assert!(!sync.can_advance(&agenda, &env));
    let agenda = Agenda::new(vec![Task::CheckResume]);
    assert!(sync.can_advance(&agenda, &env));
    sync.state = SyncState::SnapshotWaiting;
    assert!(!sync.can_advance(&agenda, &env));
    env.snapshot.is_complete = true;
    assert!(sync.can_advance(&agenda, &env));
}

#[test]
fn command_is_handed_out_as_it_is() {
    let env = surroundings();
    let mut sync = sync_with_peers(WarpSync::Disabled, &[]);
    let mut agenda = Agenda::new(vec![Task::Perform(Command::AbortPeer { peer_id: 8 })]);
    let step: Step<u32, _> = sync.advance(&mut agenda, &env, Reply::Done);
    assert!(matches!(step, Step::Act(Action::Perform(Command::AbortPeer { peer_id: 8 }))));
    assert!(agenda.is_done());
}

#[test]
fn steps_leave_the_configuration_alone() {
    let env = surroundings();
    let mut sync = sync_with_peers(WarpSync::OnlyAndAfter(20), &[1, 2]);
    sync.fork_block = Some((7, hash(7)));
    sync.highest_block = Some(60);
    sync.sync_start_time = Some(3);
    sync.handshaking_peers.insert(9, 4);
    let jobs = vec![
        Task::Restart,
        Task::MaybeStartSnapshotSync,
        Task::CheckResume,
        Task::Rebroadcast,
        Task::CheckHandshakes { tick: 5 },
    ];
    run(&mut sync, &env, jobs, 1);
    assert_eq!(sync.network_id, 1);
    assert_eq!(sync.fork_block, Some((7, hash(7))));
    assert_eq!(sync.highest_block, Some(60));
    assert_eq!(sync.starting_block, 50);
    assert_eq!(sync.last_sent_block_number, 0);
    assert_eq!(sync.sync_start_time, Some(3));
    assert_eq!(sync.handshaking_peers.len(), 1);
    assert!(sync.download_old_blocks);
    assert!(matches!(sync.warp_sync, WarpSync::OnlyAndAfter(20)));
    assert_eq!(sync.peers.len(), 2);
}

#[test]
fn later_tasks_wait_for_what_earlier_ones_lead_to() {
    let env = surroundings();
    let mut sync = sync_with_peers(WarpSync::Disabled, &[1, 2, 3]);
    let jobs = vec![Task::ContinueSync, Task::Perform(Command::AbortPeer { peer_id: 9 })];
    let log = run(&mut sync, &env, jobs, 3);
    assert_eq!(log.len(), 4);
    assert_eq!(log[3], "AbortPeer { peer_id: 9 }");
}

#[test]
fn many_rounds_come_to_an_end() {
    let env = surroundings();
    let mut sync = sync_with_peers(WarpSync::Enabled, &[1, 2, 3, 4, 5]);
    for id in 1..6 {
        sync.peers.get_mut(&id).unwrap().difficulty = Some(U256([100, 0, 0, 0]));
    }
    sync.sync_start_time = Some(0);
    assert!(run(&mut sync, &env, vec![Task::ContinueSync, Task::ContinueSync], 0).is_empty());
    assert_eq!(sync.state, SyncState::Idle);
}

#[test]
fn handshakes_without_status_are_dropped_after_five_seconds() {
    let mut env = surroundings();
    let mut sync = sync_with_peers(WarpSync::Disabled, &[]);
    let asked = 1_000_000_000;
    sync.handshaking_peers.insert(7, asked);
    env.now = asked + 5_000_000_000;
    let jobs = sync.maintain_peers(env.now);
    assert!(run(&mut sync, &env, jobs, 0).is_empty());
    env.now = asked + 6_000_000_000;
    let jobs = sync.maintain_peers(env.now);
    assert_eq!(run(&mut sync, &env, jobs, 0), vec!["DisconnectPeer { peer_id: 7 }"]);
}

#[test]
fn higher_versions_are_asked_first() {
    let env = surroundings();
    let mut sync = sync_with_peers(WarpSync::Disabled, &[1, 2, 3]);
    sync.peers.get_mut(&1).unwrap().protocol_version = 2;
    sync.peers.get_mut(&2).unwrap().protocol_version = 63;
    sync.peers.get_mut(&3).unwrap().protocol_version = 1;
    let log = run(&mut sync, &env, vec![Task::ContinueSync], 3);
    assert_eq!(log, vec!["NewBlocks from 2: 2", "NewBlocks from 1: 1", "NewBlocks from 3: 0"]);
}

#[test]
fn two_rounds_ask_no_peer_twice() {
    let env = surroundings();
    let mut sync = sync_with_peers(WarpSync::Disabled, &[1, 2]);
    let log = run(&mut sync, &env, vec![Task::ContinueSync, Task::ContinueSync], 9);
    assert_eq!(log.len(), 2);
    assert_eq!(sync.state, SyncState::Blocks);
}

#[test]
fn resumed_sync_does_not_stay_paused() {
    let env = surroundings();
    let mut sync = sync_with_peers(WarpSync::Disabled, &[1]);
    sync.state = SyncState::Waiting;
    let log = run(&mut sync, &env, vec![Task::CheckResume], 1);
    assert_eq!(log, vec!["NewBlocks from 1: 0"]);
    assert_eq!(sync.state, SyncState::Blocks);

    let mut sync = sync_with_peers(WarpSync::Disabled, &[1]);
    sync.state = SyncState::Waiting;
    assert_eq!(run(&mut sync, &env, vec![Task::CheckResume], 0), vec!["ResetNewBlocks"]);
    assert_eq!(sync.state, SyncState::Idle);
}

#[test]
fn bad_block_among_new_ones_leaves_a_restarted_sync() {
    let env = surroundings();
    let mut sync = sync_with_peers(WarpSync::Disabled, &[1]);
    sync.state = SyncState::NewBlocks;
    sync.peers.get_mut(&1).unwrap().last_sent_transactions.insert(hash(1));
    let queue_info = BlockQueueInfo {
        unverified_queue_size: 0,
        verified_queue_size: 0,
        verifying_queue_size: 0,
        max_queue_size: 1000,
        max_mem_use: 1000,
        mem_used: 500,
    };
    let jobs = sync.chain_new_blocks(
        queue_info,
        &[],
        &[hash(2)],
        &[hash(3)],
        &[],
        vec![],
        vec![],
    );
    let log = run(&mut sync, &env, jobs, 0);
    assert_eq!(log.len(), 6);
    assert!(log[0].starts_with("PropagateLatestBlocks"));
    assert!(log[2].starts_with("StartDownload { block_set: NewBlocks"));
    assert_eq!(sync.state, SyncState::Idle);
    assert_eq!(sync.peers[&1].last_sent_transactions.len(), 0);
}

#[test]
fn requested_manifests_are_awaited() {
    let env = surroundings();
    let mut sync = sync_with_peers(WarpSync::Enabled, &[1, 2]);
    let jobs = sync.start_snapshot_sync(false, &vec![2, 9, 1]);
    let log = run(&mut sync, &env, jobs, 0);
    assert_eq!(
        log,
        vec![
            "RequestSnapshotManifest { peer_id: 2 }",
            "RequestSnapshotManifest { peer_id: 1 }",
        ]
    );
    assert_eq!(sync.state, SyncState::SnapshotManifest);
}
