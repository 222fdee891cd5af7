//! What holds of the synchronisation strategy as a whole.

use vstd::prelude::*;
use crate::agenda::{Action, Command, JobModel, OrderModel, Reply, Step, Task, Visit};
use crate::handshake::{next_stage, status_fields, status_version, Dispatch};
use crate::peer::{bit_set, BlockSet, PeerModel};
use crate::peers::{lemma_lists_len, lists};
use crate::primitives::{BlockChainInfo, BlockNumber, PeerId, Timestamp, H256, U256};
use crate::protocol::{
    PAR_PROTOCOL_VERSION_2, PAR_PROTOCOL_VERSION_3, SNAPSHOT_MIN_PEERS, SNAPSHOT_RESTORE_THRESHOLD,
};
use crate::status::{major_sync, SyncState, SyncStatus};
use crate::strategy::{ids_of, timeout_plan, visit_plan};
use crate::sync::{
    init_state, new_blocks_setup, old_blocks_setup, ProgressReport, Surroundings, SyncModel,
};

verus! {

// Peers.

/// After a reset no peer works on new blocks, every connected peer is active, and a peer that
/// works on old blocks has not been disturbed.
pub proof fn reset_starts_afresh(sync: SyncModel, chain: BlockChainInfo)
    ensures
        !sync.reset(chain).any_busy(),
        sync.reset(chain).peers.dom() == sync.peers.dom(),
        sync.reset(chain).active_peers == sync.peers.dom(),
        sync.reset(chain).state == init_state(sync.warp_sync, chain.best_block_number),
        forall|id: PeerId| #[trigger]
            sync.peers.contains_key(id) && sync.peers[id].block_set == Some(BlockSet::OldBlocks)
                ==> sync.reset(chain).peers[id] == sync.peers[id],
{
    let post = sync.reset(chain);
    assert(post.peers.dom() =~= sync.peers.dom());
    assert forall|id: PeerId| #[trigger] post.peers.contains_key(id) implies
        !post.peers[id].busy_with_new_blocks() by {
        assert(sync.peers.contains_key(id));
    }
}

/// A second reset changes nothing.
pub proof fn reset_is_idempotent(sync: SyncModel, chain: BlockChainInfo)
    ensures
        sync.reset(chain).reset(chain) == sync.reset(chain),
{
    let once = sync.reset(chain);
    let twice = once.reset(chain);
    assert(once.peers.dom() =~= sync.peers.dom());
    assert(twice.peers =~= once.peers) by {
        assert forall|id: PeerId| #[trigger] once.peers.contains_key(id) implies twice.peers[id]
            == once.peers[id] by {
            assert(sync.peers.contains_key(id));
            assert(twice.peers[id] =~= once.peers[id]);
        }
    }
    assert(twice.active_peers =~= once.active_peers);
}

/// After a reset every peer's difficulty is known, unless the peer works on old blocks.
pub proof fn reset_settles_difficulties(sync: SyncModel, chain: BlockChainInfo, id: PeerId)
    requires
        sync.peers.contains_key(id),
        sync.peers[id].block_set != Some(BlockSet::OldBlocks),
    ensures
        sync.reset(chain).peers[id].difficulty == Some(
            match sync.peers[id].difficulty {
                Some(known) => known,
                None => chain.pending_total_difficulty,
            },
        ),
{
}

/// A peer that was deactivated is active again after the next reset, if it is still connected.
pub proof fn deactivation_lasts_until_reset(sync: SyncModel, chain: BlockChainInfo, id: PeerId)
    ensures
        !sync.deactivated(id).active_peers.contains(id),
        sync.deactivated(id).reset(chain) == sync.reset(chain),
        sync.deactivated(id).reset(chain).active_peers.contains(id) <==> sync.peers.contains_key(
            id,
        ),
{
}

/// Once a peer has answered, it is idle, and it takes part in the sync if its fork is confirmed. A
/// second answer changes nothing.
pub proof fn answer_frees_peer(peer: PeerModel)
    ensures
        peer.answered().asking is Nothing,
        peer.answered().allowed() <==> peer.confirmation is Confirmed,
        !peer.answered().busy_with_new_blocks(),
        peer.answered().answered() == peer.answered(),
{
}

/// A request that is under way when its peer is reset expires, and its peer takes no part in the
/// sync until it has answered.
pub proof fn reset_request_expires(peer: PeerModel, difficulty: U256)
    requires
        peer.allowed(),
        !(peer.asking is Nothing),
        peer.block_set != Some(BlockSet::OldBlocks),
    ensures
        !peer.sync_reset(difficulty).allowed(),
        peer.sync_reset(difficulty).answered().allowed(),
{
}

/// A peer of which nothing is asked never times out; one that has timed out stays so as time
/// goes on.
pub proof fn timeouts_last(peer: PeerModel, earlier: Timestamp, later: Timestamp)
    requires
        earlier <= later,
    ensures
        peer.asking is Nothing ==> !peer.timed_out(later),
        peer.timed_out(earlier) ==> peer.timed_out(later),
        peer.timed_out(later) ==> later > peer.ask_time,
{
}

/// Peers that take private transactions take consensus messages too.
pub proof fn private_transaction_peers_take_consensus(sync: SyncModel)
    ensures
        sync.speaking(PAR_PROTOCOL_VERSION_3).subset_of(sync.speaking(PAR_PROTOCOL_VERSION_2)),
{
}

// Requests.

/// Whether the task asks something of the peer.
pub open spec fn concerns(job: JobModel, id: PeerId) -> bool {
    match job {
        Task::AskBlockStatus(visit) => visit.peer_id == id,
        Task::AskNewBlocks(visit) => visit.peer_id == id,
        Task::AskOldBlocks(visit) => visit.peer_id == id,
        Task::Perform(Command::RequestSnapshotManifest { peer_id }) => peer_id == id,
        Task::Perform(Command::RequestSnapshotBitfield { peer_id }) => peer_id == id,
        Task::Perform(Command::RequestSnapshotData { peer_id }) => peer_id == id,
        _ => false,
    }
}

/// A visit asks something only of the peer that is visited, and only while that peer is
/// connected, active, idle and takes part in the sync, and the sync is not paused.
pub proof fn only_idle_active_peers_are_asked(
    sync: SyncModel,
    env: Surroundings,
    visited: PeerId,
    force: bool,
    asked: PeerId,
    i: int,
)
    requires
        0 <= i < sync.sync_peer(env, visited, force).1.len(),
        concerns(sync.sync_peer(env, visited, force).1[i], asked),
    ensures
        asked == visited,
        sync.considers(asked),
        sync.visitable().contains(asked),
{
    let todo = sync.sync_peer(env, visited, force).1;
    if sync.considers(visited) {
        assert(sync.clear_download_orders(visited).len() == 0);
    }
}

/// A paused sync asks nothing of any peer: visits and the end of a round leave it as it is.
pub proof fn paused_sync_stands_still(
    sync: SyncModel,
    env: Surroundings,
    id: PeerId,
    force: bool,
)
    requires
        sync.state is Waiting || sync.state is SnapshotInit || sync.state is SnapshotWaiting,
    ensures
        sync.sync_peer(env, id, force).0 == sync,
        sync.sync_peer(env, id, force).1.len() == 0,
        sync.finish_round(env.chain).0 == sync,
        sync.finish_round(env.chain).1.len() == 0,
{
}

/// While blocks are downloaded a full block queue pauses the sync at the next visit that would
/// ask for blocks, and once there is room again the sync goes on downloading.
pub proof fn full_queue_pauses_until_there_is_room(
    sync: SyncModel,
    env: Surroundings,
    later: Surroundings,
    id: PeerId,
    force: bool,
)
    requires
        sync.state is Idle || sync.state is Blocks || sync.state is NewBlocks,
        sync.considers(id),
        force || sync.old_blocks is Some || sync.peers[id].higher_difficulty(
            env.chain.pending_total_difficulty,
        ),
        env.queue_full,
    ensures
        ({
            let (paused, todo) = sync.sync_peer(env, id, force);
            &&& paused == sync.in_state(SyncState::Waiting)
            &&& todo.len() == 0
            &&& later.queue_full ==> paused.check_resume(later).0 == paused
                && paused.check_resume(later).1.len() == 0
            &&& !later.queue_full ==> paused.check_resume(later).0 == sync.in_state(
                SyncState::Blocks,
            ) && paused.check_resume(later).1 =~= seq![Task::ContinueSync]
        }),
{
}

/// While snapshot chunks are downloaded, too many that are not yet restored pause the sync; it
/// goes on once fewer are, unless the snapshot is complete by then.
pub proof fn restoration_lag_pauses_snapshot_sync(
    sync: SyncModel,
    env: Surroundings,
    later: Surroundings,
    id: PeerId,
    force: bool,
)
    requires
        sync.visit_reads_gap(env, id),
        env.too_far_ahead(),
        later.service.status is Ongoing,
    ensures
        ({
            let (paused, todo) = sync.sync_peer(env, id, force);
            &&& paused == sync.in_state(SyncState::SnapshotWaiting)
            &&& todo.len() == 0
            &&& later.too_far_ahead() || later.snapshot.is_complete ==> paused.check_resume(
                later,
            ).0 == paused && paused.check_resume(later).1.len() == 0
            &&& !later.too_far_ahead() && !later.snapshot.is_complete ==> paused.check_resume(
                later,
            ).0 == sync && paused.check_resume(later).1 =~= seq![Task::ContinueSync]
        }),
{
}

/// Nothing is marked as being downloaded by an idle peer, so a visit of a peer that has the
/// snapshot asks for a chunk and does nothing else.
pub proof fn idle_peer_has_nothing_to_clear(sync: SyncModel, id: PeerId)
    requires
        sync.peers.contains_key(id) ==> sync.peers[id].asking is Nothing,
    ensures
        sync.clear_download_orders(id).len() == 0,
{
}

/// Once it is known whether the peer's best block is known here, new blocks are looked for only
/// where it is not; and a peer that is no better than our chain is asked for no old blocks.
pub proof fn known_blocks_are_not_asked_for(sync: SyncModel, visit: Visit, unknown: bool)
    ensures
        !unknown ==> sync.with_block_status(visit, unknown) == sync.turn_to_old_blocks(visit),
        !(visit.force || visit.higher_difficulty) ==> sync.turn_to_old_blocks(visit).1.len() == 0
            && !sync.turn_to_old_blocks(visit).0.active_peers.contains(visit.peer_id),
        sync.old_blocks is None ==> sync.turn_to_old_blocks(visit).1.len() == 0,
{
}

/// The way from a visit to a request for new blocks: a peer that may be asked, is better than our
/// chain or visited by force, and has a best block that is unknown here, is asked for the blocks
/// that the downloader finds, after which the sync is one that downloads blocks.
pub proof fn better_peers_are_asked_for_new_blocks<R>(
    sync: SyncModel,
    env: Surroundings,
    id: PeerId,
    force: bool,
    request: R,
)
    requires
        sync.state is Idle || sync.state is Blocks || sync.state is NewBlocks,
        sync.considers(id),
        force || sync.peers[id].higher_difficulty(env.chain.pending_total_difficulty),
        !env.queue_full,
    ensures
        ({
            let visit = sync.visit(env.chain, id, force);
            let ask_status = Task::<OrderModel>::AskBlockStatus(visit);
            let ask_new = Task::<OrderModel>::AskNewBlocks(visit);
            let note = Task::<OrderModel>::NewBlocksRequested;
            let found = Reply::Request(Some(request));
            let sent = Step::<R, OrderModel>::Act(
                Action::RequestBlocks { peer_id: id, request, block_set: BlockSet::NewBlocks },
            );
            let downloading = if sync.state is Idle {
                sync.in_state(SyncState::Blocks)
            } else {
                sync
            };
            &&& sync.sync_peer(env, id, force) == (sync, seq![ask_status])
            &&& sync.does(
                env,
                ask_status,
                Reply::<R>::BlockStatus { unknown: true },
                sync,
                seq![ask_new],
                Step::Silent,
            )
            &&& sync.does(env, ask_new, found, sync, seq![note], sent)
            &&& sync.does(
                env,
                note,
                Reply::<R>::Done,
                downloading,
                Seq::empty(),
                Step::Silent,
            )
            &&& visit.peer_id == id && visit.latest_hash == sync.peers[id].latest_hash
        }),
{
}

/// The way from a visit to a request for old blocks: where no new blocks are found, or the peer's
/// best block is known, a peer that is better than our chain or visited by force is asked for old
/// blocks, if they are being downloaded.
pub proof fn better_peers_are_asked_for_old_blocks<R>(
    sync: SyncModel,
    env: Surroundings,
    id: PeerId,
    force: bool,
    request: R,
)
    requires
        sync.state is Idle || sync.state is Blocks || sync.state is NewBlocks,
        sync.considers(id),
        force || sync.peers[id].higher_difficulty(env.chain.pending_total_difficulty),
        !env.queue_full,
        sync.old_blocks is Some,
    ensures
        ({
            let visit = sync.visit(env.chain, id, force);
            let ask_status = Task::<OrderModel>::AskBlockStatus(visit);
            let ask_new = Task::<OrderModel>::AskNewBlocks(visit);
            let ask_old = Task::<OrderModel>::AskOldBlocks(visit);
            let known = Reply::<R>::BlockStatus { unknown: false };
            let none = Reply::<R>::Request(None);
            let sent = Step::<R, OrderModel>::Act(
                Action::RequestBlocks { peer_id: id, request, block_set: BlockSet::OldBlocks },
            );
            &&& sync.does(env, ask_status, known, sync, seq![ask_old], Step::Silent)
            &&& sync.does(env, ask_new, none, sync, seq![ask_old], Step::Silent)
            &&& sync.does(
                env,
                ask_old,
                Reply::Request(Some(request)),
                sync,
                Seq::empty(),
                sent,
            )
        }),
{
}

// Rounds.

/// When downloading is resumed, each active peer that takes part in the sync is visited once,
/// and the round ends after the last visit.
pub proof fn round_visits_every_peer_once(sync: SyncModel, todo: Seq<JobModel>)
    requires
        sync.resumes_with(todo),
    ensures
        todo.len() == sync.visitable().len() + 1,
        todo.last() is FinishRound,
        forall|id: PeerId| #[trigger]
            sync.visitable().contains(id) <==> exists|i: int|
                0 <= i < todo.len() && #[trigger] todo[i] == (Task::SyncPeer::<OrderModel> {
                    peer_id: id,
                    force: false,
                }),
        forall|i: int, j: int|
            0 <= i < j < todo.len() - 1 ==> #[trigger] todo[i] != #[trigger] todo[j],
{
    let order = choose|order: Seq<(PeerId, u8)>|
        sync.visit_list(order) && crate::order::sorted_by_version(order) && #[trigger] visit_plan(
            order,
        ) == todo;
    let ids = ids_of(order);
    lemma_lists_len(ids, sync.visitable());
    assert forall|i: int| 0 <= i < order.len() implies #[trigger] todo[i] == (Task::SyncPeer::<
        OrderModel,
    > { peer_id: ids[i], force: false }) by {}
    assert forall|id: PeerId| #[trigger]
        sync.visitable().contains(id) <==> exists|i: int|
            0 <= i < todo.len() && #[trigger] todo[i] == (Task::SyncPeer::<OrderModel> {
                peer_id: id,
                force: false,
            }) by {
        assert(sync.visitable().contains(id) == ids.to_set().contains(id));
        if ids.contains(id) {
            let i = choose|i: int| 0 <= i < ids.len() && ids[i] == id;
            assert(todo[i] == (Task::SyncPeer::<OrderModel> { peer_id: id, force: false }));
        }
        if exists|i: int|
            0 <= i < todo.len() && #[trigger] todo[i] == (Task::SyncPeer::<OrderModel> {
                peer_id: id,
                force: false,
            }) {
            let i = choose|i: int|
                0 <= i < todo.len() && #[trigger] todo[i] == (Task::SyncPeer::<OrderModel> {
                    peer_id: id,
                    force: false,
                });
            assert(i < order.len());
            assert(ids[i] == id);
        }
    }
    assert forall|i: int, j: int| 0 <= i < j < todo.len() - 1 implies #[trigger] todo[i]
        != #[trigger] todo[j] by {
        assert(ids[i] != ids[j]);
    }
}

/// After the end of a round, a sync that is still downloading blocks has a peer that works on
/// them. Where it would have none, the sync is complete: it starts afresh, with every connected
/// peer active.
pub proof fn round_ends_with_a_busy_peer_or_a_reset(sync: SyncModel, chain: BlockChainInfo)
    ensures
        ({
            let post = sync.finish_round(chain).0;
            &&& post.state is Blocks || post.state is NewBlocks ==> post.any_busy()
            &&& (sync.state is Blocks || sync.state is NewBlocks) && !sync.any_busy() ==> post
                == sync.reset(chain) && post.state == init_state(
                sync.warp_sync,
                chain.best_block_number,
            ) && post.active_peers == sync.peers.dom()
            &&& !((sync.state is Blocks || sync.state is NewBlocks) && !sync.any_busy()) ==> post
                == sync
        }),
{
}

/// A bad block in the queue leads to a restart. A restart begins the download of new blocks at
/// our best block, gives up the snapshot, resets every peer, and goes on downloading.
pub proof fn bad_block_restarts_from_best_block(
    sync: SyncModel,
    queued: int,
    enacted: bool,
    sealed: Seq<H256>,
    proposed: Seq<Vec<u8>>,
    chain: BlockChainInfo,
)
    ensures
        ({
            let todo = sync.new_blocks_orders(queued, true, enacted, sealed, proposed);
            exists|i: int| 0 <= i < todo.len() && #[trigger] todo[i] is Restart
        }),
        ({
            let post = sync.retargeted(chain).reset(chain);
            &&& post.new_blocks.start_hash == chain.best_block_hash
            &&& post.new_blocks.start_number == chain.best_block_number
            &&& post.state == init_state(sync.warp_sync, chain.best_block_number)
            &&& post.active_peers == sync.peers.dom()
            &&& !post.any_busy()
        }),
        ({
            let todo = sync.restart_orders(chain);
            &&& todo[0] == (Task::Perform::<OrderModel>(
                Command::StartDownload {
                    block_set: BlockSet::NewBlocks,
                    setup: new_blocks_setup(chain),
                },
            ))
            &&& todo.contains(Task::Perform(Command::ClearSnapshot))
            &&& todo.contains(Task::Perform(Command::ResetNewBlocks))
            &&& todo.last() is ContinueSync
        }),
{
    let todo = sync.new_blocks_orders(queued, true, enacted, sealed, proposed);
    let i: int = if !major_sync(sync.state, queued) || sealed.len() > 0 || proposed.len() > 0 {
        2
    } else {
        0
    };
    assert(todo[i] is Restart);
    reset_starts_afresh(sync.retargeted(chain), chain);
    let restart = sync.restart_orders(chain);
    let n = restart.len() as int;
    assert(restart[n - 3] == Task::<OrderModel>::Perform(Command::ClearSnapshot));
    assert(restart[n - 2] == Task::<OrderModel>::Perform(Command::ResetNewBlocks));
}

/// Blocks that were sealed or proposed here are propagated whatever the state of the sync;
/// without any, and without bad blocks, a sync that is a major one asks for nothing.
pub proof fn own_blocks_are_always_propagated(
    sync: SyncModel,
    queued: int,
    invalid: bool,
    enacted: bool,
    sealed: Seq<H256>,
    proposed: Seq<Vec<u8>>,
)
    ensures
        ({
            let todo = sync.new_blocks_orders(queued, invalid, enacted, sealed, proposed);
            &&& sealed.len() > 0 || proposed.len() > 0 ==> todo.len() >= 2 && todo[0]
                == Task::<OrderModel>::Perform(Command::PropagateLatestBlocks { sealed }) && todo[1]
                == Task::<OrderModel>::Perform(Command::PropagateProposedBlocks { proposed })
            &&& major_sync(sync.state, queued) && !invalid && sealed.len() == 0 && proposed.len()
                == 0 ==> todo.len() == 0
        }),
{
}

/// A choice of a peer to re-broadcast to forgets what was sent to that peer, and changes nothing
/// else.
pub proof fn rebroadcast_concerns_one_peer(sync: SyncModel, post: SyncModel)
    requires
        sync.rebroadcasts_to(post),
    ensures
        post == (SyncModel { peers: post.peers, ..sync }),
        post.peers.dom() == sync.peers.dom(),
        sync.peers.dom() != Set::<PeerId>::empty() ==> exists|id: PeerId| #[trigger]
            sync.peers.contains_key(id) && post.peers[id].last_sent_transactions == Set::<
                H256,
            >::empty() && forall|other: PeerId| #[trigger]
                sync.peers.contains_key(other) && other != id ==> post.peers[other]
                    == sync.peers[other],
{
    if sync.peers.dom() != Set::<PeerId>::empty() {
        let id = choose|id: PeerId| #[trigger]
            sync.peers.contains_key(id) && post == sync.sent_forgotten(id);
        assert(post.peers.dom() =~= sync.peers.dom());
        assert(sync.peers.contains_key(id));
        assert(post.peers[id].last_sent_transactions == Set::<H256>::empty());
    }
}

/// Peers that do not answer are disconnected, each before its loss is handled, and nobody else is.
pub proof fn only_silent_peers_are_disconnected(
    sync: SyncModel,
    now: Timestamp,
    todo: Seq<JobModel>,
    id: PeerId,
)
    requires
        sync.maintains_with(now, todo),
    ensures
        todo.contains(Task::Perform(Command::DisconnectPeer { peer_id: id }))
            <==> sync.timed_out_peers(now).contains(id),
        todo.contains(Task::Perform(Command::AbortPeer { peer_id: id }))
            <==> sync.timed_out_peers(now).contains(id),
        todo.last() == (Task::CheckHandshakes::<OrderModel> { tick: now }),
{
    let ids = choose|ids: Seq<PeerId>|
        lists(ids, sync.timed_out_peers(now)) && #[trigger] timeout_plan(ids, now) == todo;
    let n = ids.len() as int;
    assert(ids.contains(id) <==> ids.to_set().contains(id));
    assert forall|i: int| 0 <= i < n implies todo[i] == Task::<OrderModel>::Perform(
        Command::DisconnectPeer { peer_id: ids[i] },
    ) by {}
    assert forall|i: int| 0 <= i < n implies todo[n + i] == Task::<OrderModel>::Perform(
        Command::AbortPeer { peer_id: ids[i] },
    ) by {}
    if ids.contains(id) {
        let i = choose|i: int| 0 <= i < ids.len() && ids[i] == id;
        assert(todo[i] == Task::<OrderModel>::Perform(Command::DisconnectPeer { peer_id: id }));
        assert(todo[n + i] == Task::<OrderModel>::Perform(Command::AbortPeer { peer_id: id }));
    }
    if todo.contains(Task::Perform(Command::DisconnectPeer { peer_id: id })) {
        let i = choose|i: int|
            0 <= i < todo.len() && todo[i] == Task::<OrderModel>::Perform(
                Command::DisconnectPeer { peer_id: id },
            );
        if n <= i < 2 * n {
            assert(todo[n + (i - n)] is Perform);
        }
        assert(ids[i] == id);
    }
    if todo.contains(Task::Perform(Command::AbortPeer { peer_id: id })) {
        let i = choose|i: int|
            0 <= i < todo.len() && todo[i] == Task::<OrderModel>::Perform(
                Command::AbortPeer { peer_id: id },
            );
        assert(i < 2 * n);
        assert(todo[n + (i - n)] == todo[i]);
        assert(ids[i - n] == id);
    }
}

/// What a peer is known to have stays known; what was known already adds nothing.
pub proof fn received_transactions_add_up(
    sync: SyncModel,
    first: Set<H256>,
    second: Set<H256>,
    id: PeerId,
)
    requires
        sync.peers.contains_key(id),
    ensures
        sync.peers[id].last_sent_transactions.subset_of(
            sync.received(first, id).peers[id].last_sent_transactions,
        ),
        first.subset_of(sync.received(first, id).peers[id].last_sent_transactions),
        sync.received(first, id).received(second, id) == sync.received(first.union(second), id),
{
    let once = sync.received(first, id);
    let twice = once.received(second, id);
    let both = sync.received(first.union(second), id);
    assert(twice.peers[id] =~= both.peers[id]);
    assert(twice.peers =~= both.peers);
}

// Steps.

/// A step takes the next task off the agenda and puts only tasks in front of it: what was to
/// follow stays, in order.
pub proof fn step_keeps_what_follows<R>(
    sync: SyncModel,
    env: Surroundings,
    jobs: Seq<JobModel>,
    reply: Reply<R>,
    post: SyncModel,
    rest: Seq<JobModel>,
    step: Step<R, OrderModel>,
)
    requires
        sync.advances(env, jobs, reply, post, rest, step),
        jobs.len() > 0,
    ensures
        rest.len() >= jobs.len() - 1,
        rest.skip(rest.len() - (jobs.len() - 1)) == jobs.drop_first(),
{
    let todo = choose|todo: Seq<JobModel>| #[trigger]
        sync.does(env, jobs[0], reply, post, todo, step) && rest == todo + jobs.drop_first();
    assert(rest.skip(todo.len() as int) =~= jobs.drop_first());
}

/// Whether each agenda is what one step may make of the one before, whatever else happened in
/// between.
pub open spec fn successive(agendas: Seq<Seq<JobModel>>) -> bool {
    forall|i: int|
        0 <= i < agendas.len() - 1 ==> {
            let jobs = #[trigger] agendas[i];
            &&& jobs.len() > 0
            &&& agendas[i + 1].len() >= jobs.len() - 1
            &&& agendas[i + 1].skip(agendas[i + 1].len() - (jobs.len() - 1)) == jobs.drop_first()
        }
}

/// Whatever tasks lead to is done before the tasks that were to follow them: as long as the
/// agenda is longer than `later`, which stood at its end, `later` still stands there untouched.
pub proof fn later_tasks_wait(agendas: Seq<Seq<JobModel>>, later: Seq<JobModel>)
    requires
        successive(agendas),
        agendas.len() > 0,
        agendas[0].len() >= later.len(),
        agendas[0].skip(agendas[0].len() - later.len()) == later,
        forall|i: int| 0 <= i < agendas.len() - 1 ==> (#[trigger] agendas[i]).len() > later.len(),
    ensures
        agendas.last().len() >= later.len(),
        agendas.last().skip(agendas.last().len() - later.len()) == later,
    decreases agendas.len(),
{
    if agendas.len() > 1 {
        let before = agendas.drop_last();
        assert forall|i: int| 0 <= i < before.len() - 1 implies {
            let jobs = #[trigger] before[i];
            &&& jobs.len() > 0
            &&& before[i + 1].len() >= jobs.len() - 1
            &&& before[i + 1].skip(before[i + 1].len() - (jobs.len() - 1)) == jobs.drop_first()
        } by {
            assert(before[i] == agendas[i] && before[i + 1] == agendas[i + 1]);
        }
        assert(before[0] == agendas[0]);
        assert forall|i: int| 0 <= i < before.len() - 1 implies (#[trigger] before[i]).len()
            > later.len() by {
            assert(before[i] == agendas[i]);
        }
        later_tasks_wait(before, later);
        let jobs = before.last();
        let last = agendas.last();
        assert(jobs == agendas[agendas.len() - 2]);
        let kept = last.skip(last.len() - (jobs.len() - 1));
        assert(kept == jobs.drop_first());
        assert(last.skip(last.len() - later.len()) =~= kept.skip(kept.len() - later.len()));
        assert(kept.skip(kept.len() - later.len()) =~= jobs.skip(jobs.len() - later.len()));
    }
}

/// No step touches the configuration, the block numbers that the sync is measured by, or the
/// handshakes under way.
pub proof fn steps_keep_configuration<R>(
    sync: SyncModel,
    env: Surroundings,
    job: JobModel,
    reply: Reply<R>,
    post: SyncModel,
    todo: Seq<JobModel>,
    step: Step<R, OrderModel>,
)
    requires
        sync.does(env, job, reply, post, todo, step),
    ensures
        post == (SyncModel {
            state: post.state,
            peers: post.peers,
            active_peers: post.active_peers,
            new_blocks: post.new_blocks,
            old_blocks: post.old_blocks,
            ..sync
        }),
{
}

/// Only forgetting all peers changes which peers are connected, and no other step makes a peer
/// active that is not connected.
pub proof fn steps_keep_peers<R>(
    sync: SyncModel,
    env: Surroundings,
    job: JobModel,
    reply: Reply<R>,
    post: SyncModel,
    todo: Seq<JobModel>,
    step: Step<R, OrderModel>,
)
    requires
        sync.does(env, job, reply, post, todo, step),
        !(job is ForgetPeers),
    ensures
        post.peers.dom() == sync.peers.dom(),
        sync.active_peers.subset_of(sync.peers.dom()) ==> post.active_peers.subset_of(
            post.peers.dom(),
        ),
{
    assert(sync.reset(env.chain).peers.dom() =~= sync.peers.dom());
    assert(sync.retargeted(env.chain).reset(env.chain).peers.dom() =~= sync.peers.dom());
    if job is Rebroadcast {
        rebroadcast_concerns_one_peer(sync, post);
    }
}

/// The downloads are set up anew only by a restart, and then from the ends of our chain.
pub proof fn downloads_move_only_by_restart<R>(
    sync: SyncModel,
    env: Surroundings,
    job: JobModel,
    reply: Reply<R>,
    post: SyncModel,
    todo: Seq<JobModel>,
    step: Step<R, OrderModel>,
)
    requires
        sync.does(env, job, reply, post, todo, step),
    ensures
        post.new_blocks == sync.new_blocks && post.old_blocks == sync.old_blocks || (
        post.new_blocks == new_blocks_setup(env.chain) && post.old_blocks == old_blocks_setup(
            sync.download_old_blocks,
            env.chain,
        ) && todo == sync.restart_orders(env.chain)),
        !sync.download_old_blocks && sync.old_blocks is None ==> post.old_blocks is None,
{
}

/// Blocks are requested only once a downloader has said which, and from the peer whose visit led
/// to the question.
pub proof fn requests_follow_questions<R>(
    sync: SyncModel,
    env: Surroundings,
    job: JobModel,
    reply: Reply<R>,
    post: SyncModel,
    todo: Seq<JobModel>,
    peer_id: PeerId,
    request: R,
    block_set: BlockSet,
)
    requires
        sync.does(
            env,
            job,
            reply,
            post,
            todo,
            Step::Act(Action::RequestBlocks { peer_id, request, block_set }),
        ),
    ensures
        reply == Reply::Request(Some(request)),
        match block_set {
            BlockSet::NewBlocks => job matches Task::AskNewBlocks(visit) && visit.peer_id
                == peer_id,
            BlockSet::OldBlocks => job matches Task::AskOldBlocks(visit) && visit.peer_id
                == peer_id,
        },
        post == sync,
{
}

/// Aborting the sync ends with forgetting all peers, after which none is left.
pub proof fn abort_leaves_no_peers<R>(
    sync: SyncModel,
    env: Surroundings,
    reply: Reply<R>,
    post: SyncModel,
    todo: Seq<JobModel>,
    step: Step<R, OrderModel>,
)
    requires
        sync.does(env, Task::ForgetPeers, reply, post, todo, step),
    ensures
        sync.reset_and_continue_orders().push(Task::ForgetPeers).last() is ForgetPeers,
        post.peers == Map::<PeerId, PeerModel>::empty(),
        post.visitable() == Set::<PeerId>::empty(),
        !post.any_busy(),
        todo.len() == 0,
{
    assert(post.visitable() =~= Set::<PeerId>::empty());
}

// Warp sync.

/// Whether the state belongs to a sync that has nothing to do with snapshots.
pub open spec fn block_state(state: SyncState) -> bool {
    state is Blocks || state is Idle || state is Waiting || state is NewBlocks
}

/// Whether the task is one on the way to a snapshot.
pub open spec fn snapshot_task(job: JobModel) -> bool {
    match job {
        Task::ChooseSnapshot => true,
        Task::RequestManifest { .. } => true,
        Task::AwaitManifest => true,
        Task::Perform(Command::SyncSnapshot) => true,
        Task::Perform(Command::RequestSnapshotManifest { .. }) => true,
        Task::Perform(Command::RequestSnapshotBitfield { .. }) => true,
        Task::Perform(Command::RequestSnapshotData { .. }) => true,
        _ => false,
    }
}

/// Where warp sync is disabled the sync starts among the states that have nothing to do with
/// snapshots, and no step leaves them or asks for anything on the way to a snapshot.
pub proof fn disabled_warp_sync_takes_no_snapshot<R>(
    sync: SyncModel,
    env: Surroundings,
    jobs: Seq<JobModel>,
    reply: Reply<R>,
    post: SyncModel,
    rest: Seq<JobModel>,
    step: Step<R, OrderModel>,
)
    requires
        sync.warp_sync is Disabled,
        block_state(sync.state),
        forall|i: int| 0 <= i < jobs.len() ==> !snapshot_task(#[trigger] jobs[i]),
        sync.advances(env, jobs, reply, post, rest, step),
    ensures
        block_state(init_state(sync.warp_sync, env.chain.best_block_number)),
        block_state(post.state),
        post.warp_sync is Disabled,
        forall|i: int| 0 <= i < rest.len() ==> !snapshot_task(#[trigger] rest[i]),
        step matches Step::Act(Action::Perform(order)) ==> !snapshot_task(Task::Perform(order)),
{
    if jobs.len() > 0 {
        let todo = choose|todo: Seq<JobModel>| #[trigger]
            sync.does(env, jobs[0], reply, post, todo, step) && rest == todo + jobs.drop_first();
        assert(!snapshot_task(jobs[0]));
        assert forall|i: int| 0 <= i < todo.len() implies !snapshot_task(#[trigger] todo[i]) by {
            if let Task::SyncPeer { peer_id, force } = jobs[0] {
                assert(todo == sync.sync_peer(env, peer_id, force).1);
            }
        }
        assert forall|i: int| 0 <= i < rest.len() implies !snapshot_task(#[trigger] rest[i]) by {
            if i < todo.len() {
                assert(rest[i] == todo[i]);
            } else {
                assert(rest[i] == jobs[i - todo.len() + 1]);
            }
        }
    }
}

/// Whether the task is one on the way to a request for blocks.
pub open spec fn block_task(job: JobModel) -> bool {
    match job {
        Task::AskBlockStatus(_) => true,
        Task::AskNewBlocks(_) => true,
        Task::AskOldBlocks(_) => true,
        Task::NewBlocksRequested => true,
        _ => false,
    }
}

/// Where only warp sync is allowed, and our best block is not past the barrier, the sync starts
/// by waiting for peers, and no step turns to a full sync or asks for blocks.
pub proof fn warp_only_sync_never_falls_back<R>(
    sync: SyncModel,
    env: Surroundings,
    jobs: Seq<JobModel>,
    reply: Reply<R>,
    post: SyncModel,
    rest: Seq<JobModel>,
    step: Step<R, OrderModel>,
)
    requires
        sync.warp_sync is OnlyAndAfter,
        env.chain.best_block_number < sync.warp_barrier(),
        !block_state(sync.state),
        forall|i: int| 0 <= i < jobs.len() ==> !block_task(#[trigger] jobs[i]),
        sync.advances(env, jobs, reply, post, rest, step),
    ensures
        init_state(sync.warp_sync, env.chain.best_block_number) is WaitingPeers,
        !block_state(post.state),
        post.warp_sync == sync.warp_sync,
        forall|i: int| 0 <= i < rest.len() ==> !block_task(#[trigger] rest[i]),
        step matches Step::Act(action) ==> action is Perform,
{
    if jobs.len() > 0 {
        let todo = choose|todo: Seq<JobModel>| #[trigger]
            sync.does(env, jobs[0], reply, post, todo, step) && rest == todo + jobs.drop_first();
        assert(!block_task(jobs[0]));
        assert forall|i: int| 0 <= i < todo.len() implies !block_task(#[trigger] todo[i]) by {
            if let Task::SyncPeer { peer_id, force } = jobs[0] {
                assert(todo == sync.sync_peer(env, peer_id, force).1);
            }
        }
        assert forall|i: int| 0 <= i < rest.len() implies !block_task(#[trigger] rest[i]) by {
            if i < todo.len() {
                assert(rest[i] == todo[i]);
            } else {
                assert(rest[i] == jobs[i - todo.len() + 1]);
            }
        }
    }
}

/// A manifest is requested only where none is there, and only from peers that offer the snapshot
/// that most peers offer, which at least three of them do unless the time to wait for peers is
/// over.
pub proof fn snapshots_need_support(
    sync: SyncModel,
    env: Surroundings,
    post: SyncModel,
    todo: Seq<JobModel>,
    id: PeerId,
)
    requires
        sync.chooses_snapshot(env, post, todo),
        todo.contains(Task::RequestManifest { peer_id: id }),
    ensures
        !env.snapshot.have_manifest,
        exists|hash: H256|
            {
                &&& (#[trigger] sync.supporters(env, hash)).contains(id)
                &&& sync.best_supported(env, hash)
                &&& sync.supporters(env, hash).len() >= SNAPSHOT_MIN_PEERS || sync.waited_for_peers(
                    env,
                )
            },
{
    let k = choose|k: int|
        0 <= k < todo.len() && todo[k] == (Task::RequestManifest::<OrderModel> { peer_id: id });
    assert(todo.len() > 0);
    assert(sync.any_offer(env));
    let (hash, peers) = choose|hash: H256, peers: Seq<PeerId>|
        {
            &&& sync.best_supported(env, hash)
            &&& #[trigger] lists(peers, #[trigger] sync.supporters(env, hash))
            &&& peers.len() > 0
            &&& (post, todo) == if peers.len() >= SNAPSHOT_MIN_PEERS || sync.waited_for_peers(
                env,
            ) {
                sync.start_snapshot_sync(env.snapshot.have_manifest, peers)
            } else {
                (sync, seq![])
            }
        };
    lemma_lists_len(peers, sync.supporters(env, hash));
    assert(peers[k] == id);
    assert(peers.to_set().contains(id));
}

/// A peer that supports a snapshot takes part in the sync and offers that snapshot, which is not
/// known to be bad, is far enough above our best block, and lies above the fork and the barrier.
pub proof fn supported_snapshots_are_useful(
    sync: SyncModel,
    env: Surroundings,
    hash: H256,
    id: PeerId,
)
    requires
        sync.supporters(env, hash).contains(id),
    ensures
        sync.allowed_peers().contains(id),
        sync.peers[id].snapshot_hash == Some(hash),
        !env.snapshot.known_bad@.contains(hash),
        sync.peers[id].snapshot_number matches Some(number) && {
            &&& number > env.chain.best_block_number + SNAPSHOT_RESTORE_THRESHOLD
            &&& number > sync.fork_number()
            &&& number > sync.warp_barrier()
            &&& sync.highest_block matches Some(highest) ==> highest <= number
                + SNAPSHOT_RESTORE_THRESHOLD
        },
{
}

/// The choice among snapshots turns to a full sync only where waiting is over, no peer offers a
/// snapshot, and warp sync is not the only one allowed; it resumes a snapshot only where its
/// manifest is there and some peer offers it.
pub proof fn choice_among_snapshots_changes_state_for_a_reason(
    sync: SyncModel,
    env: Surroundings,
    post: SyncModel,
    todo: Seq<JobModel>,
)
    requires
        sync.chooses_snapshot(env, post, todo),
        post != sync,
    ensures
        post == sync.in_state(SyncState::Idle) && sync.waited_for_peers(env) && !sync.any_offer(env)
            && !(sync.warp_sync is OnlyAndAfter) || (post == sync.in_state(SyncState::SnapshotData)
            && env.snapshot.have_manifest && sync.any_offer(env)),
{
}

/// Once a snapshot is restored, the sync restarts from the chain that the snapshot gave; where
/// the restoration failed, the snapshot is given up and the sync waits for peers again.
pub proof fn end_of_restoration_starts_over(sync: SyncModel, env: Surroundings)
    requires
        sync.state is SnapshotWaiting,
    ensures
        env.service.status is Inactive ==> sync.check_resume(env) == (
            sync.retargeted(env.chain).reset(env.chain),
            sync.restart_orders(env.chain),
        ),
        env.service.status is Failed ==> sync.check_resume(env).0 == sync.in_state(
            SyncState::WaitingPeers,
        ) && sync.check_resume(env).1 =~= seq![
            Task::Perform(Command::ClearSnapshot),
            Task::ContinueSync,
        ],
{
}

/// A peer has no snapshot chunk past its bitfield.
pub proof fn no_chunk_past_the_bitfield(bitfield: Seq<u8>, index: int)
    requires
        index >= 8 * bitfield.len(),
    ensures
        !bit_set(bitfield, index),
{
}

// Reports.

/// In every status the blocks received are no more than the total, as long as nothing beyond the
/// highest block was imported; the highest block is no lower than the last imported one; and the
/// active peers are among the peers.
pub proof fn status_is_consistent(
    sync: SyncModel,
    progress: ProgressReport,
    peers_heap_size: usize,
    status: SyncStatus,
)
    requires
        sync.has_status(progress, peers_heap_size, status),
        sync.peers.dom().finite(),
    ensures
        status.num_active_peers <= status.num_peers,
        status.highest_block_number matches Some(highest) ==> Some(highest)
            == sync.highest_block && status.blocks_received <= status.blocks_total || Some(highest)
            == status.last_imported_block_number,
        status.highest_block_number matches Some(highest) ==> highest
            >= status.last_imported_block_number->0,
{
    let active = sync.allowed_peers().intersect(sync.asked_peers());
    assert(active.subset_of(sync.peers.dom()));
    vstd::set_lib::lemma_len_subset(active, sync.peers.dom());
}

/// A sync with a snapshot is a major one, and so is any sync while more than three blocks wait in
/// the queue.
pub proof fn snapshot_sync_is_major(state: SyncState, queued: int)
    ensures
        !block_state(state) ==> major_sync(state, queued),
        queued > 3 ==> major_sync(state, queued),
        state is Idle && queued <= 3 ==> !major_sync(state, queued),
{
}

// Messages.

/// A peer that does not speak the warp protocol is told nothing of snapshots.
pub proof fn snapshots_are_told_to_warp_peers_only(
    network_id: u64,
    chain: BlockChainInfo,
    warp_version: u8,
    hash: Seq<u8>,
    other_hash: Seq<u8>,
    number: BlockNumber,
    other_number: BlockNumber,
)
    ensures
        status_version(warp_version) != 0,
        warp_version == 0 ==> status_fields(network_id, chain, warp_version, hash, number)
            == status_fields(network_id, chain, warp_version, other_hash, other_number),
        status_fields(network_id, chain, warp_version, hash, number).len() == if warp_version != 0 {
            7int
        } else {
            5
        },
{
}

/// A packet is offered to the handler only where the supplier did not take it, is unknown only
/// where neither did, and stays settled.
pub proof fn packets_are_offered_to_both(supplied: bool, handled: bool)
    ensures
        ({
            let first = next_stage(Dispatch::Supplier, supplied);
            let second = next_stage(first, handled);
            &&& first is Handler <==> !supplied
            &&& second is Handled <==> supplied || handled
            &&& second is Unknown <==> !supplied && !handled
        }),
        next_stage(Dispatch::Handled, handled) is Handled,
        next_stage(Dispatch::Unknown, handled) is Unknown,
{
}

} // verus!
