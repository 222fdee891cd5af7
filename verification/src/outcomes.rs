//! What whole agendas come to.

use vstd::prelude::*;
use crate::agenda::{JobModel, OrderModel, Reply, Step, Task};
use crate::laws::{
    block_state, concerns, disabled_warp_sync_takes_no_snapshot,
    round_ends_with_a_busy_peer_or_a_reset, round_visits_every_peer_once, snapshot_task,
};
use crate::peer::PeerModel;
use crate::primitives::{BlockChainInfo, PeerId, H256};
use crate::progress::Turn;
use crate::status::{major_sync, SyncState};
use crate::sync::{target_orders, SyncModel};
use crate::warp::manifest_plan;

verus! {

/// Whether the step of a turn may lead to `post` and the agenda `rest`.
pub open spec fn leads<R>(turn: Turn<R>, post: SyncModel, rest: Seq<JobModel>) -> bool {
    exists|step: Step<R, OrderModel>| #[trigger]
        turn.sync.advances(turn.env, turn.jobs, turn.reply, post, rest, step)
}

/// Whether the second turn may come right after the first one. `meanwhile` tells what may have
/// become of the handler between the step and the next turn, while the action was performed.
pub open spec fn linked<R>(
    first: Turn<R>,
    second: Turn<R>,
    meanwhile: spec_fn(Turn<R>, SyncModel, SyncModel) -> bool,
) -> bool {
    exists|post: SyncModel| #[trigger]
        leads(first, post, second.jobs) && meanwhile(first, post, second.sync)
}

/// Whether the turns follow one another, each with something to do.
pub open spec fn history<R>(
    turns: Seq<Turn<R>>,
    meanwhile: spec_fn(Turn<R>, SyncModel, SyncModel) -> bool,
) -> bool {
    &&& forall|i: int| 0 <= i < turns.len() ==> (#[trigger] turns[i]).jobs.len() > 0
    &&& forall|i: int|
        0 <= i < turns.len() - 1 ==> linked(#[trigger] turns[i], turns[i + 1], meanwhile)
}

/// Whether the turns do all there is to do, and the last step leaves `post`.
pub open spec fn completes<R>(
    turns: Seq<Turn<R>>,
    meanwhile: spec_fn(Turn<R>, SyncModel, SyncModel) -> bool,
    post: SyncModel,
) -> bool {
    &&& turns.len() > 0
    &&& history(turns, meanwhile)
    &&& leads(turns.last(), post, Seq::empty())
}

/// Whether nothing between two steps changes the state of the sync.
pub open spec fn keeps_state<R>(
    meanwhile: spec_fn(Turn<R>, SyncModel, SyncModel) -> bool,
) -> bool {
    forall|turn: Turn<R>, post: SyncModel, next: SyncModel| #[trigger]
        meanwhile(turn, post, next) ==> next.state == post.state && next.warp_sync
            == post.warp_sync
}

/// What holds at the first turn, and is handed on from each turn to the next, holds at every turn.
proof fn lemma_handed_on<R>(
    turns: Seq<Turn<R>>,
    meanwhile: spec_fn(Turn<R>, SyncModel, SyncModel) -> bool,
    given: spec_fn(Turn<R>) -> bool,
    inv: spec_fn(Turn<R>) -> bool,
    k: int,
)
    requires
        history(turns, meanwhile),
        0 <= k < turns.len(),
        forall|i: int| 0 <= i < turns.len() ==> given(#[trigger] turns[i]),
        inv(turns[0]),
        forall|first: Turn<R>, second: Turn<R>|
            first.jobs.len() > 0 && second.jobs.len() > 0 && given(first) && inv(first)
                && #[trigger] linked(first, second, meanwhile) ==> inv(second),
    ensures
        inv(turns[k]),
    decreases k,
{
    if k > 0 {
        lemma_handed_on(turns, meanwhile, given, inv, k - 1);
        assert(given(turns[k - 1]));
        assert(turns[k - 1].jobs.len() > 0 && turns[k].jobs.len() > 0);
        assert(linked(turns[k - 1], turns[k - 1 + 1], meanwhile));
    }
}

/// The tasks that a turn's step puts in place of the task it does.
proof fn lemma_todo<R>(turn: Turn<R>, post: SyncModel, rest: Seq<JobModel>) -> (r: (
    Seq<JobModel>,
    Step<R, OrderModel>,
))
    requires
        leads(turn, post, rest),
        turn.jobs.len() > 0,
    ensures
        turn.sync.does(turn.env, turn.jobs[0], turn.reply, post, r.0, r.1),
        rest == r.0 + turn.jobs.drop_first(),
        turn.sync.advances(turn.env, turn.jobs, turn.reply, post, rest, r.1),
        turn.jobs.len() > 1 ==> rest.len() > 0 && rest.last() == turn.jobs.last(),
        turn.jobs.len() == 1 ==> rest == r.0,
{
    let step = choose|step: Step<R, OrderModel>| #[trigger]
        turn.sync.advances(turn.env, turn.jobs, turn.reply, post, rest, step);
    let todo = choose|todo: Seq<JobModel>| #[trigger]
        turn.sync.does(turn.env, turn.jobs[0], turn.reply, post, todo, step) && rest == todo
            + turn.jobs.drop_first();
    if turn.jobs.len() == 1 {
        assert(rest =~= todo);
    }
    (todo, step)
}

// Abort.

/// Once everything that an abort asks for is done, no peer is left, whatever happened while it was
/// done.
pub proof fn aborted_sync_has_no_peers<R>(
    start: SyncModel,
    chain: BlockChainInfo,
    turns: Seq<Turn<R>>,
    meanwhile: spec_fn(Turn<R>, SyncModel, SyncModel) -> bool,
    post: SyncModel,
)
    requires
        completes(turns, meanwhile, post),
        turns[0].sync == start.reset(chain),
        turns[0].jobs == start.reset_and_continue_orders().push(Task::ForgetPeers),
    ensures
        post.peers == Map::<PeerId, PeerModel>::empty(),
{
    let given = |turn: Turn<R>| true;
    let inv = |turn: Turn<R>| turn.jobs.last() is ForgetPeers;
    assert forall|first: Turn<R>, second: Turn<R>|
        first.jobs.len() > 0 && second.jobs.len() > 0 && given(first) && inv(first)
            && #[trigger] linked(first, second, meanwhile) implies inv(second) by {
        let mid = choose|mid: SyncModel| #[trigger]
            leads(first, mid, second.jobs) && meanwhile(first, mid, second.sync);
        let (todo, step) = lemma_todo(first, mid, second.jobs);
    }
    lemma_handed_on(turns, meanwhile, given, inv, turns.len() - 1);
    let (todo, step) = lemma_todo(turns.last(), post, Seq::empty());
}

// Restart.

/// Whether the state is one that a sync can have right after a restart.
pub open spec fn restarted_state(state: SyncState) -> bool {
    state is WaitingPeers || state is SnapshotManifest || state is Idle || state is Blocks
        || state is Waiting
}

/// Whether the handler and its agenda are on the way from a restart.
#[verifier::opaque]
spec fn restarting(sync: SyncModel, jobs: Seq<JobModel>) -> bool {
    &&& restarted_state(sync.state)
    &&& forall|i: int|
        0 <= i < jobs.len() ==> !(#[trigger] jobs[i] is CheckResume || jobs[i] is Restart)
    &&& sync.warp_sync is Disabled ==> block_state(sync.state) && forall|i: int|
        0 <= i < jobs.len() ==> !snapshot_task(#[trigger] jobs[i])
}

/// Steps stay on the way from a restart, as long as no manifest is there when a snapshot is chosen.
proof fn lemma_restarting<R>(turn: Turn<R>, post: SyncModel, rest: Seq<JobModel>)
    requires
        leads(turn, post, rest),
        turn.jobs.len() > 0,
        restarting(turn.sync, turn.jobs),
        turn.jobs[0] is ChooseSnapshot ==> !turn.env.snapshot.have_manifest,
    ensures
        restarting(post, rest),
        restarted_state(post.state),
        post.warp_sync is Disabled ==> block_state(post.state),
{
    reveal(restarting);
    let (todo, step) = lemma_todo(turn, post, rest);
    let sync = turn.sync;
    let job = turn.jobs[0];
    assert(!(job is CheckResume || job is Restart));
    assert forall|i: int| 0 <= i < todo.len() implies !(#[trigger] todo[i] is CheckResume
        || todo[i] is Restart) by {
        if let Task::SyncPeer { peer_id, force } = job {
            assert(todo == sync.sync_peer(turn.env, peer_id, force).1);
            if sync.considers(peer_id) {
                assert(sync.clear_download_orders(peer_id).len() == 0);
            }
        }
    }
    assert forall|i: int| 0 <= i < rest.len() implies !(#[trigger] rest[i] is CheckResume
        || rest[i] is Restart) by {
        if i < todo.len() {
            assert(rest[i] == todo[i]);
        } else {
            assert(rest[i] == turn.jobs[i - todo.len() + 1]);
        }
    }
    if sync.warp_sync is Disabled {
        disabled_warp_sync_takes_no_snapshot(
            sync,
            turn.env,
            turn.jobs,
            turn.reply,
            post,
            rest,
            step,
        );
    }
}

/// Being on the way from a restart is a matter of state and agenda.
proof fn lemma_restarting_by_state(sync: SyncModel, other: SyncModel, jobs: Seq<JobModel>)
    requires
        restarting(sync, jobs),
        other.state == sync.state,
        other.warp_sync == sync.warp_sync,
    ensures
        restarting(other, jobs),
{
    reveal(restarting);
}

/// A restart begins on its way.
proof fn lemma_restart_begins(start: SyncModel, chain: BlockChainInfo)
    ensures
        restarting(start.reset(chain), start.reset_and_continue_orders()),
        restarting(start.retargeted(chain).reset(chain), start.restart_orders(chain)),
{
    reveal(restarting);
    let jobs = start.reset_and_continue_orders();
    assert forall|i: int| 0 <= i < jobs.len() implies !snapshot_task(#[trigger] jobs[i])
        && !(jobs[i] is CheckResume || jobs[i] is Restart) by {}
    let targets = target_orders(start.download_old_blocks, chain);
    let restart = start.restart_orders(chain);
    assert forall|i: int| 0 <= i < restart.len() implies !snapshot_task(#[trigger] restart[i])
        && !(restart[i] is CheckResume || restart[i] is Restart) by {
        if i < targets.len() {
            assert(restart[i] == targets[i]);
        } else {
            assert(restart[i] == jobs[i - targets.len()]);
        }
    }
}

/// Once everything that a restart asks for is done, the sync waits for peers or for a manifest, or
/// it is idle, downloads blocks, or is paused by a full queue; without warp sync it does neither
/// of the first two. The snapshot is given up first, so that there is no manifest when one is
/// chosen.
#[verifier::rlimit(30)]
pub proof fn restarted_sync_is_under_way<R>(
    start: SyncModel,
    chain: BlockChainInfo,
    turns: Seq<Turn<R>>,
    meanwhile: spec_fn(Turn<R>, SyncModel, SyncModel) -> bool,
    post: SyncModel,
)
    requires
        completes(turns, meanwhile, post),
        keeps_state(meanwhile),
        turns[0].sync == start.reset(chain) && turns[0].jobs == start.reset_and_continue_orders()
            || turns[0].sync == start.retargeted(chain).reset(chain) && turns[0].jobs
            == start.restart_orders(chain),
        forall|i: int|
            0 <= i < turns.len() && (#[trigger] turns[i]).jobs[0] is ChooseSnapshot
                ==> !turns[i].env.snapshot.have_manifest,
    ensures
        restarted_state(post.state),
        start.warp_sync is Disabled ==> post.state is Idle || post.state is Blocks
            || post.state is Waiting,
{
    let given = |turn: Turn<R>|
        turn.jobs[0] is ChooseSnapshot ==> !turn.env.snapshot.have_manifest;
    let inv = |turn: Turn<R>|
        restarting(turn.sync, turn.jobs) && turn.sync.warp_sync == start.warp_sync;
    assert forall|first: Turn<R>, second: Turn<R>|
        first.jobs.len() > 0 && second.jobs.len() > 0 && given(first) && inv(first)
            && #[trigger] linked(first, second, meanwhile) implies inv(second) by {
        let mid = choose|mid: SyncModel| #[trigger]
            leads(first, mid, second.jobs) && meanwhile(first, mid, second.sync);
        lemma_restarting(first, mid, second.jobs);
        lemma_warp_sync_kept(first, mid, second.jobs);
        lemma_restarting_by_state(mid, second.sync, second.jobs);
    }
    lemma_restart_begins(start, chain);
    lemma_handed_on(turns, meanwhile, given, inv, turns.len() - 1);
    assert(given(turns.last()));
    lemma_restarting(turns.last(), post, Seq::empty());
    lemma_warp_sync_kept(turns.last(), post, Seq::empty());
}

/// Whether the agenda leads to a restart: commands come before it, and nothing but the choice of a
/// peer to re-broadcast to comes after it.
spec fn restart_at(jobs: Seq<JobModel>, r: int) -> bool {
    &&& 0 <= r < jobs.len()
    &&& jobs[r] is Restart
    &&& forall|i: int| 0 <= i < r ==> #[trigger] jobs[i] is Perform
    &&& forall|i: int| r < i < jobs.len() ==> #[trigger] jobs[i] is Rebroadcast
}

/// Whether the handler and its agenda lead to a restart, or are on the way from one.
spec fn answering_bad_block(sync: SyncModel, jobs: Seq<JobModel>) -> bool {
    restarting(sync, jobs) || exists|r: int| restart_at(jobs, r)
}

/// Steps that lead to a restart get there.
proof fn lemma_answering_bad_block<R>(turn: Turn<R>, post: SyncModel, rest: Seq<JobModel>)
    requires
        leads(turn, post, rest),
        turn.jobs.len() > 0,
        answering_bad_block(turn.sync, turn.jobs),
        turn.jobs[0] is ChooseSnapshot ==> !turn.env.snapshot.have_manifest,
    ensures
        answering_bad_block(post, rest),
        rest.len() == 0 ==> restarting(post, rest),
{
    if restarting(turn.sync, turn.jobs) {
        lemma_restarting(turn, post, rest);
    } else {
        let (todo, step) = lemma_todo(turn, post, rest);
        let r = choose|r: int| restart_at(turn.jobs, r);
        let later = turn.jobs.drop_first();
        if r > 0 {
            assert(turn.jobs[0] is Perform);
            assert(rest =~= later);
            assert(restart_at(rest, r - 1));
        } else {
            lemma_restart_begins(turn.sync, turn.env.chain);
            assert(restarting(post, todo));
            reveal(restarting);
            assert forall|i: int| 0 <= i < rest.len() implies !snapshot_task(#[trigger] rest[i])
                || !(post.warp_sync is Disabled) by {
                if i < todo.len() {
                    assert(rest[i] == todo[i]);
                } else {
                    assert(rest[i] == turn.jobs[i - todo.len() + 1]);
                }
            }
            assert forall|i: int| 0 <= i < rest.len() implies !(#[trigger] rest[i] is CheckResume
                || rest[i] is Restart) by {
                if i < todo.len() {
                    assert(rest[i] == todo[i]);
                } else {
                    assert(rest[i] == turn.jobs[i - todo.len() + 1]);
                }
            }
        }
    }
}

/// Once everything is done that new blocks with a bad one among them ask for, the sync is where a
/// restart leaves it.
pub proof fn bad_block_leaves_a_restarted_sync<R>(
    start: SyncModel,
    queued: int,
    enacted: bool,
    sealed: Seq<H256>,
    proposed: Seq<Vec<u8>>,
    turns: Seq<Turn<R>>,
    meanwhile: spec_fn(Turn<R>, SyncModel, SyncModel) -> bool,
    post: SyncModel,
)
    requires
        completes(turns, meanwhile, post),
        keeps_state(meanwhile),
        turns[0].sync == start,
        turns[0].jobs == start.new_blocks_orders(queued, true, enacted, sealed, proposed),
        forall|i: int|
            0 <= i < turns.len() && (#[trigger] turns[i]).jobs[0] is ChooseSnapshot
                ==> !turns[i].env.snapshot.have_manifest,
    ensures
        restarted_state(post.state),
        start.warp_sync is Disabled ==> post.state is Idle || post.state is Blocks
            || post.state is Waiting,
{
    let given = |turn: Turn<R>|
        turn.jobs[0] is ChooseSnapshot ==> !turn.env.snapshot.have_manifest;
    let inv = |turn: Turn<R>|
        answering_bad_block(turn.sync, turn.jobs) && turn.sync.warp_sync == start.warp_sync;
    assert forall|first: Turn<R>, second: Turn<R>|
        first.jobs.len() > 0 && second.jobs.len() > 0 && given(first) && inv(first)
            && #[trigger] linked(first, second, meanwhile) implies inv(second) by {
        let mid = choose|mid: SyncModel| #[trigger]
            leads(first, mid, second.jobs) && meanwhile(first, mid, second.sync);
        lemma_answering_bad_block(first, mid, second.jobs);
        lemma_warp_sync_kept(first, mid, second.jobs);
        if restarting(mid, second.jobs) {
            lemma_restarting_by_state(mid, second.sync, second.jobs);
        }
    }
    lemma_bad_block_begins(start, queued, enacted, sealed, proposed);
    lemma_handed_on(turns, meanwhile, given, inv, turns.len() - 1);
    assert(given(turns.last()));
    lemma_answering_bad_block(turns.last(), post, Seq::empty());
    lemma_warp_sync_kept(turns.last(), post, Seq::empty());
    reveal(restarting);
}

/// What new blocks with a bad one among them ask for leads to a restart.
proof fn lemma_bad_block_begins(
    start: SyncModel,
    queued: int,
    enacted: bool,
    sealed: Seq<H256>,
    proposed: Seq<Vec<u8>>,
)
    ensures
        answering_bad_block(
            start,
            start.new_blocks_orders(queued, true, enacted, sealed, proposed),
        ),
{
    let jobs = start.new_blocks_orders(queued, true, enacted, sealed, proposed);
    let r: int = if !major_sync(start.state, queued) || sealed.len() > 0 || proposed.len() > 0 {
        2
    } else {
        0
    };
    assert(restart_at(jobs, r));
}

/// No step changes whether warp sync is wanted.
proof fn lemma_warp_sync_kept<R>(turn: Turn<R>, post: SyncModel, rest: Seq<JobModel>)
    requires
        leads(turn, post, rest),
        turn.jobs.len() > 0,
    ensures
        post.warp_sync == turn.sync.warp_sync,
{
    let (todo, step) = lemma_todo(turn, post, rest);
}

// Snapshots.

/// Once the manifests that a snapshot sync starts with are requested, the sync waits for them,
/// whatever happened while they were requested.
pub proof fn started_snapshot_sync_awaits_the_manifest<R>(
    peers: Seq<PeerId>,
    turns: Seq<Turn<R>>,
    meanwhile: spec_fn(Turn<R>, SyncModel, SyncModel) -> bool,
    post: SyncModel,
)
    requires
        completes(turns, meanwhile, post),
        turns[0].jobs == manifest_plan(peers),
    ensures
        post.state is SnapshotManifest,
{
    let given = |turn: Turn<R>| true;
    let inv = |turn: Turn<R>| turn.jobs.last() is AwaitManifest;
    assert forall|first: Turn<R>, second: Turn<R>|
        first.jobs.len() > 0 && second.jobs.len() > 0 && given(first) && inv(first)
            && #[trigger] linked(first, second, meanwhile) implies inv(second) by {
        let mid = choose|mid: SyncModel| #[trigger]
            leads(first, mid, second.jobs) && meanwhile(first, mid, second.sync);
        let (todo, step) = lemma_todo(first, mid, second.jobs);
    }
    lemma_handed_on(turns, meanwhile, given, inv, turns.len() - 1);
    let (todo, step) = lemma_todo(turns.last(), post, Seq::empty());
}

// Rounds.

/// Whether a sync that downloads blocks has a peer that works on them.
pub open spec fn blocks_are_worked_on(sync: SyncModel) -> bool {
    sync.state is Blocks || sync.state is NewBlocks ==> sync.any_busy()
}

/// Whether the handler and its agenda are on the way to the end of a round.
spec fn ending_round(sync: SyncModel, jobs: Seq<JobModel>) -> bool {
    if jobs.len() == 0 {
        blocks_are_worked_on(sync)
    } else {
        ||| jobs.last() is ContinueSync
        ||| jobs.last() is FinishRound
        ||| jobs.len() == 1 && jobs[0] is Perform && !(sync.state is Blocks
            || sync.state is NewBlocks)
    }
}

/// Steps stay on the way to the end of a round.
proof fn lemma_ending_round<R>(turn: Turn<R>, post: SyncModel, rest: Seq<JobModel>)
    requires
        leads(turn, post, rest),
        turn.jobs.len() > 0,
        ending_round(turn.sync, turn.jobs),
    ensures
        ending_round(post, rest),
{
    let (todo, step) = lemma_todo(turn, post, rest);
    if turn.jobs.len() == 1 {
        if turn.jobs[0] is ContinueSync {
            round_visits_every_peer_once(turn.sync, todo);
        } else if turn.jobs[0] is FinishRound {
            round_ends_with_a_busy_peer_or_a_reset(turn.sync, turn.env.chain);
        }
    }
}

/// Once a round is over, with everything that it led to, a sync that still downloads blocks has a
/// peer that works on them. So it is after every agenda that ends by resuming downloading.
pub proof fn whole_round_ends_with_a_busy_peer<R>(
    turns: Seq<Turn<R>>,
    meanwhile: spec_fn(Turn<R>, SyncModel, SyncModel) -> bool,
    post: SyncModel,
)
    requires
        completes(turns, meanwhile, post),
        keeps_state(meanwhile),
        turns[0].jobs.last() is ContinueSync || turns[0].jobs.last() is FinishRound,
    ensures
        blocks_are_worked_on(post),
{
    let given = |turn: Turn<R>| true;
    let inv = |turn: Turn<R>| ending_round(turn.sync, turn.jobs);
    assert forall|first: Turn<R>, second: Turn<R>|
        first.jobs.len() > 0 && second.jobs.len() > 0 && given(first) && inv(first)
            && #[trigger] linked(first, second, meanwhile) implies inv(second) by {
        let mid = choose|mid: SyncModel| #[trigger]
            leads(first, mid, second.jobs) && meanwhile(first, mid, second.sync);
        lemma_ending_round(first, mid, second.jobs);
    }
    lemma_handed_on(turns, meanwhile, given, inv, turns.len() - 1);
    lemma_ending_round(turns.last(), post, Seq::empty());
}

/// Whether the step of the turn sends a request to the peer.
pub open spec fn asks<R>(turn: Turn<R>, id: PeerId) -> bool {
    &&& concerns(turn.jobs[0], id)
    &&& match turn.jobs[0] {
        Task::AskNewBlocks(_) => turn.reply matches Reply::Request(Some(_)),
        Task::AskOldBlocks(_) => turn.reply matches Reply::Request(Some(_)),
        Task::Perform(_) => true,
        _ => false,
    }
}

/// Whether the peer is connected and idle.
pub open spec fn idle(sync: SyncModel, id: PeerId) -> bool {
    sync.peers.contains_key(id) && sync.peers[id].asking is Nothing
}

/// Whether between two steps a peer gets busy where the step sent it a request, and otherwise
/// stays as idle or busy as it was: nobody answers, comes or goes.
pub open spec fn only_requests_busy<R>(
    meanwhile: spec_fn(Turn<R>, SyncModel, SyncModel) -> bool,
) -> bool {
    forall|turn: Turn<R>, post: SyncModel, next: SyncModel, id: PeerId|
        #![trigger meanwhile(turn, post, next), idle(next, id)]
        meanwhile(turn, post, next) ==> idle(next, id) == (idle(post, id) && !asks(turn, id))
}

/// Whether only the next task asks something of a peer, and that peer is idle.
pub open spec fn asks_idle_peers(sync: SyncModel, jobs: Seq<JobModel>) -> bool {
    forall|i: int, id: PeerId|
        0 <= i < jobs.len() && #[trigger] concerns(jobs[i], id) ==> i == 0 && idle(sync, id)
}

/// Steps leave idle peers idle and make no peer idle, but for forgetting them all.
proof fn lemma_idle<R>(turn: Turn<R>, post: SyncModel, rest: Seq<JobModel>, id: PeerId)
    requires
        leads(turn, post, rest),
        turn.jobs.len() > 0,
    ensures
        idle(post, id) ==> idle(turn.sync, id),
        idle(turn.sync, id) && !(turn.jobs[0] is ForgetPeers) ==> idle(post, id),
{
    let (todo, step) = lemma_todo(turn, post, rest);
}

/// Steps lead to tasks that ask something only of idle peers.
proof fn lemma_asks_idle_peers<R>(turn: Turn<R>, post: SyncModel, rest: Seq<JobModel>)
    requires
        leads(turn, post, rest),
        turn.jobs.len() > 0,
        asks_idle_peers(turn.sync, turn.jobs),
    ensures
        forall|i: int, id: PeerId|
            0 <= i < rest.len() && #[trigger] concerns(rest[i], id) ==> i == 0 && idle(post, id)
                && !asks(turn, id),
{
    let (todo, step) = lemma_todo(turn, post, rest);
    let sync = turn.sync;
    let job = turn.jobs[0];
    assert forall|i: int, id: PeerId| 0 <= i < rest.len() && #[trigger] concerns(rest[i], id)
        implies i == 0 && idle(post, id) && !asks(turn, id) by {
        if i >= todo.len() {
            let k = i - todo.len() + 1;
            assert(rest[i] == turn.jobs[k]);
            assert(concerns(turn.jobs[k], id));
            assert(k == 0);
        } else {
            assert(rest[i] == todo[i]);
            match job {
                Task::SyncPeer { peer_id, force } => {
                    assert(todo == sync.sync_peer(turn.env, peer_id, force).1);
                    if sync.considers(peer_id) {
                        assert(sync.clear_download_orders(peer_id).len() == 0);
                    }
                },
                Task::AskBlockStatus(visit) => {
                    assert(concerns(job, visit.peer_id));
                },
                Task::AskNewBlocks(visit) => {
                    assert(concerns(job, visit.peer_id));
                },
                Task::AskOldBlocks(visit) => {
                    assert(concerns(job, visit.peer_id));
                },
                _ => {},
            }
            assert(idle(sync, id));
            lemma_idle(turn, post, rest, id);
        }
    }
}

/// From a turn that sends a peer a request on, that peer is not idle.
proof fn lemma_stays_busy<R>(
    turns: Seq<Turn<R>>,
    meanwhile: spec_fn(Turn<R>, SyncModel, SyncModel) -> bool,
    i: int,
    j: int,
    id: PeerId,
)
    requires
        history(turns, meanwhile),
        only_requests_busy(meanwhile),
        0 <= i < j < turns.len(),
        asks(turns[i], id),
    ensures
        !idle(turns[j].sync, id),
    decreases j,
{
    let before = turns[j - 1];
    assert(linked(turns[j - 1], turns[j - 1 + 1], meanwhile));
    let mid = choose|mid: SyncModel| #[trigger]
        leads(before, mid, turns[j].jobs) && meanwhile(before, mid, turns[j].sync);
    if i < j - 1 {
        lemma_stays_busy(turns, meanwhile, i, j - 1, id);
        lemma_idle(before, mid, turns[j].jobs, id);
    }
}

/// No peer is asked twice by an agenda and all that it leads to, as long as nobody answers
/// meanwhile. Resuming downloading is such an agenda.
pub proof fn no_peer_is_asked_twice<R>(
    turns: Seq<Turn<R>>,
    meanwhile: spec_fn(Turn<R>, SyncModel, SyncModel) -> bool,
    i: int,
    j: int,
    id: PeerId,
)
    requires
        history(turns, meanwhile),
        only_requests_busy(meanwhile),
        0 <= i < j < turns.len(),
        asks_idle_peers(turns[0].sync, turns[0].jobs),
        asks(turns[i], id),
    ensures
        !asks(turns[j], id),
{
    let given = |turn: Turn<R>| true;
    let inv = |turn: Turn<R>| asks_idle_peers(turn.sync, turn.jobs);
    assert forall|first: Turn<R>, second: Turn<R>|
        first.jobs.len() > 0 && second.jobs.len() > 0 && given(first) && inv(first)
            && #[trigger] linked(first, second, meanwhile) implies inv(second) by {
        let mid = choose|mid: SyncModel| #[trigger]
            leads(first, mid, second.jobs) && meanwhile(first, mid, second.sync);
        lemma_asks_idle_peers(first, mid, second.jobs);
    }
    lemma_handed_on(turns, meanwhile, given, inv, j);
    lemma_stays_busy(turns, meanwhile, i, j, id);
}

/// Resuming downloading, and visits, ask nothing of peers by themselves: what they lead to asks no
/// peer twice.
pub proof fn rounds_ask_idle_peers(sync: SyncModel, jobs: Seq<JobModel>)
    requires
        forall|i: int|
            0 <= i < jobs.len() ==> #[trigger] jobs[i] is ContinueSync || jobs[i] is SyncPeer
                || jobs[i] is FinishRound,
    ensures
        asks_idle_peers(sync, jobs),
{
}

// Pause.

/// Where there is room in the block queue, a look at a sync that a full queue had paused ends with
/// the sync no longer paused, once everything is done that the look led to.
pub proof fn resumed_sync_is_not_paused<R>(
    turns: Seq<Turn<R>>,
    meanwhile: spec_fn(Turn<R>, SyncModel, SyncModel) -> bool,
    post: SyncModel,
)
    requires
        completes(turns, meanwhile, post),
        keeps_state(meanwhile),
        turns[0].sync.state is Waiting,
        turns[0].jobs.len() == 1 && turns[0].jobs[0] is CheckResume,
        forall|i: int| 0 <= i < turns.len() ==> !(#[trigger] turns[i]).env.queue_full,
    ensures
        !(post.state is Waiting),
{
    let given = |turn: Turn<R>| !turn.env.queue_full;
    let inv = |turn: Turn<R>| !(turn.sync.state is Waiting) || turn.jobs[0] is CheckResume;
    assert forall|first: Turn<R>, second: Turn<R>|
        first.jobs.len() > 0 && second.jobs.len() > 0 && given(first) && inv(first)
            && #[trigger] linked(first, second, meanwhile) implies inv(second) by {
        let mid = choose|mid: SyncModel| #[trigger]
            leads(first, mid, second.jobs) && meanwhile(first, mid, second.sync);
        lemma_not_paused(first, mid, second.jobs);
    }
    lemma_handed_on(turns, meanwhile, given, inv, turns.len() - 1);
    lemma_not_paused(turns.last(), post, Seq::empty());
}

/// With room in the block queue no step pauses the sync, and a look at a paused one resumes it.
proof fn lemma_not_paused<R>(turn: Turn<R>, post: SyncModel, rest: Seq<JobModel>)
    requires
        leads(turn, post, rest),
        turn.jobs.len() > 0,
        !turn.env.queue_full,
        !(turn.sync.state is Waiting) || turn.jobs[0] is CheckResume,
    ensures
        !(post.state is Waiting),
{
    let (todo, step) = lemma_todo(turn, post, rest);
}

} // verus!
