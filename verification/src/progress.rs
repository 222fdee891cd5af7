//! Why an agenda comes to its end.
//!
//! Tasks lead to further tasks, and a round of visits may lead to another one. The work that is
//! left is bounded all the same: while blocks are downloaded a visit leads to no further round,
//! and neither does one while a snapshot is.

use vstd::prelude::*;
use crate::agenda::{Action, JobModel, OrderModel, Reply, Step, Task};
use crate::laws::{block_state, steps_keep_configuration, steps_keep_peers};
use crate::order::sorted_by_version;
use crate::peer::BlockSet;
use crate::peers::{lemma_lists_len, lists};
use crate::primitives::{PeerId, Timestamp, H256};
use crate::protocol::SNAPSHOT_MIN_PEERS;
use crate::status::SyncState;
use crate::strategy::{disconnect_plan, ids_of, visit_plan};
use crate::sync::{Surroundings, SyncModel};
use crate::warp::manifest_plan;

verus! {

/// What a sync is about.
pub enum Phase {
    /// Waiting for peers.
    Peers,
    /// Taking a snapshot.
    Snapshot,
    /// Downloading blocks, or keeping up with the chain.
    Blocks,
}

/// What a sync in the given state is about.
pub open spec fn phase(state: SyncState) -> Phase {
    if state is WaitingPeers {
        Phase::Peers
    } else if block_state(state) {
        Phase::Blocks
    } else {
        Phase::Snapshot
    }
}

/// A bound on the work for a visit, where there are `n` peers.
pub open spec fn visit_work(phase: Phase, n: nat) -> nat {
    match phase {
        Phase::Peers => 8 * n + 10,
        Phase::Snapshot => 2,
        Phase::Blocks => 4,
    }
}

/// A bound on the work for a round of visits.
pub open spec fn round_work(phase: Phase, n: nat) -> nat {
    n * visit_work(phase, n) + 3
}

/// A bound on the work for a task, where there are `n` peers and `h` handshakes under way.
pub open spec fn task_work(phase: Phase, job: JobModel, n: nat, h: nat) -> nat {
    match job {
        Task::ContinueSync => round_work(phase, n),
        Task::SyncPeer { .. } => visit_work(phase, n),
        Task::FinishRound => 2,
        Task::MaybeStartSnapshotSync => 8 * n + 9,
        Task::ChooseSnapshot => 6 * n + 5,
        Task::RequestManifest { .. } => 2,
        Task::AskBlockStatus(_) => 3,
        Task::AskNewBlocks(_) => 2,
        Task::CheckResume => round_work(Phase::Peers, n) + 8,
        Task::Restart => round_work(Phase::Peers, n) + 8,
        Task::CheckHandshakes { .. } => h + 1,
        _ => 1,
    }
}

/// What the sync may be about once the task and all that it leads to is done. Waiting for peers
/// stands for anything: it is what costs most.
pub open spec fn phase_after(phase: Phase, job: JobModel) -> Phase {
    match phase {
        Phase::Peers => Phase::Peers,
        Phase::Snapshot => match job {
            Task::CheckResume | Task::Restart => Phase::Peers,
            _ => Phase::Snapshot,
        },
        Phase::Blocks => match job {
            Task::ContinueSync
            | Task::FinishRound
            | Task::MaybeStartSnapshotSync
            | Task::ChooseSnapshot
            | Task::AwaitManifest
            | Task::CheckResume
            | Task::Restart => Phase::Peers,
            _ => Phase::Blocks,
        },
    }
}

/// A bound on the work for a list of tasks.
pub open spec fn work(phase: Phase, jobs: Seq<JobModel>, n: nat, h: nat) -> nat
    decreases jobs.len(),
{
    if jobs.len() == 0 {
        0
    } else {
        task_work(phase, jobs[0], n, h) + work(
            phase_after(phase, jobs[0]),
            jobs.drop_first(),
            n,
            h,
        )
    }
}

/// What the sync may be about once all tasks are done.
pub open spec fn phase_at_end(phase: Phase, jobs: Seq<JobModel>) -> Phase
    decreases jobs.len(),
{
    if jobs.len() == 0 {
        phase
    } else {
        phase_at_end(phase_after(phase, jobs[0]), jobs.drop_first())
    }
}

impl SyncModel {
    /// Whether there are at most `n` peers and `h` handshakes under way.
    pub open spec fn bounded(self, n: nat, h: nat) -> bool {
        &&& self.peers.dom().finite()
        &&& self.peers.dom().len() <= n
        &&& self.handshaking_peers.dom().finite()
        &&& self.handshaking_peers.dom().len() <= h
    }

    /// A bound on the work that is left.
    pub open spec fn work_left(self, jobs: Seq<JobModel>, n: nat, h: nat) -> nat {
        work(phase(self.state), jobs, n, h)
    }
}

/// Whether the task is a question whose reply is still missing.
pub open spec fn unanswered<R>(job: JobModel, reply: Reply<R>) -> bool {
    match job {
        Task::AskBlockStatus(_) => !(reply is BlockStatus),
        Task::AskNewBlocks(_) => !(reply is Request),
        Task::AskOldBlocks(_) => !(reply is Request),
        _ => false,
    }
}

/// Waiting for peers costs most.
proof fn lemma_peers_cost_most(phase: Phase, jobs: Seq<JobModel>, n: nat, h: nat)
    ensures
        work(phase, jobs, n, h) <= work(Phase::Peers, jobs, n, h),
    decreases jobs.len(),
{
    if jobs.len() > 0 {
        lemma_peers_cost_most(phase_after(phase, jobs[0]), jobs.drop_first(), n, h);
        assert(n * visit_work(phase, n) <= n * visit_work(Phase::Peers, n)) by (nonlinear_arith)
            requires
                visit_work(phase, n) <= visit_work(Phase::Peers, n),
        ;
    }
}

/// The work for two lists, one after the other.
proof fn lemma_work_concat(phase: Phase, a: Seq<JobModel>, b: Seq<JobModel>, n: nat, h: nat)
    ensures
        work(phase, a + b, n, h) == work(phase, a, n, h) + work(phase_at_end(phase, a), b, n, h),
    decreases a.len(),
{
    if a.len() == 0 {
        assert(a + b =~= b);
    } else {
        assert((a + b).drop_first() =~= a.drop_first() + b);
        lemma_work_concat(phase_after(phase, a[0]), a.drop_first(), b, n, h);
    }
}

/// The work for tasks that cost at most `k` each and do not change what the sync is about.
proof fn lemma_uniform_work(phase: Phase, jobs: Seq<JobModel>, k: nat, n: nat, h: nat)
    requires
        forall|i: int|
            0 <= i < jobs.len() ==> task_work(phase, #[trigger] jobs[i], n, h) <= k && phase_after(
                phase,
                jobs[i],
            ) == phase,
    ensures
        work(phase, jobs, n, h) <= jobs.len() * k,
        phase_at_end(phase, jobs) == phase,
    decreases jobs.len(),
{
    if jobs.len() > 0 {
        let rest = jobs.drop_first();
        assert forall|i: int| 0 <= i < rest.len() implies task_work(
            phase,
            #[trigger] rest[i],
            n,
            h,
        ) <= k && phase_after(phase, rest[i]) == phase by {
            assert(rest[i] == jobs[i + 1]);
        }
        lemma_uniform_work(phase, rest, k, n, h);
        assert(phase_after(phase, jobs[0]) == phase);
        assert(jobs.len() * k == rest.len() * k + k) by (nonlinear_arith)
            requires
                jobs.len() == rest.len() + 1,
        ;
    }
}

/// A list as long as a set of peers at most `n`.
proof fn lemma_list_within(ids: Seq<PeerId>, set: Set<PeerId>, all: Set<PeerId>)
    requires
        lists(ids, set),
        set.subset_of(all),
        all.finite(),
    ensures
        ids.len() <= all.len(),
{
    lemma_lists_len(ids, set);
    vstd::set_lib::lemma_len_subset(set, all);
}

/// The work for a round of visits.
proof fn lemma_round(sync: SyncModel, todo: Seq<JobModel>, n: nat, h: nat)
    requires
        sync.bounded(n, h),
        sync.resumes_with(todo),
    ensures
        work(phase(sync.state), todo, n, h) < round_work(phase(sync.state), n),
        phase(sync.state) is Blocks || phase_at_end(phase(sync.state), todo) == phase(sync.state),
{
    let ph = phase(sync.state);
    let order = choose|order: Seq<(PeerId, u8)>|
        sync.visit_list(order) && sorted_by_version(order) && #[trigger] visit_plan(order) == todo;
    let visits = todo.drop_last();
    let end = seq![Task::<OrderModel>::FinishRound];
    assert(todo =~= visits + end);
    assert forall|i: int| 0 <= i < visits.len() implies task_work(ph, #[trigger] visits[i], n, h)
        <= visit_work(ph, n) && phase_after(ph, visits[i]) == ph by {
        assert(visits[i] == todo[i]);
    }
    lemma_uniform_work(ph, visits, visit_work(ph, n), n, h);
    lemma_work_concat(ph, visits, end, n, h);
    lemma_end_concat(ph, visits, end);
    assert(end.drop_first() =~= Seq::empty());
    assert(work(ph, end, n, h) == 2) by {
        reveal_with_fuel(work, 2);
    }
    assert(phase_at_end(ph, end) == phase_after(ph, end[0])) by {
        reveal_with_fuel(phase_at_end, 2);
    }
    lemma_list_within(ids_of(order), sync.visitable(), sync.peers.dom());
    assert(visits.len() * visit_work(ph, n) <= n * visit_work(ph, n)) by (nonlinear_arith)
        requires
            visits.len() <= n,
    ;
}

/// What the sync is about after two lists.
proof fn lemma_end_concat(phase: Phase, a: Seq<JobModel>, b: Seq<JobModel>)
    ensures
        phase_at_end(phase, a + b) == phase_at_end(phase_at_end(phase, a), b),
    decreases a.len(),
{
    if a.len() == 0 {
        assert(a + b =~= b);
    } else {
        assert((a + b).drop_first() =~= a.drop_first() + b);
        lemma_end_concat(phase_after(phase, a[0]), a.drop_first(), b);
    }
}

/// The work for requests for a manifest.
proof fn lemma_manifests(ph: Phase, peers: Seq<PeerId>, n: nat, h: nat)
    requires
        peers.len() <= n,
    ensures
        work(ph, manifest_plan(peers), n, h) <= 2 * n + 1,
        ph is Blocks || phase_at_end(ph, manifest_plan(peers)) == ph,
{
    let todo = manifest_plan(peers);
    let requests = todo.drop_last();
    let end = seq![Task::<OrderModel>::AwaitManifest];
    assert(todo =~= requests + end);
    lemma_uniform_work(ph, requests, 2, n, h);
    lemma_work_concat(ph, requests, end, n, h);
    lemma_end_concat(ph, requests, end);
    assert(end.drop_first() =~= Seq::empty());
    assert(work(ph, end, n, h) == 1) by {
        reveal_with_fuel(work, 2);
    }
    assert(phase_at_end(ph, end) == phase_after(ph, end[0])) by {
        reveal_with_fuel(phase_at_end, 2);
    }
}

/// The work for a restart.
proof fn lemma_restart(sync: SyncModel, env: Surroundings, ph: Phase, n: nat, h: nat)
    ensures
        work(ph, sync.restart_orders(env.chain), n, h) <= round_work(Phase::Peers, n) + 6,
{
    let todo = sync.restart_orders(env.chain);
    lemma_peers_cost_most(ph, todo, n, h);
    let commands = todo.drop_last();
    let end = seq![Task::<OrderModel>::ContinueSync];
    assert(todo =~= commands + end);
    lemma_uniform_work(Phase::Peers, commands, 1, n, h);
    lemma_work_concat(Phase::Peers, commands, end, n, h);
    assert(end.drop_first() =~= Seq::empty());
    assert(work(Phase::Peers, end, n, h) == round_work(Phase::Peers, n)) by {
        reveal_with_fuel(work, 2);
    }
}

/// The work for short lists.
proof fn lemma_short_lists(ph: Phase, jobs: Seq<JobModel>, n: nat, h: nat)
    requires
        jobs.len() <= 2,
    ensures
        jobs.len() == 0 ==> work(ph, jobs, n, h) == 0 && phase_at_end(ph, jobs) == ph,
        jobs.len() == 1 ==> work(ph, jobs, n, h) == task_work(ph, jobs[0], n, h) && phase_at_end(
            ph,
            jobs,
        ) == phase_after(ph, jobs[0]),
        jobs.len() == 2 ==> work(ph, jobs, n, h) == task_work(ph, jobs[0], n, h) + task_work(
            phase_after(ph, jobs[0]),
            jobs[1],
            n,
            h,
        ) && phase_at_end(ph, jobs) == phase_after(phase_after(ph, jobs[0]), jobs[1]),
{
    reveal_with_fuel(work, 3);
    reveal_with_fuel(phase_at_end, 3);
}

/// Whether doing `job` and putting `todo` in its place takes the work down.
spec fn lighter(
    before: Phase,
    job: JobModel,
    after: Phase,
    todo: Seq<JobModel>,
    n: nat,
    h: nat,
) -> bool {
    &&& work(after, todo, n, h) < task_work(before, job, n, h)
    &&& phase_at_end(after, todo) == phase_after(before, job) || phase_after(before, job) is Peers
}

/// Visits take the work down.
proof fn lemma_visit(
    sync: SyncModel,
    env: Surroundings,
    peer_id: PeerId,
    force: bool,
    n: nat,
    h: nat,
)
    ensures
        ({
            let (post, todo) = sync.sync_peer(env, peer_id, force);
            lighter(
                phase(sync.state),
                Task::SyncPeer { peer_id, force },
                phase(post.state),
                todo,
                n,
                h,
            )
        }),
{
    let (post, todo) = sync.sync_peer(env, peer_id, force);
    if sync.considers(peer_id) {
        assert(sync.clear_download_orders(peer_id).len() == 0);
    }
    assert(todo.len() <= 1);
    lemma_short_lists(phase(post.state), todo, n, h);
}

/// The choice among snapshots takes the work down.
proof fn lemma_choice(
    sync: SyncModel,
    env: Surroundings,
    post: SyncModel,
    todo: Seq<JobModel>,
    n: nat,
    h: nat,
)
    requires
        sync.bounded(n, h),
        sync.chooses_snapshot(env, post, todo),
    ensures
        lighter(phase(sync.state), Task::ChooseSnapshot, phase(post.state), todo, n, h),
{
    if sync.any_offer(env) {
        let (hash, peers) = choose|hash: H256, peers: Seq<PeerId>|
            {
                &&& sync.best_supported(env, hash)
                &&& #[trigger] lists(peers, #[trigger] sync.supporters(env, hash))
                &&& peers.len() > 0
                &&& (post, todo) == if peers.len() >= SNAPSHOT_MIN_PEERS || sync.waited_for_peers(
                    env,
                ) {
                    sync.start_snapshot_sync(env.snapshot.have_manifest, peers)
                } else {
                    (sync, seq![])
                }
            };
        lemma_list_within(peers, sync.supporters(env, hash), sync.peers.dom());
        lemma_manifests(phase(sync.state), peers, n, h);
        lemma_short_lists(phase(post.state), Seq::empty(), n, h);
        if todo.len() == 0 {
            assert(todo =~= Seq::empty());
        }
    } else {
        assert(todo.len() <= 1);
        lemma_short_lists(phase(post.state), todo, n, h);
        if todo.len() == 1 {
            assert(todo[0] is ContinueSync);
            assert(phase(post.state) is Blocks);
            assert(task_work(Phase::Blocks, todo[0], n, h) == n * 4 + 3);
        }
    }
}

/// Looking at a paused sync takes the work down.
proof fn lemma_resumption(sync: SyncModel, env: Surroundings, n: nat, h: nat)
    ensures
        ({
            let (post, todo) = sync.check_resume(env);
            lighter(phase(sync.state), Task::CheckResume, phase(post.state), todo, n, h)
        }),
{
    let (post, todo) = sync.check_resume(env);
    let after = phase(post.state);
    if sync.state is SnapshotWaiting && env.service.status is Inactive {
        lemma_restart(sync, env, after, n, h);
    } else {
        assert(todo.len() <= 2);
        lemma_short_lists(after, todo, n, h);
        assert(n * visit_work(after, n) <= n * visit_work(Phase::Peers, n)) by (nonlinear_arith)
            requires
                visit_work(after, n) <= visit_work(Phase::Peers, n),
        ;
    }
}

/// A look at whether a snapshot sync should start takes the work down.
proof fn lemma_maybe_start(sync: SyncModel, env: Surroundings, n: nat, h: nat)
    ensures
        lighter(
            phase(sync.state),
            Task::MaybeStartSnapshotSync,
            phase(sync.state),
            sync.maybe_start_orders(env),
            n,
            h,
        ),
{
    let todo = sync.maybe_start_orders(env);
    assert(todo.len() <= 2);
    lemma_short_lists(phase(sync.state), todo, n, h);
    assert(round_work(Phase::Snapshot, n) == n * 2 + 3);
}

/// Looking for late handshakes takes the work down.
proof fn lemma_handshakes(
    sync: SyncModel,
    tick: Timestamp,
    todo: Seq<JobModel>,
    n: nat,
    h: nat,
)
    requires
        sync.bounded(n, h),
        sync.checks_handshakes_with(tick, todo),
    ensures
        lighter(
            phase(sync.state),
            Task::CheckHandshakes { tick },
            phase(sync.state),
            todo,
            n,
            h,
        ),
{
    let ids = choose|ids: Seq<PeerId>|
        lists(ids, sync.late_handshakes(tick)) && #[trigger] disconnect_plan(ids) == todo;
    lemma_list_within(ids, sync.late_handshakes(tick), sync.handshaking_peers.dom());
    lemma_uniform_work(phase(sync.state), todo, 1, n, h);
}

/// Every task takes the work down, unless it is a question without reply.
proof fn lemma_task<R>(
    sync: SyncModel,
    env: Surroundings,
    job: JobModel,
    reply: Reply<R>,
    post: SyncModel,
    todo: Seq<JobModel>,
    step: Step<R, OrderModel>,
    n: nat,
    h: nat,
)
    requires
        sync.bounded(n, h),
        sync.does(env, job, reply, post, todo, step),
        !unanswered(job, reply),
    ensures
        lighter(phase(sync.state), job, phase(post.state), todo, n, h),
{
    match job {
        Task::ContinueSync => {
            lemma_round(sync, todo, n, h);
        },
        Task::SyncPeer { peer_id, force } => {
            lemma_visit(sync, env, peer_id, force, n, h);
        },
        Task::ChooseSnapshot => {
            lemma_choice(sync, env, post, todo, n, h);
        },
        Task::MaybeStartSnapshotSync => {
            lemma_maybe_start(sync, env, n, h);
        },
        Task::CheckResume => {
            lemma_resumption(sync, env, n, h);
        },
        Task::Restart => {
            lemma_restart(sync, env, phase(post.state), n, h);
        },
        Task::CheckHandshakes { tick } => {
            lemma_handshakes(sync, tick, todo, n, h);
        },
        _ => {
            assert(todo.len() <= 1);
            lemma_short_lists(phase(post.state), todo, n, h);
        },
    }
}

/// As long as every question is answered, each step leaves less work than there was before, and
/// no more peers and handshakes.
pub proof fn answered_steps_make_progress<R>(
    sync: SyncModel,
    env: Surroundings,
    jobs: Seq<JobModel>,
    reply: Reply<R>,
    post: SyncModel,
    rest: Seq<JobModel>,
    step: Step<R, OrderModel>,
    n: nat,
    h: nat,
)
    requires
        sync.bounded(n, h),
        sync.advances(env, jobs, reply, post, rest, step),
        jobs.len() > 0,
        !unanswered(jobs[0], reply),
    ensures
        post.work_left(rest, n, h) < sync.work_left(jobs, n, h),
        post.bounded(n, h),
{
    let job = jobs[0];
    let later = jobs.drop_first();
    let todo = choose|todo: Seq<JobModel>| #[trigger]
        sync.does(env, job, reply, post, todo, step) && rest == todo + later;
    let before = phase(sync.state);
    let after = phase(post.state);
    lemma_task(sync, env, job, reply, post, todo, step, n, h);
    lemma_work_concat(after, todo, later, n, h);
    lemma_peers_cost_most(phase_at_end(after, todo), later, n, h);
    steps_keep_configuration(sync, env, job, reply, post, todo, step);
    if !(job is ForgetPeers) {
        steps_keep_peers(sync, env, job, reply, post, todo, step);
    }
}

/// A question without reply is asked, and nothing else changes: with its reply the next step
/// makes progress.
pub proof fn questions_are_asked_until_answered<R>(
    sync: SyncModel,
    env: Surroundings,
    jobs: Seq<JobModel>,
    reply: Reply<R>,
    post: SyncModel,
    rest: Seq<JobModel>,
    step: Step<R, OrderModel>,
)
    requires
        sync.advances(env, jobs, reply, post, rest, step),
        jobs.len() > 0,
        unanswered(jobs[0], reply),
    ensures
        post == sync,
        rest == jobs,
        match jobs[0] {
            Task::AskBlockStatus(visit) => step == Step::<R, OrderModel>::Act(
                Action::BlockStatus { hash: visit.latest_hash },
            ),
            Task::AskNewBlocks(visit) => step == Step::<R, OrderModel>::Act(
                Action::FindBlocks {
                    block_set: BlockSet::NewBlocks,
                    num_active_peers: visit.num_active_peers,
                },
            ),
            Task::AskOldBlocks(visit) => step == Step::<R, OrderModel>::Act(
                Action::FindBlocks {
                    block_set: BlockSet::OldBlocks,
                    num_active_peers: visit.num_active_peers,
                },
            ),
            _ => false,
        },
{
    let todo = choose|todo: Seq<JobModel>| #[trigger]
        sync.does(env, jobs[0], reply, post, todo, step) && rest == todo + jobs.drop_first();
    assert(rest =~= jobs);
}

/// What one step found: the handler, its surroundings, the agenda, and the reply to the last
/// action.
pub struct Turn<R> {
    pub sync: SyncModel,
    pub env: Surroundings,
    pub jobs: Seq<JobModel>,
    pub reply: Reply<R>,
}

/// Whether the second turn may come right after the first one. The agenda is what the step made
/// of it. In between, the peers' records may have changed, but there are at most `n` peers and `h`
/// handshakes, and the sync is about what it was about. A question gets its reply.
pub open spec fn follows<R>(first: Turn<R>, second: Turn<R>, n: nat, h: nat) -> bool {
    &&& exists|post: SyncModel, step: Step<R, OrderModel>| #[trigger]
        first.sync.advances(first.env, first.jobs, first.reply, post, second.jobs, step)
            && phase(second.sync.state) == phase(post.state)
    &&& second.sync.bounded(n, h)
    &&& unanswered(first.jobs[0], first.reply) ==> !unanswered(second.jobs[0], second.reply)
}

/// Whether the turns follow one another, each with something to do.
pub open spec fn run<R>(turns: Seq<Turn<R>>, n: nat, h: nat) -> bool {
    &&& turns.len() > 0 ==> turns[0].sync.bounded(n, h)
    &&& forall|i: int| 0 <= i < turns.len() ==> (#[trigger] turns[i]).jobs.len() > 0
    &&& forall|i: int|
        0 <= i < turns.len() - 1 ==> follows(#[trigger] turns[i], turns[i + 1], n, h)
}

/// An agenda comes to its end: where every question gets its reply, and nothing but steps changes
/// what the sync is about, there are at most two steps for each unit of work.
pub proof fn agenda_comes_to_its_end<R>(turns: Seq<Turn<R>>, n: nat, h: nat)
    requires
        run(turns, n, h),
        turns.len() > 0,
    ensures
        turns.len() <= 2 * turns[0].sync.work_left(turns[0].jobs, n, h),
{
    lemma_run(turns, n, h);
}

/// The bound for a run, less by one where its first step is not a question.
proof fn lemma_run<R>(turns: Seq<Turn<R>>, n: nat, h: nat)
    requires
        run(turns, n, h),
        turns.len() > 0,
    ensures
        turns.len() + if unanswered(turns[0].jobs[0], turns[0].reply) {
            0int
        } else {
            1
        } <= 2 * turns[0].sync.work_left(turns[0].jobs, n, h),
    decreases turns.len(),
{
    let first = turns[0];
    assert(first.jobs.len() > 0);
    assert(task_work(phase(first.sync.state), first.jobs[0], n, h) >= 1);
    if turns.len() > 1 {
        let others = turns.drop_first();
        let second = turns[1];
        assert(follows(turns[0], turns[1], n, h));
        let (post, step) = choose|post: SyncModel, step: Step<R, OrderModel>| #[trigger]
            first.sync.advances(first.env, first.jobs, first.reply, post, second.jobs, step)
                && phase(second.sync.state) == phase(post.state);
        assert(others[0] == second);
        assert forall|i: int| 0 <= i < others.len() implies (#[trigger] others[i]).jobs.len()
            > 0 by {
            assert(others[i] == turns[i + 1]);
        }
        assert forall|i: int| 0 <= i < others.len() - 1 implies follows(
            #[trigger] others[i],
            others[i + 1],
            n,
            h,
        ) by {
            assert(others[i] == turns[i + 1]);
            assert(follows(turns[i + 1], turns[i + 1 + 1], n, h));
        }
        lemma_run(others, n, h);
        if unanswered(first.jobs[0], first.reply) {
            questions_are_asked_until_answered(
                first.sync,
                first.env,
                first.jobs,
                first.reply,
                post,
                second.jobs,
                step,
            );
        } else {
            answered_steps_make_progress(
                first.sync,
                first.env,
                first.jobs,
                first.reply,
                post,
                second.jobs,
                step,
                n,
                h,
            );
        }
    }
}

} // verus!
