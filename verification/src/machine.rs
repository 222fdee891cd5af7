//! The sync handler at work: tasks are taken off an agenda one by one.
//!
//! Whoever runs the handler calls `ChainSync::advance` until the agenda is done. After a step that
//! asks for an action it performs the action and hands the reply to the next step.

use vstd::prelude::*;
use crate::agenda::{plan, Action, Agenda, Job, JobModel, Order, OrderModel, Reply, Step, Task};
use crate::peer::{BlockSet, PeerAsking, PeerInfo};
use crate::primitives::PeerId;
use crate::status::SyncState;
use crate::sync::{ChainSync, Surroundings, SyncModel};

verus! {

broadcast use vstd::std_specs::hash::group_hash_axioms;

impl SyncModel {
    /// Whether the task looks at the chunks that are there and not yet restored.
    pub open spec fn reads_gap(self, env: Surroundings, job: JobModel) -> bool {
        match job {
            Task::SyncPeer { peer_id, .. } => self.visit_reads_gap(env, peer_id),
            Task::CheckResume => self.resume_reads_gap(env),
            _ => false,
        }
    }

    /// Whether doing `job`, with the reply to the last action at hand, may lead to `post`, to the
    /// tasks `todo` and to the given step.
    pub open spec fn does<R>(
        self,
        env: Surroundings,
        job: JobModel,
        reply: Reply<R>,
        post: SyncModel,
        todo: Seq<JobModel>,
        step: Step<R, OrderModel>,
    ) -> bool {
        match job {
            Task::ContinueSync => post == self && self.resumes_with(todo) && step is Silent,
            Task::SyncPeer { peer_id, force } => (post, todo) == self.sync_peer(env, peer_id, force)
                && step is Silent,
            Task::FinishRound => (post, todo) == self.finish_round(env.chain) && step is Silent,
            Task::MaybeStartSnapshotSync => post == self && todo == self.maybe_start_orders(env)
                && step is Silent,
            Task::ChooseSnapshot => self.chooses_snapshot(env, post, todo) && step is Silent,
            Task::RequestManifest { peer_id } => post == self && todo
                == self.request_manifest_orders(peer_id) && step is Silent,
            Task::AwaitManifest => post == self.in_state(SyncState::SnapshotManifest) && todo.len()
                == 0 && step is Silent,
            Task::AskBlockStatus(visit) => match reply {
                Reply::BlockStatus { unknown } => (post, todo) == self.with_block_status(
                    visit,
                    unknown,
                ) && step is Silent,
                _ => post == self && todo == seq![job] && step == Step::<R, OrderModel>::Act(
                    Action::BlockStatus { hash: visit.latest_hash },
                ),
            },
            Task::AskNewBlocks(visit) => match reply {
                Reply::Request(Some(request)) => post == self && todo =~= seq![
                    Task::NewBlocksRequested,
                ] && step == Step::<R, OrderModel>::Act(
                    Action::RequestBlocks {
                        peer_id: visit.peer_id,
                        request,
                        block_set: BlockSet::NewBlocks,
                    },
                ),
                Reply::Request(None) => (post, todo) == self.turn_to_old_blocks(visit)
                    && step is Silent,
                _ => post == self && todo == seq![job] && step == Step::<R, OrderModel>::Act(
                    Action::FindBlocks {
                        block_set: BlockSet::NewBlocks,
                        num_active_peers: visit.num_active_peers,
                    },
                ),
            },
            Task::AskOldBlocks(visit) => match reply {
                Reply::Request(Some(request)) => post == self && todo.len() == 0 && step == Step::<
                    R,
                    OrderModel,
                >::Act(
                    Action::RequestBlocks {
                        peer_id: visit.peer_id,
                        request,
                        block_set: BlockSet::OldBlocks,
                    },
                ),
                Reply::Request(None) => post == self && todo.len() == 0 && step is Silent,
                _ => post == self && todo == seq![job] && step == Step::<R, OrderModel>::Act(
                    Action::FindBlocks {
                        block_set: BlockSet::OldBlocks,
                        num_active_peers: visit.num_active_peers,
                    },
                ),
            },
            Task::NewBlocksRequested => post == (if self.state is Idle {
                self.in_state(SyncState::Blocks)
            } else {
                self
            }) && todo.len() == 0 && step is Silent,
            Task::CheckResume => (post, todo) == self.check_resume(env) && step is Silent,
            Task::Restart => post == self.retargeted(env.chain).reset(env.chain) && todo
                == self.restart_orders(env.chain) && step is Silent,
            Task::ForgetPeers => post == (SyncModel { peers: Map::empty(), ..self }) && todo.len()
                == 0 && step is Silent,
            Task::CheckHandshakes { tick } => post == self && self.checks_handshakes_with(
                tick,
                todo,
            ) && step is Silent,
            Task::Rebroadcast => self.rebroadcasts_to(post) && todo.len() == 0 && step is Silent,
            Task::Perform(order) => post == self && todo.len() == 0 && step == Step::<
                R,
                OrderModel,
            >::Act(Action::Perform(order)),
        }
    }

    /// Whether one step with the agenda `jobs` may lead to `post` and the agenda `rest`: the next
    /// task is done, and the tasks that it leads to come before all others.
    pub open spec fn advances<R>(
        self,
        env: Surroundings,
        jobs: Seq<JobModel>,
        reply: Reply<R>,
        post: SyncModel,
        rest: Seq<JobModel>,
        step: Step<R, OrderModel>,
    ) -> bool {
        if jobs.len() == 0 {
            post == self && rest == jobs && step is Finished
        } else {
            exists|todo: Seq<JobModel>| #[trigger]
                self.does(env, jobs[0], reply, post, todo, step) && rest == todo
                    + jobs.drop_first()
        }
    }
}

/// The agenda's next task alone.
fn just(job: Job) -> (jobs: Vec<Job>)
    ensures
        plan(jobs@) == seq![job@],
{
    let mut jobs: Vec<Job> = Vec::new();
    jobs.push(job);
    assert(plan(jobs@) =~= seq![job@]);
    jobs
}

/// No task.
fn nothing() -> (jobs: Vec<Job>)
    ensures
        plan(jobs@).len() == 0,
        plan(jobs@) == Seq::<JobModel>::empty(),
{
    let jobs: Vec<Job> = Vec::new();
    assert(plan(jobs@) =~= Seq::<JobModel>::empty());
    jobs
}

impl ChainSync {
    /// Whether visiting the peer looks at the chunks that are there and not yet restored.
    fn visit_looks_at_gap(&self, env: &Surroundings, peer_id: PeerId) -> (r: bool)
        ensures
            r == self@.visit_reads_gap(*env, peer_id),
    {
        if !self.active_peers.contains(&peer_id) {
            return false;
        }
        match self.peers.get(&peer_id) {
            Some(peer) => {
                let has_snapshot = match (peer.snapshot_hash, env.snapshot.snapshot_hash) {
                    (Some(offered), Some(wanted)) => offered == wanted,
                    _ => false,
                };
                self.state == SyncState::SnapshotData && peer.asking == PeerAsking::Nothing
                    && peer.can_sync() && has_snapshot && !(PeerInfo::supports_partial_snapshots(
                    peer.protocol_version,
                ) && peer.snapshot_bitfield.is_none())
            },
            None => false,
        }
    }

    /// Whether the next step can be taken: it needs the number of chunks that are there and not
    /// yet restored only where that number can be computed.
    pub fn can_advance(&self, agenda: &Agenda, env: &Surroundings) -> (r: bool)
        ensures
            r == (agenda@.len() > 0 && self@.reads_gap(*env, agenda@[0]) ==> env.gap_defined()),
    {
        if env.is_gap_defined() {
            return true;
        }
        match agenda.next() {
            Some(Task::SyncPeer { peer_id, .. }) => !self.visit_looks_at_gap(env, *peer_id),
            Some(Task::CheckResume) => !(self.state == SyncState::SnapshotWaiting
                && !env.snapshot.is_complete),
            _ => true,
        }
    }

    /// Takes one step: does the next task of the agenda. `reply` is what came of the action that
    /// the step before asked for, and `Reply::Done` if it asked for none. A question whose reply
    /// is missing is asked again.
    pub fn advance<R>(
        &mut self,
        agenda: &mut Agenda,
        env: &Surroundings,
        reply: Reply<R>,
    ) -> (step: Step<R, Order>)
        requires
            old(agenda)@.len() > 0 && old(self)@.reads_gap(*env, old(agenda)@[0])
                ==> env.gap_defined(),
        ensures
            old(self)@.advances(
                *env,
                old(agenda)@,
                reply,
                final(self)@,
                final(agenda)@,
                step.model(),
            ),
    {
        let ghost jobs = agenda@;
        let job = match agenda.take_next() {
            Some(job) => job,
            None => {
                return Step::Finished;
            },
        };
        let (todo, step) = self.perform(job, env, reply);
        agenda.schedule(todo);
        proof {
            assert(old(self)@.does(*env, jobs[0], reply, self@, plan(todo@), step.model()));
        }
        step
    }

    /// Does one task. Answers with the tasks that it leads to and with the step taken.
    pub fn perform<R>(&mut self, job: Job, env: &Surroundings, reply: Reply<R>) -> (r: (
        Vec<Job>,
        Step<R, Order>,
    ))
        requires
            old(self)@.reads_gap(*env, job@) ==> env.gap_defined(),
        ensures
            old(self)@.does(*env, job@, reply, final(self)@, plan(r.0@), r.1.model()),
    {
        match job {
            Task::ContinueSync => (self.continue_sync(), Step::Silent),
            Task::SyncPeer { peer_id, force } => (
                self.sync_peer(env, peer_id, force),
                Step::Silent,
            ),
            Task::FinishRound => (self.finish_round(&env.chain), Step::Silent),
            Task::MaybeStartSnapshotSync => (self.maybe_start_snapshot_sync(env), Step::Silent),
            Task::ChooseSnapshot => (self.choose_snapshot(env), Step::Silent),
            Task::RequestManifest { peer_id } => (self.request_manifest(peer_id), Step::Silent),
            Task::AwaitManifest => {
                self.await_manifest();
                (nothing(), Step::Silent)
            },
            Task::AskBlockStatus(visit) => match reply {
                Reply::BlockStatus { unknown } => (
                    self.with_block_status(visit, unknown),
                    Step::Silent,
                ),
                _ => (
                    just(Task::AskBlockStatus(visit)),
                    Step::Act(Action::BlockStatus { hash: visit.latest_hash }),
                ),
            },
            Task::AskNewBlocks(visit) => match reply {
                Reply::Request(Some(request)) => (
                    just(Task::NewBlocksRequested),
                    Step::Act(
                        Action::RequestBlocks {
                            peer_id: visit.peer_id,
                            request,
                            block_set: BlockSet::NewBlocks,
                        },
                    ),
                ),
                Reply::Request(None) => (self.turn_to_old_blocks(visit), Step::Silent),
                _ => (
                    just(Task::AskNewBlocks(visit)),
                    Step::Act(
                        Action::FindBlocks {
                            block_set: BlockSet::NewBlocks,
                            num_active_peers: visit.num_active_peers,
                        },
                    ),
                ),
            },
            Task::AskOldBlocks(visit) => match reply {
                Reply::Request(Some(request)) => (
                    nothing(),
                    Step::Act(
                        Action::RequestBlocks {
                            peer_id: visit.peer_id,
                            request,
                            block_set: BlockSet::OldBlocks,
                        },
                    ),
                ),
                Reply::Request(None) => (nothing(), Step::Silent),
                _ => (
                    just(Task::AskOldBlocks(visit)),
                    Step::Act(
                        Action::FindBlocks {
                            block_set: BlockSet::OldBlocks,
                            num_active_peers: visit.num_active_peers,
                        },
                    ),
                ),
            },
            Task::NewBlocksRequested => {
                self.new_blocks_requested();
                (nothing(), Step::Silent)
            },
            Task::CheckResume => (self.check_resume(env), Step::Silent),
            Task::Restart => (self.restart(&env.chain), Step::Silent),
            Task::ForgetPeers => {
                self.forget_peers();
                (nothing(), Step::Silent)
            },
            Task::CheckHandshakes { tick } => (self.check_handshakes(tick), Step::Silent),
            Task::Rebroadcast => {
                self.rebroadcast();
                (nothing(), Step::Silent)
            },
            Task::Perform(order) => (nothing(), Step::Act(Action::Perform(order))),
        }
    }
}

} // verus!
