//! What the synchronisation strategy wants done, and what it has still to do itself.
//!
//! The strategy performs no input or output. A method of `ChainSync` answers with the tasks that
//! are to follow; an `Agenda` keeps them in order, and each `Order` or question among them is
//! handed out for others to perform or answer.

use vstd::prelude::*;
use crate::peer::BlockSet;
use crate::primitives::{BlockNumber, PeerId, Timestamp, H256};

verus! {

/// How a block download is set up.
#[derive(Clone, Copy, Debug)]
pub struct BlockDownload {
    /// Whether receipts are downloaded along with the blocks.
    pub sync_receipts: bool,
    /// Whether the download may step back from its start without limit.
    pub unlimited_reorg: bool,
    /// Hash of the block to start from.
    pub start_hash: H256,
    /// Number of the block to start from.
    pub start_number: BlockNumber,
    /// Hash of the block to stop at, if any.
    pub target: Option<H256>,
}

/// Work to be done outside of the strategy. `H` is a list of hashes, `P` a list of encoded blocks.
#[derive(Debug)]
pub enum Command<H, P> {
    /// Start a block download with the given set-up, in place of any download of that block set.
    StartDownload { block_set: BlockSet, setup: BlockDownload },
    /// Give up the download of old blocks, if there is one.
    DropOldBlocks,
    /// Reset the download of new blocks.
    ResetNewBlocks,
    /// Mark a header as no longer being downloaded.
    ClearHeaderDownload { block_set: BlockSet, hash: H256 },
    /// Mark block bodies as no longer being downloaded.
    ClearBodyDownload { block_set: BlockSet, hashes: H },
    /// Mark receipts as no longer being downloaded.
    ClearReceiptDownload { block_set: BlockSet, hashes: H },
    /// Mark a snapshot chunk as no longer being downloaded.
    ClearChunkDownload { hash: H256 },
    /// Abort the restoration of a snapshot.
    AbortRestore,
    /// Forget the snapshot that is being downloaded.
    ClearSnapshot,
    /// Take over the snapshot chunks that the snapshot service has resumed.
    SyncSnapshot,
    /// Request a snapshot manifest from a peer.
    RequestSnapshotManifest { peer_id: PeerId },
    /// Request a snapshot bitfield from a peer.
    RequestSnapshotBitfield { peer_id: PeerId },
    /// Request a snapshot chunk from a peer.
    RequestSnapshotData { peer_id: PeerId },
    /// Disconnect a peer that did not answer in time.
    DisconnectPeer { peer_id: PeerId },
    /// Handle the loss of a peer.
    AbortPeer { peer_id: PeerId },
    /// Propagate the latest blocks, those that were sealed here among them.
    PropagateLatestBlocks { sealed: H },
    /// Propagate proposed blocks.
    PropagateProposedBlocks { proposed: P },
}

/// A command with its lists.
pub type Order = Command<Vec<H256>, Vec<Vec<u8>>>;

/// A command as the specifications speak of it.
pub type OrderModel = Command<Seq<H256>, Seq<Vec<u8>>>;

impl View for Command<Vec<H256>, Vec<Vec<u8>>> {
    type V = Command<Seq<H256>, Seq<Vec<u8>>>;

    open spec fn view(&self) -> OrderModel {
        match *self {
            Command::StartDownload { block_set, setup } => Command::StartDownload {
                block_set,
                setup,
            },
            Command::DropOldBlocks => Command::DropOldBlocks,
            Command::ResetNewBlocks => Command::ResetNewBlocks,
            Command::ClearHeaderDownload { block_set, hash } => Command::ClearHeaderDownload {
                block_set,
                hash,
            },
            Command::ClearBodyDownload { block_set, hashes } => Command::ClearBodyDownload {
                block_set,
                hashes: hashes@,
            },
            Command::ClearReceiptDownload { block_set, hashes } => Command::ClearReceiptDownload {
                block_set,
                hashes: hashes@,
            },
            Command::ClearChunkDownload { hash } => Command::ClearChunkDownload { hash },
            Command::AbortRestore => Command::AbortRestore,
            Command::ClearSnapshot => Command::ClearSnapshot,
            Command::SyncSnapshot => Command::SyncSnapshot,
            Command::RequestSnapshotManifest { peer_id } => Command::RequestSnapshotManifest {
                peer_id,
            },
            Command::RequestSnapshotBitfield { peer_id } => Command::RequestSnapshotBitfield {
                peer_id,
            },
            Command::RequestSnapshotData { peer_id } => Command::RequestSnapshotData { peer_id },
            Command::DisconnectPeer { peer_id } => Command::DisconnectPeer { peer_id },
            Command::AbortPeer { peer_id } => Command::AbortPeer { peer_id },
            Command::PropagateLatestBlocks { sealed } => Command::PropagateLatestBlocks {
                sealed: sealed@,
            },
            Command::PropagateProposedBlocks { proposed } => Command::PropagateProposedBlocks {
                proposed: proposed@,
            },
        }
    }
}

/// What is known of a peer that blocks are about to be requested from.
#[derive(Clone, Copy, Debug)]
pub struct Visit {
    /// The peer.
    pub peer_id: PeerId,
    /// Hash of its best block.
    pub latest_hash: H256,
    /// Whether to sync with the peer whatever its difficulty.
    pub force: bool,
    /// Whether its difficulty is higher than ours, or unknown.
    pub higher_difficulty: bool,
    /// Number of peers that work on a request.
    pub num_active_peers: usize,
}

/// Something still to be done. `C` is a command.
#[derive(Debug)]
pub enum Task<C> {
    /// Resume downloading.
    ContinueSync,
    /// Find something to do for a peer.
    SyncPeer { peer_id: PeerId, force: bool },
    /// Complete the sync if no peer works on new blocks any more.
    FinishRound,
    /// See whether a snapshot sync should start.
    MaybeStartSnapshotSync,
    /// Choose the snapshot to sync with, among those that peers offer.
    ChooseSnapshot,
    /// Request a manifest from a peer, unless it is busy.
    RequestManifest { peer_id: PeerId },
    /// Wait for the manifests that were requested.
    AwaitManifest,
    /// Learn whether the peer's best block is known, then go on.
    AskBlockStatus(Visit),
    /// Learn which new blocks to request, then go on.
    AskNewBlocks(Visit),
    /// Learn which old blocks to request, then go on.
    AskOldBlocks(Visit),
    /// Note that new blocks have been requested.
    NewBlocksRequested,
    /// Resume a paused sync where possible.
    CheckResume,
    /// Restart the sync.
    Restart,
    /// Forget all peers.
    ForgetPeers,
    /// Disconnect the peers whose status message did not come in time.
    CheckHandshakes { tick: Timestamp },
    /// Choose a peer to re-broadcast transactions to.
    Rebroadcast,
    /// Have a command performed.
    Perform(C),
}

/// A task with its command.
pub type Job = Task<Order>;

/// A task as the specifications speak of it.
pub type JobModel = Task<OrderModel>;

impl View for Task<Command<Vec<H256>, Vec<Vec<u8>>>> {
    type V = Task<Command<Seq<H256>, Seq<Vec<u8>>>>;

    open spec fn view(&self) -> JobModel {
        match *self {
            Task::ContinueSync => Task::ContinueSync,
            Task::SyncPeer { peer_id, force } => Task::SyncPeer { peer_id, force },
            Task::FinishRound => Task::FinishRound,
            Task::MaybeStartSnapshotSync => Task::MaybeStartSnapshotSync,
            Task::ChooseSnapshot => Task::ChooseSnapshot,
            Task::RequestManifest { peer_id } => Task::RequestManifest { peer_id },
            Task::AwaitManifest => Task::AwaitManifest,
            Task::AskBlockStatus(visit) => Task::AskBlockStatus(visit),
            Task::AskNewBlocks(visit) => Task::AskNewBlocks(visit),
            Task::AskOldBlocks(visit) => Task::AskOldBlocks(visit),
            Task::NewBlocksRequested => Task::NewBlocksRequested,
            Task::CheckResume => Task::CheckResume,
            Task::Restart => Task::Restart,
            Task::ForgetPeers => Task::ForgetPeers,
            Task::CheckHandshakes { tick } => Task::CheckHandshakes { tick },
            Task::Rebroadcast => Task::Rebroadcast,
            Task::Perform(order) => Task::Perform(order@),
        }
    }
}

/// A list of tasks as the specifications speak of it.
pub open spec fn plan(jobs: Seq<Job>) -> Seq<JobModel> {
    jobs.map_values(|job: Job| job@)
}

/// The tasks still to be done.
#[derive(Debug)]
pub struct Agenda {
    /// The tasks, the next one last.
    jobs: Vec<Job>,
}

impl View for Agenda {
    type V = Seq<JobModel>;

    /// The tasks, the next one first.
    closed spec fn view(&self) -> Seq<JobModel> {
        plan(self.jobs@.reverse())
    }
}

impl Agenda {
    /// An agenda with the given tasks, the next one first.
    pub fn new(jobs: Vec<Job>) -> (agenda: Agenda)
        ensures
            agenda@ == plan(jobs@),
    {
        let mut agenda = Agenda { jobs: Vec::new() };
        agenda.schedule(jobs);
        assert(agenda@ =~= plan(jobs@));
        agenda
    }

    /// Whether nothing is left to do.
    pub fn is_done(&self) -> (r: bool)
        ensures
            r == (self@.len() == 0),
    {
        self.jobs.len() == 0
    }

    /// Puts tasks in front of all others.
    pub fn schedule(&mut self, jobs: Vec<Job>)
        ensures
            final(self)@ == plan(jobs@) + old(self)@,
    {
        let ghost all = jobs@;
        let ghost before = self.jobs@;
        let mut jobs = jobs;
        while jobs.len() > 0
            invariant
                jobs@ == all.take(jobs@.len() as int),
                jobs@.len() <= all.len(),
                self.jobs@ == before + all.skip(jobs@.len() as int).reverse(),
            decreases jobs.len(),
        {
            let ghost n = jobs@.len() as int;
            match jobs.pop() {
                Some(job) => {
                    self.jobs.push(job);
                    assert(job == all[n - 1]);
                    assert(all.skip(n - 1).reverse() =~= all.skip(n).reverse().push(all[n - 1]));
                    assert(jobs@ =~= all.take(n - 1));
                },
                None => {},
            }
        }
        assert(all.skip(0) =~= all);
        assert(self@ =~= plan(all) + old(self)@);
    }

    /// The next task.
    pub fn next(&self) -> (job: Option<&Job>)
        ensures
            match job {
                Some(job) => self@.len() > 0 && job@ == self@[0],
                None => self@.len() == 0,
            },
    {
        if self.jobs.len() > 0 {
            Some(&self.jobs[self.jobs.len() - 1])
        } else {
            None
        }
    }

    /// Takes the next task off.
    pub fn take_next(&mut self) -> (job: Option<Job>)
        ensures
            match job {
                Some(job) => old(self)@.len() > 0 && job@ == old(self)@[0] && final(self)@ == old(
                    self,
                )@.drop_first(),
                None => old(self)@.len() == 0 && final(self)@ == old(self)@,
            },
    {
        let job = self.jobs.pop();
        assert(job is Some ==> self@ =~= old(self)@.drop_first());
        job
    }
}

/// What came of the last action.
#[derive(Debug)]
pub enum Reply<R> {
    /// The action has been performed, or there was none.
    Done,
    /// Whether the block that was asked for is unknown.
    BlockStatus { unknown: bool },
    /// The block request that was asked for, if there is anything to download.
    Request(Option<R>),
}

/// Work for others. `R` is a block request, `C` a command.
#[derive(Debug)]
pub enum Action<R, C> {
    /// Perform a command.
    Perform(C),
    /// Say whether a block is unknown.
    BlockStatus { hash: H256 },
    /// Find blocks to request.
    FindBlocks { block_set: BlockSet, num_active_peers: usize },
    /// Request blocks from a peer.
    RequestBlocks { peer_id: PeerId, request: R, block_set: BlockSet },
}

/// What came of taking one task off an agenda.
#[derive(Debug)]
pub enum Step<R, C> {
    /// Nothing is left to do.
    Finished,
    /// The task is done and asks for no action.
    Silent,
    /// The task asks for an action. Its reply belongs to the next step.
    Act(Action<R, C>),
}

impl<R> Step<R, Command<Vec<H256>, Vec<Vec<u8>>>> {
    /// The step as the specifications speak of it.
    pub open spec fn model(self) -> Step<R, Command<Seq<H256>, Seq<Vec<u8>>>> {
        match self {
            Step::Finished => Step::Finished,
            Step::Silent => Step::Silent,
            Step::Act(Action::Perform(order)) => Step::Act(Action::Perform(order@)),
            Step::Act(Action::BlockStatus { hash }) => Step::Act(Action::BlockStatus { hash }),
            Step::Act(Action::FindBlocks { block_set, num_active_peers }) => Step::Act(
                Action::FindBlocks { block_set, num_active_peers },
            ),
            Step::Act(Action::RequestBlocks { peer_id, request, block_set }) => Step::Act(
                Action::RequestBlocks { peer_id, request, block_set },
            ),
        }
    }
}

} // verus!
