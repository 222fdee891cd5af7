//! The decisions of the sync handler on blocks and peers.

use vstd::prelude::*;
use std::collections::HashSet;
use crate::agenda::{plan, Command, Job, JobModel, Task, Visit};
use crate::order::{order_by_version, sorted_by_version, stable_sort};
use crate::peer::{copy_items, elapsed, time_since, BlockSet, PeerAsking, PeerInfo, PeerModel};
use crate::peers::{lemma_lists_len, lemma_push_contains, lists, peer_ids, peers_model, select};
use crate::primitives::{
    BlockChainInfo, BlockQueueInfo, PeerId, RestorationStatus, Timestamp, H256,
};
use crate::protocol::{PAR_PROTOCOL_VERSION_4, STATUS_TIMEOUT};
use crate::random;
use crate::status::{is_major_sync, major_sync, SyncState};
use crate::sync::{target_orders, ChainSync, Surroundings, SyncModel};

verus! {

broadcast use vstd::std_specs::hash::group_hash_axioms;

/// Visits of the given peers, in order, and the end of the round.
pub open spec fn visit_plan(order: Seq<(PeerId, u8)>) -> Seq<JobModel> {
    order.map_values(
        |peer: (PeerId, u8)| Task::SyncPeer { peer_id: peer.0, force: false },
    ).push(Task::FinishRound)
}

/// The given peers, without their versions.
pub open spec fn ids_of(order: Seq<(PeerId, u8)>) -> Seq<PeerId> {
    order.map_values(|peer: (PeerId, u8)| peer.0)
}

impl SyncModel {
    /// The peers to visit when downloading is resumed: the active ones that take part in the
    /// sync.
    pub open spec fn visitable(self) -> Set<PeerId> {
        self.active_peers.intersect(self.allowed_peers())
    }

    /// Whether `order` holds the peers to visit, each once and with its protocol version.
    pub open spec fn visit_list(self, order: Seq<(PeerId, u8)>) -> bool {
        &&& lists(ids_of(order), self.visitable())
        &&& forall|i: int|
            0 <= i < order.len() ==> (#[trigger] order[i]).1
                == self.peers[order[i].0].protocol_version
    }

    /// Whether `todo` resumes downloading: it visits the peers to visit, those with a higher
    /// protocol version first, and then ends the round.
    pub open spec fn resumes_with(self, todo: Seq<JobModel>) -> bool {
        exists|order: Seq<(PeerId, u8)>|
            self.visit_list(order) && sorted_by_version(order) && #[trigger] visit_plan(order)
                == todo
    }

    /// What a reset asks for.
    pub open spec fn reset_orders(self) -> Seq<JobModel> {
        seq![Task::Perform(Command::ResetNewBlocks)]
    }

    /// What a reset that goes on downloading asks for.
    pub open spec fn reset_and_continue_orders(self) -> Seq<JobModel> {
        (if self.state is SnapshotData {
            seq![Task::Perform(Command::AbortRestore)]
        } else {
            seq![]
        }) + seq![Task::Perform(Command::ClearSnapshot)] + self.reset_orders() + seq![
            Task::ContinueSync,
        ]
    }

    /// What a restart asks for.
    pub open spec fn restart_orders(self, chain: BlockChainInfo) -> Seq<JobModel> {
        target_orders(self.download_old_blocks, chain) + self.reset_and_continue_orders()
    }

    /// Whether the round is over: blocks were being downloaded, and no peer works on new blocks
    /// any more.
    pub open spec fn round_over(self) -> bool {
        (self.state is Blocks || self.state is NewBlocks) && !self.any_busy()
    }

    /// The end of a round.
    pub open spec fn finish_round(self, chain: BlockChainInfo) -> (SyncModel, Seq<JobModel>) {
        if self.round_over() {
            (self.reset(chain), self.reset_orders())
        } else {
            (self, seq![])
        }
    }

    /// Whether something may be found to do for the peer: it is connected, active, idle and takes
    /// part in the sync, and the sync is not paused.
    pub open spec fn considers(self, peer_id: PeerId) -> bool {
        &&& self.active_peers.contains(peer_id)
        &&& self.peers.contains_key(peer_id)
        &&& self.peers[peer_id].asking is Nothing
        &&& self.peers[peer_id].allowed()
        &&& !(self.state is Waiting || self.state is SnapshotInit || self.state is SnapshotWaiting)
    }

    /// What is known of a peer that blocks may be requested from.
    pub open spec fn visit(self, chain: BlockChainInfo, peer_id: PeerId, force: bool) -> Visit {
        Visit {
            peer_id,
            latest_hash: self.peers[peer_id].latest_hash,
            force,
            higher_difficulty: self.peers[peer_id].higher_difficulty(
                chain.pending_total_difficulty,
            ),
            num_active_peers: self.asked_peers().len() as usize,
        }
    }

    /// Whether the peer offers the snapshot that is being downloaded.
    pub open spec fn has_snapshot(self, env: Surroundings, peer_id: PeerId) -> bool {
        self.peers[peer_id].snapshot_hash is Some && self.peers[peer_id].snapshot_hash
            == env.snapshot.snapshot_hash
    }

    /// Whether the peer can tell which snapshot chunks it has, and has not yet.
    pub open spec fn lacks_bitfield(self, peer_id: PeerId) -> bool {
        self.peers[peer_id].protocol_version == PAR_PROTOCOL_VERSION_4
            && self.peers[peer_id].snapshot_bitfield is None
    }

    /// Whether visiting the peer looks at the chunks that are there and not yet restored.
    pub open spec fn visit_reads_gap(self, env: Surroundings, peer_id: PeerId) -> bool {
        &&& self.considers(peer_id)
        &&& self.state is SnapshotData
        &&& self.has_snapshot(env, peer_id)
        &&& !self.lacks_bitfield(peer_id)
    }

    /// Something to do for a peer.
    pub open spec fn sync_peer(self, env: Surroundings, peer_id: PeerId, force: bool) -> (
        SyncModel,
        Seq<JobModel>,
    ) {
        if !self.considers(peer_id) {
            (self, seq![])
        } else {
            match self.state {
                SyncState::WaitingPeers => (self, seq![Task::MaybeStartSnapshotSync]),
                SyncState::Idle | SyncState::Blocks | SyncState::NewBlocks => {
                    let visit = self.visit(env.chain, peer_id, force);
                    if !(force || visit.higher_difficulty || self.old_blocks is Some) {
                        (self, seq![])
                    } else if env.queue_full {
                        (self.in_state(SyncState::Waiting), seq![])
                    } else {
                        (self, seq![Task::AskBlockStatus(visit)])
                    }
                },
                SyncState::SnapshotData => {
                    if !self.has_snapshot(env, peer_id) {
                        (self.deactivated(peer_id), seq![])
                    } else if self.lacks_bitfield(peer_id) {
                        (self, seq![Task::Perform(Command::RequestSnapshotBitfield { peer_id })])
                    } else if env.too_far_ahead() {
                        (self.in_state(SyncState::SnapshotWaiting), seq![])
                    } else {
                        (
                            self,
                            self.clear_download_orders(peer_id).push(
                                Task::Perform(Command::RequestSnapshotData { peer_id }),
                            ),
                        )
                    }
                },
                _ => (self, seq![]),
            }
        }
    }

    /// What follows once it is known whether the peer's best block is unknown here.
    pub open spec fn with_block_status(self, visit: Visit, unknown: bool) -> (
        SyncModel,
        Seq<JobModel>,
    ) {
        if unknown && (visit.higher_difficulty || visit.force || self.state is NewBlocks) {
            (self, seq![Task::AskNewBlocks(visit)])
        } else {
            self.turn_to_old_blocks(visit)
        }
    }

    /// What follows where no new blocks are to be requested from the peer. Only a peer with a
    /// higher difficulty is asked for old blocks.
    pub open spec fn turn_to_old_blocks(self, visit: Visit) -> (SyncModel, Seq<JobModel>) {
        if visit.force || visit.higher_difficulty {
            (
                self,
                if self.old_blocks is Some {
                    seq![Task::AskOldBlocks(visit)]
                } else {
                    seq![]
                },
            )
        } else {
            (self.deactivated(visit.peer_id), seq![])
        }
    }

    /// The block downloads there are.
    pub open spec fn downloads(self) -> Seq<BlockSet> {
        if self.old_blocks is Some {
            seq![BlockSet::NewBlocks, BlockSet::OldBlocks]
        } else {
            seq![BlockSet::NewBlocks]
        }
    }

    /// What has to be done for nothing to be marked as being downloaded by the peer.
    pub open spec fn clear_download_orders(self, peer_id: PeerId) -> Seq<JobModel> {
        let peer = self.peers[peer_id];
        if !self.peers.contains_key(peer_id) {
            seq![]
        } else {
            match peer.asking {
                PeerAsking::BlockHeaders => match peer.asking_hash {
                    Some(hash) => self.downloads().map_values(
                        |block_set: BlockSet|
                            Task::Perform(Command::ClearHeaderDownload { block_set, hash }),
                    ),
                    None => seq![],
                },
                PeerAsking::BlockBodies => self.downloads().map_values(
                    |block_set: BlockSet|
                        Task::Perform(
                            Command::ClearBodyDownload { block_set, hashes: peer.asking_blocks },
                        ),
                ),
                PeerAsking::BlockReceipts => self.downloads().map_values(
                    |block_set: BlockSet|
                        Task::Perform(
                            Command::ClearReceiptDownload { block_set, hashes: peer.asking_blocks },
                        ),
                ),
                PeerAsking::SnapshotData => match peer.asking_snapshot_data {
                    Some(hash) => seq![Task::Perform(Command::ClearChunkDownload { hash })],
                    None => seq![],
                },
                _ => seq![],
            }
        }
    }

    /// Whether a look at the paused sync reads the chunks that are there and not yet restored.
    pub open spec fn resume_reads_gap(self, env: Surroundings) -> bool {
        self.state is SnapshotWaiting && !env.snapshot.is_complete
    }

    /// What becomes of a paused sync.
    pub open spec fn check_resume(self, env: Surroundings) -> (SyncModel, Seq<JobModel>) {
        match self.state {
            SyncState::Waiting => if !env.queue_full {
                (self.in_state(SyncState::Blocks), seq![Task::ContinueSync])
            } else {
                (self, seq![])
            },
            SyncState::SnapshotWaiting => match env.service.status {
                RestorationStatus::Inactive => (
                    self.retargeted(env.chain).reset(env.chain),
                    self.restart_orders(env.chain),
                ),
                RestorationStatus::Ongoing { .. } => if !env.snapshot.is_complete
                    && !env.too_far_ahead() {
                    (self.in_state(SyncState::SnapshotData), seq![Task::ContinueSync])
                } else {
                    (self, seq![])
                },
                RestorationStatus::Failed => (
                    self.in_state(SyncState::WaitingPeers),
                    seq![Task::Perform(Command::ClearSnapshot), Task::ContinueSync],
                ),
            },
            SyncState::SnapshotInit => self.check_snapshot_service(env),
            _ => (self, seq![]),
        }
    }

    /// A look at whether the snapshot service is ready.
    pub open spec fn check_snapshot_service(self, env: Surroundings) -> (
        SyncModel,
        Seq<JobModel>,
    ) {
        if env.service.restoration_ready {
            (self.in_state(SyncState::SnapshotData), seq![Task::Perform(Command::SyncSnapshot)])
        } else {
            (self, seq![])
        }
    }

    /// The peers whose request has timed out by `now`.
    pub open spec fn timed_out_peers(self, now: Timestamp) -> Set<PeerId> {
        Set::new(|id: PeerId| self.peers.contains_key(id) && self.peers[id].timed_out(now))
    }

    /// Whether `todo` is what has to be done at `now` for peers that do not answer: disconnect
    /// each, handle the loss of each in the same order, then look at handshakes.
    pub open spec fn maintains_with(self, now: Timestamp, todo: Seq<JobModel>) -> bool {
        exists|ids: Seq<PeerId>|
            lists(ids, self.timed_out_peers(now)) && #[trigger] timeout_plan(ids, now) == todo
    }

    /// The peers whose status message is overdue at `tick`: more than the time limit has passed
    /// since it was asked for.
    pub open spec fn late_handshakes(self, tick: Timestamp) -> Set<PeerId> {
        Set::new(
            |id: PeerId|
                self.handshaking_peers.contains_key(id) && elapsed(
                    tick,
                    self.handshaking_peers[id],
                ) > STATUS_TIMEOUT,
        )
    }

    /// Whether `todo` disconnects the peers whose status message is overdue at `tick`.
    pub open spec fn checks_handshakes_with(self, tick: Timestamp, todo: Seq<JobModel>) -> bool {
        exists|ids: Seq<PeerId>|
            lists(ids, self.late_handshakes(tick)) && #[trigger] disconnect_plan(ids) == todo
    }

    /// The handler once it is forgotten which transactions were sent to a peer.
    pub open spec fn sent_forgotten(self, peer_id: PeerId) -> SyncModel {
        self.with_peer(
            peer_id,
            PeerModel { last_sent_transactions: Set::empty(), ..self.peers[peer_id] },
        )
    }

    /// Whether `post` is this handler once a peer has been chosen to re-broadcast transactions
    /// to: it is forgotten which were sent to some peer, if there is one.
    pub open spec fn rebroadcasts_to(self, post: SyncModel) -> bool {
        if self.peers.dom() == Set::<PeerId>::empty() {
            post == self
        } else {
            exists|id: PeerId| #[trigger]
                self.peers.contains_key(id) && post == self.sent_forgotten(id)
        }
    }

    /// What new blocks in the chain ask for. `queued` blocks wait in the queue; `invalid` and
    /// `enacted` tell whether there are blocks of that kind.
    pub open spec fn new_blocks_orders(
        self,
        queued: int,
        invalid: bool,
        enacted: bool,
        sealed: Seq<H256>,
        proposed: Seq<Vec<u8>>,
    ) -> Seq<JobModel> {
        let syncing = major_sync(self.state, queued);
        (if !syncing || sealed.len() > 0 || proposed.len() > 0 {
            seq![
                Task::Perform(Command::PropagateLatestBlocks { sealed }),
                Task::Perform(Command::PropagateProposedBlocks { proposed }),
            ]
        } else {
            seq![]
        }) + (if invalid {
            seq![Task::Restart]
        } else {
            seq![]
        }) + (if !syncing && enacted {
            seq![Task::Rebroadcast]
        } else {
            seq![]
        })
    }
}

/// Disconnection of the given peers, in order.
pub open spec fn disconnect_plan(ids: Seq<PeerId>) -> Seq<JobModel> {
    ids.map_values(|peer_id: PeerId| Task::Perform(Command::DisconnectPeer { peer_id }))
}

/// Loss of the given peers, in order.
pub open spec fn abort_plan(ids: Seq<PeerId>) -> Seq<JobModel> {
    ids.map_values(|peer_id: PeerId| Task::Perform(Command::AbortPeer { peer_id }))
}

/// What has to be done for peers that do not answer.
pub open spec fn timeout_plan(ids: Seq<PeerId>, now: Timestamp) -> Seq<JobModel> {
    disconnect_plan(ids) + abort_plan(ids) + seq![Task::CheckHandshakes { tick: now }]
}

/// A list of the peers to visit stays one when it is permuted.
proof fn lemma_permuted_visit_list(
    model: SyncModel,
    s: Seq<(PeerId, u8)>,
    t: Seq<(PeerId, u8)>,
)
    requires
        model.visit_list(s),
        s.to_multiset() == t.to_multiset(),
    ensures
        model.visit_list(t),
{
    broadcast use vstd::seq_lib::group_to_multiset_ensures;

    assert forall|i: int, j: int| 0 <= i < s.len() && 0 <= j < s.len() && i != j implies s[i]
        != s[j] by {
        assert(ids_of(s)[i] != ids_of(s)[j]);
    }
    s.lemma_multiset_has_no_duplicates();
    t.lemma_multiset_has_no_duplicates_conv();
    assert forall|x: (PeerId, u8)| s.contains(x) == #[trigger] t.contains(x) by {
        assert(s.contains(x) <==> s.to_multiset().count(x) > 0);
        assert(t.contains(x) <==> t.to_multiset().count(x) > 0);
    }
    assert forall|i: int| 0 <= i < t.len() implies (#[trigger] t[i]).1
        == model.peers[t[i].0].protocol_version by {
        assert(t.contains(t[i]));
        let k = choose|k: int| 0 <= k < s.len() && s[k] == t[i];
        assert(s[k].1 == model.peers[s[k].0].protocol_version);
    }
    assert forall|i: int, j: int| 0 <= i < t.len() && 0 <= j < t.len() && i != j implies ids_of(
        t,
    )[i] != ids_of(t)[j] by {
        assert(t[i] != t[j]);
        assert(t[i].1 == model.peers[t[i].0].protocol_version);
        assert(t[j].1 == model.peers[t[j].0].protocol_version);
    }
    assert forall|id: PeerId| ids_of(s).contains(id) == ids_of(t).contains(id) by {
        if ids_of(s).contains(id) {
            let k = choose|k: int| 0 <= k < ids_of(s).len() && ids_of(s)[k] == id;
            assert(s.contains(s[k]));
            assert(t.contains(s[k]));
            let m = choose|m: int| 0 <= m < t.len() && t[m] == s[k];
            assert(ids_of(t)[m] == id);
        }
        if ids_of(t).contains(id) {
            let k = choose|k: int| 0 <= k < ids_of(t).len() && ids_of(t)[k] == id;
            assert(t.contains(t[k]));
            assert(s.contains(t[k]));
            let m = choose|m: int| 0 <= m < s.len() && s[m] == t[k];
            assert(ids_of(s)[m] == id);
        }
    }
    assert(ids_of(t).to_set() =~= ids_of(s).to_set());
}

impl ChainSync {
    /// Reset sync. Clear all downloaded data but keep the queue
    pub fn reset(&mut self, chain: &BlockChainInfo) -> (jobs: Vec<Job>)
        ensures
            final(self)@ == old(self)@.reset(*chain),
            plan(jobs@) == old(self)@.reset_orders(),
    {
        let ghost before = self@;
        let ghost known = self.peers@;
        let ids = peer_ids(&self.peers);
        let mut active_peers: HashSet<PeerId> = HashSet::new();
        let mut i: usize = 0;
        assert(ids@.take(0).to_set() =~= Set::empty());
        while i < ids.len()
            invariant
                i <= ids.len(),
                lists(ids@, known.dom()),
                before.peers == peers_model(known),
                self.peers@.dom() == known.dom(),
                forall|id: PeerId| #[trigger]
                    known.contains_key(id) ==> self.peers@[id]@ == if ids@.take(
                        i as int,
                    ).contains(id) {
                        known[id]@.sync_reset(chain.pending_total_difficulty)
                    } else {
                        known[id]@
                    },
                active_peers@ == ids@.take(i as int).to_set(),
                self@ == (SyncModel { peers: self@.peers, ..before }),
            decreases ids.len() - i,
        {
            let id = ids[i];
            let ghost round = self.peers@;
            proof {
                assert(ids@.to_set().contains(id));
                assert(!ids@.take(i as int).contains(id));
                assert(ids@.take(i + 1) =~= ids@.take(i as int).push(id));
                crate::peers::lemma_to_set_push(ids@.take(i as int), id);
            }
            match self.peers.remove(&id) {
                Some(peer) => {
                    let mut peer = peer;
                    if peer.block_set != Some(BlockSet::OldBlocks) {
                        peer.reset_asking();
                        if peer.difficulty.is_none() {
                            // assume peer has up to date difficulty
                            peer.difficulty = Some(chain.pending_total_difficulty);
                        }
                    }
                    assert(peer@ == known[id]@.sync_reset(chain.pending_total_difficulty));
                    self.peers.insert(id, peer);
                },
                None => {},
            }
            active_peers.insert(id);
            assert(self.peers@.dom() =~= known.dom());
            assert forall|x: PeerId| #[trigger] known.contains_key(x) implies self.peers@[x]@
                == if ids@.take(i + 1).contains(x) {
                known[x]@.sync_reset(chain.pending_total_difficulty)
            } else {
                known[x]@
            } by {
                lemma_push_contains(ids@.take(i as int), id, x);
                if x != id {
                    assert(self.peers@[x] == round[x]);
                }
            }
            i = i + 1;
        }
        self.state = ChainSync::get_init_state(self.warp_sync, chain);
        self.active_peers = active_peers;
        proof {
            assert(ids@.take(i as int) =~= ids@);
            assert forall|id: PeerId| #[trigger] known.contains_key(id) implies ids@.contains(
                id,
            ) by {
                assert(ids@.to_set().contains(id));
            }
            assert(self@.peers =~= before.reset(*chain).peers);
            assert(self@.active_peers =~= before.peers.dom());
        }
        let mut jobs: Vec<Job> = Vec::new();
        jobs.push(Task::Perform(Command::ResetNewBlocks));
        assert(plan(jobs@) =~= before.reset_orders());
        jobs
    }

    /// Restart sync
    pub fn reset_and_continue(&mut self, chain: &BlockChainInfo) -> (jobs: Vec<Job>)
        ensures
            final(self)@ == old(self)@.reset(*chain),
            plan(jobs@) == old(self)@.reset_and_continue_orders(),
    {
        let mut jobs: Vec<Job> = Vec::new();
        if self.state == SyncState::SnapshotData {
            jobs.push(Task::Perform(Command::AbortRestore));
        }
        jobs.push(Task::Perform(Command::ClearSnapshot));
        let mut reset = self.reset(chain);
        jobs.append(&mut reset);
        jobs.push(Task::ContinueSync);
        assert(plan(jobs@) =~= old(self)@.reset_and_continue_orders());
        jobs
    }

    /// Restart sync disregarding the block queue status. May end up re-downloading up to
    /// QUEUE_SIZE blocks
    pub fn restart(&mut self, chain: &BlockChainInfo) -> (jobs: Vec<Job>)
        ensures
            final(self)@ == old(self)@.retargeted(*chain).reset(*chain),
            plan(jobs@) == old(self)@.restart_orders(*chain),
    {
        let mut jobs = self.update_targets(chain);
        let mut reset = self.reset_and_continue(chain);
        let ghost targets = jobs@;
        let ghost rest = reset@;
        jobs.append(&mut reset);
        assert(plan(jobs@) =~= plan(targets) + plan(rest));
        jobs
    }

    /// Abort all sync activity
    pub fn abort(&mut self, chain: &BlockChainInfo) -> (jobs: Vec<Job>)
        ensures
            final(self)@ == old(self)@.reset(*chain),
            plan(jobs@) == old(self)@.reset_and_continue_orders().push(Task::ForgetPeers),
    {
        let mut jobs = self.reset_and_continue(chain);
        jobs.push(Task::ForgetPeers);
        assert(plan(jobs@) =~= old(self)@.reset_and_continue_orders().push(Task::ForgetPeers));
        jobs
    }

    /// Forgets all peers.
    pub fn forget_peers(&mut self)
        ensures
            final(self)@ == (SyncModel { peers: Map::empty(), ..old(self)@ }),
    {
        self.peers.clear();
        assert(self@.peers =~= Map::empty());
    }

    /// Remove peer from active peer set. Peer will be reactivated on the next sync
    /// round.
    pub fn deactivate_peer(&mut self, peer_id: PeerId)
        ensures
            final(self)@ == old(self)@.deactivated(peer_id),
    {
        self.active_peers.remove(&peer_id);
    }

    /// The peers to visit when downloading is resumed, in no particular order.
    pub fn peers_to_visit(&self) -> (order: Vec<(PeerId, u8)>)
        ensures
            self@.visit_list(order@),
    {
        let pred = |p: &PeerInfo| -> (b: bool)
            ensures
                b == p@.allowed(),
        {
            p.can_sync()
        };
        let confirmed = select(&self.peers, pred, Ghost(|p: PeerModel| p.allowed()));
        assert(confirmed@.to_set() =~= self@.allowed_peers());
        let mut order: Vec<(PeerId, u8)> = Vec::new();
        let mut i: usize = 0;
        while i < confirmed.len()
            invariant
                i <= confirmed.len(),
                lists(confirmed@, self@.allowed_peers()),
                ids_of(order@).no_duplicates(),
                forall|id: PeerId| #[trigger]
                    ids_of(order@).contains(id) <==> (confirmed@.take(i as int).contains(id)
                        && self.active_peers@.contains(id)),
                forall|j: int|
                    0 <= j < order.len() ==> (#[trigger] order@[j]).1
                        == self@.peers[order@[j].0].protocol_version,
            decreases confirmed.len() - i,
        {
            let id = confirmed[i];
            let ghost before = order@;
            proof {
                assert(confirmed@.to_set().contains(id));
                assert(!confirmed@.take(i as int).contains(id));
                assert(confirmed@.take(i + 1) =~= confirmed@.take(i as int).push(id));
                assert(!ids_of(order@).contains(id));
            }
            if self.active_peers.contains(&id) {
                match self.peers.get(&id) {
                    Some(peer) => {
                        order.push((id, peer.protocol_version));
                        assert(ids_of(order@) =~= ids_of(before).push(id));
                    },
                    None => {},
                }
            }
            assert forall|x: PeerId| #[trigger]
                ids_of(order@).contains(x) <==> (confirmed@.take(i + 1).contains(x)
                    && self.active_peers@.contains(x)) by {
                lemma_push_contains(confirmed@.take(i as int), id, x);
                lemma_push_contains(ids_of(before), id, x);
                assert(ids_of(before).contains(x) <==> (confirmed@.take(i as int).contains(x)
                    && self.active_peers@.contains(x)));
            }
            i = i + 1;
        }
        proof {
            assert(confirmed@.take(i as int) =~= confirmed@);
            assert forall|id: PeerId| #[trigger]
                ids_of(order@).to_set().contains(id) <==> self@.visitable().contains(id) by {
                assert(ids_of(order@).contains(id) <==> (confirmed@.contains(id)
                    && self.active_peers@.contains(id)));
                assert(confirmed@.contains(id) <==> confirmed@.to_set().contains(id));
            }
            assert(ids_of(order@).to_set() =~= self@.visitable());
        }
        order
    }

    /// Visits of the given peers, those with a higher protocol version first, and the end of the
    /// round.
    pub fn visit_peers(peers: Vec<(PeerId, u8)>) -> (jobs: Vec<Job>)
        ensures
            exists|order: Seq<(PeerId, u8)>|
                stable_sort(peers@, order) && #[trigger] visit_plan(order) == plan(jobs@),
    {
        let order = order_by_version(peers);
        let mut jobs: Vec<Job> = Vec::new();
        let mut i: usize = 0;
        while i < order.len()
            invariant
                i <= order.len(),
                jobs.len() == i,
                forall|j: int|
                    0 <= j < i ==> ((#[trigger] jobs@[j]) matches Task::SyncPeer { peer_id, force }
                        && peer_id == order@[j].0 && !force),
            decreases order.len() - i,
        {
            jobs.push(Task::SyncPeer { peer_id: order[i].0, force: false });
            i = i + 1;
        }
        jobs.push(Task::FinishRound);
        assert(plan(jobs@) =~= visit_plan(order@));
        jobs
    }

    /// Resume downloading
    pub fn continue_sync(&self) -> (jobs: Vec<Job>)
        ensures
            self@.resumes_with(plan(jobs@)),
    {
        // Collect active peers that can sync
        let mut peers = self.peers_to_visit();
        let ghost collected = peers@;
        random::shuffle(&mut random::new(), &mut peers);
        let ghost shuffled = peers@;
        let jobs = ChainSync::visit_peers(peers);
        proof {
            let order = choose|order: Seq<(PeerId, u8)>|
                stable_sort(shuffled, order) && #[trigger] visit_plan(order) == plan(jobs@);
            lemma_permuted_visit_list(self@, collected, order);
        }
        jobs
    }

    /// Completes the sync once no peer works on new blocks any more.
    pub fn finish_round(&mut self, chain: &BlockChainInfo) -> (jobs: Vec<Job>)
        ensures
            (final(self)@, plan(jobs@)) == old(self)@.finish_round(*chain),
    {
        if (self.state == SyncState::Blocks || self.state == SyncState::NewBlocks)
            && !self.is_any_busy() {
            self.complete_sync(chain)
        } else {
            let jobs: Vec<Job> = Vec::new();
            assert(plan(jobs@) =~= seq![]);
            jobs
        }
    }

    /// Whether some peer works on new blocks.
    fn is_any_busy(&self) -> (r: bool)
        ensures
            r == self@.any_busy(),
    {
        let pred = |p: &PeerInfo| -> (b: bool)
            ensures
                b == p@.busy_with_new_blocks(),
        {
            p.asking != PeerAsking::Nothing && p.block_set != Some(BlockSet::OldBlocks)
                && p.can_sync()
        };
        let busy = select(&self.peers, pred, Ghost(|p: PeerModel| p.busy_with_new_blocks()));
        proof {
            if busy@.len() > 0 {
                assert(busy@.to_set().contains(busy@[0]));
                assert(self@.peers.contains_key(busy@[0]));
            }
            if self@.any_busy() {
                let id = choose|id: PeerId| #[trigger]
                    self@.peers.contains_key(id) && self@.peers[id].busy_with_new_blocks();
                assert(busy@.to_set().contains(id));
            }
        }
        busy.len() > 0
    }

    /// Called after all blocks have been downloaded
    pub fn complete_sync(&mut self, chain: &BlockChainInfo) -> (jobs: Vec<Job>)
        ensures
            final(self)@ == old(self)@.reset(*chain),
            plan(jobs@) == old(self)@.reset_orders(),
    {
        self.reset(chain)
    }

    /// Enter waiting state
    pub fn pause_sync(&mut self)
        ensures
            final(self)@ == old(self)@.in_state(SyncState::Waiting),
    {
        self.state = SyncState::Waiting;
    }

    /// Find something to do for a peer. Called for a new peer or when a peer is done with its
    /// task.
    pub fn sync_peer(&mut self, env: &Surroundings, peer_id: PeerId, force: bool) -> (jobs: Vec<
        Job,
    >)
        requires
            old(self)@.visit_reads_gap(*env, peer_id) ==> env.gap_defined(),
        ensures
            (final(self)@, plan(jobs@)) == old(self)@.sync_peer(*env, peer_id, force),
    {
        let ghost before = self@;
        let mut jobs: Vec<Job> = Vec::new();
        assert(plan(jobs@) =~= seq![]);
        if !self.active_peers.contains(&peer_id) {
            return jobs;
        }
        let peer = self.peers.get(&peer_id);
        let (peer_latest, higher_difficulty, peer_snapshot_hash, request_bitfield) = match peer {
            Some(peer) => {
                if peer.asking != PeerAsking::Nothing || !peer.can_sync() {
                    return jobs;
                }
                if self.state == SyncState::Waiting {
                    return jobs;
                }
                if self.state == SyncState::SnapshotInit {
                    return jobs;
                }
                if self.state == SyncState::SnapshotWaiting {
                    return jobs;
                }
                let higher_difficulty = match &peer.difficulty {
                    Some(pd) => pd.exceeds(&env.chain.pending_total_difficulty),
                    None => true,
                };
                (
                    peer.latest_hash,
                    higher_difficulty,
                    peer.snapshot_hash,
                    PeerInfo::supports_partial_snapshots(peer.protocol_version)
                        && peer.snapshot_bitfield.is_none(),
                )
            },
            None => {
                return jobs;
            },
        };
        assert(before.considers(peer_id));
        match self.state {
            SyncState::WaitingPeers => {
                jobs.push(Task::MaybeStartSnapshotSync);
                assert(plan(jobs@) =~= seq![Task::MaybeStartSnapshotSync]);
            },
            SyncState::Idle | SyncState::Blocks | SyncState::NewBlocks => {
                if force || higher_difficulty || self.old_blocks.is_some() {
                    if env.queue_full {
                        self.pause_sync();
                        return jobs;
                    }
                    let visit = Visit {
                        peer_id,
                        latest_hash: peer_latest,
                        force,
                        higher_difficulty,
                        num_active_peers: self.num_asked_peers(),
                    };
                    jobs.push(Task::AskBlockStatus(visit));
                    assert(plan(jobs@) =~= seq![Task::AskBlockStatus(visit)]);
                }
            },
            SyncState::SnapshotData => {
                let peer_has_snapshot = match (peer_snapshot_hash, env.snapshot.snapshot_hash) {
                    (Some(offered), Some(wanted)) => offered == wanted,
                    _ => false,
                };
                if !peer_has_snapshot {
                    self.deactivate_peer(peer_id);
                    return jobs;
                }
                // Asks peer bitfield if it is supported and they are not set yet
                if request_bitfield {
                    jobs.push(Task::Perform(Command::RequestSnapshotBitfield { peer_id }));
                    assert(plan(jobs@) =~= seq![
                        Task::Perform(Command::RequestSnapshotBitfield { peer_id }),
                    ]);
                    return jobs;
                }
                if env.is_too_far_ahead() {
                    self.state = SyncState::SnapshotWaiting;
                    return jobs;
                }
                jobs = self.clear_peer_download(peer_id);
                let ghost cleared = jobs@;
                jobs.push(Task::Perform(Command::RequestSnapshotData { peer_id }));
                assert(plan(jobs@) =~= plan(cleared).push(
                    Task::Perform(Command::RequestSnapshotData { peer_id }),
                ));
            },
            _ => {},
        }
        jobs
    }

    /// Number of peers that work on a request.
    fn num_asked_peers(&self) -> (n: usize)
        ensures
            n == self@.asked_peers().len(),
    {
        let pred = |p: &PeerInfo| -> (b: bool)
            ensures
                b == !(p@.asking is Nothing),
        {
            p.asking != PeerAsking::Nothing
        };
        let asked = select(&self.peers, pred, Ghost(|p: PeerModel| !(p.asking is Nothing)));
        proof {
            assert(asked@.to_set() =~= self@.asked_peers());
            lemma_lists_len(asked@, asked@.to_set());
        }
        asked.len()
    }

    /// Goes on with a peer once it is known whether its best block is unknown here.
    pub fn with_block_status(&mut self, visit: Visit, unknown: bool) -> (jobs: Vec<Job>)
        ensures
            (final(self)@, plan(jobs@)) == old(self)@.with_block_status(visit, unknown),
    {
        if unknown && (visit.higher_difficulty || visit.force || self.state
            == SyncState::NewBlocks) {
            // check if got new blocks to download
            let mut jobs: Vec<Job> = Vec::new();
            jobs.push(Task::AskNewBlocks(visit));
            assert(plan(jobs@) =~= seq![Task::AskNewBlocks(visit)]);
            jobs
        } else {
            self.turn_to_old_blocks(visit)
        }
    }

    /// Goes on with a peer that no new blocks are to be requested from.
    pub fn turn_to_old_blocks(&mut self, visit: Visit) -> (jobs: Vec<Job>)
        ensures
            (final(self)@, plan(jobs@)) == old(self)@.turn_to_old_blocks(visit),
    {
        let mut jobs: Vec<Job> = Vec::new();
        assert(plan(jobs@) =~= seq![]);
        // Only ask for old blocks if the peer has a higher difficulty
        if visit.force || visit.higher_difficulty {
            if self.old_blocks.is_some() {
                jobs.push(Task::AskOldBlocks(visit));
                assert(plan(jobs@) =~= seq![Task::AskOldBlocks(visit)]);
            }
        } else {
            self.deactivate_peer(visit.peer_id);
        }
        jobs
    }

    /// Notes that new blocks have been requested.
    pub fn new_blocks_requested(&mut self)
        ensures
            final(self)@ == if old(self)@.state is Idle {
                old(self)@.in_state(SyncState::Blocks)
            } else {
                old(self)@
            },
    {
        if self.state == SyncState::Idle {
            self.state = SyncState::Blocks;
        }
    }

    /// Clear all blocks/headers marked as being downloaded by a peer.
    pub fn clear_peer_download(&self, peer_id: PeerId) -> (jobs: Vec<Job>)
        ensures
            plan(jobs@) == self@.clear_download_orders(peer_id),
    {
        let mut jobs: Vec<Job> = Vec::new();
        if let Some(peer) = self.peers.get(&peer_id) {
            match peer.asking {
                PeerAsking::BlockHeaders => {
                    if let Some(hash) = peer.asking_hash {
                        jobs.push(
                            Task::Perform(
                                Command::ClearHeaderDownload {
                                    block_set: BlockSet::NewBlocks,
                                    hash,
                                },
                            ),
                        );
                        if self.old_blocks.is_some() {
                            jobs.push(
                                Task::Perform(
                                    Command::ClearHeaderDownload {
                                        block_set: BlockSet::OldBlocks,
                                        hash,
                                    },
                                ),
                            );
                        }
                    }
                },
                PeerAsking::BlockBodies => {
                    jobs.push(
                        Task::Perform(
                            Command::ClearBodyDownload {
                                block_set: BlockSet::NewBlocks,
                                hashes: copy_items(&peer.asking_blocks),
                            },
                        ),
                    );
                    if self.old_blocks.is_some() {
                        jobs.push(
                            Task::Perform(
                                Command::ClearBodyDownload {
                                    block_set: BlockSet::OldBlocks,
                                    hashes: copy_items(&peer.asking_blocks),
                                },
                            ),
                        );
                    }
                },
                PeerAsking::BlockReceipts => {
                    jobs.push(
                        Task::Perform(
                            Command::ClearReceiptDownload {
                                block_set: BlockSet::NewBlocks,
                                hashes: copy_items(&peer.asking_blocks),
                            },
                        ),
                    );
                    if self.old_blocks.is_some() {
                        jobs.push(
                            Task::Perform(
                                Command::ClearReceiptDownload {
                                    block_set: BlockSet::OldBlocks,
                                    hashes: copy_items(&peer.asking_blocks),
                                },
                            ),
                        );
                    }
                },
                PeerAsking::SnapshotData => {
                    if let Some(hash) = peer.asking_snapshot_data {
                        jobs.push(Task::Perform(Command::ClearChunkDownload { hash }));
                    }
                },
                _ => {},
            }
        }
        assert(plan(jobs@) =~= self@.clear_download_orders(peer_id));
        jobs
    }

    /// Reset peer status after request is complete.
    pub fn reset_peer_asking(&mut self, peer_id: PeerId, asking: PeerAsking) -> (r: bool)
        ensures
            r == (old(self)@.peers.contains_key(peer_id) && old(self)@.peers[peer_id].asking
                == asking),
            final(self)@ == if old(self)@.peers.contains_key(peer_id) {
                old(self)@.with_peer(peer_id, old(self)@.peers[peer_id].answered())
            } else {
                old(self)@
            },
    {
        let ghost before = self@;
        match self.peers.remove(&peer_id) {
            Some(peer) => {
                let mut peer = peer;
                peer.expired = false;
                peer.block_set = None;
                let expected = peer.asking == asking;
                peer.asking = PeerAsking::Nothing;
                self.peers.insert(peer_id, peer);
                assert(self@.peers =~= before.peers.insert(peer_id, peer@));
                expected
            },
            None => {
                assert(self@.peers =~= before.peers);
                false
            },
        }
    }

    /// What has to be done at `now` for peers that do not answer.
    pub fn maintain_peers(&self, now: Timestamp) -> (jobs: Vec<Job>)
        ensures
            self@.maintains_with(now, plan(jobs@)),
    {
        let pred = |p: &PeerInfo| -> (b: bool)
            ensures
                b == p@.timed_out(now),
        {
            p.has_timed_out(now)
        };
        let aborting = select(&self.peers, pred, Ghost(|p: PeerModel| p.timed_out(now)));
        assert(aborting@.to_set() =~= self@.timed_out_peers(now));
        let mut jobs: Vec<Job> = Vec::new();
        let mut i: usize = 0;
        while i < aborting.len()
            invariant
                i <= aborting.len(),
                plan(jobs@) == disconnect_plan(aborting@.take(i as int)),
            decreases aborting.len() - i,
        {
            let ghost before = jobs@;
            jobs.push(Task::Perform(Command::DisconnectPeer { peer_id: aborting[i] }));
            assert(plan(jobs@) =~= plan(before).push(
                Task::Perform(Command::DisconnectPeer { peer_id: aborting@[i as int] }),
            ));
            assert(disconnect_plan(aborting@.take(i + 1)) =~= disconnect_plan(
                aborting@.take(i as int),
            ).push(Task::Perform(Command::DisconnectPeer { peer_id: aborting@[i as int] })));
            i = i + 1;
        }
        let mut k: usize = 0;
        assert(aborting@.take(i as int) =~= aborting@);
        assert(disconnect_plan(aborting@) + abort_plan(aborting@.take(0)) =~= disconnect_plan(
            aborting@,
        ));
        while k < aborting.len()
            invariant
                k <= aborting.len(),
                plan(jobs@) == disconnect_plan(aborting@) + abort_plan(aborting@.take(k as int)),
            decreases aborting.len() - k,
        {
            let ghost before = jobs@;
            jobs.push(Task::Perform(Command::AbortPeer { peer_id: aborting[k] }));
            assert(plan(jobs@) =~= plan(before).push(
                Task::Perform(Command::AbortPeer { peer_id: aborting@[k as int] }),
            ));
            assert(abort_plan(aborting@.take(k + 1)) =~= abort_plan(aborting@.take(k as int)).push(
                Task::Perform(Command::AbortPeer { peer_id: aborting@[k as int] }),
            ));
            assert(plan(jobs@) =~= disconnect_plan(aborting@) + abort_plan(aborting@.take(k + 1)));
            k = k + 1;
        }
        assert(aborting@.take(k as int) =~= aborting@);
        // Check for handshake timeouts
        jobs.push(Task::CheckHandshakes { tick: now });
        assert(plan(jobs@) =~= timeout_plan(aborting@, now));
        jobs
    }

    /// Disconnects the peers whose status message is overdue at `tick`.
    pub fn check_handshakes(&self, tick: Timestamp) -> (jobs: Vec<Job>)
        ensures
            self@.checks_handshakes_with(tick, plan(jobs@)),
    {
        let ids = peer_ids(&self.handshaking_peers);
        let mut jobs: Vec<Job> = Vec::new();
        let ghost mut late: Seq<PeerId> = Seq::empty();
        let mut i: usize = 0;
        assert(plan(jobs@) =~= disconnect_plan(late));
        while i < ids.len()
            invariant
                i <= ids.len(),
                lists(ids@, self.handshaking_peers@.dom()),
                plan(jobs@) == disconnect_plan(late),
                late.no_duplicates(),
                forall|id: PeerId| #[trigger]
                    late.contains(id) <==> (ids@.take(i as int).contains(id)
                        && self@.late_handshakes(tick).contains(id)),
            decreases ids.len() - i,
        {
            let id = ids[i];
            let ghost late_before = late;
            let ghost jobs_before = jobs@;
            proof {
                assert(ids@.to_set().contains(id));
                assert(!ids@.take(i as int).contains(id));
                assert(ids@.take(i + 1) =~= ids@.take(i as int).push(id));
                assert(!late.contains(id));
            }
            match self.handshaking_peers.get(&id) {
                Some(ask_time) => {
                    let elapsed = time_since(tick, *ask_time);
                    if elapsed > STATUS_TIMEOUT {
                        jobs.push(Task::Perform(Command::DisconnectPeer { peer_id: id }));
                        proof {
                            late = late.push(id);
                            assert(plan(jobs@) =~= plan(jobs_before).push(
                                Task::Perform(Command::DisconnectPeer { peer_id: id }),
                            ));
                            assert(disconnect_plan(late) =~= disconnect_plan(late_before).push(
                                Task::Perform(Command::DisconnectPeer { peer_id: id }),
                            ));
                        }
                    }
                },
                None => {},
            }
            assert forall|x: PeerId| #[trigger]
                late.contains(x) <==> (ids@.take(i + 1).contains(x) && self@.late_handshakes(
                    tick,
                ).contains(x)) by {
                lemma_push_contains(ids@.take(i as int), id, x);
                lemma_push_contains(late_before, id, x);
                assert(late_before.contains(x) <==> (ids@.take(i as int).contains(x)
                    && self@.late_handshakes(tick).contains(x)));
            }
            i = i + 1;
        }
        proof {
            assert(ids@.take(i as int) =~= ids@);
            assert forall|id: PeerId| #[trigger]
                late.to_set().contains(id) <==> self@.late_handshakes(tick).contains(id) by {
                assert(late.contains(id) <==> (ids@.contains(id) && self@.late_handshakes(
                    tick,
                ).contains(id)));
                assert(ids@.contains(id) <==> ids@.to_set().contains(id));
            }
            assert(late.to_set() =~= self@.late_handshakes(tick));
            assert(lists(late, self@.late_handshakes(tick)));
            assert(disconnect_plan(late) == plan(jobs@));
        }
        jobs
    }

    /// Resumes a paused sync where possible.
    pub fn check_resume(&mut self, env: &Surroundings) -> (jobs: Vec<Job>)
        requires
            old(self)@.resume_reads_gap(*env) ==> env.gap_defined(),
        ensures
            (final(self)@, plan(jobs@)) == old(self)@.check_resume(*env),
    {
        let mut jobs: Vec<Job> = Vec::new();
        assert(plan(jobs@) =~= seq![]);
        match self.state {
            SyncState::Waiting => {
                if !env.queue_full {
                    self.state = SyncState::Blocks;
                    jobs.push(Task::ContinueSync);
                    assert(plan(jobs@) =~= seq![Task::ContinueSync]);
                }
            },
            SyncState::SnapshotWaiting => {
                match env.service.status {
                    RestorationStatus::Inactive => {
                        jobs = self.restart(&env.chain);
                    },
                    RestorationStatus::Ongoing { .. } => {
                        if !env.snapshot.is_complete && !env.is_too_far_ahead() {
                            self.state = SyncState::SnapshotData;
                            jobs.push(Task::ContinueSync);
                            assert(plan(jobs@) =~= seq![Task::ContinueSync]);
                        }
                    },
                    RestorationStatus::Failed => {
                        self.state = SyncState::WaitingPeers;
                        jobs.push(Task::Perform(Command::ClearSnapshot));
                        jobs.push(Task::ContinueSync);
                        assert(plan(jobs@) =~= seq![
                            Task::Perform(Command::ClearSnapshot),
                            Task::ContinueSync,
                        ]);
                    },
                }
            },
            SyncState::SnapshotInit => {
                jobs = self.check_snapshot_service(env);
            },
            _ => {},
        }
        jobs
    }

    /// Check if the snapshot service is ready
    pub fn check_snapshot_service(&mut self, env: &Surroundings) -> (jobs: Vec<Job>)
        ensures
            (final(self)@, plan(jobs@)) == old(self)@.check_snapshot_service(*env),
    {
        let mut jobs: Vec<Job> = Vec::new();
        if env.service.restoration_ready {
            // Sync the previously resumed chunks
            jobs.push(Task::Perform(Command::SyncSnapshot));
            // Move to fetching snapshot data
            self.state = SyncState::SnapshotData;
        }
        assert(plan(jobs@) =~= old(self)@.check_snapshot_service(*env).1);
        jobs
    }

    /// See whether a snapshot sync should start, then resume a paused sync where possible.
    pub fn maintain_sync(&self, env: &Surroundings) -> (jobs: Vec<Job>)
        ensures
            plan(jobs@) == self@.maybe_start_orders(*env).push(Task::CheckResume),
    {
        let mut jobs = self.maybe_start_snapshot_sync(env);
        jobs.push(Task::CheckResume);
        assert(plan(jobs@) =~= self@.maybe_start_orders(*env).push(Task::CheckResume));
        jobs
    }

    /// Called when block is imported to chain - propagates the blocks and updates transactions
    /// sent to peers
    pub fn chain_new_blocks(
        &self,
        queue_info: BlockQueueInfo,
        _imported: &[H256],
        invalid: &[H256],
        enacted: &[H256],
        _retracted: &[H256],
        sealed: Vec<H256>,
        proposed: Vec<Vec<u8>>,
    ) -> (jobs: Vec<Job>)
        requires
            queue_info.unverified_queue_size + queue_info.verified_queue_size <= usize::MAX,
        ensures
            plan(jobs@) == self@.new_blocks_orders(
                queue_info.unverified_queue_size + queue_info.verified_queue_size,
                invalid@.len() > 0,
                enacted@.len() > 0,
                sealed@,
                proposed@,
            ),
    {
        let is_syncing = is_major_sync(self.state, &queue_info);
        let mut jobs: Vec<Job> = Vec::new();
        if !is_syncing || sealed.len() > 0 || proposed.len() > 0 {
            jobs.push(Task::Perform(Command::PropagateLatestBlocks { sealed }));
            jobs.push(Task::Perform(Command::PropagateProposedBlocks { proposed }));
        }
        if invalid.len() > 0 {
            jobs.push(Task::Restart);
        }
        if !is_syncing && enacted.len() > 0 {
            jobs.push(Task::Rebroadcast);
        }
        assert(plan(jobs@) =~= self@.new_blocks_orders(
            queue_info.unverified_queue_size + queue_info.verified_queue_size,
            invalid@.len() > 0,
            enacted@.len() > 0,
            sealed@,
            proposed@,
        ));
        jobs
    }

    /// Select random peer to re-broadcast transactions to.
    pub fn rebroadcast(&mut self)
        ensures
            old(self)@.rebroadcasts_to(final(self)@),
    {
        let ids = peer_ids(&self.peers);
        proof {
            assert(self@.peers.dom() =~= self.peers@.dom());
            assert(ids@.to_set() == self@.peers.dom());
        }
        if ids.len() > 0 {
            let n = random::gen_range(&mut random::new(), 0, ids.len());
            let id = ids[n];
            assert(ids@.to_set().contains(id));
            assert(old(self)@.peers.contains_key(id));
            self.forget_sent_transactions(id);
        } else {
            assert(ids@.to_set() =~= Set::<PeerId>::empty());
        }
    }

    /// Forgets which transactions were sent to a peer.
    pub fn forget_sent_transactions(&mut self, peer_id: PeerId)
        ensures
            final(self)@ == if old(self)@.peers.contains_key(peer_id) {
                old(self)@.sent_forgotten(peer_id)
            } else {
                old(self)@
            },
    {
        let ghost before = self@;
        match self.peers.remove(&peer_id) {
            Some(peer) => {
                let mut peer = peer;
                peer.last_sent_transactions.clear();
                self.peers.insert(peer_id, peer);
                assert(self@.peers =~= before.peers.insert(peer_id, peer@));
            },
            None => {
                assert(self@.peers =~= before.peers);
            },
        }
    }
}

} // verus!
