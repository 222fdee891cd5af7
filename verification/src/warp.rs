//! The decisions of the sync handler on restoring a snapshot.

use vstd::prelude::*;
use crate::agenda::{plan, Command, Job, JobModel, Task};
use crate::peer::{elapsed, time_since, PeerAsking, PeerInfo, PeerModel};
use crate::peers::{lemma_lists_len, lists, peers_with, select};
use crate::primitives::{BlockNumber, PeerId, WarpSync, H256};
use crate::protocol::{SNAPSHOT_MIN_PEERS, SNAPSHOT_RESTORE_THRESHOLD, WAIT_PEERS_TIMEOUT};
use crate::status::SyncState;
use crate::sync::{ChainSync, Surroundings, SyncModel};

verus! {

broadcast use vstd::std_specs::hash::group_hash_axioms;

/// Requests for a manifest, one for each of the given peers in order, after which the manifests
/// are awaited.
pub open spec fn manifest_plan(peers: Seq<PeerId>) -> Seq<JobModel> {
    peers.map_values(|peer_id: PeerId| Task::RequestManifest { peer_id }).push(Task::AwaitManifest)
}

impl SyncModel {
    /// Number of the fork block, zero where there is none.
    pub open spec fn fork_number(self) -> BlockNumber {
        match self.fork_block {
            Some((number, _)) => number,
            None => 0,
        }
    }

    /// The block number that a snapshot has to be above, zero where there is none.
    pub open spec fn warp_barrier(self) -> BlockNumber {
        match self.warp_sync {
            WarpSync::OnlyAndAfter(block) => block,
            _ => 0,
        }
    }

    /// Whether a snapshot of block `number` is worth syncing with, where `best` is our best
    /// block: it is far enough above it, was taken after the fork and above the barrier, and is
    /// recent enough if we know a highest block.
    pub open spec fn useful_snapshot(self, best: BlockNumber, number: BlockNumber) -> bool {
        &&& number - best > SNAPSHOT_RESTORE_THRESHOLD
        &&& number > self.fork_number()
        &&& number > self.warp_barrier()
        &&& match self.highest_block {
            Some(highest) => highest - number <= SNAPSHOT_RESTORE_THRESHOLD,
            None => true,
        }
    }

    /// Whether the peer offers a snapshot that is worth syncing with and not known to be bad.
    pub open spec fn offers(self, env: Surroundings, peer: PeerModel, hash: H256) -> bool {
        &&& peer.allowed()
        &&& peer.snapshot_number matches Some(number)
        &&& self.useful_snapshot(env.chain.best_block_number, number)
        &&& peer.snapshot_hash == Some(hash)
        &&& !env.snapshot.known_bad@.contains(hash)
    }

    /// The peers that offer the snapshot with the given hash.
    pub open spec fn supporters(self, env: Surroundings, hash: H256) -> Set<PeerId> {
        Set::new(
            |id: PeerId| self.peers.contains_key(id) && self.offers(env, self.peers[id], hash),
        )
    }

    /// Whether no snapshot is offered by more peers than the one with the given hash.
    pub open spec fn best_supported(self, env: Surroundings, hash: H256) -> bool {
        forall|other: H256|
            (#[trigger] self.supporters(env, other)).len() <= self.supporters(env, hash).len()
    }

    /// Whether some peer offers a snapshot.
    pub open spec fn any_offer(self, env: Surroundings) -> bool {
        exists|id: PeerId, hash: H256|
            self.peers.contains_key(id) && #[trigger] self.offers(env, self.peers[id], hash)
    }

    /// Whether the time to wait for peers is over.
    pub open spec fn waited_for_peers(self, env: Surroundings) -> bool {
        &&& self.state is WaitingPeers
        &&& self.sync_start_time matches Some(start)
        &&& elapsed(env.now, start) > WAIT_PEERS_TIMEOUT
    }

    /// What follows a look at whether a snapshot sync should start.
    pub open spec fn maybe_start_orders(self, env: Surroundings) -> Seq<JobModel> {
        if self.warp_sync is Disabled || !env.service.supported {
            seq![]
        } else {
            match self.state {
                SyncState::SnapshotData => seq![Task::ContinueSync, Task::ChooseSnapshot],
                SyncState::WaitingPeers | SyncState::Blocks | SyncState::Waiting => seq![
                    Task::ChooseSnapshot,
                ],
                _ => seq![],
            }
        }
    }

    /// The start of a snapshot sync with the given peers.
    pub open spec fn start_snapshot_sync(self, have_manifest: bool, peers: Seq<PeerId>) -> (
        SyncModel,
        Seq<JobModel>,
    ) {
        if have_manifest {
            (self.in_state(SyncState::SnapshotData), seq![])
        } else {
            (self, manifest_plan(peers))
        }
    }

    /// Whether `post` and `todo` are an outcome of the choice among the snapshots that peers
    /// offer. The one with most supporters is taken, at once where it has enough of them and
    /// after waiting otherwise; where there is none, and waiting is over, a full sync starts
    /// unless only warp sync is allowed.
    pub open spec fn chooses_snapshot(
        self,
        env: Surroundings,
        post: SyncModel,
        todo: Seq<JobModel>,
    ) -> bool {
        if self.any_offer(env) {
            exists|hash: H256, peers: Seq<PeerId>|
                {
                    &&& self.best_supported(env, hash)
                    &&& #[trigger] lists(peers, #[trigger] self.supporters(env, hash))
                    &&& peers.len() > 0
                    &&& (post, todo) == if peers.len() >= SNAPSHOT_MIN_PEERS
                        || self.waited_for_peers(env) {
                        self.start_snapshot_sync(env.snapshot.have_manifest, peers)
                    } else {
                        (self, seq![])
                    }
                }
        } else if self.waited_for_peers(env) && !(self.warp_sync is OnlyAndAfter) {
            post == self.in_state(SyncState::Idle) && todo =~= seq![Task::ContinueSync]
        } else {
            post == self && todo.len() == 0
        }
    }

    /// A request for a manifest, unless the peer is busy or gone.
    pub open spec fn request_manifest_orders(self, peer_id: PeerId) -> Seq<JobModel> {
        if self.peers.contains_key(peer_id) && self.peers[peer_id].asking is Nothing {
            seq![Task::Perform(Command::RequestSnapshotManifest { peer_id })]
        } else {
            seq![]
        }
    }
}

/// Whether `hashes` holds `hash`.
fn holds(hashes: &Vec<H256>, hash: &H256) -> (r: bool)
    ensures
        r == hashes@.contains(*hash),
{
    let mut i: usize = 0;
    while i < hashes.len()
        invariant
            i <= hashes.len(),
            forall|j: int| 0 <= j < i ==> hashes[j] != *hash,
        decreases hashes.len() - i,
    {
        if hashes[i] == *hash {
            assert(hashes@[i as int] == *hash);
            return true;
        }
        i = i + 1;
    }
    false
}

impl ChainSync {
    /// See whether a snapshot sync should start.
    pub fn maybe_start_snapshot_sync(&self, env: &Surroundings) -> (jobs: Vec<Job>)
        ensures
            plan(jobs@) == self@.maybe_start_orders(*env),
    {
        let mut jobs: Vec<Job> = Vec::new();
        assert(plan(jobs@) =~= seq![]);
        if !self.warp_sync.is_enabled() || !env.service.supported {
            return jobs;
        }
        match self.state {
            SyncState::Idle
            | SyncState::NewBlocks
            | SyncState::SnapshotInit
            | SyncState::SnapshotManifest
            | SyncState::SnapshotWaiting => {
                return jobs;
            },
            SyncState::SnapshotData => {
                jobs.push(Task::ContinueSync);
            },
            SyncState::WaitingPeers | SyncState::Blocks | SyncState::Waiting => {},
        }
        jobs.push(Task::ChooseSnapshot);
        assert(plan(jobs@) =~= self@.maybe_start_orders(*env));
        jobs
    }

    /// Whether a snapshot of block `number` is worth syncing with.
    pub fn is_useful_snapshot(&self, best: BlockNumber, number: BlockNumber) -> (r: bool)
        ensures
            r == self@.useful_snapshot(best, number),
    {
        let fork_block = match self.fork_block {
            Some((n, _)) => n,
            None => 0,
        };
        let expected_warp_block = match self.warp_sync {
            WarpSync::OnlyAndAfter(block) => block,
            _ => 0,
        };
        // Snapshot must be old enough that it's usefull to sync with it
        best < number && (number - best) > SNAPSHOT_RESTORE_THRESHOLD
        // Snapshot must have been taken after the Fork
         && number > fork_block
        // Snapshot must be greater than the warp barrier if any
         && number > expected_warp_block
        // If we know a highest block, snapshot must be recent enough
         && match self.highest_block {
            Some(highest) => highest < number || (highest - number) <= SNAPSHOT_RESTORE_THRESHOLD,
            None => true,
        }
    }

    /// The snapshot that the peer offers, if it is worth syncing with and not known to be bad.
    fn offer(&self, env: &Surroundings, peer: &PeerInfo) -> (r: Option<H256>)
        ensures
            match r {
                Some(hash) => self@.offers(*env, peer@, hash),
                None => forall|hash: H256| !self@.offers(*env, peer@, hash),
            },
    {
        if !peer.is_allowed() {
            return None;
        }
        match (peer.snapshot_number, peer.snapshot_hash) {
            (Some(number), Some(hash)) => {
                if self.is_useful_snapshot(env.chain.best_block_number, number) && !holds(
                    &env.snapshot.known_bad,
                    &hash,
                ) {
                    Some(hash)
                } else {
                    None
                }
            },
            _ => None,
        }
    }

    /// The peers that offer the snapshot with the given hash, in no particular order.
    fn supporters_of(&self, env: &Surroundings, hash: H256) -> (ids: Vec<PeerId>)
        ensures
            lists(ids@, self@.supporters(*env, hash)),
    {
        let pred = |p: &PeerInfo| -> (b: bool)
            ensures
                b == self@.offers(*env, p@, hash),
        {
            match self.offer(env, p) {
                Some(offered) => offered == hash,
                None => false,
            }
        };
        let ids = select(&self.peers, pred, Ghost(|p: PeerModel| self@.offers(*env, p, hash)));
        assert(ids@.to_set() =~= self@.supporters(*env, hash));
        ids
    }

    /// The snapshot that most peers offer, with these peers; `None` where no peer offers any.
    fn best_snapshot(&self, env: &Surroundings) -> (r: Option<(H256, Vec<PeerId>)>)
        ensures
            match r {
                Some((hash, peers)) => {
                    &&& self@.best_supported(*env, hash)
                    &&& lists(peers@, self@.supporters(*env, hash))
                    &&& peers@.len() > 0
                },
                None => !self@.any_offer(*env),
            },
    {
        let pred = |p: &PeerInfo| -> (b: bool)
            ensures
                b == (exists|hash: H256| self@.offers(*env, p@, hash)),
        {
            self.offer(env, p).is_some()
        };
        let offering = select(
            &self.peers,
            pred,
            Ghost(|p: PeerModel| exists|hash: H256| self@.offers(*env, p, hash)),
        );
        let mut best: Option<(H256, Vec<PeerId>)> = None;
        let mut i: usize = 0;
        while i < offering.len()
            invariant
                i <= offering.len(),
                lists(
                    offering@,
                    peers_with(
                        self@.peers,
                        |p: PeerModel| exists|hash: H256| self@.offers(*env, p, hash),
                    ),
                ),
                match best {
                    Some((hash, peers)) => {
                        &&& lists(peers@, self@.supporters(*env, hash))
                        &&& peers@.len() > 0
                        &&& forall|j: int, other: H256|
                            0 <= j < i && #[trigger] self@.offers(
                                *env,
                                self@.peers[offering@[j]],
                                other,
                            ) ==> self@.supporters(*env, other).len() <= peers@.len()
                    },
                    None => i == 0,
                },
            decreases offering.len() - i,
        {
            let id = offering[i];
            assert(offering@.to_set().contains(id));
            match self.peers.get(&id) {
                Some(peer) => {
                    match self.offer(env, peer) {
                        Some(hash) => {
                            let peers = self.supporters_of(env, hash);
                            proof {
                                lemma_lists_len(peers@, self@.supporters(*env, hash));
                                assert(self@.supporters(*env, hash).contains(id));
                                assert(peers@.to_set().contains(id));
                            }
                            let better = match &best {
                                Some((_, known)) => peers.len() > known.len(),
                                None => true,
                            };
                            if better {
                                best = Some((hash, peers));
                            }
                        },
                        None => {},
                    }
                },
                None => {},
            }
            i = i + 1;
        }
        proof {
            match &best {
                Some((hash, peers)) => {
                    let hash = *hash;
                    lemma_lists_len(peers@, self@.supporters(*env, hash));
                    assert forall|other: H256|
                        (#[trigger] self@.supporters(*env, other)).len() <= self@.supporters(
                            *env,
                            hash,
                        ).len() by {
                        let s = self@.supporters(*env, other);
                        if s.len() > 0 {
                            assert(s.finite()) by {
                                assert(s.subset_of(self.peers@.dom()));
                            }
                            let id = s.choose();
                            assert(s.contains(id));
                            assert(self@.offers(*env, self@.peers[id], other));
                            assert(offering@.to_set().contains(id));
                            let j = choose|j: int| 0 <= j < offering@.len() && offering@[j] == id;
                            assert(self@.offers(*env, self@.peers[offering@[j]], other));
                        }
                    }
                },
                None => {
                    if self@.any_offer(*env) {
                        let (id, hash) = choose|id: PeerId, hash: H256|
                            self@.peers.contains_key(id) && #[trigger] self@.offers(
                                *env,
                                self@.peers[id],
                                hash,
                            );
                        assert(offering@.to_set().contains(id));
                    }
                },
            }
        }
        best
    }

    /// Choose the snapshot to sync with, among those that peers offer.
    pub fn choose_snapshot(&mut self, env: &Surroundings) -> (jobs: Vec<Job>)
        ensures
            old(self)@.chooses_snapshot(*env, final(self)@, plan(jobs@)),
    {
        let timeout = self.state == SyncState::WaitingPeers && match self.sync_start_time {
            Some(t) => time_since(env.now, t) > WAIT_PEERS_TIMEOUT,
            None => false,
        };
        let mut jobs: Vec<Job> = Vec::new();
        assert(plan(jobs@) =~= seq![]);
        match self.best_snapshot(env) {
            Some((hash, peers)) => {
                proof {
                    assert(lists(peers@, self@.supporters(*env, hash)));
                    let id = peers@[0];
                    assert(peers@.to_set().contains(id));
                    assert(self@.offers(*env, self@.peers[id], hash));
                }
                if peers.len() >= SNAPSHOT_MIN_PEERS || timeout {
                    jobs = self.start_snapshot_sync(env.snapshot.have_manifest, &peers);
                }
            },
            None => {
                if timeout && !self.warp_sync.is_warp_only() {
                    self.state = SyncState::Idle;
                    jobs.push(Task::ContinueSync);
                    assert(plan(jobs@) =~= seq![Task::ContinueSync]);
                }
            },
        }
        jobs
    }

    /// Starts a snapshot sync with the given peers.
    pub fn start_snapshot_sync(&mut self, have_manifest: bool, peers: &Vec<PeerId>) -> (jobs: Vec<
        Job,
    >)
        ensures
            (final(self)@, plan(jobs@)) == old(self)@.start_snapshot_sync(have_manifest, peers@),
    {
        let mut jobs: Vec<Job> = Vec::new();
        if !have_manifest {
            let mut i: usize = 0;
            while i < peers.len()
                invariant
                    i <= peers.len(),
                    jobs.len() == i,
                    forall|j: int|
                        0 <= j < i ==> ((#[trigger] jobs@[j]) matches Task::RequestManifest {
                            peer_id,
                        } && peer_id == peers@[j]),
                decreases peers.len() - i,
            {
                jobs.push(Task::RequestManifest { peer_id: peers[i] });
                i = i + 1;
            }
            jobs.push(Task::AwaitManifest);
            assert(plan(jobs@) =~= manifest_plan(peers@));
        } else {
            self.state = SyncState::SnapshotData;
            assert(plan(jobs@) =~= seq![]);
        }
        jobs
    }

    /// Request a manifest from a peer, unless it is busy.
    pub fn request_manifest(&self, peer_id: PeerId) -> (jobs: Vec<Job>)
        ensures
            plan(jobs@) == self@.request_manifest_orders(peer_id),
    {
        let mut jobs: Vec<Job> = Vec::new();
        match self.peers.get(&peer_id) {
            Some(peer) => {
                if peer.asking == PeerAsking::Nothing {
                    jobs.push(Task::Perform(Command::RequestSnapshotManifest { peer_id }));
                }
            },
            None => {},
        }
        assert(plan(jobs@) =~= self@.request_manifest_orders(peer_id));
        jobs
    }

    /// Wait for the manifests that were requested.
    pub fn await_manifest(&mut self)
        ensures
            final(self)@ == old(self)@.in_state(SyncState::SnapshotManifest),
    {
        self.state = SyncState::SnapshotManifest;
    }
}

} // verus!
