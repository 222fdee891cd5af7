//! Blockchain sync handler: what it keeps, how it starts, what it reports.

use vstd::prelude::*;
use std::collections::{HashMap, HashSet};
use crate::agenda::{plan, BlockDownload, Command, Job, JobModel, Task};
use crate::peer::{BlockSet, PeerAsking, PeerInfo, PeerModel};
use crate::peers::{
    lemma_lists_len, lemma_to_set_push, lists, peers_heap_size, peers_model, select, Peers,
};
use crate::primitives::{
    BlockChainInfo, BlockNumber, PeerId, RestorationStatus, SyncConfig, Timestamp, WarpSync, H256,
    U256,
};
use crate::protocol::{
    ETH_PROTOCOL_VERSION_63, MAX_SNAPSHOT_CHUNKS_DOWNLOAD_AHEAD, PAR_PROTOCOL_VERSION_2,
    PAR_PROTOCOL_VERSION_3,
};
use crate::status::{SyncState, SyncStatus};

verus! {

broadcast use vstd::std_specs::hash::group_hash_axioms;

/// What the snapshot service tells.
#[derive(Clone, Copy, Debug)]
pub struct SnapshotService {
    /// Whether it supports any snapshot version.
    pub supported: bool,
    /// Whether it is ready to restore a snapshot.
    pub restoration_ready: bool,
    /// How it stands with restoring.
    pub status: RestorationStatus,
}

/// What is known of the snapshot that is being downloaded.
#[derive(Debug)]
pub struct SnapshotProgress {
    /// Its hash, once the manifest is there.
    pub snapshot_hash: Option<H256>,
    /// Whether the manifest is there.
    pub have_manifest: bool,
    /// Whether every chunk is there.
    pub is_complete: bool,
    /// Number of chunks that are there.
    pub done_chunks: usize,
    /// Hashes of snapshots that are known to be bad.
    pub known_bad: Vec<H256>,
}

/// Everything that the strategy reads of its surroundings, at one moment.
#[derive(Debug)]
pub struct Surroundings {
    /// The time.
    pub now: Timestamp,
    /// The local chain.
    pub chain: BlockChainInfo,
    /// Whether the block queue is full.
    pub queue_full: bool,
    /// The snapshot service.
    pub service: SnapshotService,
    /// The snapshot download.
    pub snapshot: SnapshotProgress,
}

impl Surroundings {
    /// Whether the number of chunks that are there and not yet restored can be computed: the
    /// chunks done fit their type, and are no more than the chunks that are there.
    pub open spec fn gap_defined(self) -> bool {
        match self.service.status {
            RestorationStatus::Ongoing { state_chunks_done, block_chunks_done } => {
                &&& state_chunks_done + block_chunks_done <= u32::MAX
                &&& state_chunks_done + block_chunks_done <= self.snapshot.done_chunks
            },
            _ => true,
        }
    }

    /// Whether a restoration goes on and more chunks are there and not yet restored than may be.
    pub open spec fn too_far_ahead(self) -> bool {
        match self.service.status {
            RestorationStatus::Ongoing { state_chunks_done, block_chunks_done } => {
                self.snapshot.done_chunks - (state_chunks_done + block_chunks_done)
                    > MAX_SNAPSHOT_CHUNKS_DOWNLOAD_AHEAD
            },
            _ => false,
        }
    }

    /// Whether the number of chunks that are there and not yet restored can be computed.
    pub fn is_gap_defined(&self) -> (r: bool)
        ensures
            r == self.gap_defined(),
    {
        match self.service.status {
            RestorationStatus::Ongoing { state_chunks_done, block_chunks_done } => {
                match state_chunks_done.checked_add(block_chunks_done) {
                    Some(restored) => restored as usize <= self.snapshot.done_chunks,
                    None => false,
                }
            },
            _ => true,
        }
    }

    /// Whether a restoration goes on and more chunks are there and not yet restored than may be.
    pub fn is_too_far_ahead(&self) -> (r: bool)
        requires
            self.gap_defined(),
        ensures
            r == self.too_far_ahead(),
    {
        match self.service.status {
            RestorationStatus::Ongoing { state_chunks_done, block_chunks_done } => {
                self.snapshot.done_chunks - (state_chunks_done + block_chunks_done) as usize
                    > MAX_SNAPSHOT_CHUNKS_DOWNLOAD_AHEAD
            },
            _ => false,
        }
    }
}

/// What a block download reports.
#[derive(Clone, Copy, Debug)]
pub struct DownloadReport {
    /// Number of the last block it imported.
    pub last_imported_block_number: BlockNumber,
    /// Heap memory it uses, in bytes.
    pub heap_size: usize,
}

/// What is reported on the work in progress.
#[derive(Clone, Copy, Debug)]
pub struct ProgressReport {
    /// The download of new blocks.
    pub new_blocks: DownloadReport,
    /// The download of old blocks, if there is one.
    pub old_blocks: Option<DownloadReport>,
    /// Number of chunks of the snapshot that is being downloaded.
    pub total_chunks: usize,
    /// Number of chunks that are there.
    pub done_chunks: usize,
}

impl ProgressReport {
    /// Heap memory used by the downloads and by the table of peers, which takes
    /// `peers_heap_size` bytes; the greatest number there is where that is too much to be told.
    pub open spec fn mem_used(self, peers_heap_size: usize) -> int {
        let used = self.new_blocks.heap_size + (match self.old_blocks {
            Some(old) => old.heap_size as int,
            None => 0,
        }) + peers_heap_size;
        if used <= usize::MAX {
            used
        } else {
            usize::MAX as int
        }
    }
}

/// What is told of a peer connection.
#[derive(Clone, Copy, Debug)]
pub struct EthProtocolInfo {
    /// Protocol version
    pub version: u32,
    /// Peer total difficulty if known
    pub difficulty: Option<U256>,
    /// Peer best block hash
    pub head: H256,
}

/// Blockchain sync handler.
#[derive(Debug)]
pub struct ChainSync {
    /// Sync state
    pub state: SyncState,
    /// Last block number for the start of sync
    pub starting_block: BlockNumber,
    /// Highest block number seen
    pub highest_block: Option<BlockNumber>,
    /// All connected peers
    pub peers: Peers,
    /// Peers active for current sync round
    pub active_peers: HashSet<PeerId>,
    /// Block download process for new blocks
    pub new_blocks: BlockDownload,
    /// Block download process for ancient blocks
    pub old_blocks: Option<BlockDownload>,
    /// Last propagated block number
    pub last_sent_block_number: BlockNumber,
    /// Network ID
    pub network_id: u64,
    /// Optional fork block to check
    pub fork_block: Option<(BlockNumber, H256)>,
    /// Connected peers pending Status message.
    /// Value is request timestamp.
    pub handshaking_peers: HashMap<PeerId, Timestamp>,
    /// Sync start timestamp. Measured when first peer is connected
    pub sync_start_time: Option<Timestamp>,
    /// Enable ancient block downloading
    pub download_old_blocks: bool,
    /// Enable warp sync.
    pub warp_sync: WarpSync,
}

/// The sync handler as the specifications speak of it.
#[verifier::ext_equal]
pub struct SyncModel {
    pub state: SyncState,
    pub starting_block: BlockNumber,
    pub highest_block: Option<BlockNumber>,
    pub peers: Map<PeerId, PeerModel>,
    pub active_peers: Set<PeerId>,
    pub new_blocks: BlockDownload,
    pub old_blocks: Option<BlockDownload>,
    pub last_sent_block_number: BlockNumber,
    pub network_id: u64,
    pub fork_block: Option<(BlockNumber, H256)>,
    pub handshaking_peers: Map<PeerId, Timestamp>,
    pub sync_start_time: Option<Timestamp>,
    pub download_old_blocks: bool,
    pub warp_sync: WarpSync,
}

impl View for ChainSync {
    type V = SyncModel;

    open spec fn view(&self) -> SyncModel {
        SyncModel {
            state: self.state,
            starting_block: self.starting_block,
            highest_block: self.highest_block,
            peers: peers_model(self.peers@),
            active_peers: self.active_peers@,
            new_blocks: self.new_blocks,
            old_blocks: self.old_blocks,
            last_sent_block_number: self.last_sent_block_number,
            network_id: self.network_id,
            fork_block: self.fork_block,
            handshaking_peers: self.handshaking_peers@,
            sync_start_time: self.sync_start_time,
            download_old_blocks: self.download_old_blocks,
            warp_sync: self.warp_sync,
        }
    }
}

/// The state in which a sync starts, where `best_block` is the number of our best block.
pub open spec fn init_state(warp_sync: WarpSync, best_block: BlockNumber) -> SyncState {
    match warp_sync {
        WarpSync::Enabled => SyncState::WaitingPeers,
        WarpSync::OnlyAndAfter(block) => if block > best_block {
            SyncState::WaitingPeers
        } else {
            SyncState::Idle
        },
        WarpSync::Disabled => SyncState::Idle,
    }
}

/// The download of new blocks: it starts from our best block.
pub open spec fn new_blocks_setup(chain: BlockChainInfo) -> BlockDownload {
    BlockDownload {
        sync_receipts: false,
        unlimited_reorg: false,
        start_hash: chain.best_block_hash,
        start_number: chain.best_block_number,
        target: None,
    }
}

/// The download of old blocks, where there is to be one: it goes from the last ancient block to
/// the first block after the gap.
pub open spec fn old_blocks_setup(download_old_blocks: bool, chain: BlockChainInfo) -> Option<
    BlockDownload,
> {
    match (chain.ancient_block_hash, chain.ancient_block_number) {
        (Some(hash), Some(number)) => if download_old_blocks {
            Some(
                BlockDownload {
                    sync_receipts: true,
                    unlimited_reorg: true,
                    start_hash: hash,
                    start_number: number,
                    target: chain.first_block_hash,
                },
            )
        } else {
            None
        },
        _ => None,
    }
}

/// What has to be done for the downloads to start from the chain's current ends.
pub open spec fn target_orders(download_old_blocks: bool, chain: BlockChainInfo) -> Seq<JobModel> {
    let start_new = seq![
        Task::Perform(
            Command::StartDownload {
                block_set: BlockSet::NewBlocks,
                setup: new_blocks_setup(chain),
            },
        ),
        Task::Perform(Command::DropOldBlocks),
    ];
    match old_blocks_setup(download_old_blocks, chain) {
        Some(setup) => start_new.push(
            Task::Perform(Command::StartDownload { block_set: BlockSet::OldBlocks, setup }),
        ),
        None => start_new,
    }
}

impl SyncModel {
    /// The same handler in another state.
    pub open spec fn in_state(self, state: SyncState) -> SyncModel {
        SyncModel { state, ..self }
    }

    /// The handler once a peer is no longer active.
    pub open spec fn deactivated(self, peer_id: PeerId) -> SyncModel {
        SyncModel { active_peers: self.active_peers.remove(peer_id), ..self }
    }

    /// The handler once a peer's record has changed.
    pub open spec fn with_peer(self, peer_id: PeerId, peer: PeerModel) -> SyncModel {
        SyncModel { peers: self.peers.insert(peer_id, peer), ..self }
    }

    /// The handler after a reset.
    pub open spec fn reset(self, chain: BlockChainInfo) -> SyncModel {
        SyncModel {
            state: init_state(self.warp_sync, chain.best_block_number),
            peers: self.peers.map_values(
                |p: PeerModel| p.sync_reset(chain.pending_total_difficulty),
            ),
            active_peers: self.peers.dom(),
            ..self
        }
    }

    /// The handler once its downloads start from the chain's current ends.
    pub open spec fn retargeted(self, chain: BlockChainInfo) -> SyncModel {
        SyncModel {
            new_blocks: new_blocks_setup(chain),
            old_blocks: old_blocks_setup(self.download_old_blocks, chain),
            ..self
        }
    }

    /// The handler once it is known that a peer has the given transactions.
    pub open spec fn received(self, txs: Set<H256>, peer_id: PeerId) -> SyncModel {
        if self.peers.contains_key(peer_id) {
            self.with_peer(
                peer_id,
                PeerModel {
                    last_sent_transactions: self.peers[peer_id].last_sent_transactions.union(txs),
                    ..self.peers[peer_id]
                },
            )
        } else {
            self
        }
    }

    /// The peers that work on a request.
    pub open spec fn asked_peers(self) -> Set<PeerId> {
        Set::new(|id: PeerId| self.peers.contains_key(id) && !(self.peers[id].asking is Nothing))
    }

    /// The peers that take part in the sync.
    pub open spec fn allowed_peers(self) -> Set<PeerId> {
        Set::new(|id: PeerId| self.peers.contains_key(id) && self.peers[id].allowed())
    }

    /// Whether some peer works on new blocks.
    pub open spec fn any_busy(self) -> bool {
        exists|id: PeerId| #[trigger]
            self.peers.contains_key(id) && self.peers[id].busy_with_new_blocks()
    }

    /// Whether `r` is the status of the sync, where `progress` tells of the work in progress and
    /// the table of peers takes `peers_heap_size` bytes.
    pub open spec fn has_status(
        self,
        progress: ProgressReport,
        peers_heap_size: usize,
        r: SyncStatus,
    ) -> bool {
        let last_imported = progress.new_blocks.last_imported_block_number;
        &&& r.state == self.state
        &&& r.protocol_version == ETH_PROTOCOL_VERSION_63
        &&& r.network_id == self.network_id
        &&& r.start_block_number == self.starting_block
        &&& r.last_imported_block_number == Some(last_imported)
        &&& r.last_imported_old_block_number == match progress.old_blocks {
            Some(old) => Some(old.last_imported_block_number),
            None => None,
        }
        &&& r.highest_block_number == match self.highest_block {
            Some(n) => Some(
                if n >= last_imported {
                    n
                } else {
                    last_imported
                },
            ),
            None => None,
        }
        &&& r.blocks_received == if last_imported > self.starting_block {
            last_imported - self.starting_block
        } else {
            0
        }
        &&& r.blocks_total == match self.highest_block {
            Some(n) => if n > self.starting_block {
                n - self.starting_block
            } else {
                0
            },
            None => 0,
        }
        &&& r.num_peers == self.peers.dom().len()
        &&& r.num_active_peers == self.allowed_peers().intersect(self.asked_peers()).len()
        &&& r.num_snapshot_chunks == progress.total_chunks
        &&& r.snapshot_chunks_done == progress.done_chunks
        &&& r.mem_used == progress.mem_used(peers_heap_size)
    }

    /// The peers that speak the given protocol version or a later one.
    pub open spec fn speaking(self, version: u8) -> Set<PeerId> {
        Set::new(
            |id: PeerId|
                self.peers.contains_key(id) && self.peers[id].protocol_version >= version,
        )
    }
}

impl ChainSync {
    /// Create a new instance of syncing strategy, and what has to be done for its downloads to
    /// start.
    pub fn new(config: SyncConfig, chain: &BlockChainInfo) -> (r: (ChainSync, Vec<Job>))
        ensures
            r.0@ == (SyncModel {
                state: init_state(config.warp_sync, chain.best_block_number),
                starting_block: chain.best_block_number,
                highest_block: None,
                peers: Map::empty(),
                active_peers: Set::empty(),
                new_blocks: new_blocks_setup(*chain),
                old_blocks: old_blocks_setup(config.download_old_blocks, *chain),
                last_sent_block_number: 0,
                network_id: config.network_id,
                fork_block: config.fork_block,
                handshaking_peers: Map::empty(),
                sync_start_time: None,
                download_old_blocks: config.download_old_blocks,
                warp_sync: config.warp_sync,
            }),
            plan(r.1@) == target_orders(config.download_old_blocks, *chain),
    {
        let best_block = chain.best_block_number;
        let state = ChainSync::get_init_state(config.warp_sync, chain);

        let mut sync = ChainSync {
            state,
            starting_block: best_block,
            highest_block: None,
            peers: HashMap::new(),
            handshaking_peers: HashMap::new(),
            active_peers: HashSet::new(),
            new_blocks: BlockDownload {
                sync_receipts: false,
                unlimited_reorg: false,
                start_hash: chain.best_block_hash,
                start_number: chain.best_block_number,
                target: None,
            },
            old_blocks: None,
            last_sent_block_number: 0,
            network_id: config.network_id,
            fork_block: config.fork_block,
            download_old_blocks: config.download_old_blocks,
            sync_start_time: None,
            warp_sync: config.warp_sync,
        };
        let jobs = sync.update_targets(chain);
        assert(sync@.peers =~= Map::empty());
        (sync, jobs)
    }

    /// The state in which a sync starts.
    pub fn get_init_state(warp_sync: WarpSync, chain: &BlockChainInfo) -> (r: SyncState)
        ensures
            r == init_state(warp_sync, chain.best_block_number),
    {
        match warp_sync {
            WarpSync::Enabled => SyncState::WaitingPeers,
            WarpSync::OnlyAndAfter(block) if block > chain.best_block_number => {
                SyncState::WaitingPeers
            },
            _ => SyncState::Idle,
        }
    }

    /// Update sync after the blockchain has been changed externally.
    pub fn update_targets(&mut self, chain: &BlockChainInfo) -> (jobs: Vec<Job>)
        ensures
            final(self)@ == old(self)@.retargeted(*chain),
            plan(jobs@) == target_orders(old(self)@.download_old_blocks, *chain),
    {
        let setup = BlockDownload {
            sync_receipts: false,
            unlimited_reorg: false,
            start_hash: chain.best_block_hash,
            start_number: chain.best_block_number,
            target: None,
        };
        let mut jobs: Vec<Job> = Vec::new();
        // Do not assume that the block queue/chain still has our last_imported_block
        self.new_blocks = setup;
        jobs.push(
            Task::Perform(Command::StartDownload { block_set: BlockSet::NewBlocks, setup }),
        );
        self.old_blocks = None;
        jobs.push(Task::Perform(Command::DropOldBlocks));
        if self.download_old_blocks {
            if let (Some(ancient_block_hash), Some(ancient_block_number)) = (
                chain.ancient_block_hash,
                chain.ancient_block_number,
            ) {
                let setup = BlockDownload {
                    sync_receipts: true,
                    unlimited_reorg: true,
                    start_hash: ancient_block_hash,
                    start_number: ancient_block_number,
                    target: chain.first_block_hash,
                };
                self.old_blocks = Some(setup);
                jobs.push(
                    Task::Perform(Command::StartDownload { block_set: BlockSet::OldBlocks, setup }),
                );
            }
        }
        assert(plan(jobs@) =~= target_orders(old(self)@.download_old_blocks, *chain));
        jobs
    }

    /// Whether `n` may be what was measured as the heap memory that the table of peers takes.
    pub closed spec fn peers_measured(&self, n: usize) -> bool {
        call_ensures(peers_heap_size, (&self.peers,), n)
    }

    /// Returns synchonization status
    pub fn status(&self, progress: &ProgressReport) -> (r: SyncStatus)
        ensures
            exists|n: usize| #[trigger]
                self.peers_measured(n) && self@.has_status(*progress, n, r),
    {
        let peers_heap_size = peers_heap_size(&self.peers);
        assert(self.peers_measured(peers_heap_size));
        self.status_with(progress, peers_heap_size)
    }

    /// The synchonization status, given the heap memory that the table of peers takes.
    pub fn status_with(&self, progress: &ProgressReport, peers_heap_size: usize) -> (r: SyncStatus)
        ensures
            self@.has_status(*progress, peers_heap_size, r),
    {
        let last_imported_number = progress.new_blocks.last_imported_block_number;
        let pred = |p: &PeerInfo| -> (b: bool)
            ensures
                b == (p@.allowed() && !(p@.asking is Nothing)),
        {
            p.is_allowed() && p.asking != PeerAsking::Nothing
        };
        let active = select(
            &self.peers,
            pred,
            Ghost(|p: PeerModel| p.allowed() && !(p.asking is Nothing)),
        );
        proof {
            assert(self@.peers.dom() =~= self.peers@.dom());
            assert(active@.to_set() =~= self@.allowed_peers().intersect(self@.asked_peers()));
            lemma_lists_len(active@, active@.to_set());
        }
        SyncStatus {
            state: self.state,
            protocol_version: ETH_PROTOCOL_VERSION_63,
            network_id: self.network_id,
            start_block_number: self.starting_block,
            last_imported_block_number: Some(last_imported_number),
            last_imported_old_block_number: match progress.old_blocks {
                Some(old) => Some(old.last_imported_block_number),
                None => None,
            },
            highest_block_number: match self.highest_block {
                Some(n) => Some(
                    if n >= last_imported_number {
                        n
                    } else {
                        last_imported_number
                    },
                ),
                None => None,
            },
            blocks_received: if last_imported_number > self.starting_block {
                last_imported_number - self.starting_block
            } else {
                0
            },
            blocks_total: match self.highest_block {
                Some(x) if x > self.starting_block => x - self.starting_block,
                _ => 0,
            },
            num_peers: self.peers.len(),
            num_active_peers: active.len(),
            num_snapshot_chunks: progress.total_chunks,
            snapshot_chunks_done: progress.done_chunks,
            mem_used: progress.new_blocks.heap_size.saturating_add(
                match progress.old_blocks {
                    Some(old) => old.heap_size,
                    None => 0,
                },
            ).saturating_add(peers_heap_size),
        }
    }

    /// Returns information on peers connections
    pub fn peer_info(&self, peer_id: &PeerId) -> (r: Option<EthProtocolInfo>)
        ensures
            r == if self@.peers.contains_key(*peer_id) {
                Some(
                    EthProtocolInfo {
                        version: self@.peers[*peer_id].protocol_version as u32,
                        difficulty: self@.peers[*peer_id].difficulty,
                        head: self@.peers[*peer_id].latest_hash,
                    },
                )
            } else {
                None
            },
    {
        match self.peers.get(peer_id) {
            Some(peer_data) => Some(
                EthProtocolInfo {
                    version: peer_data.protocol_version as u32,
                    difficulty: peer_data.difficulty,
                    head: peer_data.latest_hash,
                },
            ),
            None => None,
        }
    }

    /// Updates transactions were received by a peer
    pub fn transactions_received(&mut self, txs: &[H256], peer_id: PeerId)
        ensures
            final(self)@ == old(self)@.received(txs@.to_set(), peer_id),
    {
        let ghost before = self@;
        match self.peers.remove(&peer_id) {
            Some(peer) => {
                let mut peer = peer;
                let ghost known = peer@;
                let mut i: usize = 0;
                while i < txs.len()
                    invariant
                        i <= txs.len(),
                        peer@ == (PeerModel {
                            last_sent_transactions: known.last_sent_transactions.union(
                                txs@.take(i as int).to_set(),
                            ),
                            ..known
                        }),
                    decreases txs.len() - i,
                {
                    let tx = txs[i];
                    peer.last_sent_transactions.insert(tx);
                    proof {
                        assert(txs@.take(i + 1) =~= txs@.take(i as int).push(tx));
                        lemma_to_set_push(txs@.take(i as int), tx);
                        assert(known.last_sent_transactions.union(
                            txs@.take(i + 1).to_set(),
                        ) =~= known.last_sent_transactions.union(
                            txs@.take(i as int).to_set(),
                        ).insert(tx));
                    }
                    i = i + 1;
                }
                assert(txs@.take(i as int) =~= txs@);
                self.peers.insert(peer_id, peer);
                assert(self@.peers =~= before.peers.insert(peer_id, peer@));
            },
            None => {
                assert(self@.peers =~= before.peers);
            },
        }
    }

    /// Returns peer ids that have different blocks than our chain
    pub fn get_lagging_peers(&self, chain_info: &BlockChainInfo) -> (ids: Vec<PeerId>)
        ensures
            lists(
                ids@,
                Set::new(
                    |id: PeerId|
                        self@.peers.contains_key(id) && self@.peers[id].latest_hash
                            != chain_info.best_block_hash,
                ),
            ),
    {
        let latest_hash = chain_info.best_block_hash;
        let pred = |p: &PeerInfo| -> (b: bool)
            ensures
                b == (p@.latest_hash != latest_hash),
        {
            p.latest_hash != latest_hash
        };
        let ids = select(&self.peers, pred, Ghost(|p: PeerModel| p.latest_hash != latest_hash));
        assert(ids@.to_set() =~= Set::new(
            |id: PeerId| self@.peers.contains_key(id) && self@.peers[id].latest_hash != latest_hash,
        ));
        ids
    }

    /// The peers that take consensus messages.
    pub fn get_consensus_peers(&self) -> (ids: Vec<PeerId>)
        ensures
            lists(ids@, self@.speaking(PAR_PROTOCOL_VERSION_2)),
    {
        let pred = |p: &PeerInfo| -> (b: bool)
            ensures
                b == (p@.protocol_version >= PAR_PROTOCOL_VERSION_2),
        {
            p.protocol_version >= PAR_PROTOCOL_VERSION_2
        };
        let ids = select(
            &self.peers,
            pred,
            Ghost(|p: PeerModel| p.protocol_version >= PAR_PROTOCOL_VERSION_2),
        );
        assert(ids@.to_set() =~= self@.speaking(PAR_PROTOCOL_VERSION_2));
        ids
    }

    /// The peers that take private transactions.
    pub fn get_private_transaction_peers(&self) -> (ids: Vec<PeerId>)
        ensures
            lists(ids@, self@.speaking(PAR_PROTOCOL_VERSION_3)),
    {
        let pred = |p: &PeerInfo| -> (b: bool)
            ensures
                b == (p@.protocol_version >= PAR_PROTOCOL_VERSION_3),
        {
            p.protocol_version >= PAR_PROTOCOL_VERSION_3
        };
        let ids = select(
            &self.peers,
            pred,
            Ghost(|p: PeerModel| p.protocol_version >= PAR_PROTOCOL_VERSION_3),
        );
        assert(ids@.to_set() =~= self@.speaking(PAR_PROTOCOL_VERSION_3));
        ids
    }
}

} // verus!
