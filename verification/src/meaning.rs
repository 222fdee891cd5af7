//! What the operations are for, stated on the fields of peers, handler and surroundings and in
//! plain numbers.

use vstd::prelude::*;
use crate::agenda::{BlockDownload, Command, JobModel, OrderModel, Task, Visit};
use crate::order::{lemma_of_version, of_version, sorted_by_version, stable_sort};
use crate::peer::{bit_set, BlockSet, PeerAsking, PeerInfo, PeerModel};
use crate::peers::{lists, peers_with};
use crate::primitives::{
    BlockChainInfo, BlockNumber, PeerId, RestorationStatus, Timestamp, WarpSync, H256, U256,
};
use crate::status::{major_sync, SyncState, SyncStatus};
use crate::strategy::{disconnect_plan, ids_of, timeout_plan, visit_plan};
use crate::sync::{
    init_state, target_orders, ChainSync, ProgressReport, Surroundings, SyncModel,
};

verus! {

// Numbers and hashes.

/// Two hashes are equal exactly where each of their bytes is.
pub proof fn equal_hashes_agree_in_every_byte(a: H256, b: H256)
    ensures
        vstd::std_specs::cmp::PartialEqSpec::eq_spec(&a, &b) <==> forall|i: int|
            0 <= i < 32 ==> a.0[i] == b.0[i],
{
    if forall|i: int| 0 <= i < 32 ==> a.0[i] == b.0[i] {
        assert(a.0 =~= b.0);
    }
}

/// Which of two difficulties is greater is decided by their most significant limb that differs.
pub proof fn difficulties_are_ordered_by_limbs(a: U256, b: U256)
    ensures
        a.value() > b.value() <==> {
            ||| a.0[3] > b.0[3]
            ||| a.0[3] == b.0[3] && a.0[2] > b.0[2]
            ||| a.0[3] == b.0[3] && a.0[2] == b.0[2] && a.0[1] > b.0[1]
            ||| a.0[3] == b.0[3] && a.0[2] == b.0[2] && a.0[1] == b.0[1] && a.0[0] > b.0[0]
        },
        a.0[1] == 0 && a.0[2] == 0 && a.0[3] == 0 ==> a.value() == a.0[0],
{
}

// Peers.

/// Whether the peer follows our fork and has no request that expired.
pub open spec fn in_sync(p: PeerModel) -> bool {
    p.confirmation is Confirmed && !p.expired
}

/// Whether the peer has had longer than it may take for what was asked of it: 3 seconds for a fork
/// header, 15 for headers, 20 for bodies, 10 for receipts, 10 for a bitfield, 5 for a manifest and
/// 120 for a snapshot chunk.
pub open spec fn overdue(p: PeerModel, now: Timestamp) -> bool {
    match p.asking {
        PeerAsking::Nothing => false,
        PeerAsking::ForkHeader => now > p.ask_time + 3_000_000_000,
        PeerAsking::BlockHeaders => now > p.ask_time + 15_000_000_000,
        PeerAsking::BlockBodies => now > p.ask_time + 20_000_000_000,
        PeerAsking::BlockReceipts => now > p.ask_time + 10_000_000_000,
        PeerAsking::SnapshotBitfield => now > p.ask_time + 10_000_000_000,
        PeerAsking::SnapshotManifest => now > p.ask_time + 5_000_000_000,
        PeerAsking::SnapshotData => now > p.ask_time + 120_000_000_000,
    }
}

/// The model of a peer tells each of its fields.
pub proof fn model_tells_every_field_of_a_peer(p: PeerInfo)
    ensures
        p@.protocol_version == p.protocol_version,
        p@.genesis == p.genesis,
        p@.network_id == p.network_id,
        p@.latest_hash == p.latest_hash,
        p@.difficulty == p.difficulty,
        p@.asking == p.asking,
        p@.asking_blocks == p.asking_blocks@,
        p@.asking_hash == p.asking_hash,
        p@.asking_snapshot_data == p.asking_snapshot_data,
        p@.ask_bitfield_time == p.ask_bitfield_time,
        p@.ask_time == p.ask_time,
        p@.last_sent_transactions == p.last_sent_transactions@,
        p@.expired == p.expired,
        p@.confirmation == p.confirmation,
        p.snapshot_bitfield is None ==> p@.snapshot_bitfield is None,
        p.snapshot_bitfield matches Some(bitfield) ==> p@.snapshot_bitfield == Some(bitfield@),
        p@.snapshot_hash == p.snapshot_hash,
        p@.snapshot_number == p.snapshot_number,
        p@.block_set == p.block_set,
{
}

/// A peer takes part in the sync exactly where its fork is confirmed and no request has expired.
pub proof fn confirmed_current_peers_take_part(p: PeerModel)
    ensures
        p.allowed() <==> p.confirmation is Confirmed && !p.expired,
{
}

/// A peer has timed out exactly where what was asked of it is overdue, whatever its other fields.
pub proof fn overdue_requests_time_out(p: PeerModel, now: Timestamp)
    ensures
        p.timed_out(now) <==> overdue(p, now),
{
}

/// A peer counts as better than our chain where its difficulty is unknown or greater.
pub proof fn unknown_difficulty_counts_as_higher(p: PeerModel, ours: U256)
    ensures
        p.difficulty is None ==> p.higher_difficulty(ours),
        p.difficulty matches Some(theirs) ==> (p.higher_difficulty(ours) <==> {
            ||| theirs.0[3] > ours.0[3]
            ||| theirs.0[3] == ours.0[3] && theirs.0[2] > ours.0[2]
            ||| theirs.0[3] == ours.0[3] && theirs.0[2] == ours.0[2] && theirs.0[1] > ours.0[1]
            ||| theirs.0[3] == ours.0[3] && theirs.0[2] == ours.0[2] && theirs.0[1] == ours.0[1]
                && theirs.0[0] > ours.0[0]
        }),
{
    if let Some(theirs) = p.difficulty {
        difficulties_are_ordered_by_limbs(theirs, ours);
    }
}

/// Forgetting what was asked of a peer empties what it was asked for. A request under way expires
/// where the peer takes part in the sync; everything else stays.
pub proof fn forgotten_request_expires(p: PeerModel)
    ensures
        p.asking_reset().asking_blocks.len() == 0,
        p.asking_reset().asking_hash is None,
        p.asking_reset().expired <==> p.expired || (!(p.asking is Nothing)
            && p.confirmation is Confirmed),
        p.asking_reset() == (PeerModel {
            asking_blocks: Seq::empty(),
            asking_hash: None,
            expired: p.asking_reset().expired,
            ..p
        }),
{
}

/// A reset passes over a peer that works on old blocks. Any other peer forgets what was asked of
/// it, a request under way expires, and an unknown difficulty is taken to be ours.
pub proof fn reset_of_a_peer(p: PeerModel, ours: U256)
    ensures
        p.block_set == Some(BlockSet::OldBlocks) ==> p.sync_reset(ours) == p,
        p.block_set != Some(BlockSet::OldBlocks) ==> p.sync_reset(ours) == (PeerModel {
            asking_blocks: Seq::empty(),
            asking_hash: None,
            expired: p.expired || (!(p.asking is Nothing) && p.confirmation is Confirmed),
            difficulty: if p.difficulty is None {
                Some(ours)
            } else {
                p.difficulty
            },
            ..p
        }),
{
}

/// An answer leaves the peer idle, with nothing expired and no block set, and changes nothing else.
pub proof fn answer_of_a_peer(p: PeerModel)
    ensures
        p.answered() == (PeerModel {
            expired: false,
            block_set: None,
            asking: PeerAsking::Nothing,
            ..p
        }),
{
}

/// A peer with a known bitfield has the chunk whose bit is set, where the first chunk of a byte is
/// told by the bit that weighs 128 and the last one by the bit that weighs 1.
pub proof fn bits_tell_chunks_from_the_heaviest_on(bitfield: Seq<u8>, byte: int, weight: int)
    requires
        0 <= byte < bitfield.len(),
    ensures
        weight == 128 ==> (bit_set(bitfield, 8 * byte) <==> (bitfield[byte] / 128) % 2 == 1),
        weight == 64 ==> (bit_set(bitfield, 8 * byte + 1) <==> (bitfield[byte] / 64) % 2 == 1),
        weight == 32 ==> (bit_set(bitfield, 8 * byte + 2) <==> (bitfield[byte] / 32) % 2 == 1),
        weight == 16 ==> (bit_set(bitfield, 8 * byte + 3) <==> (bitfield[byte] / 16) % 2 == 1),
        weight == 8 ==> (bit_set(bitfield, 8 * byte + 4) <==> (bitfield[byte] / 8) % 2 == 1),
        weight == 4 ==> (bit_set(bitfield, 8 * byte + 5) <==> (bitfield[byte] / 4) % 2 == 1),
        weight == 2 ==> (bit_set(bitfield, 8 * byte + 6) <==> (bitfield[byte] / 2) % 2 == 1),
        weight == 1 ==> (bit_set(bitfield, 8 * byte + 7) <==> bitfield[byte] % 2 == 1),
{
    let b = bitfield[byte];
    assert((b >> 7usize) & 1 == (b / 128) % 2) by (bit_vector);
    assert((b >> 6usize) & 1 == (b / 64) % 2) by (bit_vector);
    assert((b >> 5usize) & 1 == (b / 32) % 2) by (bit_vector);
    assert((b >> 4usize) & 1 == (b / 16) % 2) by (bit_vector);
    assert((b >> 3usize) & 1 == (b / 8) % 2) by (bit_vector);
    assert((b >> 2usize) & 1 == (b / 4) % 2) by (bit_vector);
    assert((b >> 1usize) & 1 == (b / 2) % 2) by (bit_vector);
    assert((b >> 0usize) & 1 == b % 2) by (bit_vector);
}

// The handler.

/// The model of the handler tells each of its fields.
pub proof fn model_tells_every_field_of_the_handler(s: ChainSync)
    ensures
        s@.state == s.state,
        s@.starting_block == s.starting_block,
        s@.highest_block == s.highest_block,
        s@.peers.dom() == s.peers@.dom(),
        forall|id: PeerId| s.peers@.contains_key(id) ==> #[trigger] s@.peers[id] == s.peers@[id]@,
        s@.active_peers == s.active_peers@,
        s@.new_blocks == s.new_blocks,
        s@.old_blocks == s.old_blocks,
        s@.last_sent_block_number == s.last_sent_block_number,
        s@.network_id == s.network_id,
        s@.fork_block == s.fork_block,
        s@.handshaking_peers == s.handshaking_peers@,
        s@.sync_start_time == s.sync_start_time,
        s@.download_old_blocks == s.download_old_blocks,
        s@.warp_sync == s.warp_sync,
{
    assert(s@.peers.dom() =~= s.peers@.dom());
}

/// A sync starts by waiting for peers where warp sync is enabled, or is the only one allowed and
/// our best block is below its barrier. Otherwise it starts idle.
pub proof fn warp_sync_decides_how_a_sync_starts(best: BlockNumber, barrier: BlockNumber)
    ensures
        init_state(WarpSync::Enabled, best) is WaitingPeers,
        init_state(WarpSync::Disabled, best) is Idle,
        barrier > best ==> init_state(WarpSync::OnlyAndAfter(barrier), best) is WaitingPeers,
        barrier <= best ==> init_state(WarpSync::OnlyAndAfter(barrier), best) is Idle,
{
}

/// The download of new blocks starts at our best block, without receipts. Old blocks are downloaded
/// where they are wanted and missing: from the last ancient block up to the first block after the
/// gap, with receipts.
pub proof fn downloads_start_at_the_ends_of_the_chain(
    sync: SyncModel,
    wanted: bool,
    chain: BlockChainInfo,
)
    ensures
        ({
            let new = BlockDownload {
                sync_receipts: false,
                unlimited_reorg: false,
                start_hash: chain.best_block_hash,
                start_number: chain.best_block_number,
                target: None,
            };
            let missing = chain.ancient_block_hash is Some && chain.ancient_block_number is Some;
            let old = BlockDownload {
                sync_receipts: true,
                unlimited_reorg: true,
                start_hash: chain.ancient_block_hash->0,
                start_number: chain.ancient_block_number->0,
                target: chain.first_block_hash,
            };
            let todo = target_orders(wanted, chain);
            &&& todo.len() == if wanted && missing {
                3int
            } else {
                2
            }
            &&& todo[0] == Task::<OrderModel>::Perform(
                Command::StartDownload { block_set: BlockSet::NewBlocks, setup: new },
            )
            &&& todo[1] == Task::<OrderModel>::Perform(Command::DropOldBlocks)
            &&& wanted && missing ==> todo[2] == Task::<OrderModel>::Perform(
                Command::StartDownload { block_set: BlockSet::OldBlocks, setup: old },
            )
            &&& sync.retargeted(chain) == (SyncModel {
                new_blocks: new,
                old_blocks: if sync.download_old_blocks && missing {
                    Some(old)
                } else {
                    None
                },
                ..sync
            })
        }),
{
}

/// A reset puts the sync in its first state, activates exactly the connected peers and resets each
/// of them, and changes nothing else.
pub proof fn reset_of_the_handler(sync: SyncModel, chain: BlockChainInfo, id: PeerId)
    ensures
        ({
            let post = sync.reset(chain);
            let p = sync.peers[id];
            &&& post.state == match sync.warp_sync {
                WarpSync::Enabled => SyncState::WaitingPeers,
                WarpSync::Disabled => SyncState::Idle,
                WarpSync::OnlyAndAfter(barrier) => if barrier > chain.best_block_number {
                    SyncState::WaitingPeers
                } else {
                    SyncState::Idle
                },
            }
            &&& post.active_peers.contains(id) <==> sync.peers.contains_key(id)
            &&& post.peers.contains_key(id) <==> sync.peers.contains_key(id)
            &&& sync.peers.contains_key(id) && p.block_set == Some(BlockSet::OldBlocks)
                ==> post.peers[id] == p
            &&& sync.peers.contains_key(id) && p.block_set != Some(BlockSet::OldBlocks)
                ==> post.peers[id] == (PeerModel {
                asking_blocks: Seq::empty(),
                asking_hash: None,
                expired: p.expired || (!(p.asking is Nothing) && p.confirmation is Confirmed),
                difficulty: if p.difficulty is None {
                    Some(chain.pending_total_difficulty)
                } else {
                    p.difficulty
                },
                ..p
            })
            &&& post == (SyncModel {
                state: post.state,
                peers: post.peers,
                active_peers: post.active_peers,
                ..sync
            })
        }),
{
}

/// A reset has the new blocks reset. One that goes on aborts a restoration under way first, gives
/// the snapshot up, and resumes downloading at last; a restart begins with the downloads.
pub proof fn orders_of_a_reset(sync: SyncModel, chain: BlockChainInfo)
    ensures
        ({
            let abort = Task::<OrderModel>::Perform(Command::AbortRestore);
            let clear = Task::<OrderModel>::Perform(Command::ClearSnapshot);
            let reset = Task::<OrderModel>::Perform(Command::ResetNewBlocks);
            let resume = Task::<OrderModel>::ContinueSync;
            let todo = sync.reset_and_continue_orders();
            &&& sync.reset_orders() =~= seq![reset]
            &&& sync.state is SnapshotData ==> todo =~= seq![abort, clear, reset, resume]
            &&& !(sync.state is SnapshotData) ==> todo =~= seq![clear, reset, resume]
            &&& sync.restart_orders(chain) =~= target_orders(sync.download_old_blocks, chain) + todo
        }),
{
}

/// Changes of one thing leave the others as they are.
pub proof fn small_changes_leave_the_rest(
    sync: SyncModel,
    state: SyncState,
    id: PeerId,
    other: PeerId,
    p: PeerModel,
    txs: Set<H256>,
)
    ensures
        sync.in_state(state) == (SyncModel { state, ..sync }),
        sync.deactivated(id).active_peers.contains(other) <==> sync.active_peers.contains(other)
            && other != id,
        sync.deactivated(id) == (SyncModel {
            active_peers: sync.deactivated(id).active_peers,
            ..sync
        }),
        sync.with_peer(id, p) == (SyncModel { peers: sync.peers.insert(id, p), ..sync }),
        !sync.peers.contains_key(id) ==> sync.received(txs, id) == sync,
        sync.peers.contains_key(id) ==> sync.received(txs, id) == (SyncModel {
            peers: sync.peers.insert(
                id,
                PeerModel {
                    last_sent_transactions: sync.peers[id].last_sent_transactions.union(txs),
                    ..sync.peers[id]
                },
            ),
            ..sync
        }),
        sync.sent_forgotten(id) == (SyncModel {
            peers: sync.peers.insert(
                id,
                PeerModel { last_sent_transactions: Set::empty(), ..sync.peers[id] },
            ),
            ..sync
        }),
{
}

/// The sets of peers that the handler speaks of.
pub proof fn sets_of_peers(sync: SyncModel, version: u8, now: Timestamp, id: PeerId)
    ensures
        ({
            let p = sync.peers[id];
            let connected = sync.peers.contains_key(id);
            &&& sync.asked_peers().contains(id) <==> connected && !(p.asking is Nothing)
            &&& sync.allowed_peers().contains(id) <==> connected && in_sync(p)
            &&& sync.speaking(version).contains(id) <==> connected && p.protocol_version >= version
            &&& sync.visitable().contains(id) <==> connected && in_sync(p)
                && sync.active_peers.contains(id)
            &&& sync.timed_out_peers(now).contains(id) <==> connected && overdue(p, now)
            &&& sync.late_handshakes(now).contains(id) <==> sync.handshaking_peers.contains_key(id)
                && now > sync.handshaking_peers[id] + 5_000_000_000
        }),
        sync.speaking(crate::protocol::PAR_PROTOCOL_VERSION_2).contains(id)
            <==> sync.peers.contains_key(id) && sync.peers[id].protocol_version >= 2,
        sync.speaking(crate::protocol::PAR_PROTOCOL_VERSION_3).contains(id)
            <==> sync.peers.contains_key(id) && sync.peers[id].protocol_version >= 3,
{
}

/// What a list of a set's items is, and which peers a property selects.
pub proof fn lists_hold_each_item_once(
    ids: Seq<PeerId>,
    set: Set<PeerId>,
    peers: Map<PeerId, PeerModel>,
    f: spec_fn(PeerModel) -> bool,
    id: PeerId,
)
    ensures
        lists(ids, set) ==> (ids.contains(id) <==> set.contains(id)),
        lists(ids, set) ==> forall|i: int, j: int|
            0 <= i < j < ids.len() ==> #[trigger] ids[i] != #[trigger] ids[j],
        peers_with(peers, f).contains(id) <==> peers.contains_key(id) && f(peers[id]),
{
    if lists(ids, set) {
        assert(ids.contains(id) <==> ids.to_set().contains(id));
    }
}

/// The status tells of all connected peers, of those among them that take part in the sync and
/// work on a request, of the blocks since the start, and of the memory in use, where the greatest
/// number stands for all greater ones.
pub proof fn status_tells(
    sync: SyncModel,
    progress: ProgressReport,
    heap: usize,
    r: SyncStatus,
)
    requires
        sync.has_status(progress, heap, r),
    ensures
        r.state == sync.state,
        r.protocol_version == 63,
        r.network_id == sync.network_id,
        r.start_block_number == sync.starting_block,
        r.last_imported_block_number == Some(progress.new_blocks.last_imported_block_number),
        progress.old_blocks is None ==> r.last_imported_old_block_number is None,
        progress.old_blocks matches Some(old) ==> r.last_imported_old_block_number == Some(
            old.last_imported_block_number,
        ),
        sync.highest_block is None ==> r.highest_block_number is None && r.blocks_total == 0,
        sync.highest_block matches Some(n) ==> {
            &&& r.highest_block_number matches Some(told) && told >= n && told
                >= progress.new_blocks.last_imported_block_number && (told == n || told
                == progress.new_blocks.last_imported_block_number)
            &&& n >= sync.starting_block ==> r.blocks_total == n - sync.starting_block
            &&& n < sync.starting_block ==> r.blocks_total == 0
        },
        progress.new_blocks.last_imported_block_number >= sync.starting_block ==> r.blocks_received
            == progress.new_blocks.last_imported_block_number - sync.starting_block,
        progress.new_blocks.last_imported_block_number < sync.starting_block ==> r.blocks_received
            == 0,
        r.num_peers == sync.peers.dom().len(),
        r.num_active_peers == Set::new(
            |id: PeerId|
                sync.peers.contains_key(id) && in_sync(sync.peers[id])
                    && !(sync.peers[id].asking is Nothing),
        ).len(),
        r.num_snapshot_chunks == progress.total_chunks,
        r.snapshot_chunks_done == progress.done_chunks,
        ({
            let used = progress.new_blocks.heap_size + heap + if progress.old_blocks is Some {
                progress.old_blocks->0.heap_size as int
            } else {
                0
            };
            &&& used <= usize::MAX ==> r.mem_used == used
            &&& used > usize::MAX ==> r.mem_used == usize::MAX
        }),
{
    assert(Set::new(
        |id: PeerId|
            sync.peers.contains_key(id) && in_sync(sync.peers[id])
                && !(sync.peers[id].asking is Nothing),
    ) =~= sync.allowed_peers().intersect(sync.asked_peers()));
}

/// A sync is a major one while more than three blocks wait in the queue, and in every state but
/// two: idle, and downloading blocks that were announced.
pub proof fn few_queued_blocks_and_an_idle_state_are_no_major_sync(state: SyncState, queued: int)
    ensures
        !major_sync(state, queued) <==> queued <= 3 && (state == SyncState::Idle || state
            == SyncState::NewBlocks),
{
}

// Rounds and visits.

/// When downloading is resumed, exactly the connected, active peers that take part in the sync are
/// visited, each once and without force, and one with a higher protocol version before one with a
/// lower one. Then the round ends.
#[verifier::rlimit(30)]
pub proof fn resumed_round(sync: SyncModel, todo: Seq<JobModel>)
    requires
        sync.resumes_with(todo),
    ensures
        todo.len() > 0,
        todo.last() is FinishRound,
        forall|i: int|
            0 <= i < todo.len() - 1 ==> (#[trigger] todo[i] matches Task::SyncPeer {
                peer_id,
                force,
            } && !force && sync.peers.contains_key(peer_id) && in_sync(sync.peers[peer_id])
                && sync.active_peers.contains(peer_id)),
        forall|i: int, j: int|
            #![trigger todo[i], todo[j]]
            0 <= i < j < todo.len() - 1 ==> todo[i]->SyncPeer_peer_id != todo[j]->SyncPeer_peer_id
                && sync.peers[todo[i]->SyncPeer_peer_id].protocol_version
                >= sync.peers[todo[j]->SyncPeer_peer_id].protocol_version,
        forall|id: PeerId|
            sync.peers.contains_key(id) && in_sync(sync.peers[id])
                && #[trigger] sync.active_peers.contains(id) ==> todo.contains(
                Task::SyncPeer { peer_id: id, force: false },
            ),
{
    let order = choose|order: Seq<(PeerId, u8)>|
        sync.visit_list(order) && sorted_by_version(order) && #[trigger] visit_plan(order) == todo;
    let ids = ids_of(order);
    assert(todo.len() == order.len() + 1);
    assert forall|i: int| 0 <= i < todo.len() - 1 implies (
    #[trigger] todo[i] matches Task::SyncPeer { peer_id, force } && !force && peer_id == order[i].0
        && sync.peers.contains_key(peer_id) && in_sync(
        sync.peers[peer_id],
    ) && sync.active_peers.contains(peer_id)) by {
        assert(ids.to_set().contains(ids[i]));
        assert(sync.visitable().contains(ids[i]));
    }
    assert forall|i: int, j: int| #![trigger todo[i], todo[j]] 0 <= i < j < todo.len() - 1 implies
        todo[i]->SyncPeer_peer_id != todo[j]->SyncPeer_peer_id
            && sync.peers[todo[i]->SyncPeer_peer_id].protocol_version
            >= sync.peers[todo[j]->SyncPeer_peer_id].protocol_version by {
        assert(ids[i] != ids[j]);
        assert(order[i].1 >= order[j].1);
    }
    assert forall|id: PeerId|
        sync.peers.contains_key(id) && in_sync(sync.peers[id])
            && #[trigger] sync.active_peers.contains(id) implies todo.contains(
        Task::SyncPeer { peer_id: id, force: false },
    ) by {
        assert(sync.visitable().contains(id));
        assert(ids.to_set().contains(id));
        let i = choose|i: int| 0 <= i < ids.len() && ids[i] == id;
        assert(todo[i] == (Task::SyncPeer::<OrderModel> { peer_id: id, force: false }));
    }
}

/// A sort by version puts no version before a higher one, holds each peer as often as before, and
/// leaves peers of one version in order.
pub proof fn sorts_put_higher_versions_first(
    s: Seq<(PeerId, u8)>,
    r: Seq<(PeerId, u8)>,
    i: int,
    j: int,
    version: u8,
    f: spec_fn((PeerId, u8)) -> bool,
)
    requires
        stable_sort(s, r),
    ensures
        0 <= i < j < r.len() ==> r[i].1 >= r[j].1,
        r.to_multiset() == s.to_multiset(),
        (forall|peer: (PeerId, u8)| #[trigger] f(peer) == (peer.1 == version)) ==> r.filter(f)
            == s.filter(f),
{
    assert(of_version(r, version) == of_version(s, version));
    if forall|peer: (PeerId, u8)| #[trigger] f(peer) == (peer.1 == version) {
        lemma_of_version(r, version, f);
        lemma_of_version(s, version, f);
    }
}

/// While blocks are downloaded, one peer that takes part in the sync and is asked for anything,
/// unless it is for old blocks, keeps the round from completing the sync.
pub proof fn any_request_for_new_blocks_keeps_the_sync_going(
    sync: SyncModel,
    chain: BlockChainInfo,
    id: PeerId,
)
    requires
        sync.peers.contains_key(id),
        sync.peers[id].confirmation is Confirmed,
        !sync.peers[id].expired,
        !(sync.peers[id].asking is Nothing),
        sync.peers[id].block_set != Some(BlockSet::OldBlocks),
    ensures
        sync.finish_round(chain).0 == sync,
        sync.finish_round(chain).1.len() == 0,
        sync.any_busy(),
{
    assert(sync.peers[id].busy_with_new_blocks());
}

/// The end of a round completes the sync exactly where blocks were being downloaded and every
/// connected peer is idle, out of the sync, or at work on old blocks.
pub proof fn round_completes_without_requests_for_new_blocks(
    sync: SyncModel,
    chain: BlockChainInfo,
)
    ensures
        !(sync.state is Blocks || sync.state is NewBlocks) ==> sync.finish_round(chain).0 == sync
            && sync.finish_round(chain).1.len() == 0,
        (sync.state is Blocks || sync.state is NewBlocks) && (forall|id: PeerId| #[trigger]
            sync.peers.contains_key(id) ==> sync.peers[id].asking is Nothing
                || sync.peers[id].confirmation is Unconfirmed || sync.peers[id].expired
                || sync.peers[id].block_set == Some(BlockSet::OldBlocks)) ==> sync.finish_round(
            chain,
        ).0 == sync.reset(chain) && sync.finish_round(chain).1 =~= seq![
            Task::Perform(Command::ResetNewBlocks),
        ],
{
}

/// Whether something can be asked of the peer: it is connected and active, takes part in the sync
/// and has nothing to do.
pub open spec fn at_hand(sync: SyncModel, id: PeerId) -> bool {
    &&& sync.peers.contains_key(id)
    &&& sync.active_peers.contains(id)
    &&& in_sync(sync.peers[id])
    &&& sync.peers[id].asking is Nothing
}

/// Nothing comes of a visit where the peer is not at hand, or the sync is paused or waits for a
/// manifest.
pub proof fn vain_visits(sync: SyncModel, env: Surroundings, id: PeerId, force: bool)
    requires
        !at_hand(sync, id) || sync.state is Waiting || sync.state is SnapshotInit
            || sync.state is SnapshotWaiting || sync.state is SnapshotManifest,
    ensures
        sync.sync_peer(env, id, force).0 == sync,
        sync.sync_peer(env, id, force).1.len() == 0,
{
}

/// While the sync waits for peers, a visit of a peer at hand looks for a snapshot.
pub proof fn visit_while_waiting_for_peers(
    sync: SyncModel,
    env: Surroundings,
    id: PeerId,
    force: bool,
)
    requires
        at_hand(sync, id),
        sync.state is WaitingPeers,
    ensures
        sync.sync_peer(env, id, force).0 == sync,
        sync.sync_peer(env, id, force).1 =~= seq![Task::MaybeStartSnapshotSync],
{
}

/// Whether the peer's difficulty is unknown or greater than that of our chain.
pub open spec fn better(p: PeerModel, ours: U256) -> bool {
    p.difficulty matches Some(theirs) ==> theirs.value() > ours.value()
}

/// While blocks are downloaded, a visit of a peer at hand is of interest by force, where the peer
/// is better than our chain, or while old blocks are downloaded. Then a full queue pauses the
/// sync, and otherwise the peer's best block is looked up; what is known of the peer goes along.
#[verifier::rlimit(30)]
pub proof fn visit_while_downloading_blocks(
    sync: SyncModel,
    env: Surroundings,
    id: PeerId,
    force: bool,
)
    requires
        at_hand(sync, id),
        sync.state is Idle || sync.state is Blocks || sync.state is NewBlocks,
    ensures
        ({
            let p = sync.peers[id];
            let higher = better(p, env.chain.pending_total_difficulty);
            let (post, todo) = sync.sync_peer(env, id, force);
            let of_interest = force || higher || sync.old_blocks is Some;
            &&& !of_interest ==> post == sync && todo.len() == 0
            &&& of_interest && env.queue_full ==> post == (SyncModel {
                state: SyncState::Waiting,
                ..sync
            }) && todo.len() == 0
            &&& of_interest && !env.queue_full ==> post == sync && todo =~= seq![
                Task::AskBlockStatus(
                    Visit {
                        peer_id: id,
                        latest_hash: p.latest_hash,
                        force,
                        higher_difficulty: higher,
                        num_active_peers: Set::new(
                            |other: PeerId|
                                sync.peers.contains_key(other) && !(
                                sync.peers[other].asking is Nothing),
                        ).len() as usize,
                    },
                ),
            ]
        }),
{
    assert(Set::new(
        |other: PeerId| sync.peers.contains_key(other) && !(sync.peers[other].asking is Nothing),
    ) =~= sync.asked_peers());
}

/// Whether a restoration goes on and more than three chunks are there that it has not restored.
pub open spec fn restoration_lags(env: Surroundings) -> bool {
    env.service.status matches RestorationStatus::Ongoing { state_chunks_done, block_chunks_done }
        && env.snapshot.done_chunks > state_chunks_done + block_chunks_done + 3
}

/// Whether the chunks restored fit their type and do not outnumber those that are there, while a
/// restoration goes on.
pub open spec fn restoration_adds_up(env: Surroundings) -> bool {
    env.service.status matches RestorationStatus::Ongoing { state_chunks_done, block_chunks_done }
        ==> state_chunks_done + block_chunks_done <= 0xffff_ffff && state_chunks_done
        + block_chunks_done <= env.snapshot.done_chunks
}

/// What the number of chunks ahead of a restoration is, and when it is asked for.
pub proof fn chunks_ahead_of_the_restoration(sync: SyncModel, env: Surroundings, id: PeerId)
    ensures
        env.gap_defined() <==> restoration_adds_up(env),
        env.too_far_ahead() <==> restoration_lags(env),
        sync.visit_reads_gap(env, id) <==> at_hand(sync, id) && sync.state is SnapshotData
            && sync.peers[id].snapshot_hash is Some && sync.peers[id].snapshot_hash
            == env.snapshot.snapshot_hash && (sync.peers[id].protocol_version != 4
            || sync.peers[id].snapshot_bitfield is Some),
        sync.resume_reads_gap(env) <==> sync.state is SnapshotWaiting && !env.snapshot.is_complete,
        sync.reads_gap(env, Task::SyncPeer { peer_id: id, force: true }) == sync.visit_reads_gap(
            env,
            id,
        ),
        sync.reads_gap(env, Task::SyncPeer { peer_id: id, force: false }) == sync.visit_reads_gap(
            env,
            id,
        ),
        sync.reads_gap(env, Task::CheckResume) == sync.resume_reads_gap(env),
{
}

/// No other task asks how far the chunks are ahead of a restoration.
pub proof fn other_tasks_do_not_look_at_the_restoration(
    sync: SyncModel,
    env: Surroundings,
    job: JobModel,
)
    requires
        !(job is SyncPeer || job is CheckResume),
    ensures
        !sync.reads_gap(env, job),
{
}

/// While snapshot data is downloaded, a peer at hand without the snapshot is deactivated; one that
/// could tell its chunks, and has not, is asked for its bitfield; a restoration that lags pauses
/// the sync; and otherwise exactly a chunk is asked for, whatever the restoration.
pub proof fn visit_while_downloading_a_snapshot(
    sync: SyncModel,
    env: Surroundings,
    id: PeerId,
    force: bool,
)
    requires
        at_hand(sync, id),
        sync.state is SnapshotData,
    ensures
        ({
            let p = sync.peers[id];
            let (post, todo) = sync.sync_peer(env, id, force);
            let has_it = p.snapshot_hash is Some && env.snapshot.snapshot_hash == p.snapshot_hash;
            let untold = p.protocol_version == 4 && p.snapshot_bitfield is None;
            &&& !has_it ==> todo.len() == 0 && post == (SyncModel {
                active_peers: sync.active_peers.remove(id),
                ..sync
            })
            &&& has_it && untold ==> post == sync && todo =~= seq![
                Task::Perform(Command::RequestSnapshotBitfield { peer_id: id }),
            ]
            &&& has_it && !untold && restoration_lags(env) ==> todo.len() == 0 && post == (
            SyncModel { state: SyncState::SnapshotWaiting, ..sync })
            &&& has_it && !untold && !restoration_lags(env) ==> post == sync && todo =~= seq![
                Task::Perform(Command::RequestSnapshotData { peer_id: id }),
            ]
        }),
{
    assert(sync.clear_download_orders(id).len() == 0);
}

/// Where the peer's best block is unknown, new blocks are looked for by force, at a better peer,
/// and while announced blocks are downloaded. Otherwise, or where none are found, old blocks are
/// looked for at such a peer while they are downloaded; a peer that is no better is deactivated.
pub proof fn blocks_to_look_for(sync: SyncModel, visit: Visit, unknown: bool)
    ensures
        ({
            let good = visit.force || visit.higher_difficulty;
            let (post, todo) = sync.with_block_status(visit, unknown);
            let (post_old, todo_old) = sync.turn_to_old_blocks(visit);
            &&& unknown && (good || sync.state is NewBlocks) ==> post == sync && todo =~= seq![
                Task::AskNewBlocks(visit),
            ]
            &&& !(unknown && (good || sync.state is NewBlocks)) ==> post == post_old && todo
                == todo_old
            &&& good && sync.old_blocks is Some ==> post_old == sync && todo_old =~= seq![
                Task::AskOldBlocks(visit),
            ]
            &&& good && sync.old_blocks is None ==> post_old == sync && todo_old.len() == 0
            &&& !good ==> todo_old.len() == 0 && post_old == (SyncModel {
                active_peers: sync.active_peers.remove(visit.peer_id),
                ..sync
            })
        }),
{
}

/// What is marked as being downloaded by a peer is cleared in the download of new blocks, and in
/// that of old ones too where there is one: the header, bodies or receipts that the peer was asked
/// for. A snapshot chunk is cleared in the snapshot.
#[verifier::rlimit(30)]
pub proof fn marks_to_clear(sync: SyncModel, id: PeerId)
    ensures
        ({
            let p = sync.peers[id];
            let todo = sync.clear_download_orders(id);
            let both = sync.old_blocks is Some;
            let header = |block_set: BlockSet|
                Task::<OrderModel>::Perform(
                    Command::ClearHeaderDownload { block_set, hash: p.asking_hash->0 },
                );
            let bodies = |block_set: BlockSet|
                Task::<OrderModel>::Perform(
                    Command::ClearBodyDownload { block_set, hashes: p.asking_blocks },
                );
            let receipts = |block_set: BlockSet|
                Task::<OrderModel>::Perform(
                    Command::ClearReceiptDownload { block_set, hashes: p.asking_blocks },
                );
            &&& !sync.peers.contains_key(id) ==> todo.len() == 0
            &&& sync.peers.contains_key(id) ==> {
                &&& p.asking is BlockHeaders && p.asking_hash is Some ==> {
                    &&& todo.len() == if both { 2int } else { 1 }
                    &&& todo[0] == header(BlockSet::NewBlocks)
                    &&& both ==> todo[1] == header(BlockSet::OldBlocks)
                }
                &&& p.asking is BlockBodies ==> {
                    &&& todo.len() == if both { 2int } else { 1 }
                    &&& todo[0] == bodies(BlockSet::NewBlocks)
                    &&& both ==> todo[1] == bodies(BlockSet::OldBlocks)
                }
                &&& p.asking is BlockReceipts ==> {
                    &&& todo.len() == if both { 2int } else { 1 }
                    &&& todo[0] == receipts(BlockSet::NewBlocks)
                    &&& both ==> todo[1] == receipts(BlockSet::OldBlocks)
                }
                &&& p.asking is SnapshotData && p.asking_snapshot_data is Some ==> todo =~= seq![
                    Task::Perform(Command::ClearChunkDownload { hash: p.asking_snapshot_data->0 }),
                ]
                &&& p.asking is BlockHeaders && p.asking_hash is None ==> todo.len() == 0
                &&& p.asking is SnapshotData && p.asking_snapshot_data is None ==> todo.len() == 0
                &&& p.asking is Nothing || p.asking is ForkHeader || p.asking is SnapshotBitfield
                    || p.asking is SnapshotManifest ==> todo.len() == 0
            }
        }),
{
}

// Pauses.

/// A look at a sync that a full queue has paused goes on with blocks exactly where there is room
/// again.
pub proof fn look_at_a_full_queue(sync: SyncModel, env: Surroundings)
    requires
        sync.state is Waiting,
    ensures
        env.queue_full ==> sync.check_resume(env).0 == sync && sync.check_resume(env).1.len() == 0,
        !env.queue_full ==> sync.check_resume(env).0 == (SyncModel {
            state: SyncState::Blocks,
            ..sync
        }) && sync.check_resume(env).1 =~= seq![Task::ContinueSync],
{
}

/// A look at a sync that waits for the snapshot service goes on with snapshot data exactly where
/// the service is ready, whatever the restoration; the chunks that the service resumed are taken
/// over first.
pub proof fn look_at_the_snapshot_service(sync: SyncModel, env: Surroundings)
    ensures
        env.service.restoration_ready ==> sync.check_snapshot_service(env).0 == (SyncModel {
            state: SyncState::SnapshotData,
            ..sync
        }) && sync.check_snapshot_service(env).1 =~= seq![Task::Perform(Command::SyncSnapshot)],
        !env.service.restoration_ready ==> sync.check_snapshot_service(env).0 == sync
            && sync.check_snapshot_service(env).1.len() == 0,
        sync.state is SnapshotInit ==> sync.check_resume(env) == sync.check_snapshot_service(env),
{
}

/// A look at a sync that waits for a restoration restarts it once the restoration is over, gives
/// the snapshot up where it failed, and fetches chunks again where some are missing and the
/// restoration does not lag.
pub proof fn look_at_a_restoration(sync: SyncModel, env: Surroundings)
    requires
        sync.state is SnapshotWaiting,
    ensures
        ({
            let (post, todo) = sync.check_resume(env);
            &&& env.service.status is Inactive ==> post == sync.retargeted(env.chain).reset(
                env.chain,
            ) && todo == sync.restart_orders(env.chain)
            &&& env.service.status is Failed ==> post == (SyncModel {
                state: SyncState::WaitingPeers,
                ..sync
            }) && todo =~= seq![Task::Perform(Command::ClearSnapshot), Task::ContinueSync]
            &&& env.service.status is Ongoing && !env.snapshot.is_complete && !restoration_lags(env)
                ==> post == (SyncModel { state: SyncState::SnapshotData, ..sync }) && todo
                =~= seq![Task::ContinueSync]
            &&& env.service.status is Ongoing && (env.snapshot.is_complete || restoration_lags(env))
                ==> post == sync && todo.len() == 0
        }),
{
}

/// A sync that is not paused has nothing to resume.
pub proof fn look_at_a_sync_that_is_not_paused(sync: SyncModel, env: Surroundings)
    requires
        !(sync.state is Waiting || sync.state is SnapshotWaiting || sync.state is SnapshotInit),
    ensures
        sync.check_resume(env).0 == sync,
        sync.check_resume(env).1.len() == 0,
{
}

// Peers that do not answer.

/// A connected peer is disconnected exactly where what was asked of it is overdue, whatever its
/// other fields. All disconnections come first, each peer's once; the losses of the same peers are
/// handled in the same order; and handshakes are looked at last.
#[verifier::rlimit(30)]
pub proof fn overdue_peers_are_disconnected(
    sync: SyncModel,
    now: Timestamp,
    todo: Seq<JobModel>,
    id: PeerId,
)
    requires
        sync.maintains_with(now, todo),
    ensures
        todo.contains(Task::Perform(Command::DisconnectPeer { peer_id: id }))
            <==> sync.peers.contains_key(id) && overdue(sync.peers[id], now),
        todo.len() % 2 == 1,
        todo.last() == (Task::CheckHandshakes::<OrderModel> { tick: now }),
        forall|i: int|
            0 <= i < todo.len() / 2 ==> (#[trigger] todo[i] matches Task::Perform(
                Command::DisconnectPeer { peer_id },
            ) && todo[todo.len() / 2 + i] == Task::<OrderModel>::Perform(
                Command::AbortPeer { peer_id },
            )),
        forall|i: int, j: int|
            0 <= i < j < todo.len() / 2 ==> #[trigger] todo[i] != #[trigger] todo[j],
{
    let ids = choose|ids: Seq<PeerId>|
        lists(ids, sync.timed_out_peers(now)) && #[trigger] timeout_plan(ids, now) == todo;
    let n = ids.len() as int;
    assert(todo.len() == 2 * n + 1);
    overdue_requests_time_out(sync.peers[id], now);
    assert(ids.contains(id) <==> ids.to_set().contains(id));
    assert forall|i: int| 0 <= i < n implies #[trigger] todo[i] == Task::<OrderModel>::Perform(
        Command::DisconnectPeer { peer_id: ids[i] },
    ) by {}
    assert forall|i: int| n <= i < 2 * n implies #[trigger] todo[i] == Task::<OrderModel>::Perform(
        Command::AbortPeer { peer_id: ids[i - n] },
    ) by {}
    if ids.contains(id) {
        let i = choose|i: int| 0 <= i < ids.len() && ids[i] == id;
        assert(todo[i] == Task::<OrderModel>::Perform(Command::DisconnectPeer { peer_id: id }));
    }
    if todo.contains(Task::Perform(Command::DisconnectPeer { peer_id: id })) {
        let i = choose|i: int|
            0 <= i < todo.len() && todo[i] == Task::<OrderModel>::Perform(
                Command::DisconnectPeer { peer_id: id },
            );
        assert(i < n);
        assert(ids[i] == id);
    }
    assert forall|i: int| 0 <= i < n implies (#[trigger] todo[i] matches Task::Perform(
        Command::DisconnectPeer { peer_id },
    ) && todo[n + i] == Task::<OrderModel>::Perform(Command::AbortPeer { peer_id })) by {
        assert(todo[n + i] == Task::<OrderModel>::Perform(
            Command::AbortPeer { peer_id: ids[n + i - n] },
        ));
    }
    assert forall|i: int, j: int| 0 <= i < j < n implies #[trigger] todo[i]
        != #[trigger] todo[j] by {
        assert(ids[i] != ids[j]);
    }
}

/// A peer is disconnected for want of a status message exactly where more than five seconds have
/// passed since it was asked for, and nothing else is done.
#[verifier::rlimit(30)]
pub proof fn late_handshakes_are_dropped(
    sync: SyncModel,
    tick: Timestamp,
    todo: Seq<JobModel>,
    id: PeerId,
)
    requires
        sync.checks_handshakes_with(tick, todo),
    ensures
        todo.contains(Task::Perform(Command::DisconnectPeer { peer_id: id }))
            <==> sync.handshaking_peers.contains_key(id) && tick > sync.handshaking_peers[id]
            + 5_000_000_000,
        forall|i: int|
            0 <= i < todo.len() ==> (#[trigger] todo[i] matches Task::Perform(
                Command::DisconnectPeer { .. },
            )),
        forall|i: int, j: int|
            0 <= i < j < todo.len() ==> #[trigger] todo[i] != #[trigger] todo[j],
{
    let ids = choose|ids: Seq<PeerId>|
        lists(ids, sync.late_handshakes(tick)) && #[trigger] disconnect_plan(ids) == todo;
    assert(ids.contains(id) <==> ids.to_set().contains(id));
    assert forall|i: int| 0 <= i < todo.len() implies #[trigger] todo[i] == Task::<
        OrderModel,
    >::Perform(Command::DisconnectPeer { peer_id: ids[i] }) by {}
    if ids.contains(id) {
        let i = choose|i: int| 0 <= i < ids.len() && ids[i] == id;
        assert(todo[i] == Task::<OrderModel>::Perform(Command::DisconnectPeer { peer_id: id }));
    }
    if todo.contains(Task::Perform(Command::DisconnectPeer { peer_id: id })) {
        let i = choose|i: int|
            0 <= i < todo.len() && todo[i] == Task::<OrderModel>::Perform(
                Command::DisconnectPeer { peer_id: id },
            );
        assert(ids[i] == id);
    }
    assert forall|i: int, j: int| 0 <= i < j < todo.len() implies #[trigger] todo[i]
        != #[trigger] todo[j] by {
        assert(ids[i] != ids[j]);
    }
}

} // verus!
