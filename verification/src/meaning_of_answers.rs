//! What the answers of the library's questions mean to those who ask them.

use vstd::prelude::*;
use crate::agenda::{Command, Job, OrderModel, Task};
use crate::meaning::overdue;
use crate::peer::{PeerAsking, PeerInfo, PeerModel};
use crate::primitives::{
    BlockChainInfo, BlockQueueInfo, PeerId, SyncConfig, Timestamp, WarpSync, H256, U256,
};
use crate::status::{SyncState, SyncStatus};
use crate::sync::{ChainSync, EthProtocolInfo, Surroundings, SyncModel};

verus! {

/// Who takes part in the sync, and who has timed out, is told by the fields of a peer.
pub proof fn answers_about_a_peer(p: PeerInfo, now: Timestamp, r: bool)
    ensures
        call_ensures(PeerInfo::can_sync, (&p,), r) ==> (r <==> p.confirmation is Confirmed
            && !p.expired),
        call_ensures(PeerInfo::is_allowed, (&p,), r) ==> (r <==> p.confirmation is Confirmed
            && !p.expired),
        call_ensures(PeerInfo::has_timed_out, (&p, now), r) ==> (r <==> overdue(p@, now)),
{
}

/// A peer whose bitfield is unknown counts as having every chunk; one whose bitfield is known has
/// the chunks whose bits are set, and none past its end.
pub proof fn answers_about_a_chunk(p: PeerInfo, index: usize, r: bool)
    requires
        call_ensures(PeerInfo::chunk_index_available, (&p, index), r),
    ensures
        p.snapshot_bitfield is None ==> r,
        p.snapshot_bitfield matches Some(bitfield) ==> {
            &&& index as int / 8 >= bitfield@.len() ==> !r
            &&& index as int / 8 < bitfield@.len() && index % 8 == 0 ==> (r <==> (
            bitfield@[index as int / 8] / 128) % 2 == 1)
            &&& index as int / 8 < bitfield@.len() && index % 8 == 7 ==> (r <==> bitfield@[
                index as int / 8
            ] % 2 == 1)
        },
{
    if let Some(bitfield) = p.snapshot_bitfield {
        if (index as int) / 8 < bitfield@.len() {
            crate::meaning::bits_tell_chunks_from_the_heaviest_on(bitfield@, index as int / 8, 128);
            crate::meaning::bits_tell_chunks_from_the_heaviest_on(bitfield@, index as int / 8, 1);
        }
    }
}

/// Only peers that speak the fourth version tell which chunks they have.
pub proof fn answers_about_a_version(version: u8, r: bool)
    requires
        call_ensures(PeerInfo::supports_partial_snapshots, (version,), r),
    ensures
        r <==> version == 4,
{
}

/// What a status says of the sync.
pub proof fn answers_about_a_status(
    status: SyncStatus,
    queue: BlockQueueInfo,
    low: u32,
    high: u32,
    syncing: bool,
    snapshot: bool,
    shown: u32,
)
    ensures
        call_ensures(SyncStatus::is_snapshot_syncing, (&status,), snapshot) ==> (snapshot <==> {
            ||| status.state == SyncState::SnapshotManifest
            ||| status.state == SyncState::SnapshotInit
            ||| status.state == SyncState::SnapshotData
            ||| status.state == SyncState::SnapshotWaiting
        }),
        call_ensures(SyncStatus::is_syncing, (&status, queue), syncing) ==> (!syncing
            <==> queue.unverified_queue_size + queue.verified_queue_size <= 3 && (status.state
            == SyncState::Idle || status.state == SyncState::NewBlocks)),
        call_ensures(SyncStatus::current_max_peers, (&status, low, high), shown)
            && status.num_peers <= 0xffff_ffff ==> shown == if status.num_peers > low {
            high
        } else {
            low
        },
{
}

/// Who lags behind, takes consensus messages or private transactions, is told by the fields of the
/// connected peers.
pub proof fn answers_about_the_peers(
    sync: ChainSync,
    chain: BlockChainInfo,
    id: PeerId,
    ids: Vec<PeerId>,
)
    ensures
        call_ensures(ChainSync::get_lagging_peers, (&sync, &chain), ids) ==> ids@.no_duplicates()
            && (ids@.contains(id) <==> sync.peers@.contains_key(id) && sync.peers@[id].latest_hash
            != chain.best_block_hash),
        call_ensures(ChainSync::get_consensus_peers, (&sync,), ids) ==> ids@.no_duplicates() && (
        ids@.contains(id) <==> sync.peers@.contains_key(id) && sync.peers@[id].protocol_version
            >= 2),
        call_ensures(ChainSync::get_private_transaction_peers, (&sync,), ids)
            ==> ids@.no_duplicates() && (ids@.contains(id) <==> sync.peers@.contains_key(id)
            && sync.peers@[id].protocol_version >= 3),
{
    assert(ids@.contains(id) <==> ids@.to_set().contains(id));
    assert(sync@.peers.contains_key(id) <==> sync.peers@.contains_key(id));
}

/// What is told of a peer connection is what the peer's record holds.
pub proof fn answers_about_a_connection(sync: ChainSync, id: PeerId, r: Option<EthProtocolInfo>)
    requires
        call_ensures(ChainSync::peer_info, (&sync, &id), r),
    ensures
        r is Some <==> sync.peers@.contains_key(id),
        r matches Some(info) ==> info.version == sync.peers@[id].protocol_version
            && info.difficulty == sync.peers@[id].difficulty && info.head
            == sync.peers@[id].latest_hash,
{
    assert(sync@.peers.contains_key(id) <==> sync.peers@.contains_key(id));
}

/// What warp sync allows, and which difficulty is greater.
pub proof fn answers_about_values(warp_sync: WarpSync, a: U256, b: U256, r: bool, zero: H256)
    ensures
        call_ensures(WarpSync::is_enabled, (&warp_sync,), r) ==> (r <==> warp_sync is Enabled
            || warp_sync is OnlyAndAfter),
        call_ensures(WarpSync::is_warp_only, (&warp_sync,), r) ==> (r
            <==> warp_sync is OnlyAndAfter),
        call_ensures(U256::exceeds, (&a, &b), r) ==> (r <==> {
            ||| a.0[3] > b.0[3]
            ||| a.0[3] == b.0[3] && a.0[2] > b.0[2]
            ||| a.0[3] == b.0[3] && a.0[2] == b.0[2] && a.0[1] > b.0[1]
            ||| a.0[3] == b.0[3] && a.0[2] == b.0[2] && a.0[1] == b.0[1] && a.0[0] > b.0[0]
        }),
        call_ensures(H256::zero, (), zero) ==> forall|i: int| 0 <= i < 32 ==> zero.0@[i] == 0,
{
    crate::meaning::difficulties_are_ordered_by_limbs(a, b);
}

/// A new handler has no peers and no handshakes, starts from our best block, and takes everything
/// else from its configuration. A new peer's record holds nothing but the time.
pub proof fn answers_about_beginnings(
    config: SyncConfig,
    chain: BlockChainInfo,
    r: (ChainSync, Vec<Job>),
    now: Timestamp,
    p: PeerInfo,
    id: PeerId,
)
    ensures
        call_ensures(ChainSync::new, (config, &chain), r) ==> {
            &&& !r.0@.peers.contains_key(id)
            &&& !r.0@.active_peers.contains(id)
            &&& !r.0@.handshaking_peers.contains_key(id)
            &&& r.0.state == match config.warp_sync {
                WarpSync::Enabled => SyncState::WaitingPeers,
                WarpSync::Disabled => SyncState::Idle,
                WarpSync::OnlyAndAfter(barrier) => if barrier > chain.best_block_number {
                    SyncState::WaitingPeers
                } else {
                    SyncState::Idle
                },
            }
            &&& r.0.starting_block == chain.best_block_number
            &&& r.0.new_blocks.start_number == chain.best_block_number
            &&& r.0.new_blocks.start_hash == chain.best_block_hash
            &&& r.0.highest_block is None
            &&& r.0.sync_start_time is None
            &&& r.0.last_sent_block_number == 0
            &&& r.0.network_id == config.network_id
            &&& r.0.fork_block == config.fork_block
            &&& r.0.download_old_blocks == config.download_old_blocks
            &&& r.0.warp_sync == config.warp_sync
            &&& r.0.old_blocks is Some <==> config.download_old_blocks
                && chain.ancient_block_hash is Some && chain.ancient_block_number is Some
            &&& r.1@.len() == if r.0.old_blocks is Some {
                3int
            } else {
                2
            }
        },
        call_ensures(PeerInfo::default, (now,), p) ==> p.asking is Nothing
            && p.confirmation is Unconfirmed && !p.expired && p.difficulty is None && p.ask_time
            == now && p.ask_bitfield_time == now && p.protocol_version == 0 && p.network_id == 0
            && p.asking_blocks@.len() == 0 && p.asking_hash is None
            && p.asking_snapshot_data is None && p.snapshot_bitfield is None
            && p.snapshot_hash is None && p.snapshot_number is None && p.block_set is None
            && !p.last_sent_transactions@.contains(H256(p.latest_hash.0)),
{
    if call_ensures(ChainSync::new, (config, &chain), r) {
        assert(crate::agenda::plan(r.1@).len() == r.1@.len());
    }
}

/// A bad block among new ones leads to a restart, and nothing else does; own blocks are handed on
/// as they came.
pub proof fn answers_to_imported_blocks(
    sync: ChainSync,
    queue: BlockQueueInfo,
    imported: &[H256],
    invalid: &[H256],
    enacted: &[H256],
    retracted: &[H256],
    sealed: Vec<H256>,
    proposed: Vec<Vec<u8>>,
    jobs: Vec<Job>,
)
    requires
        call_ensures(
            ChainSync::chain_new_blocks,
            (&sync, queue, imported, invalid, enacted, retracted, sealed, proposed),
            jobs,
        ),
    ensures
        ({
            let settled = queue.unverified_queue_size + queue.verified_queue_size <= 3 && (
            sync.state == SyncState::Idle || sync.state == SyncState::NewBlocks);
            let told = settled || sealed@.len() > 0 || proposed@.len() > 0;
            let again = settled && enacted@.len() > 0;
            let first: int = if told { 2 } else { 0 };
            let second: int = if invalid@.len() > 0 { 1 } else { 0 };
            let third: int = if again { 1 } else { 0 };
            &&& jobs@.len() == first + second + third
            &&& told ==> (jobs@[0] matches Task::Perform(Command::PropagateLatestBlocks {
                sealed: s,
            }) && s@ == sealed@) && (jobs@[1] matches Task::Perform(
                Command::PropagateProposedBlocks { proposed: p },
            ) && p@ == proposed@)
            &&& invalid@.len() > 0 ==> jobs@[first] is Restart
            &&& again ==> jobs@[first + second] is Rebroadcast
        }),
{
    crate::meaning_of_warp::answers_to_new_blocks(
        sync@,
        queue.unverified_queue_size + queue.verified_queue_size,
        invalid@.len() > 0,
        enacted@.len() > 0,
        sealed@,
        proposed@,
    );
    let told = crate::agenda::plan(jobs@);
    assert(told.len() == jobs@.len());
    assert forall|i: int| 0 <= i < jobs@.len() implies told[i] == (#[trigger] jobs@[i])@ by {}
}

/// Maintenance looks for snapshots first and resumes a paused sync last.
pub proof fn answers_to_maintenance(sync: ChainSync, env: Surroundings, jobs: Vec<Job>)
    requires
        call_ensures(ChainSync::maintain_sync, (&sync, &env), jobs),
    ensures
        ({
            let wanted = !(sync.warp_sync is Disabled) && env.service.supported;
            let open = sync.state is WaitingPeers || sync.state is Blocks || sync.state is Waiting;
            &&& jobs@.last() is CheckResume
            &&& wanted && open ==> jobs@.len() == 2 && jobs@[0] is ChooseSnapshot
            &&& wanted && sync.state is SnapshotData ==> jobs@.len() == 3
                && jobs@[0] is ContinueSync && jobs@[1] is ChooseSnapshot
            &&& !wanted || !(open || sync.state is SnapshotData) ==> jobs@.len() == 1
        }),
{
    crate::meaning_of_warp::look_for_snapshots(sync@, env);
    let told = crate::agenda::plan(jobs@);
    assert(told.len() == jobs@.len());
    assert forall|i: int| 0 <= i < jobs@.len() implies told[i] == (#[trigger] jobs@[i])@ by {}
    assert(told.last() is CheckResume);
    assert(jobs@.len() >= 2 ==> told[0] == jobs@[0]@);
    assert(jobs@.len() >= 3 ==> told[1] == jobs@[1]@);
}

/// An answer is expected exactly where its peer is connected and was asked for it. The peer is idle
/// afterwards, with nothing expired; its other fields, other peers and the handler stay.
pub proof fn answers_to_a_reply(id: PeerId, asking: PeerAsking, r: bool, other: PeerId)
    ensures
        forall|s: &mut ChainSync| #[trigger]
            call_ensures(ChainSync::reset_peer_asking, (s, id, asking), r) ==> {
                let before = (*s)@;
                let after = (*final(s))@;
                &&& r <==> before.peers.contains_key(id) && before.peers[id].asking == asking
                &&& !before.peers.contains_key(id) ==> after == before
                &&& after.peers.contains_key(other) <==> before.peers.contains_key(other)
                &&& before.peers.contains_key(other) && other != id ==> after.peers[other]
                    == before.peers[other]
                &&& before.peers.contains_key(id) ==> after.peers[id] == (PeerModel {
                    asking: PeerAsking::Nothing,
                    expired: false,
                    block_set: None,
                    ..before.peers[id]
                })
                &&& after == (SyncModel { peers: after.peers, ..before })
            },
{
}

/// Transactions that a peer sent are known to be there, along with those known before. What was
/// sent to a peer can be forgotten. Both concern that peer alone.
pub proof fn answers_to_transactions(txs: &[H256], id: PeerId, other: PeerId, tx: H256)
    ensures
        forall|s: &mut ChainSync| #[trigger]
            call_ensures(ChainSync::transactions_received, (s, txs, id), ()) ==> {
                let before = (*s)@;
                let after = (*final(s))@;
                &&& before.peers.contains_key(id) ==> (
                after.peers[id].last_sent_transactions.contains(tx)
                    <==> before.peers[id].last_sent_transactions.contains(tx) || txs@.contains(tx))
                &&& !before.peers.contains_key(id) ==> after == before
                &&& after.peers.contains_key(other) <==> before.peers.contains_key(other)
                &&& before.peers.contains_key(other) && other != id ==> after.peers[other]
                    == before.peers[other]
                &&& after == (SyncModel { peers: after.peers, ..before })
            },
        forall|s: &mut ChainSync| #[trigger]
            call_ensures(ChainSync::forget_sent_transactions, (s, id), ()) ==> {
                let before = (*s)@;
                let after = (*final(s))@;
                &&& before.peers.contains_key(id)
                    ==> !after.peers[id].last_sent_transactions.contains(tx)
                &&& !before.peers.contains_key(id) ==> after == before
                &&& after.peers.contains_key(other) <==> before.peers.contains_key(other)
                &&& before.peers.contains_key(other) && other != id ==> after.peers[other]
                    == before.peers[other]
                &&& after == (SyncModel { peers: after.peers, ..before })
            },
{
    assert(txs@.to_set().contains(tx) <==> txs@.contains(tx));
}

/// Pausing, waiting for a manifest, noting a request, deactivating a peer and forgetting all peers
/// change one thing each.
pub proof fn answers_to_small_changes(id: PeerId, other: PeerId)
    ensures
        forall|s: &mut ChainSync| #[trigger]
            call_ensures(ChainSync::pause_sync, (s,), ()) ==> (*final(s))@ == (SyncModel {
                state: SyncState::Waiting,
                ..(*s)@
            }),
        forall|s: &mut ChainSync| #[trigger]
            call_ensures(ChainSync::await_manifest, (s,), ()) ==> (*final(s))@ == (SyncModel {
                state: SyncState::SnapshotManifest,
                ..(*s)@
            }),
        forall|s: &mut ChainSync| #[trigger]
            call_ensures(ChainSync::new_blocks_requested, (s,), ()) ==> (*final(s))@ == (
            SyncModel {
                state: if (*s)@.state is Idle {
                    SyncState::Blocks
                } else {
                    (*s)@.state
                },
                ..(*s)@
            }),
        forall|s: &mut ChainSync| #[trigger]
            call_ensures(ChainSync::deactivate_peer, (s, id), ()) ==> {
                let before = (*s)@;
                let after = (*final(s))@;
                &&& after.active_peers.contains(other) <==> before.active_peers.contains(other)
                    && other != id
                &&& after == (SyncModel { active_peers: after.active_peers, ..before })
            },
        forall|s: &mut ChainSync| #[trigger]
            call_ensures(ChainSync::forget_peers, (s,), ()) ==> {
                let before = (*s)@;
                let after = (*final(s))@;
                &&& !after.peers.contains_key(id)
                &&& after == (SyncModel { peers: after.peers, ..before })
            },
{
}

/// Resetting, restarting and aborting leave the handler reset, and a restart has it start from our
/// best block.
pub proof fn answers_to_resets(chain: BlockChainInfo, id: PeerId, jobs: Vec<Job>)
    ensures
        forall|s: &mut ChainSync| #[trigger]
            call_ensures(ChainSync::reset, (s, &chain), jobs) ==> (*final(s))@ == (*s)@.reset(chain)
                && jobs@.len() == 1 && jobs@[0]@ == Task::<OrderModel>::Perform(
                Command::ResetNewBlocks,
            ),
        forall|s: &mut ChainSync| #[trigger]
            call_ensures(ChainSync::reset_and_continue, (s, &chain), jobs) ==> (*final(s))@
                == (*s)@.reset(chain) && jobs@.last()@ is ContinueSync,
        forall|s: &mut ChainSync| #[trigger]
            call_ensures(ChainSync::abort, (s, &chain), jobs) ==> (*final(s))@ == (*s)@.reset(chain)
                && jobs@.last()@ is ForgetPeers,
        forall|s: &mut ChainSync| #[trigger]
            call_ensures(ChainSync::restart, (s, &chain), jobs) ==> {
                let after = (*final(s))@;
                &&& after.new_blocks.start_hash == chain.best_block_hash
                &&& after.new_blocks.start_number == chain.best_block_number
                &&& after.active_peers.contains(id) <==> (*s)@.peers.contains_key(id)
                &&& jobs@.last()@ is ContinueSync
            },
{
    let told = crate::agenda::plan(jobs@);
    assert(told.len() == jobs@.len());
    assert(jobs@.len() > 0 ==> told.last() == jobs@.last()@);
    assert(jobs@.len() > 0 ==> told[0] == jobs@[0]@);
}

/// Forgetting what was asked of a peer lets a request under way expire where the peer takes part in
/// the sync, and changes nothing but that and what was asked for.
pub proof fn answers_to_forgetting_a_request()
    ensures
        forall|p: &mut PeerInfo| #[trigger]
            call_ensures(PeerInfo::reset_asking, (p,), ()) ==> {
                let before = (*p)@;
                let after = (*final(p))@;
                &&& after.asking_blocks.len() == 0
                &&& after.asking_hash is None
                &&& after.expired <==> before.expired || (!(before.asking is Nothing)
                    && before.confirmation is Confirmed)
                &&& after == (PeerModel {
                    asking_blocks: after.asking_blocks,
                    asking_hash: after.asking_hash,
                    expired: after.expired,
                    ..before
                })
            },
{
}

} // verus!
