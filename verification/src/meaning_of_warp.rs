//! What the operations on snapshots and new blocks are for, stated on the fields of peers, handler
//! and surroundings and in plain numbers.

use vstd::prelude::*;
use crate::agenda::{Command, JobModel, OrderModel, Task};
use crate::meaning::in_sync;
use crate::peer::PeerModel;
use crate::peers::{lemma_lists_len, lists};
use crate::primitives::{BlockNumber, PeerId, WarpSync, H256};
use crate::protocol::SNAPSHOT_MIN_PEERS;
use crate::status::SyncState;
use crate::sync::{Surroundings, SyncModel};
use crate::warp::manifest_plan;

verus! {

/// A look at whether a snapshot sync should start leads nowhere where warp sync is disabled or the
/// service supports no snapshots. Otherwise, enabled or the only one allowed alike, it leads to a
/// choice while the sync waits for peers, downloads blocks or is paused by a full queue; while
/// snapshot data is downloaded it resumes downloading first; in all other states it leads nowhere.
pub proof fn look_for_snapshots(sync: SyncModel, env: Surroundings)
    ensures
        ({
            let todo = sync.maybe_start_orders(env);
            let wanted = sync.warp_sync is Enabled || sync.warp_sync is OnlyAndAfter;
            let open = sync.state is WaitingPeers || sync.state is Blocks || sync.state is Waiting;
            &&& wanted && env.service.supported && open ==> todo =~= seq![Task::ChooseSnapshot]
            &&& wanted && env.service.supported && sync.state is SnapshotData ==> todo =~= seq![
                Task::ContinueSync,
                Task::ChooseSnapshot,
            ]
            &&& !wanted || !env.service.supported ==> todo.len() == 0
            &&& !open && !(sync.state is SnapshotData) ==> todo.len() == 0
        }),
{
}

/// A snapshot is worth syncing with where it is more than 30000 blocks above our best block, above
/// the fork block and above the barrier of a warp-only sync, and no more than 30000 blocks below
/// the highest block that is known.
pub proof fn useful_snapshots(sync: SyncModel, best: BlockNumber, number: BlockNumber)
    ensures
        sync.useful_snapshot(best, number) <==> {
            &&& number > best + 30000
            &&& sync.fork_block matches Some(fork) ==> number > fork.0
            &&& sync.warp_sync matches WarpSync::OnlyAndAfter(barrier) ==> number > barrier
            &&& sync.highest_block matches Some(highest) ==> highest <= number + 30000
        },
        sync.fork_number() == if sync.fork_block is Some {
            (sync.fork_block->0).0
        } else {
            0
        },
        sync.warp_barrier() == if sync.warp_sync is OnlyAndAfter {
            sync.warp_sync->OnlyAndAfter_0
        } else {
            0
        },
{
}

/// Whether the peer is connected, takes part in the sync, and offers the snapshot with the given
/// hash, which is not known to be bad and is worth syncing with.
pub open spec fn backs(sync: SyncModel, env: Surroundings, id: PeerId, hash: H256) -> bool {
    let p = sync.peers[id];
    &&& sync.peers.contains_key(id)
    &&& in_sync(p)
    &&& p.snapshot_hash == Some(hash)
    &&& !env.snapshot.known_bad@.contains(hash)
    &&& p.snapshot_number matches Some(number) && {
        &&& number > env.chain.best_block_number + 30000
        &&& sync.fork_block matches Some(fork) ==> number > fork.0
        &&& sync.warp_sync matches WarpSync::OnlyAndAfter(barrier) ==> number > barrier
        &&& sync.highest_block matches Some(highest) ==> highest <= number + 30000
    }
}

/// The peers that back the snapshot with the given hash.
pub open spec fn backers(sync: SyncModel, env: Surroundings, hash: H256) -> Set<PeerId> {
    Set::new(|id: PeerId| backs(sync, env, id, hash))
}

/// Whether the sync has waited for peers for more than five seconds.
pub open spec fn waited(sync: SyncModel, env: Surroundings) -> bool {
    &&& sync.state is WaitingPeers
    &&& sync.sync_start_time matches Some(start) && env.now > start + 5_000_000_000
}

/// The time to wait for peers is five seconds.
pub proof fn peers_are_awaited_for_five_seconds(sync: SyncModel, env: Surroundings)
    ensures
        sync.waited_for_peers(env) <==> waited(sync, env),
{
}

/// The supporters of a snapshot are its backers.
pub proof fn supporters_are_backers(sync: SyncModel, env: Surroundings, id: PeerId, hash: H256)
    ensures
        sync.peers.contains_key(id) && sync.offers(env, sync.peers[id], hash) <==> backs(
            sync,
            env,
            id,
            hash,
        ),
        sync.supporters(env, hash) == backers(sync, env, hash),
{
    assert forall|other: PeerId|
        sync.peers.contains_key(other) && sync.offers(env, sync.peers[other], hash)
            <==> #[trigger] backs(sync, env, other, hash) by {
        if let Some(number) = sync.peers[other].snapshot_number {
            useful_snapshots(sync, env.chain.best_block_number, number);
        }
    }
    assert(sync.supporters(env, hash) =~= backers(sync, env, hash));
}

/// Whether no snapshot has more backers.
pub open spec fn most_backed(sync: SyncModel, env: Surroundings, hash: H256) -> bool {
    forall|other: H256|
        (#[trigger] backers(sync, env, other)).len() <= backers(sync, env, hash).len()
}

/// Whether `post` and `todo` are what comes of settling on the snapshot with the given hash: with
/// three backers or after waiting it is taken, otherwise nothing happens. Taking it resumes the
/// download where the manifest is there. Where it is not, exactly the backers are asked for it,
/// each once, after which it is awaited.
pub open spec fn settles_on(
    sync: SyncModel,
    env: Surroundings,
    hash: H256,
    post: SyncModel,
    todo: Seq<JobModel>,
) -> bool {
    let n = backers(sync, env, hash).len();
    let taken = n >= 3 || waited(sync, env);
    &&& n > 0
    &&& most_backed(sync, env, hash)
    &&& !taken ==> post == sync && todo.len() == 0
    &&& taken && env.snapshot.have_manifest ==> todo.len() == 0 && post == (SyncModel {
        state: SyncState::SnapshotData,
        ..sync
    })
    &&& taken && !env.snapshot.have_manifest ==> {
        &&& post == sync
        &&& todo.len() == n + 1
        &&& todo.last() is AwaitManifest
        &&& forall|i: int|
            0 <= i < n ==> (#[trigger] todo[i] matches Task::RequestManifest { peer_id } && backs(
                sync,
                env,
                peer_id,
                hash,
            ))
        &&& forall|i: int, j: int| 0 <= i < j < n ==> #[trigger] todo[i] != #[trigger] todo[j]
    }
}

/// The choice among snapshots settles on one with most backers, if any snapshot has one. Where
/// none has, and the sync has waited for peers, it turns to a full sync unless only warp sync is
/// allowed; otherwise nothing happens.
pub proof fn choice_among_snapshots(
    sync: SyncModel,
    env: Surroundings,
    post: SyncModel,
    todo: Seq<JobModel>,
)
    requires
        sync.chooses_snapshot(env, post, todo),
    ensures
        (exists|id: PeerId, hash: H256| #[trigger] backs(sync, env, id, hash)) ==> exists|
            hash: H256,
        | #[trigger]
            settles_on(sync, env, hash, post, todo),
        !(exists|id: PeerId, hash: H256| #[trigger] backs(sync, env, id, hash)) ==> {
            let full = waited(sync, env) && !(sync.warp_sync is OnlyAndAfter);
            &&& full ==> todo =~= seq![Task::ContinueSync] && post == (SyncModel {
                state: SyncState::Idle,
                ..sync
            })
            &&& !full ==> post == sync && todo.len() == 0
        },
{
    assert forall|id: PeerId, hash: H256|
        sync.peers.contains_key(id) && #[trigger] sync.offers(
            env,
            sync.peers[id],
            hash,
        ) implies backs(sync, env, id, hash) by {
        supporters_are_backers(sync, env, id, hash);
    }
    peers_are_awaited_for_five_seconds(sync, env);
    if exists|id: PeerId, hash: H256| #[trigger] backs(sync, env, id, hash) {
        let (id, hash) = choose|id: PeerId, hash: H256| #[trigger] backs(sync, env, id, hash);
        supporters_are_backers(sync, env, id, hash);
        assert(sync.offers(env, sync.peers[id], hash));
        assert(sync.any_offer(env));
    }
    if sync.any_offer(env) {
        let (hash, peers) = choose|hash: H256, peers: Seq<PeerId>|
            {
                &&& sync.best_supported(env, hash)
                &&& #[trigger] lists(peers, #[trigger] sync.supporters(env, hash))
                &&& peers.len() > 0
                &&& (post, todo) == if peers.len() >= SNAPSHOT_MIN_PEERS || sync.waited_for_peers(
                    env,
                ) {
                    sync.start_snapshot_sync(env.snapshot.have_manifest, peers)
                } else {
                    (sync, seq![])
                }
            };
        lemma_lists_len(peers, sync.supporters(env, hash));
        supporters_are_backers(sync, env, 0, hash);
        assert forall|other: H256|
            (#[trigger] backers(sync, env, other)).len() <= backers(sync, env, hash).len() by {
            supporters_are_backers(sync, env, 0, other);
            assert(sync.supporters(env, other).len() <= sync.supporters(env, hash).len());
        }
        let n = peers.len();
        start_of_a_snapshot_sync(sync, env.snapshot.have_manifest, peers);
        if !env.snapshot.have_manifest && (n >= 3 || waited(sync, env)) {
            assert(todo == manifest_plan(peers));
            assert forall|i: int| 0 <= i < n implies (
            #[trigger] todo[i] matches Task::RequestManifest { peer_id } && backs(
                sync,
                env,
                peer_id,
                hash,
            )) by {
                assert(peers.to_set().contains(peers[i]));
                assert(backers(sync, env, hash).contains(peers[i]));
            }
            assert forall|i: int, j: int| 0 <= i < j < n implies #[trigger] todo[i]
                != #[trigger] todo[j] by {
                assert(peers[i] != peers[j]);
            }
        }
        assert(settles_on(sync, env, hash, post, todo));
    }
}

/// The start of a snapshot sync resumes the download where the manifest is there. Where it is not,
/// the peers are asked for it in order, after which it is awaited.
pub proof fn start_of_a_snapshot_sync(sync: SyncModel, have_manifest: bool, peers: Seq<PeerId>)
    ensures
        ({
            let (post, todo) = sync.start_snapshot_sync(have_manifest, peers);
            &&& have_manifest ==> todo.len() == 0 && post == (SyncModel {
                state: SyncState::SnapshotData,
                ..sync
            })
            &&& !have_manifest ==> {
                &&& post == sync
                &&& todo.len() == peers.len() + 1
                &&& forall|i: int|
                    0 <= i < peers.len() ==> #[trigger] todo[i] == (Task::RequestManifest::<
                        OrderModel,
                    > { peer_id: peers[i] })
                &&& todo.last() is AwaitManifest
            }
        }),
{
}

/// A manifest is requested from a peer exactly where it is connected and idle.
pub proof fn manifests_are_asked_of_idle_peers(sync: SyncModel, id: PeerId)
    ensures
        sync.peers.contains_key(id) && sync.peers[id].asking is Nothing
            ==> sync.request_manifest_orders(id) =~= seq![
            Task::Perform(Command::RequestSnapshotManifest { peer_id: id }),
        ],
        !sync.peers.contains_key(id) || !(sync.peers[id].asking is Nothing)
            ==> sync.request_manifest_orders(id).len() == 0,
{
}

/// New blocks in the chain: they are propagated where the sync is no major one or some were sealed
/// or proposed here; a bad one leads to a restart; and enacted ones lead to a re-broadcast of
/// transactions where the sync is no major one. All of it is done in this order, and nothing else.
pub proof fn answers_to_new_blocks(
    sync: SyncModel,
    queued: int,
    invalid: bool,
    enacted: bool,
    sealed: Seq<H256>,
    proposed: Seq<Vec<u8>>,
)
    ensures
        ({
            let todo = sync.new_blocks_orders(queued, invalid, enacted, sealed, proposed);
            let settled = queued <= 3 && (sync.state is Idle || sync.state is NewBlocks);
            let told = settled || sealed.len() > 0 || proposed.len() > 0;
            let again = settled && enacted;
            let first: int = if told { 2 } else { 0 };
            let second: int = if invalid { 1 } else { 0 };
            let third: int = if again { 1 } else { 0 };
            &&& todo.len() == first + second + third
            &&& told ==> todo[0] == Task::<OrderModel>::Perform(
                Command::PropagateLatestBlocks { sealed },
            ) && todo[1] == Task::<OrderModel>::Perform(
                Command::PropagateProposedBlocks { proposed },
            )
            &&& invalid ==> todo[first] is Restart
            &&& again ==> todo[first + second] is Rebroadcast
        }),
{
}

/// A choice of a peer to re-broadcast to forgets what was sent to one connected peer, and nothing
/// else: every other field of that peer, every other peer and the rest of the handler stay.
pub proof fn one_peer_is_sent_everything_again(sync: SyncModel, post: SyncModel)
    requires
        sync.rebroadcasts_to(post),
    ensures
        (forall|id: PeerId| !sync.peers.contains_key(id)) ==> post == sync,
        (exists|id: PeerId| sync.peers.contains_key(id)) ==> exists|id: PeerId| #[trigger]
            sync.peers.contains_key(id) && post == (SyncModel {
                peers: sync.peers.insert(
                    id,
                    PeerModel { last_sent_transactions: Set::empty(), ..sync.peers[id] },
                ),
                ..sync
            }),
{
    if forall|id: PeerId| !sync.peers.contains_key(id) {
        assert(sync.peers.dom() =~= Set::<PeerId>::empty());
    }
    if exists|id: PeerId| sync.peers.contains_key(id) {
        let id = choose|id: PeerId| sync.peers.contains_key(id);
        assert(sync.peers.dom().contains(id));
        assert(sync.peers.dom() != Set::<PeerId>::empty());
    }
}

} // verus!
