//! What steps and messages are for, stated case by case.

use vstd::prelude::*;
use crate::agenda::{
    plan, Action, Command, Job, JobModel, Order, OrderModel, Reply, Step, Task, Visit,
};
use crate::handshake::{
    manifest_hash, manifest_number, packet, status_fields, status_version, Manifest,
};
use crate::peer::{BlockSet, PeerModel};
use crate::primitives::{BlockChainInfo, BlockNumber, PeerId};
use crate::status::SyncState;
use crate::sync::{Surroundings, SyncModel};
use crate::wire::{big_endian, keccak256, rlp_list, rlp_string};

verus! {

// Steps.

/// A step with nothing to do is the last one. Any other step does the next task, and the tasks
/// that this leads to come before the others.
pub proof fn steps_take_the_next_task<R>(
    sync: SyncModel,
    env: Surroundings,
    jobs: Seq<JobModel>,
    reply: Reply<R>,
    post: SyncModel,
    rest: Seq<JobModel>,
    step: Step<R, OrderModel>,
)
    requires
        sync.advances(env, jobs, reply, post, rest, step),
    ensures
        jobs.len() == 0 ==> post == sync && rest == jobs && step is Finished,
        jobs.len() > 0 ==> exists|todo: Seq<JobModel>| #[trigger]
            sync.does(env, jobs[0], reply, post, todo, step) && rest == todo + jobs.skip(1),
{
    if jobs.len() > 0 {
        assert(jobs.skip(1) =~= jobs.drop_first());
    }
}

/// A task that decides something does what its method does, and asks for no action.
pub proof fn decisions_are_silent<R>(
    sync: SyncModel,
    env: Surroundings,
    job: JobModel,
    reply: Reply<R>,
    post: SyncModel,
    todo: Seq<JobModel>,
    step: Step<R, OrderModel>,
)
    requires
        sync.does(env, job, reply, post, todo, step),
    ensures
        job is ContinueSync ==> post == sync && sync.resumes_with(todo) && step is Silent,
        job matches Task::SyncPeer { peer_id, force } ==> post == sync.sync_peer(
            env,
            peer_id,
            force,
        ).0 && todo == sync.sync_peer(env, peer_id, force).1 && step is Silent,
        job is FinishRound ==> post == sync.finish_round(env.chain).0 && todo == sync.finish_round(
            env.chain,
        ).1 && step is Silent,
        job is MaybeStartSnapshotSync ==> post == sync && todo == sync.maybe_start_orders(env)
            && step is Silent,
        job is ChooseSnapshot ==> sync.chooses_snapshot(env, post, todo) && step is Silent,
        job matches Task::RequestManifest { peer_id } ==> post == sync && todo
            == sync.request_manifest_orders(peer_id) && step is Silent,
        job is AwaitManifest ==> todo.len() == 0 && step is Silent && post == (SyncModel {
            state: SyncState::SnapshotManifest,
            ..sync
        }),
        job is NewBlocksRequested ==> todo.len() == 0 && step is Silent && post == (SyncModel {
            state: if sync.state is Idle {
                SyncState::Blocks
            } else {
                sync.state
            },
            ..sync
        }),
        job is CheckResume ==> post == sync.check_resume(env).0 && todo == sync.check_resume(env).1
            && step is Silent,
        job is Restart ==> post == sync.retargeted(env.chain).reset(env.chain) && todo
            == sync.restart_orders(env.chain) && step is Silent,
        job is ForgetPeers ==> todo.len() == 0 && step is Silent && post == (SyncModel {
            peers: Map::<PeerId, PeerModel>::empty(),
            ..sync
        }),
        job matches Task::CheckHandshakes { tick } ==> post == sync && sync.checks_handshakes_with(
            tick,
            todo,
        ) && step is Silent,
        job is Rebroadcast ==> sync.rebroadcasts_to(post) && todo.len() == 0 && step is Silent,
{
}

/// A command is handed out as it is, and changes nothing by itself.
pub proof fn commands_are_handed_out<R>(
    sync: SyncModel,
    env: Surroundings,
    order: OrderModel,
    reply: Reply<R>,
    post: SyncModel,
    todo: Seq<JobModel>,
    step: Step<R, OrderModel>,
)
    requires
        sync.does(env, Task::Perform(order), reply, post, todo, step),
    ensures
        post == sync,
        todo.len() == 0,
        step == Step::<R, OrderModel>::Act(Action::Perform(order)),
{
}

/// The peer's best block is looked up until it is known whether it is unknown here; then new or old
/// blocks are turned to.
pub proof fn best_block_is_looked_up<R>(
    sync: SyncModel,
    env: Surroundings,
    visit: Visit,
    reply: Reply<R>,
    post: SyncModel,
    todo: Seq<JobModel>,
    step: Step<R, OrderModel>,
)
    requires
        sync.does(env, Task::AskBlockStatus(visit), reply, post, todo, step),
    ensures
        reply matches Reply::BlockStatus { unknown } ==> step is Silent && post
            == sync.with_block_status(visit, unknown).0 && todo == sync.with_block_status(
            visit,
            unknown,
        ).1,
        !(reply is BlockStatus) ==> post == sync && todo =~= seq![Task::AskBlockStatus(visit)]
            && step == Step::<R, OrderModel>::Act(Action::BlockStatus { hash: visit.latest_hash }),
{
}

/// New blocks are looked for until there is a reply. Those that are found are requested from the
/// peer, which is noted next; where none are found, old blocks are turned to.
pub proof fn new_blocks_are_looked_for<R>(
    sync: SyncModel,
    env: Surroundings,
    visit: Visit,
    reply: Reply<R>,
    post: SyncModel,
    todo: Seq<JobModel>,
    step: Step<R, OrderModel>,
)
    requires
        sync.does(env, Task::AskNewBlocks(visit), reply, post, todo, step),
    ensures
        reply matches Reply::Request(Some(request)) ==> post == sync && todo =~= seq![
            Task::NewBlocksRequested,
        ] && step == Step::<R, OrderModel>::Act(
            Action::RequestBlocks {
                peer_id: visit.peer_id,
                request,
                block_set: BlockSet::NewBlocks,
            },
        ),
        (reply matches Reply::Request(None)) ==> step is Silent && post == sync.turn_to_old_blocks(
            visit,
        ).0 && todo == sync.turn_to_old_blocks(visit).1,
        !(reply is Request) ==> post == sync && todo =~= seq![Task::AskNewBlocks(visit)] && step
            == Step::<R, OrderModel>::Act(
            Action::FindBlocks {
                block_set: BlockSet::NewBlocks,
                num_active_peers: visit.num_active_peers,
            },
        ),
{
}

/// Old blocks are looked for until there is a reply. Those that are found are requested from the
/// peer; where none are found, nothing follows.
pub proof fn old_blocks_are_looked_for<R>(
    sync: SyncModel,
    env: Surroundings,
    visit: Visit,
    reply: Reply<R>,
    post: SyncModel,
    todo: Seq<JobModel>,
    step: Step<R, OrderModel>,
)
    requires
        sync.does(env, Task::AskOldBlocks(visit), reply, post, todo, step),
    ensures
        post == sync,
        reply matches Reply::Request(Some(request)) ==> todo.len() == 0 && step == Step::<
            R,
            OrderModel,
        >::Act(
            Action::RequestBlocks {
                peer_id: visit.peer_id,
                request,
                block_set: BlockSet::OldBlocks,
            },
        ),
        (reply matches Reply::Request(None)) ==> todo.len() == 0 && step is Silent,
        !(reply is Request) ==> todo =~= seq![Task::AskOldBlocks(visit)] && step == Step::<
            R,
            OrderModel,
        >::Act(
            Action::FindBlocks {
                block_set: BlockSet::OldBlocks,
                num_active_peers: visit.num_active_peers,
            },
        ),
{
}

// Models of tasks.

/// The model of a command tells its peer, hash, lists and set-up.
pub proof fn model_tells_every_field_of_a_command(order: Order)
    ensures
        order matches Command::StartDownload { block_set, setup } ==> order@
            == (OrderModel::StartDownload { block_set, setup }),
        order is DropOldBlocks ==> order@ is DropOldBlocks,
        order is ResetNewBlocks ==> order@ is ResetNewBlocks,
        order matches Command::ClearHeaderDownload { block_set, hash } ==> order@
            == (OrderModel::ClearHeaderDownload { block_set, hash }),
        order matches Command::ClearBodyDownload { block_set, hashes } ==> order@
            == (OrderModel::ClearBodyDownload { block_set, hashes: hashes@ }),
        order matches Command::ClearReceiptDownload { block_set, hashes } ==> order@
            == (OrderModel::ClearReceiptDownload { block_set, hashes: hashes@ }),
        order matches Command::ClearChunkDownload { hash } ==> order@
            == (OrderModel::ClearChunkDownload { hash }),
        order is AbortRestore ==> order@ is AbortRestore,
        order is ClearSnapshot ==> order@ is ClearSnapshot,
        order is SyncSnapshot ==> order@ is SyncSnapshot,
        order matches Command::RequestSnapshotManifest { peer_id } ==> order@
            == (OrderModel::RequestSnapshotManifest { peer_id }),
        order matches Command::RequestSnapshotBitfield { peer_id } ==> order@
            == (OrderModel::RequestSnapshotBitfield { peer_id }),
        order matches Command::RequestSnapshotData { peer_id } ==> order@
            == (OrderModel::RequestSnapshotData { peer_id }),
        order matches Command::DisconnectPeer { peer_id } ==> order@
            == (OrderModel::DisconnectPeer {
            peer_id,
        }),
        order matches Command::AbortPeer { peer_id } ==> order@
            == (OrderModel::AbortPeer { peer_id }),
        order matches Command::PropagateLatestBlocks { sealed } ==> order@
            == (OrderModel::PropagateLatestBlocks { sealed: sealed@ }),
        order matches Command::PropagateProposedBlocks { proposed } ==> order@
            == (OrderModel::PropagateProposedBlocks { proposed: proposed@ }),
{
}

/// The model of a task tells its peer, time, visit or command.
pub proof fn model_tells_every_field_of_a_task(job: Job, jobs: Seq<Job>, i: int)
    ensures
        job is ContinueSync ==> job@ is ContinueSync,
        job matches Task::SyncPeer { peer_id, force } ==> job@ == (JobModel::SyncPeer {
            peer_id,
            force,
        }),
        job is FinishRound ==> job@ is FinishRound,
        job is MaybeStartSnapshotSync ==> job@ is MaybeStartSnapshotSync,
        job is ChooseSnapshot ==> job@ is ChooseSnapshot,
        job matches Task::RequestManifest { peer_id } ==> job@ == (JobModel::RequestManifest {
            peer_id,
        }),
        job is AwaitManifest ==> job@ is AwaitManifest,
        job matches Task::AskBlockStatus(visit) ==> job@ == Task::<OrderModel>::AskBlockStatus(
            visit,
        ),
        job matches Task::AskNewBlocks(visit) ==> job@ == Task::<OrderModel>::AskNewBlocks(visit),
        job matches Task::AskOldBlocks(visit) ==> job@ == Task::<OrderModel>::AskOldBlocks(visit),
        job is NewBlocksRequested ==> job@ is NewBlocksRequested,
        job is CheckResume ==> job@ is CheckResume,
        job is Restart ==> job@ is Restart,
        job is ForgetPeers ==> job@ is ForgetPeers,
        job matches Task::CheckHandshakes { tick } ==> job@ == (JobModel::CheckHandshakes { tick }),
        job is Rebroadcast ==> job@ is Rebroadcast,
        job matches Task::Perform(order) ==> job@ == Task::<OrderModel>::Perform(order@),
        plan(jobs).len() == jobs.len(),
        0 <= i < jobs.len() ==> plan(jobs)[i] == jobs[i]@,
{
}

/// The model of a step tells its action.
pub proof fn model_tells_every_field_of_a_step<R>(step: Step<R, Order>)
    ensures
        step is Finished ==> step.model() is Finished,
        step is Silent ==> step.model() is Silent,
        step matches Step::Act(Action::Perform(order)) ==> step.model() == Step::<
            R,
            OrderModel,
        >::Act(Action::Perform(order@)),
        step matches Step::Act(Action::BlockStatus { hash }) ==> step.model() == Step::<
            R,
            OrderModel,
        >::Act(Action::BlockStatus { hash }),
        step matches Step::Act(Action::FindBlocks { block_set, num_active_peers }) ==> step.model()
            == Step::<R, OrderModel>::Act(Action::FindBlocks { block_set, num_active_peers }),
        step matches Step::Act(Action::RequestBlocks { peer_id, request, block_set })
            ==> step.model() == Step::<R, OrderModel>::Act(
            Action::RequestBlocks { peer_id, request, block_set },
        ),
{
}

// Messages.

/// The number that digits in base 256 stand for, most significant first.
pub open spec fn number_of(digits: Seq<u8>) -> nat
    decreases digits.len(),
{
    if digits.len() == 0 {
        0
    } else {
        number_of(digits.drop_last()) * 256 + digits.last() as nat
    }
}

/// The big endian digits of a number stand for it, and the first one is not zero.
pub proof fn digits_stand_for_their_number(n: nat)
    ensures
        number_of(big_endian(n)) == n,
        n > 0 ==> big_endian(n).len() > 0 && big_endian(n)[0] != 0,
        n == 0 ==> big_endian(n).len() == 0,
    decreases n,
{
    if n > 0 {
        let high = n / 256;
        let digits = big_endian(n);
        digits_stand_for_their_number(high);
        assert(digits.drop_last() =~= big_endian(high));
        assert(digits.last() == (n % 256) as u8);
        assert(high * 256 + n % 256 == n);
    }
}

/// A string can be read off its encoding: it is the encoding itself where that is one byte below
/// 0x80, and otherwise what follows a first byte that tells its length.
pub proof fn strings_are_read_off_their_encoding(data: Seq<u8>)
    requires
        data.len() <= 55,
    ensures
        data.len() == 1 && data[0] < 0x80 ==> rlp_string(data) == data,
        !(data.len() == 1 && data[0] < 0x80) ==> rlp_string(data).len() == data.len() + 1
            && rlp_string(data)[0] == 0x80 + data.len() && rlp_string(data).skip(1) == data,
{
    if !(data.len() == 1 && data[0] < 0x80) {
        assert(rlp_string(data).skip(1) =~= data);
    }
}

/// A list can be read off its encoding: its items follow a first byte that tells their length up to
/// 55 bytes, and beyond that the number of bytes in which their length comes next.
pub proof fn lists_are_read_off_their_encoding(payload: Seq<u8>)
    requires
        payload.len() <= 0xffff_ffff,
    ensures
        payload.len() <= 55 ==> rlp_list(payload)[0] == 0xc0 + payload.len() && rlp_list(
            payload,
        ).skip(1) == payload,
        payload.len() > 55 ==> {
            let k = rlp_list(payload)[0] - 0xf7;
            &&& 1 <= k <= 4
            &&& rlp_list(payload).len() == 1 + k + payload.len()
            &&& number_of(rlp_list(payload).subrange(1, 1 + k)) == payload.len()
            &&& rlp_list(payload).skip(1 + k) == payload
        },
{
    if payload.len() <= 55 {
        assert(rlp_list(payload).skip(1) =~= payload);
    } else {
        let size = big_endian(payload.len());
        digits_stand_for_their_number(payload.len());
        assert(vstd::arithmetic::power::pow(256, 4) == 0x1_0000_0000) by {
            reveal_with_fuel(vstd::arithmetic::power::pow, 5);
        }
        crate::wire::lemma_big_endian_len(payload.len(), 4);
        assert(rlp_list(payload).subrange(1, 1 + size.len() as int) =~= size);
        assert(rlp_list(payload).skip(1 + size.len() as int) =~= payload);
    }
}

/// The status message names the warp protocol's version where the peer speaks it and 63 otherwise,
/// then tells network, difficulty, best and genesis block. Only to a peer that speaks the warp
/// protocol it then tells hash and block number of the snapshot.
pub proof fn fields_of_a_status(
    network_id: u64,
    chain: BlockChainInfo,
    warp_version: u8,
    hash: Seq<u8>,
    number: BlockNumber,
)
    ensures
        ({
            let fields = status_fields(network_id, chain, warp_version, hash, number);
            &&& warp_version == 0 ==> fields.len() == 5 && number_of(fields[0]) == 63
            &&& warp_version != 0 ==> fields.len() == 7 && number_of(fields[0]) == warp_version
                && fields[5] == hash && number_of(fields[6]) == number && fields[6] == big_endian(
                number as nat,
            )
            &&& fields[0] == big_endian(status_version(warp_version) as nat)
            &&& number_of(fields[1]) == network_id && fields[1] == big_endian(network_id as nat)
            &&& number_of(fields[2]) == chain.total_difficulty.value() && fields[2] == big_endian(
                chain.total_difficulty.value(),
            )
            &&& fields[3] == chain.best_block_hash.0@
            &&& fields[4] == chain.genesis_hash.0@
        }),
        status_version(warp_version) == if warp_version == 0 {
            63
        } else {
            warp_version
        },
{
    digits_stand_for_their_number(status_version(warp_version) as nat);
    digits_stand_for_their_number(network_id as nat);
    digits_stand_for_their_number(chain.total_difficulty.value());
    digits_stand_for_their_number(number as nat);
}

/// A snapshot is told by the Keccak hash of its manifest and by its block number, and a missing one
/// by zeros.
pub proof fn manifest_of_a_status(manifest: Option<Manifest>)
    ensures
        manifest matches Some(m) ==> manifest_hash(manifest) == keccak256(m.rlp@)
            && manifest_number(manifest) == m.block_number,
        manifest is None ==> manifest_number(manifest) == 0 && manifest_hash(manifest).len() == 32
            && forall|i: int| 0 <= i < 32 ==> manifest_hash(manifest)[i] == 0,
{
}

/// A packet is the list of its encoded fields, one after the other.
pub proof fn packets_hold_their_fields_in_order(first: Seq<u8>, others: Seq<Seq<u8>>)
    ensures
        exists|payload: Seq<u8>|
            {
                &&& packet(others) == #[trigger] rlp_list(payload)
                &&& packet(seq![first] + others) == rlp_list(rlp_string(first) + payload)
            },
        packet(Seq::empty()) == rlp_list(Seq::empty()),
{
    let f = |field: Seq<u8>| rlp_string(field);
    let all = seq![first] + others;
    let payload = others.map_values(f).flatten();
    assert(all.map_values(f).drop_first() =~= others.map_values(f));
    assert(all.map_values(f).first() == rlp_string(first));
    assert(packet(others) == rlp_list(payload));
    assert(Seq::<Seq<u8>>::empty().map_values(f) =~= Seq::empty());
}

// Numbers of the protocol.

/// The numbers that the wire protocol and the strategy fix.
pub proof fn numbers_of_the_protocol()
    ensures
        crate::protocol::ETH_PROTOCOL_VERSION_63 == 63,
        crate::protocol::ETH_PROTOCOL_VERSION_62 == 62,
        crate::protocol::PAR_PROTOCOL_VERSION_1 == 1,
        crate::protocol::PAR_PROTOCOL_VERSION_2 == 2,
        crate::protocol::PAR_PROTOCOL_VERSION_3 == 3,
        crate::protocol::PAR_PROTOCOL_VERSION_4 == 4,
        crate::protocol::STATUS_PACKET == 0,
        crate::protocol::SNAPSHOT_MIN_PEERS == 3,
        crate::protocol::SNAPSHOT_RESTORE_THRESHOLD == 30000,
        crate::protocol::MAX_SNAPSHOT_CHUNKS_DOWNLOAD_AHEAD == 3,
{
}

} // verus!
