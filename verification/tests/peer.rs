use chain_sync::peer::{
    BlockSet, ForkConfirmation, PeerAsking, PeerInfo, TransactionSet,
};
use chain_sync::primitives::{Timestamp, WarpSync, H256, U256};
use heapsize::HeapSizeOf;

const SECOND: Timestamp = 1_000_000_000;

fn hash(n: u8) -> H256 {
    let mut bytes = [0u8; 32];
    bytes[31] = n;
    H256(bytes)
}

fn confirmed_peer() -> PeerInfo {
    let mut peer = PeerInfo::default(0);
    peer.confirmation = ForkConfirmation::Confirmed;
    peer
}

#[test]
fn default_peer_knows_nothing() {
    let peer = PeerInfo::default(17);
    assert_eq!(peer.protocol_version, 0);
    assert_eq!(peer.genesis, H256::zero());
    assert_eq!(peer.network_id, 0);
    assert_eq!(peer.latest_hash, H256([0u8; 32]));
    assert!(peer.difficulty.is_none());
    assert_eq!(peer.asking, PeerAsking::Nothing);
    assert!(peer.asking_blocks.is_empty());
    assert!(peer.asking_hash.is_none());
    assert!(peer.asking_snapshot_data.is_none());
    assert_eq!(peer.ask_bitfield_time, 17);
    assert_eq!(peer.ask_time, 17);
    assert_eq!(peer.last_sent_transactions.len(), 0);
    assert!(!peer.expired);
    assert_eq!(peer.confirmation, ForkConfirmation::Unconfirmed);
    assert!(peer.snapshot_bitfield.is_none());
    assert!(peer.snapshot_hash.is_none());
    assert!(peer.snapshot_number.is_none());
    assert!(peer.block_set.is_none());
}

#[test]
fn only_confirmed_and_current_peers_can_sync() {
    let mut peer = PeerInfo::default(0);
    assert!(!peer.can_sync());
    assert!(!peer.is_allowed());
    peer.confirmation = ForkConfirmation::Confirmed;
    assert!(peer.can_sync());
    assert!(peer.is_allowed());
    peer.expired = true;
    assert!(!peer.can_sync());
    assert!(!peer.is_allowed());
}

#[test]
fn resetting_a_request_makes_it_expire() {
    let mut peer = confirmed_peer();
    peer.asking = PeerAsking::BlockBodies;
    peer.asking_blocks = vec![hash(1), hash(2)];
    peer.asking_hash = Some(hash(3));
    peer.reset_asking();
    assert!(peer.expired);
    assert!(peer.asking_blocks.is_empty());
    assert!(peer.asking_hash.is_none());
    assert_eq!(peer.asking, PeerAsking::BlockBodies);
}

#[test]
fn resetting_an_idle_peer_lets_nothing_expire() {
    let mut peer = confirmed_peer();
    peer.reset_asking();
    assert!(!peer.expired);

    let mut peer = PeerInfo::default(0);
    peer.asking = PeerAsking::ForkHeader;
    peer.reset_asking();
    assert!(!peer.expired);
}

#[test]
fn every_chunk_is_available_while_the_bitfield_is_unknown() {
    let peer = confirmed_peer();
    assert!(peer.chunk_index_available(0));
    assert!(peer.chunk_index_available(usize::MAX));
}

#[test]
fn bitfield_counts_from_the_most_significant_bit() {
    let mut peer = confirmed_peer();
    peer.snapshot_bitfield = Some(vec![0b1000_0001, 0b0100_0000]);
    let available: Vec<usize> = (0..20).filter(|i| peer.chunk_index_available(*i)).collect();
    assert_eq!(available, vec![0, 7, 9]);
    assert!(!peer.chunk_index_available(16));
    assert!(!peer.chunk_index_available(usize::MAX));
}

#[test]
fn partial_snapshots_need_the_fourth_version() {
    let supporting: Vec<u8> =
        (0..=255).filter(|v| PeerInfo::supports_partial_snapshots(*v)).collect();
    assert_eq!(supporting, vec![4]);
}

fn check_limit(asking: PeerAsking, seconds: u64) {
    let mut peer = confirmed_peer();
    peer.asking = asking;
    peer.ask_time = 7 * SECOND;
    assert!(!peer.has_timed_out(7 * SECOND));
    assert!(!peer.has_timed_out((7 + seconds) * SECOND));
    assert!(peer.has_timed_out((7 + seconds) * SECOND + 1));
    assert!(peer.has_timed_out((8 + seconds) * SECOND));
    // A request that was made later than the given time has not timed out.
    assert!(!peer.has_timed_out(0));
}

#[test]
fn each_request_has_its_time_limit() {
    check_limit(PeerAsking::ForkHeader, 3);
    check_limit(PeerAsking::BlockHeaders, 15);
    check_limit(PeerAsking::BlockBodies, 20);
    check_limit(PeerAsking::BlockReceipts, 10);
    check_limit(PeerAsking::SnapshotBitfield, 10);
    check_limit(PeerAsking::SnapshotManifest, 5);
    check_limit(PeerAsking::SnapshotData, 120);
}

#[test]
fn idle_peer_never_times_out() {
    let peer = confirmed_peer();
    assert!(!peer.has_timed_out(u64::MAX));
}

#[test]
fn transaction_set_holds_no_hash_twice() {
    let mut set = TransactionSet::new();
    set.insert(hash(1));
    set.insert(hash(2));
    set.insert(hash(1));
    assert_eq!(set.len(), 2);
    assert!(set.contains(&hash(1)));
    assert!(set.contains(&hash(2)));
    assert!(!set.contains(&hash(3)));
    set.clear();
    assert_eq!(set.len(), 0);
    assert!(!set.contains(&hash(1)));
}

#[test]
fn clone_of_a_peer_tells_the_same() {
    let mut peer = confirmed_peer();
    peer.protocol_version = 63;
    peer.asking = PeerAsking::BlockReceipts;
    peer.asking_blocks = vec![hash(4), hash(5)];
    peer.last_sent_transactions.insert(hash(6));
    peer.snapshot_bitfield = Some(vec![1, 2, 3]);
    peer.block_set = Some(BlockSet::OldBlocks);
    let copy = peer.clone();
    assert_eq!(format!("{:?}", copy), format!("{:?}", peer));
}

#[test]
fn records_on_the_heap_are_not_counted() {
    let mut peer = confirmed_peer();
    peer.asking_blocks = vec![hash(4); 100];
    assert_eq!(peer.heap_size_of_children(), 0);
}

#[test]
fn difficulties_are_compared_by_value() {
    let low = U256([u64::MAX, u64::MAX, u64::MAX, 0]);
    let high = U256([0, 0, 0, 1]);
    assert!(high.exceeds(&low));
    assert!(!low.exceeds(&high));
    assert!(!low.exceeds(&low));
    assert!(U256([2, 0, 0, 0]).exceeds(&U256([1, 0, 0, 0])));
    assert!(U256([0, 1, 0, 0]).exceeds(&U256([u64::MAX, 0, 0, 0])));
    assert!(U256([0, 0, 1, 0]).exceeds(&U256([9, 9, 0, 0])));
}

#[test]
fn hashes_are_equal_byte_by_byte() {
    assert_eq!(hash(1), hash(1));
    assert_ne!(hash(1), hash(2));
    assert_ne!(hash(1), H256::zero());
}

#[test]
fn warp_sync_modes() {
    assert!(WarpSync::Enabled.is_enabled());
    assert!(!WarpSync::Disabled.is_enabled());
    assert!(WarpSync::OnlyAndAfter(5).is_enabled());
    assert!(!WarpSync::Enabled.is_warp_only());
    assert!(!WarpSync::Disabled.is_warp_only());
    assert!(WarpSync::OnlyAndAfter(5).is_warp_only());
}
