use chain_sync::handshake::{Dispatch, Manifest};
use chain_sync::primitives::{BlockChainInfo, SyncConfig, WarpSync, H256, U256};
use chain_sync::protocol::STATUS_PACKET;
use chain_sync::sync::ChainSync;

fn chain_info(total_difficulty: U256) -> BlockChainInfo {
    BlockChainInfo {
        total_difficulty,
        pending_total_difficulty: U256([0; 4]),
        genesis_hash: H256([0x11; 32]),
        best_block_hash: H256([0x22; 32]),
        best_block_number: 0,
        ancient_block_hash: None,
        ancient_block_number: None,
        first_block_hash: None,
    }
}

fn sync_on(network_id: u64, chain: &BlockChainInfo) -> ChainSync {
    let config = SyncConfig {
        download_old_blocks: true,
        network_id,
        fork_block: None,
        warp_sync: WarpSync::Disabled,
    };
    ChainSync::new(config, chain).0
}

fn hash_item(byte: u8) -> Vec<u8> {
    let mut item = vec![0xa0];
    item.extend(vec![byte; 32]);
    item
}

const KECCAK_HELLO_WORLD: [u8; 32] = [
    0x47, 0x17, 0x32, 0x85, 0xa8, 0xd7, 0x34, 0x1e, 0x5e, 0x97, 0x2f, 0xc6, 0x77, 0x28, 0x63, 0x84,
    0xf8, 0x02, 0xf8, 0xef, 0x42, 0xa5, 0xec, 0x5f, 0x03, 0xbb, 0xfa, 0x25, 0x4c, 0xb0, 0x1f, 0xad,
];

#[test]
fn status_without_warp_protocol() {
    let chain = chain_info(U256([0x100, 0, 0, 0]));
    let sync = sync_on(1, &chain);
    let mut expected = vec![0xf8, 0x47, 0x3f, 0x01, 0x82, 0x01, 0x00];
    expected.extend(hash_item(0x22));
    expected.extend(hash_item(0x11));
    assert_eq!(sync.status_packet(&chain, 0, &H256([0x33; 32]), 30000), expected);
    assert_eq!(ChainSync::status_protocol(0), 63);
}

#[test]
fn status_with_warp_protocol() {
    let chain = chain_info(U256([0, 0, 0, 0]));
    let sync = sync_on(0x1234, &chain);
    let mut expected = vec![0xf8, 0x6b, 0x02, 0x82, 0x12, 0x34, 0x80];
    expected.extend(hash_item(0x22));
    expected.extend(hash_item(0x11));
    expected.extend(hash_item(0x33));
    expected.extend(vec![0x82, 0x75, 0x30]);
    assert_eq!(sync.status_packet(&chain, 2, &H256([0x33; 32]), 30000), expected);
    assert_eq!(ChainSync::status_protocol(2), 2);
}

#[test]
fn status_tells_a_difficulty_of_full_width() {
    let chain = chain_info(U256([0x0102, 0, 0, 0x8000_0000_0000_0000]));
    let sync = sync_on(u64::MAX, &chain);
    let mut expected = vec![0xf8, 0x6d, 0x3f, 0x88];
    expected.extend(vec![0xff; 8]);
    expected.extend(vec![0xa0, 0x80]);
    expected.extend(vec![0x00; 29]);
    expected.extend(vec![0x01, 0x02]);
    expected.extend(hash_item(0x22));
    expected.extend(hash_item(0x11));
    assert_eq!(sync.status_packet(&chain, 0, &H256::zero(), 0), expected);
}

#[test]
fn snapshot_is_told_by_the_hash_of_its_manifest() {
    let chain = chain_info(U256([5, 0, 0, 0]));
    let sync = sync_on(1, &chain);
    let manifest = Manifest { block_number: 200, rlp: b"hello world".to_vec() };
    let (packet_id, bytes) = sync.send_status(&chain, 1, Some(manifest));
    assert_eq!(packet_id, STATUS_PACKET);
    let mut expected = vec![0xf8, 0x68, 0x01, 0x01, 0x05];
    expected.extend(hash_item(0x22));
    expected.extend(hash_item(0x11));
    expected.push(0xa0);
    expected.extend(KECCAK_HELLO_WORLD.to_vec());
    expected.extend(vec![0x81, 0xc8]);
    assert_eq!(bytes, expected);
    assert_eq!(sync.status_packet(&chain, 1, &H256(KECCAK_HELLO_WORLD), 200), expected);
}

#[test]
fn missing_manifest_is_told_as_zero() {
    let chain = chain_info(U256([5, 0, 0, 0]));
    let sync = sync_on(1, &chain);
    let (_, bytes) = sync.send_status(&chain, 3, None);
    let mut expected = vec![0xf8, 0x67, 0x03, 0x01, 0x05];
    expected.extend(hash_item(0x22));
    expected.extend(hash_item(0x11));
    expected.extend(hash_item(0x00));
    expected.push(0x80);
    assert_eq!(bytes, expected);
}

#[test]
fn peers_without_warp_protocol_hear_nothing_of_snapshots() {
    let chain = chain_info(U256([5, 0, 0, 0]));
    let sync = sync_on(1, &chain);
    let manifest = Manifest { block_number: 200, rlp: vec![1, 2, 3] };
    assert_eq!(sync.send_status(&chain, 0, Some(manifest)).1, sync.send_status(&chain, 0, None).1);
}

#[test]
fn status_can_be_decoded() {
    let chain = chain_info(U256([7, 8, 9, 10]));
    let sync = sync_on(99, &chain);
    let manifest = Manifest { block_number: 1 << 40, rlp: Vec::new() };
    let (_, bytes) = sync.send_status(&chain, 4, Some(manifest));
    let rlp = rlp::Rlp::new(&bytes);
    assert_eq!(rlp.item_count().unwrap(), 7);
    assert_eq!(rlp.val_at::<u32>(0).unwrap(), 4);
    assert_eq!(rlp.val_at::<u64>(1).unwrap(), 99);
    assert_eq!(rlp.val_at::<ethereum_types::U256>(2).unwrap(), ethereum_types::U256([7, 8, 9, 10]));
    assert_eq!(rlp.val_at::<ethereum_types::H256>(3).unwrap().0, [0x22; 32]);
    assert_eq!(rlp.val_at::<ethereum_types::H256>(4).unwrap().0, [0x11; 32]);
    assert_eq!(rlp.val_at::<ethereum_types::H256>(5).unwrap(), keccak_hash::KECCAK_EMPTY);
    assert_eq!(rlp.val_at::<u64>(6).unwrap(), 1 << 40);
}

#[test]
fn packets_go_to_the_supplier_first() {
    assert_eq!(ChainSync::dispatch_packet(Dispatch::Supplier, true), Dispatch::Handled);
    assert_eq!(ChainSync::dispatch_packet(Dispatch::Supplier, false), Dispatch::Handler);
    assert_eq!(ChainSync::dispatch_packet(Dispatch::Handler, true), Dispatch::Handled);
    assert_eq!(ChainSync::dispatch_packet(Dispatch::Handler, false), Dispatch::Unknown);
    assert_eq!(ChainSync::dispatch_packet(Dispatch::Handled, false), Dispatch::Handled);
    assert_eq!(ChainSync::dispatch_packet(Dispatch::Unknown, true), Dispatch::Unknown);
}
