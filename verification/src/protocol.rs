//! Versions, packet identifiers and limits of the wire protocol, and the time limits of requests.

use vstd::prelude::*;
use crate::primitives::{BlockNumber, Timestamp};

verus! {

/// 63 version of Ethereum protocol.
pub const ETH_PROTOCOL_VERSION_63: u8 = 63;

/// 62 version of Ethereum protocol.
pub const ETH_PROTOCOL_VERSION_62: u8 = 62;

/// 1 version of Parity protocol.
pub const PAR_PROTOCOL_VERSION_1: u8 = 1;

/// 2 version of Parity protocol (consensus messages added).
pub const PAR_PROTOCOL_VERSION_2: u8 = 2;

/// 3 version of Parity protocol (private transactions messages added).
pub const PAR_PROTOCOL_VERSION_3: u8 = 3;

/// 4 version of Parity protocol (seeding partially downloaded snapshot added).
pub const PAR_PROTOCOL_VERSION_4: u8 = 4;

pub const MAX_BODIES_TO_SEND: usize = 256;

pub const MAX_HEADERS_TO_SEND: usize = 512;

pub const MAX_NODE_DATA_TO_SEND: usize = 1024;

pub const MAX_RECEIPTS_TO_SEND: usize = 1024;

pub const MAX_RECEIPTS_HEADERS_TO_SEND: usize = 256;

pub const MIN_PEERS_PROPAGATION: usize = 4;

pub const MAX_PEERS_PROPAGATION: usize = 128;

pub const MAX_PEER_LAG_PROPAGATION: BlockNumber = 20;

pub const MAX_NEW_HASHES: usize = 64;

pub const MAX_NEW_BLOCK_AGE: BlockNumber = 20;

/// Maximal packet size with transactions (cannot be greater than 16MB - protocol limitation).
pub const MAX_TRANSACTION_PACKET_SIZE: usize = 8 * 1024 * 1024;

/// Maximal number of transactions sent in a single packet.
pub const MAX_TRANSACTIONS_TO_PROPAGATE: usize = 64;

/// Min number of blocks to be behind for a snapshot sync.
pub const SNAPSHOT_RESTORE_THRESHOLD: BlockNumber = 30000;

/// Number of peers that must offer a snapshot before it is trusted at once.
pub const SNAPSHOT_MIN_PEERS: usize = 3;

pub const STATUS_PACKET: u8 = 0x00;

pub const NEW_BLOCK_HASHES_PACKET: u8 = 0x01;

pub const TRANSACTIONS_PACKET: u8 = 0x02;

pub const GET_BLOCK_HEADERS_PACKET: u8 = 0x03;

pub const BLOCK_HEADERS_PACKET: u8 = 0x04;

pub const GET_BLOCK_BODIES_PACKET: u8 = 0x05;

pub const BLOCK_BODIES_PACKET: u8 = 0x06;

pub const NEW_BLOCK_PACKET: u8 = 0x07;

pub const GET_NODE_DATA_PACKET: u8 = 0x0d;

pub const NODE_DATA_PACKET: u8 = 0x0e;

pub const GET_RECEIPTS_PACKET: u8 = 0x0f;

pub const RECEIPTS_PACKET: u8 = 0x10;

pub const ETH_PACKET_COUNT: u8 = 0x11;

pub const GET_SNAPSHOT_MANIFEST_PACKET: u8 = 0x11;

pub const SNAPSHOT_MANIFEST_PACKET: u8 = 0x12;

pub const GET_SNAPSHOT_DATA_PACKET: u8 = 0x13;

pub const SNAPSHOT_DATA_PACKET: u8 = 0x14;

pub const CONSENSUS_DATA_PACKET: u8 = 0x15;

pub const PRIVATE_TRANSACTION_PACKET: u8 = 0x16;

pub const SIGNED_PRIVATE_TRANSACTION_PACKET: u8 = 0x17;

pub const GET_SNAPSHOT_BITFIELD_PACKET: u8 = 0x18;

pub const SNAPSHOT_BITFIELD_PACKET: u8 = 0x19;

pub const SNAPSHOT_SYNC_PACKET_COUNT: u8 = 0x20;

/// How many snapshot chunks may have been downloaded and not yet restored.
pub const MAX_SNAPSHOT_CHUNKS_DOWNLOAD_AHEAD: usize = 3;

/// 5 seconds.
pub const WAIT_PEERS_TIMEOUT: Timestamp = 5_000_000_000;

/// 5 seconds.
pub const STATUS_TIMEOUT: Timestamp = 5_000_000_000;

/// 15 seconds.
pub const HEADERS_TIMEOUT: Timestamp = 15_000_000_000;

/// 20 seconds.
pub const BODIES_TIMEOUT: Timestamp = 20_000_000_000;

/// 10 seconds.
pub const RECEIPTS_TIMEOUT: Timestamp = 10_000_000_000;

/// 3 seconds.
pub const FORK_HEADER_TIMEOUT: Timestamp = 3_000_000_000;

/// 10 seconds.
pub const SNAPSHOT_BITFIELD_TIMEOUT: Timestamp = 10_000_000_000;

/// 5 seconds.
pub const SNAPSHOT_MANIFEST_TIMEOUT: Timestamp = 5_000_000_000;

/// 120 seconds.
pub const SNAPSHOT_DATA_TIMEOUT: Timestamp = 120_000_000_000;

/// 10 seconds.
pub const BITFIELD_REFRESH_DURATION: Timestamp = 10_000_000_000;

} // verus!
