//! The status message that a new peer is sent, and the way of a packet that came in.

use vstd::prelude::*;
use crate::primitives::{BlockChainInfo, BlockNumber, H256, U256};
use crate::protocol::{ETH_PROTOCOL_VERSION_63, STATUS_PACKET};
use crate::sync::ChainSync;
use crate::wire::{
    append_h256, append_u256, append_u64, big_endian, keccak, keccak256, lemma_big_endian_len,
    new_list, out, rlp_list, rlp_string, stream_items,
};

verus! {

/// Manifest of a snapshot that can be offered to a peer.
#[derive(Debug)]
pub struct Manifest {
    /// Number of the block that the snapshot was taken at.
    pub block_number: BlockNumber,
    /// Encoding of the manifest.
    pub rlp: Vec<u8>,
}

/// The protocol version to name to a peer. `warp_version` is the version of the warp protocol
/// that the peer speaks, zero where it does not.
pub open spec fn status_version(warp_version: u8) -> u8 {
    if warp_version != 0 {
        warp_version
    } else {
        ETH_PROTOCOL_VERSION_63
    }
}

/// Hash of a manifest, all zero where there is none.
pub open spec fn manifest_hash(manifest: Option<Manifest>) -> Seq<u8> {
    match manifest {
        Some(manifest) => keccak256(manifest.rlp@),
        None => Seq::new(32, |i: int| 0u8),
    }
}

/// Block number of a manifest, zero where there is none.
pub open spec fn manifest_number(manifest: Option<Manifest>) -> BlockNumber {
    match manifest {
        Some(manifest) => manifest.block_number,
        None => 0,
    }
}

/// The fields of a status message, as byte strings. Hash and block number of a snapshot are told
/// only to peers that speak the warp protocol.
pub open spec fn status_fields(
    network_id: u64,
    chain: BlockChainInfo,
    warp_version: u8,
    snapshot_hash: Seq<u8>,
    snapshot_number: BlockNumber,
) -> Seq<Seq<u8>> {
    let fields = seq![
        big_endian(status_version(warp_version) as nat),
        big_endian(network_id as nat),
        big_endian(chain.total_difficulty.value()),
        chain.best_block_hash.0@,
        chain.genesis_hash.0@,
    ];
    if warp_version != 0 {
        fields + seq![snapshot_hash, big_endian(snapshot_number as nat)]
    } else {
        fields
    }
}

/// The encoding of a packet with the given fields.
pub open spec fn packet(fields: Seq<Seq<u8>>) -> Seq<u8> {
    rlp_list(fields.map_values(|field: Seq<u8>| rlp_string(field)).flatten())
}

/// Short items make a short list.
proof fn lemma_flatten_len(items: Seq<Seq<u8>>, k: nat)
    requires
        forall|i: int| 0 <= i < items.len() ==> (#[trigger] items[i]).len() <= k,
    ensures
        items.flatten().len() <= items.len() * k,
    decreases items.len(),
{
    if items.len() > 0 {
        let rest = items.drop_first();
        assert forall|i: int| 0 <= i < rest.len() implies (#[trigger] rest[i]).len() <= k by {
            assert(rest[i] == items[i + 1]);
        }
        lemma_flatten_len(rest, k);
        assert(items.len() * k == rest.len() * k + k) by (nonlinear_arith)
            requires
                items.len() == rest.len() + 1,
        ;
    }
}

/// A 64-bit number takes at most 8 bytes.
proof fn lemma_u64_len(n: u64)
    ensures
        big_endian(n as nat).len() <= 8,
{
    assert(vstd::arithmetic::power::pow(256, 8) == 0x1_0000_0000_0000_0000) by {
        reveal_with_fuel(vstd::arithmetic::power::pow, 9);
    }
    lemma_big_endian_len(n as nat, 8);
}

/// A 256-bit number takes at most 32 bytes.
proof fn lemma_u256_len(n: U256)
    ensures
        big_endian(n.value()).len() <= 32,
{
    assert(vstd::arithmetic::power::pow(256, 32)
        == 0x1_0000_0000_0000_0000_0000_0000_0000_0000_0000_0000_0000_0000_0000_0000_0000_0000) by {
        reveal_with_fuel(vstd::arithmetic::power::pow, 33);
    }
    lemma_big_endian_len(n.value(), 32);
}

impl ChainSync {
    /// The protocol version to name to a peer.
    pub fn status_protocol(warp_protocol_version: u8) -> (protocol: u8)
        ensures
            protocol == status_version(warp_protocol_version),
    {
        let warp_protocol = warp_protocol_version != 0;
        if warp_protocol {
            warp_protocol_version
        } else {
            ETH_PROTOCOL_VERSION_63
        }
    }

    /// The status message for a peer, given hash and block number of the snapshot to offer.
    pub fn status_packet(
        &self,
        chain: &BlockChainInfo,
        warp_protocol_version: u8,
        manifest_hash: &H256,
        block_number: BlockNumber,
    ) -> (bytes: Vec<u8>)
        ensures
            bytes@ == packet(
                status_fields(
                    self.network_id,
                    *chain,
                    warp_protocol_version,
                    manifest_hash.0@,
                    block_number,
                ),
            ),
    {
        let warp_protocol = warp_protocol_version != 0;
        let protocol = ChainSync::status_protocol(warp_protocol_version);
        let len: usize = if warp_protocol {
            7
        } else {
            5
        };
        let mut packet = new_list(len);
        append_u64(&mut packet, protocol as u64);
        append_u64(&mut packet, self.network_id);
        append_u256(&mut packet, &chain.total_difficulty);
        append_h256(&mut packet, &chain.best_block_hash);
        append_h256(&mut packet, &chain.genesis_hash);
        if warp_protocol {
            append_h256(&mut packet, manifest_hash);
            append_u64(&mut packet, block_number);
        }
        proof {
            lemma_u64_len(protocol as u64);
            lemma_u64_len(self.network_id);
            lemma_u256_len(chain.total_difficulty);
            lemma_u64_len(block_number);
            let items = stream_items(packet);
            assert(items =~= status_fields(
                self.network_id,
                *chain,
                warp_protocol_version,
                manifest_hash.0@,
                block_number,
            ).map_values(|field: Seq<u8>| rlp_string(field)));
            lemma_flatten_len(items, 33);
        }
        out(packet)
    }

    /// Identifier and content of the status message for a peer. `manifest` is that of the
    /// snapshot to offer, if there is one.
    pub fn send_status(
        &self,
        chain: &BlockChainInfo,
        warp_protocol_version: u8,
        manifest: Option<Manifest>,
    ) -> (r: (u8, Vec<u8>))
        ensures
            r.0 == STATUS_PACKET,
            r.1@ == packet(
                status_fields(
                    self.network_id,
                    *chain,
                    warp_protocol_version,
                    manifest_hash(manifest),
                    manifest_number(manifest),
                ),
            ),
    {
        let (hash, block_number) = match &manifest {
            Some(m) => (keccak(&m.rlp), m.block_number),
            None => (H256::zero(), 0),
        };
        (STATUS_PACKET, self.status_packet(chain, warp_protocol_version, &hash, block_number))
    }
}

/// Where a packet that came in stands.
#[derive(Clone, Copy, Debug, Eq, PartialEq, Structural)]
pub enum Dispatch {
    /// It is offered to those who answer requests.
    Supplier,
    /// It is offered to those who handle answers and announcements.
    Handler,
    /// It has been handled.
    Handled,
    /// Nobody knows it.
    Unknown,
}

/// Where a packet goes from `stage`; `taken` tells whether those it was offered to took it.
pub open spec fn next_stage(stage: Dispatch, taken: bool) -> Dispatch {
    match stage {
        Dispatch::Supplier => if taken {
            Dispatch::Handled
        } else {
            Dispatch::Handler
        },
        Dispatch::Handler => if taken {
            Dispatch::Handled
        } else {
            Dispatch::Unknown
        },
        _ => stage,
    }
}

impl ChainSync {
    /// Dispatch incoming requests and responses: where a packet goes next.
    pub fn dispatch_packet(stage: Dispatch, taken: bool) -> (next: Dispatch)
        ensures
            next == next_stage(stage, taken),
    {
        match (stage, taken) {
            (Dispatch::Supplier, true) | (Dispatch::Handler, true) => Dispatch::Handled,
            (Dispatch::Supplier, false) => Dispatch::Handler,
            (Dispatch::Handler, false) => Dispatch::Unknown,
            (stage, _) => stage,
        }
    }
}

} // verus!
