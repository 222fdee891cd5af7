//! Plain values that the synchronisation strategy computes with: hashes, difficulties and the
//! facts it reads about the local chain.

use vstd::prelude::*;

verus! {

/// Identifier of a connected peer.
pub type PeerId = usize;

/// Number of a block in the chain.
pub type BlockNumber = u64;

/// A point in time, in nanoseconds since a fixed instant of a monotonic clock.
pub type Timestamp = u64;

/// A 256-bit hash.
#[derive(Clone, Copy, Debug, Eq)]
pub struct H256(pub [u8; 32]);

impl PartialEq for H256 {
    fn eq(&self, other: &H256) -> (r: bool) {
        let mut i: usize = 0;
        while i < 32
            invariant
                i <= 32,
                forall|j: int| 0 <= j < i ==> self.0[j] == other.0[j],
            decreases 32 - i,
        {
            if self.0[i] != other.0[i] {
                return false;
            }
            i = i + 1;
        }
        assert(self.0 =~= other.0);
        true
    }
}

impl vstd::std_specs::cmp::PartialEqSpecImpl for H256 {
    open spec fn obeys_eq_spec() -> bool {
        true
    }

    open spec fn eq_spec(&self, other: &H256) -> bool {
        *self == *other
    }
}

impl H256 {
    /// The hash whose bytes are all zero.
    pub fn zero() -> (r: H256)
        ensures
            r.0@ == Seq::new(32, |i: int| 0u8),
    {
        H256([0u8; 32])
    }
}

/// A 256-bit unsigned integer, as four 64-bit limbs of which the least significant comes first.
#[derive(Clone, Copy, Debug)]
pub struct U256(pub [u64; 4]);

impl U256 {
    /// The integer that the limbs stand for.
    pub open spec fn value(self) -> nat {
        (self.0[0] + self.0[1] * 0x1_0000_0000_0000_0000 + self.0[2]
            * 0x1_0000_0000_0000_0000_0000_0000_0000_0000 + self.0[3]
            * 0x1_0000_0000_0000_0000_0000_0000_0000_0000_0000_0000_0000_0000) as nat
    }

    /// Whether this integer is greater than `other`.
    pub fn exceeds(&self, other: &U256) -> (r: bool)
        ensures
            r == (self.value() > other.value()),
    {
        if self.0[3] != other.0[3] {
            self.0[3] > other.0[3]
        } else if self.0[2] != other.0[2] {
            self.0[2] > other.0[2]
        } else if self.0[1] != other.0[1] {
            self.0[1] > other.0[1]
        } else {
            self.0[0] > other.0[0]
        }
    }
}

/// What is known of the local chain.
#[derive(Clone, Copy, Debug)]
pub struct BlockChainInfo {
    /// Total difficulty of the chain.
    pub total_difficulty: U256,
    /// Total difficulty of the chain and of the blocks that wait to be imported.
    pub pending_total_difficulty: U256,
    /// Hash of the genesis block.
    pub genesis_hash: H256,
    /// Hash of the best block.
    pub best_block_hash: H256,
    /// Number of the best block.
    pub best_block_number: BlockNumber,
    /// Hash of the last ancient block, while ancient blocks are missing.
    pub ancient_block_hash: Option<H256>,
    /// Number of the last ancient block, while ancient blocks are missing.
    pub ancient_block_number: Option<BlockNumber>,
    /// Hash of the first block after the gap.
    pub first_block_hash: Option<H256>,
}

/// What is known of the block queue.
#[derive(Clone, Copy, Debug)]
pub struct BlockQueueInfo {
    /// Number of queued blocks that wait for verification.
    pub unverified_queue_size: usize,
    /// Number of verified blocks that wait for import.
    pub verified_queue_size: usize,
    /// Number of blocks that are being verified.
    pub verifying_queue_size: usize,
    /// Configured limit on the number of blocks.
    pub max_queue_size: usize,
    /// Configured limit on the memory in use.
    pub max_mem_use: usize,
    /// Heap memory used in bytes.
    pub mem_used: usize,
}

/// How the snapshot service stands with restoring a snapshot.
#[derive(Clone, Copy, Debug)]
pub enum RestorationStatus {
    /// No restoration.
    Inactive,
    /// Restoration goes on.
    Ongoing {
        /// Number of state chunks done.
        state_chunks_done: u32,
        /// Number of block chunks done.
        block_chunks_done: u32,
    },
    /// Restoration has failed.
    Failed,
}

/// Whether to catch up by restoring a snapshot.
#[derive(Clone, Copy, Debug)]
pub enum WarpSync {
    /// Warp sync is enabled.
    Enabled,
    /// Warp sync is disabled.
    Disabled,
    /// Only warp sync is allowed, until the given block number is reached.
    OnlyAndAfter(BlockNumber),
}

impl WarpSync {
    /// Returns true if warp sync is enabled.
    pub fn is_enabled(&self) -> (r: bool)
        ensures
            r == !(*self is Disabled),
    {
        match self {
            WarpSync::Disabled => false,
            _ => true,
        }
    }

    /// Returns true if there is no falling back to full sync.
    pub fn is_warp_only(&self) -> (r: bool)
        ensures
            r == (*self is OnlyAndAfter),
    {
        match self {
            WarpSync::OnlyAndAfter(_) => true,
            _ => false,
        }
    }
}

/// Sync configuration
#[derive(Clone, Copy, Debug)]
pub struct SyncConfig {
    /// Enable ancient block downloading.
    pub download_old_blocks: bool,
    /// Network ID.
    pub network_id: u64,
    /// Fork block to check.
    pub fork_block: Option<(BlockNumber, H256)>,
    /// Enable warp sync.
    pub warp_sync: WarpSync,
}

} // verus!
