//! What is known of a connected peer.

use vstd::prelude::*;
use crate::peers::lemma_to_set_push;
use crate::primitives::{BlockNumber, Timestamp, H256, U256};
use crate::protocol::{
    BODIES_TIMEOUT, FORK_HEADER_TIMEOUT, HEADERS_TIMEOUT, PAR_PROTOCOL_VERSION_4, RECEIPTS_TIMEOUT,
    SNAPSHOT_BITFIELD_TIMEOUT, SNAPSHOT_DATA_TIMEOUT, SNAPSHOT_MANIFEST_TIMEOUT,
};

verus! {

/// Peer data type requested
#[derive(PartialEq, Eq, Structural, Debug, Clone, Copy)]
pub enum PeerAsking {
    Nothing,
    ForkHeader,
    BlockHeaders,
    BlockBodies,
    BlockReceipts,
    SnapshotBitfield,
    SnapshotManifest,
    SnapshotData,
}

/// Block downloader channel.
#[derive(PartialEq, Eq, Structural, Debug, Clone, Copy)]
pub enum BlockSet {
    /// New blocks better than out best blocks
    NewBlocks,
    /// Missing old blocks
    OldBlocks,
}

/// Whether the peer is known to follow the same fork.
#[derive(Clone, Copy, Debug, Eq, PartialEq, Structural)]
pub enum ForkConfirmation {
    /// Fork block confirmation pending.
    Unconfirmed,
    /// Fork is confirmed.
    Confirmed,
}

/// A set of transaction hashes. No hash is held twice.
#[derive(Debug)]
pub struct TransactionSet {
    hashes: Vec<H256>,
}

impl View for TransactionSet {
    type V = Set<H256>;

    closed spec fn view(&self) -> Set<H256> {
        self.hashes@.to_set()
    }
}

impl TransactionSet {
    #[verifier::type_invariant]
    spec fn wf(self) -> bool {
        self.hashes@.no_duplicates()
    }

    /// The empty set.
    pub fn new() -> (r: TransactionSet)
        ensures
            r@ == Set::<H256>::empty(),
    {
        let r = TransactionSet { hashes: Vec::new() };
        assert(r@ =~= Set::<H256>::empty());
        r
    }

    /// Number of hashes in the set.
    pub fn len(&self) -> (n: usize)
        ensures
            n == self@.len(),
    {
        proof {
            use_type_invariant(self);
            self.hashes@.unique_seq_to_set();
        }
        self.hashes.len()
    }

    /// Whether the set holds `hash`.
    pub fn contains(&self, hash: &H256) -> (r: bool)
        ensures
            r == self@.contains(*hash),
    {
        let mut i: usize = 0;
        while i < self.hashes.len()
            invariant
                i <= self.hashes.len(),
                forall|j: int| 0 <= j < i ==> self.hashes[j] != *hash,
            decreases self.hashes.len() - i,
        {
            if self.hashes[i] == *hash {
                assert(self.hashes@[i as int] == *hash);
                return true;
            }
            i = i + 1;
        }
        false
    }

    /// Adds `hash` to the set.
    pub fn insert(&mut self, hash: H256)
        ensures
            final(self)@ == old(self)@.insert(hash),
    {
        proof {
            use_type_invariant(&*self);
        }
        if !self.contains(&hash) {
            let mut hashes: Vec<H256> = Vec::new();
            std::mem::swap(&mut hashes, &mut self.hashes);
            let ghost before = hashes@;
            hashes.push(hash);
            proof {
                lemma_to_set_push(before, hash);
            }
            self.hashes = hashes;
        }
        assert(self@ =~= old(self)@.insert(hash));
    }

    /// Takes every hash out of the set.
    pub fn clear(&mut self)
        ensures
            final(self)@ == Set::<H256>::empty(),
    {
        self.hashes = Vec::new();
        assert(self@ =~= Set::<H256>::empty());
    }
}

impl Clone for TransactionSet {
    fn clone(&self) -> (r: TransactionSet)
        ensures
            r@ == self@,
    {
        proof {
            use_type_invariant(self);
        }
        TransactionSet { hashes: copy_items(&self.hashes) }
    }
}

/// A copy of a list.
pub(crate) fn copy_items<T: Copy>(items: &Vec<T>) -> (copy: Vec<T>)
    ensures
        copy@ == items@,
{
    let mut copy: Vec<T> = Vec::new();
    let mut i: usize = 0;
    while i < items.len()
        invariant
            i <= items.len(),
            copy@ == items@.take(i as int),
        decreases items.len() - i,
    {
        copy.push(items[i]);
        assert(items@.take(i + 1) =~= items@.take(i as int).push(items@[i as int]));
        i = i + 1;
    }
    assert(items@.take(i as int) =~= items@);
    copy
}

/// Syncing peer information
#[derive(Debug)]
pub struct PeerInfo {
    /// eth protocol version
    pub protocol_version: u8,
    /// Peer chain genesis hash
    pub genesis: H256,
    /// Peer network id
    pub network_id: u64,
    /// Peer best block hash
    pub latest_hash: H256,
    /// Peer total difficulty if known
    pub difficulty: Option<U256>,
    /// Type of data currenty being requested from peer.
    pub asking: PeerAsking,
    /// A set of block numbers being requested
    pub asking_blocks: Vec<H256>,
    /// Holds requested header hash if currently requesting block header by hash
    pub asking_hash: Option<H256>,
    /// Holds requested snapshot chunk hash if any.
    pub asking_snapshot_data: Option<H256>,
    /// Last bitfield request
    pub ask_bitfield_time: Timestamp,
    /// Request timestamp
    pub ask_time: Timestamp,
    /// Holds a set of transactions recently sent to this peer to avoid spamming.
    pub last_sent_transactions: TransactionSet,
    /// Pending request is expired and result should be ignored
    pub expired: bool,
    /// Peer fork confirmation status
    pub confirmation: ForkConfirmation,
    /// Peer's current snapshot bitfield
    pub snapshot_bitfield: Option<Vec<u8>>,
    /// Best snapshot hash
    pub snapshot_hash: Option<H256>,
    /// Best snapshot block number
    pub snapshot_number: Option<BlockNumber>,
    /// Block set requested
    pub block_set: Option<BlockSet>,
}

/// A peer as the specifications speak of it: the fields of `PeerInfo`, with sequences and sets in
/// place of collections.
#[verifier::ext_equal]
pub struct PeerModel {
    pub protocol_version: u8,
    pub genesis: H256,
    pub network_id: u64,
    pub latest_hash: H256,
    pub difficulty: Option<U256>,
    pub asking: PeerAsking,
    pub asking_blocks: Seq<H256>,
    pub asking_hash: Option<H256>,
    pub asking_snapshot_data: Option<H256>,
    pub ask_bitfield_time: Timestamp,
    pub ask_time: Timestamp,
    pub last_sent_transactions: Set<H256>,
    pub expired: bool,
    pub confirmation: ForkConfirmation,
    pub snapshot_bitfield: Option<Seq<u8>>,
    pub snapshot_hash: Option<H256>,
    pub snapshot_number: Option<BlockNumber>,
    pub block_set: Option<BlockSet>,
}

impl View for PeerInfo {
    type V = PeerModel;

    open spec fn view(&self) -> PeerModel {
        PeerModel {
            protocol_version: self.protocol_version,
            genesis: self.genesis,
            network_id: self.network_id,
            latest_hash: self.latest_hash,
            difficulty: self.difficulty,
            asking: self.asking,
            asking_blocks: self.asking_blocks@,
            asking_hash: self.asking_hash,
            asking_snapshot_data: self.asking_snapshot_data,
            ask_bitfield_time: self.ask_bitfield_time,
            ask_time: self.ask_time,
            last_sent_transactions: self.last_sent_transactions@,
            expired: self.expired,
            confirmation: self.confirmation,
            snapshot_bitfield: match self.snapshot_bitfield {
                Some(bitfield) => Some(bitfield@),
                None => None,
            },
            snapshot_hash: self.snapshot_hash,
            snapshot_number: self.snapshot_number,
            block_set: self.block_set,
        }
    }
}

/// Whether bit `index` of `bitfield` is set. Bits are counted from the most significant one of
/// the first byte on; there are none past the last byte.
pub open spec fn bit_set(bitfield: Seq<u8>, index: int) -> bool {
    index / 8 < bitfield.len() && (bitfield[index / 8] >> ((7 - index % 8) as usize)) & 1 != 0
}

/// How long a peer may take to answer a request of the given kind; `None` where nothing was
/// asked.
pub open spec fn time_limit(asking: PeerAsking) -> Option<Timestamp> {
    match asking {
        PeerAsking::Nothing => None,
        PeerAsking::ForkHeader => Some(FORK_HEADER_TIMEOUT),
        PeerAsking::BlockHeaders => Some(HEADERS_TIMEOUT),
        PeerAsking::BlockBodies => Some(BODIES_TIMEOUT),
        PeerAsking::BlockReceipts => Some(RECEIPTS_TIMEOUT),
        PeerAsking::SnapshotBitfield => Some(SNAPSHOT_BITFIELD_TIMEOUT),
        PeerAsking::SnapshotManifest => Some(SNAPSHOT_MANIFEST_TIMEOUT),
        PeerAsking::SnapshotData => Some(SNAPSHOT_DATA_TIMEOUT),
    }
}

/// Time from `since` to `now`, zero where `since` is the later one.
pub open spec fn elapsed(now: Timestamp, since: Timestamp) -> int {
    if now >= since {
        now - since
    } else {
        0
    }
}

/// Time from `since` to `now`, zero where `since` is the later one.
pub fn time_since(now: Timestamp, since: Timestamp) -> (r: Timestamp)
    ensures
        r == elapsed(now, since),
{
    if now >= since {
        now - since
    } else {
        0
    }
}

impl PeerModel {
    /// Whether the peer takes part in the sync: its fork is confirmed and its last request has
    /// not expired.
    pub open spec fn allowed(self) -> bool {
        self.confirmation is Confirmed && !self.expired
    }

    /// Whether the peer works for the download of new blocks, or for none in particular.
    pub open spec fn busy_with_new_blocks(self) -> bool {
        self.asking != PeerAsking::Nothing && self.block_set != Some(BlockSet::OldBlocks)
            && self.allowed()
    }

    /// The peer once what was asked of it is forgotten. A request still under way expires.
    pub open spec fn asking_reset(self) -> PeerModel {
        PeerModel {
            asking_blocks: Seq::empty(),
            asking_hash: None,
            expired: self.expired || (self.asking != PeerAsking::Nothing && self.allowed()),
            ..self
        }
    }

    /// The peer after a reset of the sync while `difficulty` is the difficulty of our chain: one
    /// that downloads old blocks goes on, any other one forgets what was asked of it and is taken
    /// to be up to date where its difficulty is unknown.
    pub open spec fn sync_reset(self, difficulty: U256) -> PeerModel {
        if self.block_set == Some(BlockSet::OldBlocks) {
            self
        } else {
            PeerModel {
                difficulty: match self.difficulty {
                    Some(d) => Some(d),
                    None => Some(difficulty),
                },
                ..self.asking_reset()
            }
        }
    }

    /// The peer once its answer has come.
    pub open spec fn answered(self) -> PeerModel {
        PeerModel { expired: false, block_set: None, asking: PeerAsking::Nothing, ..self }
    }

    /// Whether the peer has let the time limit of its request pass by `now`.
    pub open spec fn timed_out(self, now: Timestamp) -> bool {
        match time_limit(self.asking) {
            Some(limit) => elapsed(now, self.ask_time) > limit,
            None => false,
        }
    }

    /// Whether the peer's difficulty is greater than `difficulty`. An unknown one counts as
    /// greater.
    pub open spec fn higher_difficulty(self, difficulty: U256) -> bool {
        match self.difficulty {
            Some(d) => d.value() > difficulty.value(),
            None => true,
        }
    }
}

impl PeerInfo {
    /// A peer of which nothing is known yet, at time `now`.
    pub fn default(now: Timestamp) -> (r: PeerInfo)
        ensures
            r.protocol_version == 0,
            r.genesis.0@ == Seq::new(32, |i: int| 0u8),
            r.network_id == 0,
            r.latest_hash.0@ == Seq::new(32, |i: int| 0u8),
            r.difficulty is None,
            r.asking is Nothing,
            r.asking_blocks@ == Seq::<H256>::empty(),
            r.asking_hash is None,
            r.ask_bitfield_time == now,
            r.ask_time == now,
            r.last_sent_transactions@ == Set::<H256>::empty(),
            !r.expired,
            r.confirmation is Unconfirmed,
            r.snapshot_bitfield is None,
            r.snapshot_number is None,
            r.snapshot_hash is None,
            r.asking_snapshot_data is None,
            r.block_set is None,
    {
        PeerInfo {
            protocol_version: 0,
            genesis: H256::zero(),
            network_id: 0,
            latest_hash: H256::zero(),
            difficulty: None,
            asking: PeerAsking::Nothing,
            asking_blocks: Vec::new(),
            asking_hash: None,
            ask_bitfield_time: now,
            ask_time: now,
            last_sent_transactions: TransactionSet::new(),
            expired: false,
            confirmation: ForkConfirmation::Unconfirmed,
            snapshot_bitfield: None,
            snapshot_number: None,
            snapshot_hash: None,
            asking_snapshot_data: None,
            block_set: None,
        }
    }

    /// Whether blocks may be requested from the peer.
    pub fn can_sync(&self) -> (r: bool)
        ensures
            r == (self.confirmation is Confirmed && !self.expired),
            r == self@.allowed(),
    {
        self.confirmation == ForkConfirmation::Confirmed && !self.expired
    }

    /// Whether the peer takes part in the sync.
    pub fn is_allowed(&self) -> (r: bool)
        ensures
            r == (!(self.confirmation is Unconfirmed) && !self.expired),
            r == self@.allowed(),
    {
        self.confirmation != ForkConfirmation::Unconfirmed && !self.expired
    }

    /// Forgets what was asked of the peer and marks a pending request as expired.
    pub fn reset_asking(&mut self)
        ensures
            final(self)@ == old(self)@.asking_reset(),
    {
        self.asking_blocks.clear();
        self.asking_hash = None;
        // mark any pending requests as expired
        if self.asking != PeerAsking::Nothing && self.is_allowed() {
            self.expired = true;
        }
    }

    /// Whether the peer has the snapshot chunk with the given index: every chunk as long as its
    /// bitfield is unknown, those whose bit is set once it is known.
    pub fn chunk_index_available(&self, index: usize) -> (r: bool)
        ensures
            r == match self@.snapshot_bitfield {
                None => true,
                Some(bitfield) => bit_set(bitfield, index as int),
            },
    {
        match &self.snapshot_bitfield {
            None => true,
            Some(bitfield) => {
                let byte_index = index / 8;

                if byte_index >= bitfield.len() {
                    return false;
                }
                let bit_index = index % 8;

                (bitfield[byte_index] >> (7 - bit_index)) & 1 != 0
            },
        }
    }

    /// Whether peers that speak the given version tell which snapshot chunks they have.
    pub fn supports_partial_snapshots(protocol_version: u8) -> (r: bool)
        ensures
            r == (protocol_version == PAR_PROTOCOL_VERSION_4),
    {
        match protocol_version {
            PAR_PROTOCOL_VERSION_4 => true,
            _ => false,
        }
    }

    /// Whether the peer has let the time limit of its request pass by `now`.
    pub fn has_timed_out(&self, now: Timestamp) -> (r: bool)
        ensures
            r == self@.timed_out(now),
    {
        let elapsed = time_since(now, self.ask_time);
        match self.asking {
            PeerAsking::BlockHeaders => elapsed > HEADERS_TIMEOUT,
            PeerAsking::BlockBodies => elapsed > BODIES_TIMEOUT,
            PeerAsking::BlockReceipts => elapsed > RECEIPTS_TIMEOUT,
            PeerAsking::Nothing => false,
            PeerAsking::ForkHeader => elapsed > FORK_HEADER_TIMEOUT,
            PeerAsking::SnapshotBitfield => elapsed > SNAPSHOT_BITFIELD_TIMEOUT,
            PeerAsking::SnapshotManifest => elapsed > SNAPSHOT_MANIFEST_TIMEOUT,
            PeerAsking::SnapshotData => elapsed > SNAPSHOT_DATA_TIMEOUT,
        }
    }
}

impl Clone for PeerInfo {
    fn clone(&self) -> (r: PeerInfo)
        ensures
            r@ == self@,
    {
        PeerInfo {
            protocol_version: self.protocol_version,
            genesis: self.genesis,
            network_id: self.network_id,
            latest_hash: self.latest_hash,
            difficulty: self.difficulty,
            asking: self.asking,
            asking_blocks: copy_items(&self.asking_blocks),
            asking_hash: self.asking_hash,
            asking_snapshot_data: self.asking_snapshot_data,
            ask_bitfield_time: self.ask_bitfield_time,
            ask_time: self.ask_time,
            last_sent_transactions: self.last_sent_transactions.clone(),
            expired: self.expired,
            confirmation: self.confirmation,
            snapshot_bitfield: match &self.snapshot_bitfield {
                Some(bitfield) => Some(copy_items(bitfield)),
                None => None,
            },
            snapshot_hash: self.snapshot_hash,
            snapshot_number: self.snapshot_number,
            block_set: self.block_set,
        }
    }
}

impl heapsize::HeapSizeOf for PeerInfo {
    /// What a peer's record keeps on the heap is not counted.
    fn heap_size_of_children(&self) -> (r: usize)
        ensures
            r == 0,
    {
        0
    }
}

} // verus!
