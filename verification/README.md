# chain_sync

The synchronisation strategy of a blockchain node, written in Verus: executable Rust whose
behaviour is stated in contracts and proved.

`src/` is the strategy. `ChainSync` keeps what is known of the connected peers and decides what to
ask of them. A method answers with the tasks that are to follow; `ChainSync::advance` does one task
at a time and hands out what others have to do: performing a command, saying whether a block is
known, finding blocks to request, sending a request. Everything that the strategy reads of its
surroundings comes in as plain values (`Surroundings`).

The contracts speak of the model `SyncModel`, in which the peers are a map and the active ones a
set. `laws.rs` states what holds of the strategy as a whole: what a reset leaves behind, who is
asked for what, when a snapshot is taken, what warp sync excludes. `outcomes.rs` states what whole
agendas come to. `progress.rs` shows that an agenda comes to its end where every question gets its
reply and nothing but the steps themselves changes what the sync is about.

Not proved, but believed, is what the contracts in `random.rs`, `wire.rs` and `peers.rs` claim of
the crates `rand`, `rlp`, `keccak-hash` and `heapsize`; each of these functions says so.

`app/` puts the strategy to work: it performs the actions, behind traits for the chain, the
network, the downloads and the packet handlers of a node.

`tests/` runs the library on concrete values.
