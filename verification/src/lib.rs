//! Chain synchronisation strategy of a blockchain node.
//!
//! The strategy decides which peers to ask for what: new blocks, old blocks, or a snapshot of the
//! chain. It does no input or output of its own. What it reads of its surroundings is handed to
//! it as plain values, and what it wants done it hands out, one action at a time.
//!
//! * `primitives`, `protocol`, `status`, `peer`: the values it works with.
//! * `sync`: the handler `ChainSync`, how it starts and what it reports.
//! * `strategy`, `warp`: its decisions on blocks and peers, and on snapshots.
//! * `agenda`, `machine`: what is still to be done, and how it is done step by step.
//! * `handshake`, `wire`: the status message, and its encoding.
//! * `peers`, `order`, `random`: walks over the peers, and the order of visits.
//! * `meaning`, `meaning_of_warp`, `meaning_of_steps`, `meaning_of_answers`: what the operations
//!   are for, stated on fields and in plain numbers.
//! * `laws`, `outcomes`, `progress`: what holds of the strategy as a whole.

pub mod agenda;
pub mod handshake;
pub mod laws;
pub mod machine;
pub mod meaning;
pub mod meaning_of_answers;
pub mod meaning_of_steps;
pub mod meaning_of_warp;
pub mod order;
pub mod outcomes;
pub mod peer;
pub mod peers;
pub mod primitives;
pub mod progress;
pub mod protocol;
pub mod random;
pub mod status;
pub mod strategy;
pub mod sync;
pub mod warp;
pub mod wire;
