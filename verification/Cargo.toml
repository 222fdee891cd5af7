[package]
name = "chain_sync"
version = "0.1.0"
edition = "2021"
publish = false

[dependencies]
ethereum-types = "0.4"
heapsize = "0.4"
keccak-hash = "0.1"
parity-bytes = "0.1"
parking_lot = "0.6"
plain_hasher = "0.2"
rand = "0.4"
rlp = "0.2"
