//! Encoding of packets for the wire, and hashing.

use vstd::prelude::*;
use crate::primitives::{H256, U256};

verus! {

/// The digits of `n` in base 256, most significant first and without leading zeros.
pub open spec fn big_endian(n: nat) -> Seq<u8>
    decreases n,
{
    if n == 0 {
        Seq::empty()
    } else {
        big_endian(n / 256).push((n % 256) as u8)
    }
}

/// The encoding of a string of at most 55 bytes: a single byte below 0x80 stands for itself, any
/// other string follows a byte that tells its length.
pub open spec fn rlp_string(data: Seq<u8>) -> Seq<u8> {
    if data.len() == 1 && data[0] < 0x80 {
        data
    } else {
        seq![(0x80 + data.len()) as u8] + data
    }
}

/// The encoding of a list of fewer than 2^32 bytes, given the encodings of its items one after
/// the other: they follow a byte that tells their length, or the length of their length where it
/// is more than 55.
pub open spec fn rlp_list(payload: Seq<u8>) -> Seq<u8> {
    if payload.len() <= 55 {
        seq![(0xc0 + payload.len()) as u8] + payload
    } else {
        let size = big_endian(payload.len());
        seq![(0xf7 + size.len()) as u8] + size + payload
    }
}

/// The encoder of `rlp`.
#[verifier::external_type_specification]
#[verifier::external_body]
pub struct ExRlpStream(rlp::RlpStream);

/// The encoded items that were appended to the one list of an encoder, in order.
pub uninterp spec fn stream_items(stream: rlp::RlpStream) -> Seq<Seq<u8>>;

/// The number of items that the one list of an encoder was made for.
pub uninterp spec fn stream_limit(stream: rlp::RlpStream) -> nat;

/// Calls `rlp::RlpStream::new_list`: an encoder that holds one list without items, to be filled
/// with `len` of them. The list must be for at least one item: an empty one would be complete at
/// once.
#[verifier::external_body]
pub(crate) fn new_list(len: usize) -> (stream: rlp::RlpStream)
    requires
        len > 0,
    ensures
        stream_items(stream) == Seq::<Seq<u8>>::empty(),
        stream_limit(stream) == len,
{
    rlp::RlpStream::new_list(len)
}

/// Calls `rlp::RlpStream::append` with a `u64`: appends the encoding of the number's big endian
/// bytes to the list, in which there must be room for it.
#[verifier::external_body]
pub(crate) fn append_u64(stream: &mut rlp::RlpStream, value: u64)
    requires
        stream_items(*old(stream)).len() < stream_limit(*old(stream)),
    ensures
        stream_items(*final(stream)) == stream_items(*old(stream)).push(
            rlp_string(big_endian(value as nat)),
        ),
        stream_limit(*final(stream)) == stream_limit(*old(stream)),
{
    stream.append(&value);
}

/// Calls `rlp::RlpStream::append` with a `U256` of `ethereum_types`: appends the encoding of the
/// number's big endian bytes to the list, in which there must be room for it.
#[verifier::external_body]
pub(crate) fn append_u256(stream: &mut rlp::RlpStream, value: &U256)
    requires
        stream_items(*old(stream)).len() < stream_limit(*old(stream)),
    ensures
        stream_items(*final(stream)) == stream_items(*old(stream)).push(
            rlp_string(big_endian(value.value())),
        ),
        stream_limit(*final(stream)) == stream_limit(*old(stream)),
{
    stream.append(&ethereum_types::U256(value.0));
}

/// Calls `rlp::RlpStream::append` with an `H256` of `ethereum_types`: appends the encoding of the
/// hash's bytes to the list, in which there must be room for it.
#[verifier::external_body]
pub(crate) fn append_h256(stream: &mut rlp::RlpStream, value: &H256)
    requires
        stream_items(*old(stream)).len() < stream_limit(*old(stream)),
    ensures
        stream_items(*final(stream)) == stream_items(*old(stream)).push(rlp_string(value.0@)),
        stream_limit(*final(stream)) == stream_limit(*old(stream)),
{
    stream.append(&ethereum_types::H256(value.0));
}

/// Calls `rlp::RlpStream::out`: the encoding of the list. The call panics unless the list is
/// full; and the length of a list is told in four bytes at most.
#[verifier::external_body]
pub(crate) fn out(stream: rlp::RlpStream) -> (bytes: Vec<u8>)
    requires
        stream_items(stream).len() == stream_limit(stream),
        stream_items(stream).flatten().len() <= 0xffff_ffff,
    ensures
        bytes@ == rlp_list(stream_items(stream).flatten()),
{
    stream.out()
}

/// The 32 bytes of the Keccak-256 hash of `data`.
pub uninterp spec fn keccak256(data: Seq<u8>) -> Seq<u8>;

/// Calls `keccak_hash::keccak`: the Keccak-256 hash of `data`.
#[verifier::external_body]
pub(crate) fn keccak(data: &Vec<u8>) -> (hash: H256)
    ensures
        hash.0@ == keccak256(data@),
{
    H256(keccak_hash::keccak(data).0)
}

/// A number below 256^k has at most `k` digits in base 256.
pub proof fn lemma_big_endian_len(n: nat, k: nat)
    requires
        n < vstd::arithmetic::power::pow(256, k),
    ensures
        big_endian(n).len() <= k,
    decreases k,
{
    reveal(vstd::arithmetic::power::pow);
    if n > 0 && k > 0 {
        let p = vstd::arithmetic::power::pow(256, (k - 1) as nat);
        assert(n / 256 < p) by (nonlinear_arith)
            requires
                n < 256 * p,
        ;
        lemma_big_endian_len(n / 256, (k - 1) as nat);
    }
}

} // verus!
