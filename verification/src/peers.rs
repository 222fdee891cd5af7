//! Walks over the connected peers.

use vstd::prelude::*;
use heapsize::HeapSizeOf;
use std::collections::HashMap;
use vstd::std_specs::iter::IteratorSpec;
use crate::peer::{PeerInfo, PeerModel};
use crate::primitives::PeerId;

verus! {

broadcast use vstd::std_specs::hash::group_hash_axioms;

/// All connected peers.
pub type Peers = HashMap<PeerId, PeerInfo>;

/// The peers as the specifications speak of them.
pub open spec fn peers_model(peers: Map<PeerId, PeerInfo>) -> Map<PeerId, PeerModel> {
    peers.map_values(|p: PeerInfo| p@)
}

/// The peers of which `f` holds.
pub open spec fn peers_with(peers: Map<PeerId, PeerModel>, f: spec_fn(PeerModel) -> bool) -> Set<
    PeerId,
> {
    Set::new(|id: PeerId| peers.contains_key(id) && f(peers[id]))
}

/// Whether `ids` holds each item of `set` once, in some order, and nothing else.
pub open spec fn lists(ids: Seq<PeerId>, set: Set<PeerId>) -> bool {
    ids.no_duplicates() && ids.to_set() == set
}

/// A list of a set's items is as long as the set.
pub proof fn lemma_lists_len(ids: Seq<PeerId>, set: Set<PeerId>)
    requires
        lists(ids, set),
    ensures
        set.finite(),
        ids.len() == set.len(),
{
    ids.unique_seq_to_set();
    vstd::seq_lib::seq_to_set_is_finite(ids);
}

/// The identifiers of all peers that `peers` tells of, in no particular order.
pub(crate) fn peer_ids<V>(peers: &HashMap<PeerId, V>) -> (ids: Vec<PeerId>)
    ensures
        lists(ids@, peers@.dom()),
{
    let mut ids: Vec<PeerId> = Vec::new();
    for id in it: peers.keys()
        invariant
            ids@ == it.seq().unref().take(it.index() as int),
    {
        ids.push(*id);
        assert(it.seq().unref().take(it.index() + 1) =~= it.seq().unref().take(
            it.index() as int,
        ).push(*id));
    }
    proof {
        let keys = peers.keys().remaining();
        assert(ids@ =~= keys.unref());
        assert forall|i: int, j: int|
            0 <= i < ids@.len() && 0 <= j < ids@.len() && i != j implies ids@[i] != ids@[j] by {
            assert(*keys[i] == ids@[i] && *keys[j] == ids@[j]);
            assert(keys[i] != keys[j]);
        }
    }
    ids
}

/// The peers of which `pred` holds, in no particular order.
pub(crate) fn select(
    peers: &Peers,
    pred: impl Fn(&PeerInfo) -> bool,
    Ghost(f): Ghost<spec_fn(PeerModel) -> bool>,
) -> (ids: Vec<PeerId>)
    requires
        forall|p: &PeerInfo| call_requires(pred, (p,)),
        forall|p: &PeerInfo, r: bool| call_ensures(pred, (p,), r) ==> r == f(p@),
    ensures
        lists(ids@, peers_with(peers_model(peers@), f)),
{
    let all = peer_ids(peers);
    let mut ids: Vec<PeerId> = Vec::new();
    let mut i: usize = 0;
    while i < all.len()
        invariant
            i <= all.len(),
            lists(all@, peers@.dom()),
            forall|p: &PeerInfo| call_requires(pred, (p,)),
            forall|p: &PeerInfo, r: bool| call_ensures(pred, (p,), r) ==> r == f(p@),
            ids@.no_duplicates(),
            forall|id: PeerId| #[trigger]
                ids@.contains(id) <==> (all@.take(i as int).contains(id) && f(peers@[id]@)),
        decreases all.len() - i,
    {
        let id = all[i];
        let ghost before = ids@;
        assert(all@.contains(id));
        assert(all@.to_set().contains(id));
        assert(!all@.take(i as int).contains(id));
        assert(all@.take(i + 1) =~= all@.take(i as int).push(id));
        assert(!ids@.contains(id));
        match peers.get(&id) {
            Some(peer) => {
                if pred(peer) {
                    ids.push(id);
                }
            },
            None => {},
        }
        assert forall|x: PeerId| #[trigger]
            ids@.contains(x) <==> (all@.take(i + 1).contains(x) && f(peers@[x]@)) by {
            lemma_push_contains(all@.take(i as int), id, x);
            lemma_push_contains(before, id, x);
        }
        i = i + 1;
    }
    assert(all@.take(i as int) =~= all@);
    assert forall|id: PeerId| ids@.to_set().contains(id) <==> peers_with(
        peers_model(peers@),
        f,
    ).contains(id) by {
        assert(ids@.contains(id) <==> (all@.contains(id) && f(peers@[id]@)));
        assert(all@.contains(id) <==> all@.to_set().contains(id));
    }
    assert(ids@.to_set() =~= peers_with(peers_model(peers@), f));
    ids
}

/// Calls `heapsize::HeapSizeOf::heap_size_of_children` on the table of peers: the heap memory that
/// it takes, in bytes. The result rests on how much the allocator gave, so nothing is claimed of
/// it.
#[verifier::external_body]
pub(crate) fn peers_heap_size(peers: &Peers) -> (n: usize) {
    peers.heap_size_of_children()
}

/// What a sequence holds after one more item.
pub proof fn lemma_push_contains<A>(s: Seq<A>, x: A, y: A)
    ensures
        s.push(x).contains(y) <==> (s.contains(y) || y == x),
{
    let t = s.push(x);
    if s.contains(y) {
        let i = choose|i: int| 0 <= i < s.len() && s[i] == y;
        assert(t[i] == y);
    }
    assert(t[s.len() as int] == x);
}

/// One item more in a sequence is one item more in its set.
pub proof fn lemma_to_set_push<A>(s: Seq<A>, x: A)
    ensures
        s.push(x).to_set() == s.to_set().insert(x),
{
    assert forall|y: A| #[trigger]
        s.push(x).to_set().contains(y) == s.to_set().insert(x).contains(y) by {
        lemma_push_contains(s, x, y);
    }
    assert(s.push(x).to_set() =~= s.to_set().insert(x));
}

} // verus!
