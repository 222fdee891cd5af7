//! The order in which peers are visited.

use vstd::prelude::*;
use crate::primitives::PeerId;

verus! {

/// Whether no version comes before a higher one.
pub open spec fn sorted_by_version(s: Seq<(PeerId, u8)>) -> bool {
    forall|i: int, j: int| 0 <= i < j < s.len() ==> (#[trigger] s[i]).1 >= (#[trigger] s[j]).1
}

/// The peers of the given version, in the order in which `s` holds them.
pub open spec fn of_version(s: Seq<(PeerId, u8)>, version: u8) -> Seq<(PeerId, u8)> {
    s.filter(|peer: (PeerId, u8)| peer.1 == version)
}

/// Whether `r` is `s` sorted by version, with peers of one version left in order.
pub open spec fn stable_sort(s: Seq<(PeerId, u8)>, r: Seq<(PeerId, u8)>) -> bool {
    &&& sorted_by_version(r)
    &&& r.to_multiset() == s.to_multiset()
    &&& forall|version: u8| #[trigger] of_version(r, version) == of_version(s, version)
}

/// Inserting `x` between those of its version or a higher one and those of a lower version keeps
/// `r` a stable sort.
proof fn lemma_insert(s: Seq<(PeerId, u8)>, r: Seq<(PeerId, u8)>, k: int, x: (PeerId, u8))
    requires
        stable_sort(s, r),
        0 <= k <= r.len(),
        forall|i: int| 0 <= i < k ==> (#[trigger] r[i]).1 >= x.1,
        forall|i: int| k <= i < r.len() ==> (#[trigger] r[i]).1 < x.1,
    ensures
        stable_sort(s.push(x), r.insert(k, x)),
{
    let t = r.insert(k, x);
    let low = r.take(k);
    let high = r.skip(k);
    assert(r =~= low + high);
    assert(t =~= low.push(x) + high);
    assert(t.to_multiset() == s.push(x).to_multiset()) by {
        broadcast use vstd::seq_lib::group_to_multiset_ensures;
        assert(t.remove(k) =~= r);
        assert(t.remove(k).to_multiset() =~= t.to_multiset().remove(x));
        assert(t[k] == x);
        assert(t.contains(x));
        assert(t.to_multiset().count(x) > 0);
        assert(t.to_multiset() =~= r.to_multiset().insert(x));
        assert(s.push(x).to_multiset() =~= s.to_multiset().insert(x));
    }
    assert forall|version: u8| #[trigger]
        of_version(t, version) == of_version(s.push(x), version) by {
        let f = |peer: (PeerId, u8)| peer.1 == version;
        assert(of_version(r, version) == of_version(s, version));
        Seq::filter_distributes_over_add(low, high, f);
        Seq::filter_distributes_over_add(low.push(x), high, f);
        low.lemma_filter_push(x, f);
        s.lemma_filter_push(x, f);
        if version == x.1 {
            assert(high.all(|y: (PeerId, u8)| !f(y)));
            high.lemma_all_neg_filter_empty(f);
            assert(high.filter(f) =~= Seq::empty());
            assert(low.filter(f) + Seq::empty() =~= low.filter(f));
            assert(low.filter(f).push(x) + Seq::empty() =~= low.filter(f).push(x));
        }
    }
    assert forall|i: int, j: int| 0 <= i < j < t.len() implies (#[trigger] t[i]).1 >= (
    #[trigger] t[j]).1 by {
        let a = if i < k { i } else { i - 1 };
        let b = if j < k { j } else { j - 1 };
        if i != k && j != k {
            assert(t[i] == r[a] && t[j] == r[b]);
        } else if i == k {
            assert(t[j] == r[b]);
        } else {
            assert(t[i] == r[a]);
        }
    }
}

/// The peers of a version are those that any test for that version lets through.
pub proof fn lemma_of_version(
    s: Seq<(PeerId, u8)>,
    version: u8,
    f: spec_fn((PeerId, u8)) -> bool,
)
    requires
        forall|peer: (PeerId, u8)| #[trigger] f(peer) == (peer.1 == version),
    ensures
        of_version(s, version) == s.filter(f),
    decreases s.len(),
{
    reveal(Seq::filter);
    if s.len() > 0 {
        lemma_of_version(s.drop_last(), version, f);
    }
}

/// Sorts peers by protocol version, the highest first. Those of one version stay in order.
pub fn order_by_version(peers: Vec<(PeerId, u8)>) -> (sorted: Vec<(PeerId, u8)>)
    ensures
        stable_sort(peers@, sorted@),
{
    let mut sorted: Vec<(PeerId, u8)> = Vec::new();
    let mut i: usize = 0;
    assert(peers@.take(0) =~= Seq::empty());
    while i < peers.len()
        invariant
            i <= peers.len(),
            stable_sort(peers@.take(i as int), sorted@),
        decreases peers.len() - i,
    {
        let x = peers[i];
        let mut k: usize = sorted.len();
        while k > 0 && sorted[k - 1].1 < x.1
            invariant
                k <= sorted.len(),
                sorted_by_version(sorted@),
                forall|j: int| k <= j < sorted.len() ==> (#[trigger] sorted@[j]).1 < x.1,
            decreases k,
        {
            k = k - 1;
        }
        proof {
            lemma_insert(peers@.take(i as int), sorted@, k as int, x);
            assert(peers@.take(i + 1) =~= peers@.take(i as int).push(x));
        }
        sorted.insert(k, x);
        i = i + 1;
    }
    assert(peers@.take(i as int) =~= peers@);
    sorted
}

} // verus!
