//! Ordered traversal of the library's tables.
//!
//! Tables are `BTreeMap`s and `BTreeSet`s keyed by integers or tuples of
//! integers, so their order is the one std documents for those types.
use vstd::prelude::*;
use std::collections::{BTreeMap, BTreeSet};
use vstd::std_specs::iter::IteratorSpec;
use vstd::std_specs::btree::increasing_seq;
use vstd::laws_cmp::obeys_cmp;
use vstd::std_specs::cmp::OrdSpec;

use crate::types::PeerPubkey;

verus! {

/// `a` comes strictly before `b` in the order std gives to keys of type `K`.
spec fn ref_before<K: Ord>(a: &K, b: &K) -> bool {
    OrdSpec::cmp_spec(&a, &b) is Less
}

/// Keys of type `K` are ordered by a lawful total order.
pub open spec fn lawful_key<K: Ord>() -> bool {
    obeys_cmp::<K>()
}

/// `s` is strictly increasing in the order of `K`.
pub open spec fn ascending<K: Ord>(s: Seq<K>) -> bool {
    increasing_seq(s)
}

proof fn lemma_ascending_push<K: Ord>(prefix: Seq<K>, s: Seq<&K>, n: int)
    requires
        obeys_cmp::<K>(),
        increasing_seq(s),
        0 <= n < s.len(),
        prefix == s.unref().take(n),
        increasing_seq(prefix),
    ensures
        increasing_seq(prefix.push(*s[n])),
{
    broadcast use vstd::laws_cmp::lemma_ref_obeys_cmp_spec;

    assert(obeys_cmp::<&K>());
    vstd::std_specs::btree::axiom_increasing_seq_meaning(s);
    vstd::std_specs::btree::axiom_increasing_seq_meaning(prefix);
    let q = prefix.push(*s[n]);
    assert forall|i: int, j: int| 0 <= i < j < q.len() implies q[i].cmp_spec(&q[j]) is Less by {
        assert(ref_before(s[i], s[j]));
    }
}

/// The keys of `m`, in increasing order.
pub fn sorted_keys<K: Copy + Ord, V>(m: &BTreeMap<K, V>) -> (r: Vec<K>)
    requires
        lawful_key::<K>(),
    ensures
        r@.to_set() == m@.dom(),
        r@.no_duplicates(),
        ascending(r@),
{
    let mut r: Vec<K> = Vec::new();
    for k in it: m.keys()
        invariant
            obeys_cmp::<K>(),
            r@ == it.seq().unref().take(it.index()),
            it.seq().unref().to_set() == m@.dom(),
            it.seq().len() == m@.dom().len(),
            it.seq().no_duplicates(),
            increasing_seq(it.seq()),
            increasing_seq(r@),
            r@.no_duplicates(),
            r@.len() == it.index(),
            r@.to_set().subset_of(m@.dom()),
    {
        proof {
            lemma_ascending_push(r@, it.seq(), it.index());
            assert(it.seq().unref().take(it.index() + 1) == r@.push(*k));
            assert(it.seq().unref().contains(*k));
        }
        r.push(*k);
    }
    proof {
        broadcast use vstd::seq_lib::seq_to_set_is_finite;

        r@.unique_seq_to_set();
        vstd::set_lib::lemma_subset_equality(r@.to_set(), m@.dom());
    }
    r
}

/// The elements of `s`, in increasing order.
pub fn set_elements<K: Copy + Ord>(s: &BTreeSet<K>) -> (r: Vec<K>)
    requires
        lawful_key::<K>(),
    ensures
        r@.to_set() == s@,
        r@.no_duplicates(),
        ascending(r@),
{
    let mut r: Vec<K> = Vec::new();
    for k in it: s.iter()
        invariant
            obeys_cmp::<K>(),
            r@ == it.seq().unref().take(it.index()),
            it.seq().unref().to_set() == s@,
            it.seq().len() == s@.len(),
            it.seq().no_duplicates(),
            increasing_seq(it.seq()),
            increasing_seq(r@),
            r@.no_duplicates(),
            r@.len() == it.index(),
            r@.to_set().subset_of(s@),
    {
        proof {
            lemma_ascending_push(r@, it.seq(), it.index());
            assert(it.seq().unref().take(it.index() + 1) == r@.push(*k));
            assert(it.seq().unref().contains(*k));
        }
        r.push(*k);
    }
    proof {
        broadcast use vstd::seq_lib::seq_to_set_is_finite;

        r@.unique_seq_to_set();
        vstd::set_lib::lemma_subset_equality(r@.to_set(), s@);
    }
    r
}

/// For major versions the order is the integer order.
pub proof fn lemma_ascending_u16(s: Seq<u16>)
    requires
        ascending(s),
    ensures
        forall|i: int, j: int| 0 <= i < j < s.len() ==> s[i] < s[j],
{
    assert forall|i: int, j: int| 0 <= i < j < s.len() implies s[i] < s[j] by {
        assert(s[i].cmp_spec(&s[j]) is Less);
    }
}

/// For module identifiers the order is the integer order.
pub proof fn lemma_ascending_u32(s: Seq<u32>)
    requires
        ascending(s),
    ensures
        forall|i: int, j: int| 0 <= i < j < s.len() ==> s[i] < s[j],
{
    assert forall|i: int, j: int| 0 <= i < j < s.len() implies s[i] < s[j] by {
        assert(s[i].cmp_spec(&s[j]) is Less);
    }
}

/// For byte keys the order is the integer order.
pub proof fn lemma_ascending_u8(s: Seq<u8>)
    requires
        ascending(s),
    ensures
        forall|i: int, j: int| 0 <= i < j < s.len() ==> s[i] < s[j],
{
    assert forall|i: int, j: int| 0 <= i < j < s.len() implies s[i] < s[j] by {
        assert(s[i].cmp_spec(&s[j]) is Less);
    }
}

/// For peer keys the order is the lexicographic order of the two halves.
pub proof fn lemma_ascending_peer(s: Seq<PeerPubkey>)
    requires
        ascending(s),
    ensures
        forall|i: int, j: int|
            0 <= i < j < s.len() ==> crate::types::peer_before(s[i], s[j]),
{
    assert forall|i: int, j: int| 0 <= i < j < s.len() implies crate::types::peer_before(
        s[i],
        s[j],
    ) by {
        assert(s[i].cmp_spec(&s[j]) is Less);
    }
}

proof fn lemma_peer_key_order(a: PeerPubkey, b: PeerPubkey)
    ensures
        (a.cmp_spec(&b) is Less) == crate::types::peer_before(a, b),
        (a.cmp_spec(&b) is Equal) == (a == b),
{
}

/// Keys made of one byte and a peer key are ordered lexicographically.
pub proof fn lemma_ascending_byte_peer(s: Seq<(u8, PeerPubkey)>)
    requires
        ascending(s),
    ensures
        forall|i: int, j: int|
            0 <= i < j < s.len() ==> crate::types::byte_peer_before(s[i], s[j]),
{
    assert forall|i: int, j: int| 0 <= i < j < s.len() implies crate::types::byte_peer_before(
        s[i],
        s[j],
    ) by {
        assert(s[i].cmp_spec(&s[j]) is Less);
        lemma_peer_key_order(s[i].1, s[j].1);
    }
}

/// The key types of the library's tables are lawfully ordered.
pub proof fn lemma_lawful_keys()
    ensures
        lawful_key::<u8>(),
        lawful_key::<u32>(),
        lawful_key::<u16>(),
        lawful_key::<PeerPubkey>(),
        lawful_key::<(PeerPubkey, u32)>(),
        lawful_key::<(u8, PeerPubkey)>(),
{
}

} // verus!
