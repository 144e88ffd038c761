use vstd::prelude::*;
use std::collections::BTreeMap;

use super::citem::{citems_view, MetaCitem, MetaCitemView};
use crate::effects::{effects_view, CItemEffect, EffectView, KeyValueConsensusEffect};
use crate::keys::{
    lemma_ascending_byte_peer, lemma_ascending_u8, lemma_lawful_keys, set_elements, sorted_keys,
};
use crate::num_peers::{lemma_threshold_majority, spec_threshold, threshold};
use crate::types::{
    ascending_bytes, byte_peer_before, bytes_eq, lemma_ascending_bytes_lists,
    lemma_ascending_bytes_unique, peer_before,
    peer_eq, ConsensusVersion, PeerPubkey, PeerSet,
};

verus! {

/// Table of votes: `(key, voter) -> value`.
pub type MetaVotes = BTreeMap<(u8, PeerPubkey), Vec<u8>>;

/// Why the meta module rejected a consensus item.
#[derive(PartialEq, Eq, Structural, Clone, Copy, Debug)]
pub enum MetaError {
    /// The approved peer has no vote for the key.
    InvalidPeerPubkey,
    /// The module accepts no inputs.
    InputsNotSupported,
    /// The module accepts no outputs.
    OutputsNotSupported,
}

/// The tables of the meta module.
pub struct MetaTables {
    /// Votes of each peer for each key.
    pub key_value_votes: MetaVotes,
    /// Values the peers agreed on.
    pub consensus_values: BTreeMap<u8, Vec<u8>>,
    /// Values this node wants to propose.
    pub pending_proposals: BTreeMap<u8, Vec<u8>>,
}

impl MetaModule {
    /// Creates the module's tables, all empty.
    pub fn init_db_tx() -> (r: MetaTables)
        ensures
            r.key_value_votes@ == Map::<(u8, PeerPubkey), Vec<u8>>::empty(),
            r.consensus_values@ == Map::<u8, Vec<u8>>::empty(),
            r.pending_proposals@ == Map::<u8, Vec<u8>>::empty(),
    {
        MetaTables {
            key_value_votes: BTreeMap::new(),
            consensus_values: BTreeMap::new(),
            pending_proposals: BTreeMap::new(),
        }
    }
}

/// The meta module: its version, this node's peer key, its tables and the
/// consensus items it currently proposes.
pub struct MetaModule {
    pub version: ConsensusVersion,
    pub peer_pubkey: Option<PeerPubkey>,
    pub db: MetaTables,
    pub proposed_citems: Vec<MetaCitem>,
}

/// The votes table with values in plain form.
pub open spec fn votes_view(votes: Map<(u8, PeerPubkey), Vec<u8>>) -> Map<(u8, PeerPubkey), Seq<u8>> {
    votes.map_values(|v: Vec<u8>| v@)
}

/// A key-to-value table with values in plain form.
pub open spec fn values_view(values: Map<u8, Vec<u8>>) -> Map<u8, Seq<u8>> {
    values.map_values(|v: Vec<u8>| v@)
}

/// The peers of `peers` that voted `value` for `key`.
pub open spec fn value_voters(
    votes: Map<(u8, PeerPubkey), Seq<u8>>,
    peers: Set<PeerPubkey>,
    key: u8,
    value: Seq<u8>,
) -> Set<PeerPubkey> {
    peers.filter(|p: PeerPubkey| votes.contains_key((key, p)) && votes[(key, p)] == value)
}

/// Enough peers of `peers` voted `value` for `key` to agree on it.
pub open spec fn reaches_threshold(
    votes: Map<(u8, PeerPubkey), Seq<u8>>,
    peers: Set<PeerPubkey>,
    key: u8,
    value: Seq<u8>,
) -> bool {
    &&& value_voters(votes, peers, key, value).len() >= spec_threshold(peers.len())
    &&& value_voters(votes, peers, key, value).len() > 0
}

/// `votes` without the votes for `key` of peers in `peers`.
pub open spec fn without_key_votes<V>(
    votes: Map<(u8, PeerPubkey), V>,
    peers: Set<PeerPubkey>,
    key: u8,
) -> Map<(u8, PeerPubkey), V> {
    votes.restrict(
        votes.dom().filter(|kp: (u8, PeerPubkey)| kp.0 != key || !peers.contains(kp.1)),
    )
}

/// Processing `voter`'s vote for `value` as the value of `key`, where
/// `peers` is the effective peer set, takes the tables from `old` to `new`
/// and emits `effects`.
///
/// A vote already recorded changes nothing. Otherwise it is recorded, and
/// once a threshold of the peers voted the same value, the value is agreed,
/// the pending proposal for the key is dropped and the peers' votes for the
/// key are cleared.
pub open spec fn vote_step(
    old: MetaTables,
    new: MetaTables,
    voter: PeerPubkey,
    peers: Set<PeerPubkey>,
    key: u8,
    value: Seq<u8>,
    effects: Seq<EffectView>,
) -> bool {
    let votes = votes_view(old.key_value_votes@);
    if votes.contains_key((key, voter)) && votes[(key, voter)] == value {
        new == old && effects == Seq::<EffectView>::empty()
    } else {
        let votes1 = votes.insert((key, voter), value);
        if reaches_threshold(votes1, peers, key, value) {
            &&& votes_view(new.key_value_votes@) == without_key_votes(votes1, peers, key)
            &&& values_view(new.consensus_values@) == values_view(old.consensus_values@).insert(
                key,
                value,
            )
            &&& values_view(new.pending_proposals@) == values_view(
                old.pending_proposals@,
            ).remove(key)
            &&& effects == seq![EffectView::KeyValueConsensus(key, value)]
        } else {
            &&& votes_view(new.key_value_votes@) == votes1
            &&& new.consensus_values == old.consensus_values
            &&& new.pending_proposals == old.pending_proposals
            &&& effects == Seq::<EffectView>::empty()
        }
    }
}

/// `p` voted `value` for `key`.
pub open spec fn voted(votes: Map<(u8, PeerPubkey), Seq<u8>>, key: u8, value: Seq<u8>, p: PeerPubkey) -> bool {
    votes.contains_key((key, p)) && votes[(key, p)] == value
}

/// The first peer, in key order, that voted `value` for `key`.
pub open spec fn first_voter(votes: Map<(u8, PeerPubkey), Seq<u8>>, key: u8, value: Seq<u8>) -> PeerPubkey {
    choose|p: PeerPubkey|
        voted(votes, key, value, p) && forall|q: PeerPubkey|
            voted(votes, key, value, q) ==> !peer_before(q, p)
}

/// This node should propose its pending value for `key`: it has not voted
/// that value yet.
pub open spec fn proposal_due(db: &MetaTables, me: Option<PeerPubkey>, k: u8) -> bool {
    &&& db.pending_proposals@.contains_key(k)
    &&& match me {
        Some(p) => !voted(
            votes_view(db.key_value_votes@),
            k,
            db.pending_proposals@[k]@,
            p,
        ),
        None => true,
    }
}

/// The item proposing this node's pending value for `k`: approval of the
/// first peer that already voted that value, or else the value itself.
pub open spec fn spec_proposal(db: &MetaTables, k: u8) -> MetaCitemView {
    let votes = votes_view(db.key_value_votes@);
    let value = db.pending_proposals@[k]@;
    if exists|p: PeerPubkey| voted(votes, k, value, p) {
        MetaCitemView::ApproveVote { key: k, peer_pubkey: first_voter(votes, k, value) }
    } else {
        MetaCitemView::ProposeValue { key: k, value }
    }
}

/// All items this node proposes, in increasing key order.
pub open spec fn spec_meta_proposals(db: &MetaTables, me: Option<PeerPubkey>) -> Seq<MetaCitemView> {
    ascending_bytes(db.pending_proposals@.dom()).filter(|k: u8| proposal_due(db, me, k)).map_values(
        |k: u8| spec_proposal(db, k),
    )
}

/// The key a meta consensus item is about.
pub open spec fn citem_key(c: MetaCitemView) -> u8 {
    match c {
        MetaCitemView::ProposeValue { key, .. } => key,
        MetaCitemView::ApproveVote { key, .. } => key,
    }
}

/// While this node wants `k` to take a value that its recorded vote for `k`
/// does not already give (it has no vote for `k`, or voted another value),
/// it proposes an item about `k`.
pub proof fn lemma_changed_pending_value_is_proposed(db: MetaTables, me: PeerPubkey, k: u8)
    requires
        db.pending_proposals@.contains_key(k),
        !(db.key_value_votes@.contains_key((k, me)) && db.key_value_votes@[(k, me)]@
            == db.pending_proposals@[k]@),
    ensures
        exists|i: int|
            0 <= i < spec_meta_proposals(&db, Some(me)).len() && #[trigger] citem_key(
                spec_meta_proposals(&db, Some(me))[i],
            ) == k,
{
    broadcast use vstd::std_specs::btree::group_btree_axioms;
    broadcast use vstd::seq_lib::group_filter_ensures;

    let dom = db.pending_proposals@.dom();
    lemma_ascending_bytes_lists(dom);
    let q = ascending_bytes(dom);
    let pred = |x: u8| proposal_due(&db, Some(me), x);
    assert(q.to_set().contains(k));
    let j = choose|j: int| 0 <= j < q.len() && q[j] == k;
    assert(pred(q[j]));
    let f = q.filter(pred);
    assert(f.contains(q[j]));
    let i = choose|i: int| 0 <= i < f.len() && f[i] == k;
    let props = spec_meta_proposals(&db, Some(me));
    assert(props[i] == spec_proposal(&db, f[i]));
    assert(citem_key(props[i]) == k);
}

/// Every item the node proposes is about a key it has a pending value for
/// and has not yet voted that value for; a value it proposes is that
/// pending value.
pub proof fn lemma_meta_proposals_follow_pending_values(db: MetaTables, me: PeerPubkey)
    ensures
        forall|i: int| #![trigger spec_meta_proposals(&db, Some(me))[i]]
            0 <= i < spec_meta_proposals(&db, Some(me)).len() ==> {
                let c = spec_meta_proposals(&db, Some(me))[i];
                let k = citem_key(c);
                &&& db.pending_proposals@.contains_key(k)
                &&& !(db.key_value_votes@.contains_key((k, me)) && db.key_value_votes@[(k, me)]@
                    == db.pending_proposals@[k]@)
                &&& (c matches MetaCitemView::ProposeValue { value, .. } ==> value
                    == db.pending_proposals@[k]@)
            },
{
    broadcast use vstd::seq_lib::group_filter_ensures;

    let q = ascending_bytes(db.pending_proposals@.dom());
    let pred = |x: u8| proposal_due(&db, Some(me), x);
    let f = q.filter(pred);
    let props = spec_meta_proposals(&db, Some(me));
    assert forall|i: int| #![trigger props[i]] 0 <= i < props.len() implies {
        let c = props[i];
        let k = citem_key(c);
        &&& db.pending_proposals@.contains_key(k)
        &&& !(db.key_value_votes@.contains_key((k, me)) && db.key_value_votes@[(k, me)]@
            == db.pending_proposals@[k]@)
        &&& (c matches MetaCitemView::ProposeValue { value, .. } ==> value
            == db.pending_proposals@[k]@)
    } by {
        assert(props[i] == spec_proposal(&db, f[i]));
        assert(pred(f[i]));
        assert(citem_key(props[i]) == f[i]);
    }
}

/// A meta item either agrees on a value or leaves the agreed values and
/// this node's pending values as they were. When it agrees on value `v`
/// for key `k` (its only effect), `v` becomes the agreed value of `k` and
/// `k` is no longer pending; the other pending values stay.
pub proof fn lemma_agreed_value_leaves_pending(
    old: MetaTables,
    new: MetaTables,
    voter: PeerPubkey,
    peers: Set<PeerPubkey>,
    citem: MetaCitemView,
    effects: Seq<EffectView>,
)
    requires
        meta_citem_step(old, new, voter, peers, citem, Ok::<_, MetaError>(effects)),
    ensures
        effects.len() == 0 ==> {
            &&& values_view(new.consensus_values@) == values_view(old.consensus_values@)
            &&& values_view(new.pending_proposals@) == values_view(old.pending_proposals@)
        },
        effects.len() != 0 ==> {
            &&& effects.len() == 1
            &&& effects[0] matches EffectView::KeyValueConsensus(k, v) && {
                &&& k == citem_key(citem)
                &&& !new.pending_proposals@.contains_key(k)
                &&& new.consensus_values@.contains_key(k)
                &&& new.consensus_values@[k]@ == v
                &&& forall|j: u8| #![trigger new.pending_proposals@.contains_key(j)]
                    j != k ==> (new.pending_proposals@.contains_key(j)
                        == old.pending_proposals@.contains_key(j) && (
                    old.pending_proposals@.contains_key(j) ==> new.pending_proposals@[j]@
                        == old.pending_proposals@[j]@))
            }
        },
{
    let (k, v) = match citem {
        MetaCitemView::ProposeValue { key, value } => (key, value),
        MetaCitemView::ApproveVote { key, peer_pubkey } => (key, votes_view(old.key_value_votes@)[(
            key,
            peer_pubkey,
        )]),
    };
    if effects.len() != 0 {
        assert(effects == seq![EffectView::KeyValueConsensus(k, v)]);
        assert(values_view(new.consensus_values@).contains_key(k));
        assert(values_view(new.consensus_values@)[k] == v);
        assert(new.consensus_values@.contains_key(k));
        assert(values_view(new.consensus_values@)[k] == new.consensus_values@[k]@);
        assert(!values_view(new.pending_proposals@).contains_key(k));
        assert(!new.pending_proposals@.contains_key(k));
        assert(k == citem_key(citem));
        assert forall|j: u8| #![trigger new.pending_proposals@.contains_key(j)]
            j != k implies (new.pending_proposals@.contains_key(j)
                == old.pending_proposals@.contains_key(j) && (old.pending_proposals@.contains_key(j)
                ==> new.pending_proposals@[j]@ == old.pending_proposals@[j]@)) by {
            assert(values_view(new.pending_proposals@).contains_key(j) == values_view(
                old.pending_proposals@,
            ).contains_key(j));
            if old.pending_proposals@.contains_key(j) {
                assert(values_view(new.pending_proposals@)[j] == values_view(old.pending_proposals@)[j]);
            }
        }
    }
}

/// A value that the voter has already voted for a key, voted again, is
/// accepted and changes nothing.
pub proof fn lemma_recorded_key_value_vote_is_noop(
    old: MetaTables,
    new: MetaTables,
    voter: PeerPubkey,
    peers: Set<PeerPubkey>,
    key: u8,
    value: Seq<u8>,
    r: Result<Seq<EffectView>, MetaError>,
)
    requires
        meta_citem_step(old, new, voter, peers, MetaCitemView::ProposeValue { key, value }, r),
        votes_view(old.key_value_votes@).contains_key((key, voter)),
        votes_view(old.key_value_votes@)[(key, voter)] == value,
    ensures
        r == Ok::<_, MetaError>(Seq::<EffectView>::empty()),
        new == old,
{
}

/// At most one value of a key can reach the threshold: two groups of
/// agreeing peers always overlap, and each peer has one vote per key.
pub proof fn lemma_single_agreed_value(
    votes: Map<(u8, PeerPubkey), Seq<u8>>,
    peers: Set<PeerPubkey>,
    key: u8,
    v1: Seq<u8>,
    v2: Seq<u8>,
)
    requires
        peers.finite(),
        reaches_threshold(votes, peers, key, v1),
        reaches_threshold(votes, peers, key, v2),
    ensures
        v1 == v2,
{
    if v1 != v2 {
        let a = value_voters(votes, peers, key, v1);
        let b = value_voters(votes, peers, key, v2);
        peers.lemma_len_filter(|p: PeerPubkey| votes.contains_key((key, p)) && votes[(key, p)] == v1);
        peers.lemma_len_filter(|p: PeerPubkey| votes.contains_key((key, p)) && votes[(key, p)] == v2);
        assert(a.disjoint(b));
        vstd::set_lib::lemma_set_disjoint_lens(a, b);
        assert(a.union(b).subset_of(peers));
        vstd::set_lib::lemma_len_subset(a.union(b), peers);
        let x = a.choose();
        assert(a.contains(x));
        assert(peers.contains(x));
        assert(peers.len() >= 1) by {
            if peers.len() == 0 {
                peers.lemma_len0_is_empty();
            }
        }
        lemma_threshold_majority(peers.len());
    }
}

/// Number of peers in `peers` that voted `value` for `key`.
pub fn count_value_votes(votes: &MetaVotes, peers: &Vec<PeerPubkey>, key: u8, value: &Vec<u8>) -> (r: usize)
    requires
        peers@.no_duplicates(),
    ensures
        r == value_voters(votes_view(votes@), peers@.to_set(), key, value@).len(),
{
    proof {
        lemma_lawful_keys();
    }
    let ghost vv = votes_view(votes@);
    let ghost f = |p: PeerPubkey| vv.contains_key((key, p)) && vv[(key, p)] == value@;
    let mut count: usize = 0;
    let mut i: usize = 0;
    proof {
        assert(peers@.take(0).to_set().filter(f) =~= Set::<PeerPubkey>::empty());
    }
    while i < peers.len()
        invariant
            0 <= i <= peers@.len(),
            peers@.no_duplicates(),
            vv == votes_view(votes@),
            f == (|p: PeerPubkey| vv.contains_key((key, p)) && vv[(key, p)] == value@),
            count == peers@.take(i as int).to_set().filter(f).len(),
            count <= i,
        decreases peers@.len() - i,
    {
        let p = peers[i];
        let hit = match votes.get(&(key, p)) {
            Some(v) => bytes_eq(v, value),
            None => false,
        };
        proof {
            broadcast use vstd::seq_lib::seq_to_set_is_finite;

            let before = peers@.take(i as int).to_set();
            assert(peers@.take(i as int + 1).to_set() =~= before.insert(p)) by {
                assert(peers@.take(i as int + 1) =~= peers@.take(i as int).push(p));
                peers@.take(i as int).lemma_push_to_set_commute(p);
            }
            assert(!before.contains(p)) by {
                if before.contains(p) {
                    let j = choose|j: int| 0 <= j < i && peers@.take(i as int)[j] == p;
                    assert(peers@[j] == peers@[i as int]);
                }
            }
            before.lemma_len_filter(f);
            assert(hit == f(p));
            if hit {
                assert(before.insert(p).filter(f) =~= before.filter(f).insert(p));
            } else {
                assert(before.insert(p).filter(f) =~= before.filter(f));
            }
        }
        if hit {
            count = count + 1;
        }
        i = i + 1;
    }
    proof {
        assert(peers@.take(i as int) =~= peers@);
        assert(peers@.to_set().filter(f) =~= value_voters(vv, peers@.to_set(), key, value@));
    }
    count
}

/// Removes the votes for `key` of peers in `peer_set`.
pub fn clear_key_votes(votes: &mut MetaVotes, peer_set: &PeerSet, key: u8)
    ensures
        final(votes)@ == without_key_votes(old(votes)@, peer_set@, key),
{
    proof {
        lemma_lawful_keys();
    }
    let entries = sorted_keys(votes);
    let ghost old_votes = votes@;
    let mut i: usize = 0;
    while i < entries.len()
        invariant
            0 <= i <= entries@.len(),
            entries@.to_set() == old_votes.dom(),
            forall|kp: (u8, PeerPubkey)| #[trigger]
                votes@.contains_key(kp) <==> (old_votes.contains_key(kp) && !(entries@.take(
                    i as int,
                ).contains(kp) && kp.0 == key && peer_set@.contains(kp.1))),
            forall|kp: (u8, PeerPubkey)| #[trigger]
                votes@.contains_key(kp) ==> votes@[kp] == old_votes[kp],
        decreases entries@.len() - i,
    {
        let kp = entries[i];
        if kp.0 == key && peer_set.contains(&kp.1) {
            votes.remove(&kp);
        }
        proof {
            assert(entries@.take(i as int + 1) =~= entries@.take(i as int).push(kp));
            assert forall|x: (u8, PeerPubkey)| #[trigger]
                votes@.contains_key(x) <==> (old_votes.contains_key(x) && !(entries@.take(
                    i as int + 1,
                ).contains(x) && x.0 == key && peer_set@.contains(x.1))) by {
                if x != kp {
                    assert(entries@.take(i as int + 1).contains(x) == entries@.take(
                        i as int,
                    ).contains(x));
                } else {
                    assert(entries@.take(i as int + 1)[i as int] == kp);
                    assert(entries@.to_set().contains(kp));
                }
            }
        }
        i = i + 1;
    }
    proof {
        assert(entries@.take(i as int) =~= entries@);
        assert forall|kp: (u8, PeerPubkey)| entries@.contains(kp) <==> old_votes.contains_key(kp) by {
            if old_votes.contains_key(kp) {
                assert(entries@.to_set().contains(kp));
            }
        }
        assert(votes@ =~= without_key_votes(old_votes, peer_set@, key));
    }
}


/// A clone of a byte string.
pub fn copy_bytes(v: &Vec<u8>) -> (r: Vec<u8>)
    ensures
        r@ == v@,
{
    let r = v.clone();
    proof {
        assert(r@ =~= v@);
    }
    r
}

/// Recording this node's wish to propose `value` for `key` took the module
/// from `old` to `new`: the pending proposal for the key is replaced and the
/// proposals refreshed.
pub open spec fn key_value_proposal_step(old: MetaModule, new: MetaModule, key: u8, value: Seq<u8>) -> bool {
    &&& values_view(new.db.pending_proposals@) == values_view(old.db.pending_proposals@).insert(
        key,
        value,
    )
    &&& new.db.key_value_votes == old.db.key_value_votes
    &&& new.db.consensus_values == old.db.consensus_values
    &&& citems_view(new.proposed_citems@) == spec_meta_proposals(&new.db, old.peer_pubkey)
    &&& new.version == old.version
    &&& new.peer_pubkey == old.peer_pubkey
}

impl MetaModule {
    /// Creates the module over `db`, proposing nothing yet.
    pub fn new(version: ConsensusVersion, db: MetaTables, peer_pubkey: Option<PeerPubkey>) -> (r: Self)
        ensures
            r.version == version,
            r.db == db,
            r.peer_pubkey == peer_pubkey,
            r.proposed_citems@.len() == 0,
    {
        MetaModule { version, peer_pubkey, db, proposed_citems: Vec::new() }
    }

    /// Processes `voter_pubkey`'s vote for `value` under `key`, with the
    /// current peer set `peer_set`, as `vote_step` describes.
    pub fn process_citem_vote_key_value(
        &mut self,
        voter_pubkey: PeerPubkey,
        peer_set: &PeerSet,
        key: u8,
        value: Vec<u8>,
    ) -> (r: Vec<CItemEffect>)
        requires
            peer_set@.contains(voter_pubkey),
        ensures
            vote_step(
                old(self).db,
                final(self).db,
                voter_pubkey,
                peer_set@,
                key,
                value@,
                effects_view(r@),
            ),
            final(self).version == old(self).version,
            final(self).peer_pubkey == old(self).peer_pubkey,
            final(self).proposed_citems == old(self).proposed_citems,
    {
        proof {
            lemma_lawful_keys();
        }
        let mut effects: Vec<CItemEffect> = Vec::new();
        let existing = match self.db.key_value_votes.get(&(key, voter_pubkey)) {
            Some(v) => bytes_eq(v, &value),
            None => false,
        };
        if existing {
            proof {
                assert(effects_view(effects@) =~= Seq::<EffectView>::empty());
            }
            return effects;
        }
        let ghost old_db = self.db;
        self.db.key_value_votes.insert((key, voter_pubkey), copy_bytes(&value));
        proof {
            assert(votes_view(self.db.key_value_votes@) =~= votes_view(
                old_db.key_value_votes@,
            ).insert((key, voter_pubkey), value@));
        }
        let peers = set_elements(peer_set);
        let count = count_value_votes(&self.db.key_value_votes, &peers, key, &value);
        let needed = threshold(peer_set.len());
        proof {
            broadcast use vstd::seq_lib::seq_to_set_is_finite;

            let vv = votes_view(self.db.key_value_votes@);
            let voters = value_voters(vv, peer_set@, key, value@);
            assert(voters.contains(voter_pubkey));
            peer_set@.lemma_len_filter(
                |p: PeerPubkey| vv.contains_key((key, p)) && vv[(key, p)] == value@,
            );
            if voters.len() == 0 {
                voters.lemma_len0_is_empty();
            }
        }
        if count >= needed {
            self.db.pending_proposals.remove(&key);
            self.db.consensus_values.insert(key, copy_bytes(&value));
            clear_key_votes(&mut self.db.key_value_votes, peer_set, key);
            proof {
                assert(votes_view(self.db.key_value_votes@) =~= without_key_votes(
                    votes_view(old_db.key_value_votes@).insert((key, voter_pubkey), value@),
                    peer_set@,
                    key,
                ));
                assert(values_view(self.db.consensus_values@) =~= values_view(
                    old_db.consensus_values@,
                ).insert(key, value@));
                assert(values_view(self.db.pending_proposals@) =~= values_view(
                    old_db.pending_proposals@,
                ).remove(key));
            }
            let ghost value_view = value@;
            effects.push(CItemEffect::KeyValueConsensus(KeyValueConsensusEffect { key, value }));
            proof {
                assert(effects_view(effects@) =~= seq![
                    EffectView::KeyValueConsensus(key, value_view),
                ]);
            }
        } else {
            proof {
                assert(effects_view(effects@) =~= Seq::<EffectView>::empty());
            }
        }
        effects
    }
}

/// A peer that voted `value` for `key` and before which no such peer comes
/// is the first voter.
proof fn lemma_first_voter_unique(
    votes: Map<(u8, PeerPubkey), Seq<u8>>,
    key: u8,
    value: Seq<u8>,
    p: PeerPubkey,
)
    requires
        voted(votes, key, value, p),
        forall|q: PeerPubkey| voted(votes, key, value, q) ==> !peer_before(q, p),
    ensures
        first_voter(votes, key, value) == p,
{
    let f = first_voter(votes, key, value);
    assert(voted(votes, key, value, f) && forall|q: PeerPubkey|
        voted(votes, key, value, q) ==> !peer_before(q, f));
    assert(!peer_before(f, p));
    assert(!peer_before(p, f));
}

/// The first peer, in key order, that voted `value` for `key`.
fn find_first_voter(
    votes: &MetaVotes,
    entries: &Vec<(u8, PeerPubkey)>,
    key: u8,
    value: &Vec<u8>,
) -> (r: Option<PeerPubkey>)
    requires
        entries@.to_set() == votes@.dom(),
        forall|i: int, j: int|
            0 <= i < j < entries@.len() ==> byte_peer_before(entries@[i], entries@[j]),
    ensures
        r is None <==> !(exists|p: PeerPubkey| voted(votes_view(votes@), key, value@, p)),
        r matches Some(p) ==> p == first_voter(votes_view(votes@), key, value@),
{
    proof {
        lemma_lawful_keys();
    }
    let ghost vv = votes_view(votes@);
    let mut i: usize = 0;
    while i < entries.len()
        invariant
            0 <= i <= entries@.len(),
            vv == votes_view(votes@),
            entries@.to_set() == votes@.dom(),
            forall|a: int, b: int|
                0 <= a < b < entries@.len() ==> byte_peer_before(entries@[a], entries@[b]),
            forall|j: int| 0 <= j < i ==> !(entries@[j].0 == key && voted(vv, key, value@, entries@[j].1)),
        decreases entries@.len() - i,
    {
        let kp = entries[i];
        proof {
            assert(entries@.to_set().contains(kp));
        }
        if kp.0 == key {
            let hit = match votes.get(&kp) {
                Some(v) => bytes_eq(v, value),
                None => false,
            };
            if hit {
                proof {
                    assert(voted(vv, key, value@, kp.1));
                    assert forall|q: PeerPubkey| voted(vv, key, value@, q) implies !peer_before(q, kp.1) by {
                        assert(votes@.dom().contains((key, q)));
                        assert(entries@.to_set().contains((key, q)));
                        let j = choose|j: int| 0 <= j < entries@.len() && entries@[j] == (key, q);
                        if j < i {
                            assert(entries@[j].0 == key && voted(vv, key, value@, entries@[j].1));
                        } else if j > i {
                            assert(byte_peer_before(entries@[i as int], entries@[j]));
                        }
                    }
                    lemma_first_voter_unique(vv, key, value@, kp.1);
                }
                return Some(kp.1);
            }
        }
        i = i + 1;
    }
    proof {
        if exists|p: PeerPubkey| voted(vv, key, value@, p) {
            let p = choose|p: PeerPubkey| voted(vv, key, value@, p);
            assert(entries@.to_set().contains((key, p)));
            let j = choose|j: int| 0 <= j < entries@.len() && entries@[j] == (key, p);
            assert(entries@[j].0 == key && voted(vv, key, value@, entries@[j].1));
        }
    }
    None
}

impl MetaModule {
    /// The consensus items this node proposes given its current tables.
    pub fn refresh_consensus_proposals_dbtx(&self) -> (r: Vec<MetaCitem>)
        ensures
            citems_view(r@) == spec_meta_proposals(&self.db, self.peer_pubkey),
    {
        proof {
            lemma_lawful_keys();
        }
        let db = &self.db;
        let keys = sorted_keys(&db.pending_proposals);
        let entries = sorted_keys(&db.key_value_votes);
        proof {
            lemma_ascending_u8(keys@);
            lemma_ascending_bytes_unique(keys@, db.pending_proposals@.dom());
            lemma_ascending_byte_peer(entries@);
        }
        let ghost due = |k: u8| proposal_due(db, self.peer_pubkey, k);
        let ghost mk = |k: u8| spec_proposal(db, k);
        let mut proposals: Vec<MetaCitem> = Vec::new();
        let mut i: usize = 0;
        while i < keys.len()
            invariant
                0 <= i <= keys@.len(),
                keys@.to_set() == db.pending_proposals@.dom(),
                keys@ == ascending_bytes(db.pending_proposals@.dom()),
                entries@.to_set() == db.key_value_votes@.dom(),
                forall|a: int, b: int|
                    0 <= a < b < entries@.len() ==> byte_peer_before(entries@[a], entries@[b]),
                due == (|k: u8| proposal_due(db, self.peer_pubkey, k)),
                mk == (|k: u8| spec_proposal(db, k)),
                citems_view(proposals@) == keys@.take(i as int).filter(due).map_values(mk),
            decreases keys@.len() - i,
        {
            let k = keys[i];
            proof {
                assert(keys@.to_set().contains(k));
                assert(keys@.take(i as int + 1) =~= keys@.take(i as int).push(k));
                keys@.take(i as int).lemma_filter_push(k, due);
                keys@.take(i as int).filter(due).lemma_push_map_commute(mk, k);
            }
            let value = match db.pending_proposals.get(&k) {
                Some(v) => v,
                None => {
                    proof {
                        assert(false);
                    }
                    return proposals;
                },
            };
            let should_propose = match self.peer_pubkey {
                Some(me) => match db.key_value_votes.get(&(k, me)) {
                    Some(existing) => !bytes_eq(existing, value),
                    None => true,
                },
                None => true,
            };
            proof {
                assert(should_propose == due(k));
            }
            if should_propose {
                let found = find_first_voter(&db.key_value_votes, &entries, k, value);
                let ghost prev = proposals@;
                match found {
                    Some(p) => {
                        proposals.push(MetaCitem::ApproveVote { key: k, peer_pubkey: p });
                    },
                    None => {
                        proposals.push(MetaCitem::ProposeValue { key: k, value: copy_bytes(value) });
                    },
                }
                proof {
                    assert(proposals@ == prev.push(proposals@.last()));
                    assert(proposals@.last()@ == mk(k));
                    assert(citems_view(proposals@) =~= citems_view(prev).push(mk(k)));
                }
            }
            i = i + 1;
        }
        proof {
            assert(keys@.take(i as int) =~= keys@);
        }
        proposals
    }

    /// Recomputes the consensus items this node proposes.
    pub fn refresh_consensus_proposals(&mut self)
        ensures
            citems_view(final(self).proposed_citems@) == spec_meta_proposals(
                &old(self).db,
                old(self).peer_pubkey,
            ),
            final(self).db == old(self).db,
            final(self).peer_pubkey == old(self).peer_pubkey,
            final(self).version == old(self).version,
    {
        self.proposed_citems = self.refresh_consensus_proposals_dbtx();
    }
}

/// Processing `voter`'s approval of `approved`'s vote for `key` takes the
/// tables from `old` to `new` with result `r`: it votes the same value, and
/// is refused if `approved` has no vote for the key.
pub open spec fn approve_step(
    old: MetaTables,
    new: MetaTables,
    voter: PeerPubkey,
    peers: Set<PeerPubkey>,
    key: u8,
    approved: PeerPubkey,
    r: Result<Seq<EffectView>, MetaError>,
) -> bool {
    let votes = votes_view(old.key_value_votes@);
    if !votes.contains_key((key, approved)) {
        r == Err::<Seq<EffectView>, _>(MetaError::InvalidPeerPubkey) && new == old
    } else {
        &&& r is Ok
        &&& vote_step(old, new, voter, peers, key, votes[(key, approved)], r->Ok_0)
    }
}

/// Processing meta consensus item `citem` from `voter` takes the tables
/// from `old` to `new` with result `r`.
pub open spec fn meta_citem_step(
    old: MetaTables,
    new: MetaTables,
    voter: PeerPubkey,
    peers: Set<PeerPubkey>,
    citem: MetaCitemView,
    r: Result<Seq<EffectView>, MetaError>,
) -> bool {
    match citem {
        MetaCitemView::ProposeValue { key, value } => {
            &&& r is Ok
            &&& vote_step(old, new, voter, peers, key, value, r->Ok_0)
        },
        MetaCitemView::ApproveVote { key, peer_pubkey } => approve_step(
            old,
            new,
            voter,
            peers,
            key,
            peer_pubkey,
            r,
        ),
    }
}

/// The plain form of a processing result.
pub open spec fn meta_result_view(r: Result<Vec<CItemEffect>, MetaError>) -> Result<Seq<EffectView>, MetaError> {
    match r {
        Ok(e) => Ok(effects_view(e@)),
        Err(x) => Err(x),
    }
}

impl MetaModule {
    fn process_citem_approve_vote(
        &mut self,
        voter_pubkey: PeerPubkey,
        peer_set: &PeerSet,
        key: u8,
        approved_peer: PeerPubkey,
    ) -> (r: Result<Vec<CItemEffect>, MetaError>)
        requires
            peer_set@.contains(voter_pubkey),
        ensures
            approve_step(
                old(self).db,
                final(self).db,
                voter_pubkey,
                peer_set@,
                key,
                approved_peer,
                meta_result_view(r),
            ),
            final(self).version == old(self).version,
            final(self).peer_pubkey == old(self).peer_pubkey,
            final(self).proposed_citems == old(self).proposed_citems,
    {
        proof {
            lemma_lawful_keys();
        }
        let value = match self.db.key_value_votes.get(&(key, approved_peer)) {
            Some(v) => copy_bytes(v),
            None => {
                return Err(MetaError::InvalidPeerPubkey);
            },
        };
        Ok(self.process_citem_vote_key_value(voter_pubkey, peer_set, key, value))
    }

    /// Processes a consensus item submitted by `peer_pubkey`, a member of
    /// the effective peer set `peer_set`, and returns its effects.
    ///
    /// On success the proposals are refreshed for the new tables; on error
    /// nothing changes.
    pub fn process_citem(&mut self, peer_pubkey: PeerPubkey, peer_set: &PeerSet, citem: MetaCitem) -> (r:
        Result<Vec<CItemEffect>, MetaError>)
        requires
            peer_set@.contains(peer_pubkey),
        ensures
            meta_citem_step(
                old(self).db,
                final(self).db,
                peer_pubkey,
                peer_set@,
                citem@,
                meta_result_view(r),
            ),
            r is Ok ==> citems_view(final(self).proposed_citems@) == spec_meta_proposals(
                &final(self).db,
                old(self).peer_pubkey,
            ),
            r is Err ==> *final(self) == *old(self),
            final(self).version == old(self).version,
            final(self).peer_pubkey == old(self).peer_pubkey,
    {
        let res = match citem {
            MetaCitem::ProposeValue { key, value } => Ok(
                self.process_citem_vote_key_value(peer_pubkey, peer_set, key, value),
            ),
            MetaCitem::ApproveVote { key, peer_pubkey: approved_peer } => self.process_citem_approve_vote(
                peer_pubkey,
                peer_set,
                key,
                approved_peer,
            ),
        };
        match res {
            Ok(effects) => {
                self.refresh_consensus_proposals();
                Ok(effects)
            },
            Err(e) => Err(e),
        }
    }

    /// Inputs are not part of this module: every input is refused.
    pub fn process_input(&self, input: &[u8]) -> (r: Result<Vec<CItemEffect>, MetaError>)
        ensures
            r == Err::<Vec<CItemEffect>, _>(MetaError::InputsNotSupported),
    {
        Err(MetaError::InputsNotSupported)
    }

    /// Outputs are not part of this module: every output is refused.
    pub fn process_output(&self, output: &[u8]) -> (r: Result<Vec<CItemEffect>, MetaError>)
        ensures
            r == Err::<Vec<CItemEffect>, _>(MetaError::OutputsNotSupported),
    {
        Err(MetaError::OutputsNotSupported)
    }

    /// The values the peers agreed on.
    pub fn get_consensus_values(&self) -> (r: BTreeMap<u8, Vec<u8>>)
        ensures
            values_view(r@) == values_view(self.db.consensus_values@),
    {
        proof {
            lemma_lawful_keys();
        }
        let keys = sorted_keys(&self.db.consensus_values);
        let mut r: BTreeMap<u8, Vec<u8>> = BTreeMap::new();
        let mut i: usize = 0;
        while i < keys.len()
            invariant
                0 <= i <= keys@.len(),
                keys@.to_set() == self.db.consensus_values@.dom(),
                values_view(r@) == values_view(self.db.consensus_values@).restrict(
                    keys@.take(i as int).to_set(),
                ),
            decreases keys@.len() - i,
        {
            let k = keys[i];
            proof {
                assert(keys@.to_set().contains(k));
            }
            let ghost prev = r@;
            match self.db.consensus_values.get(&k) {
                Some(v) => {
                    let c = copy_bytes(v);
                    r.insert(k, c);
                    proof {
                        assert(r@ == prev.insert(k, c));
                        assert(c@ == self.db.consensus_values@[k]@);
                        assert(values_view(r@) =~= values_view(prev).insert(k, c@));
                    }
                },
                None => {
                    proof {
                        assert(false);
                    }
                },
            }
            proof {
                assert(keys@.take(i as int + 1) =~= keys@.take(i as int).push(k));
                keys@.take(i as int).lemma_push_to_set_commute(k);
                assert(values_view(r@) =~= values_view(self.db.consensus_values@).restrict(
                    keys@.take(i as int + 1).to_set(),
                ));
            }
            i = i + 1;
        }
        proof {
            assert(keys@.take(i as int) =~= keys@);
            assert(values_view(r@) =~= values_view(self.db.consensus_values@));
        }
        r
    }

    /// The votes for `key`: voter to the value it voted.
    pub fn get_votes_for_key(&self, key: u8) -> (r: BTreeMap<PeerPubkey, Vec<u8>>)
        ensures
            r@.map_values(|v: Vec<u8>| v@) == Map::new(
                |p: PeerPubkey| self.db.key_value_votes@.contains_key((key, p)),
                |p: PeerPubkey| self.db.key_value_votes@[(key, p)]@,
            ),
    {
        proof {
            lemma_lawful_keys();
        }
        let entries = sorted_keys(&self.db.key_value_votes);
        let ghost votes = self.db.key_value_votes@;
        let mut r: BTreeMap<PeerPubkey, Vec<u8>> = BTreeMap::new();
        let mut i: usize = 0;
        while i < entries.len()
            invariant
                0 <= i <= entries@.len(),
                entries@.to_set() == votes.dom(),
                votes == self.db.key_value_votes@,
                r@.map_values(|v: Vec<u8>| v@) == Map::new(
                    |p: PeerPubkey| votes.contains_key((key, p)) && entries@.take(i as int).contains((key, p)),
                    |p: PeerPubkey| votes[(key, p)]@,
                ),
            decreases entries@.len() - i,
        {
            let kp = entries[i];
            proof {
                assert(entries@.to_set().contains(kp));
                assert(entries@.take(i as int + 1) =~= entries@.take(i as int).push(kp));
            }
            let ghost prev = r@;
            if kp.0 == key {
                match self.db.key_value_votes.get(&kp) {
                    Some(v) => {
                        let c = copy_bytes(v);
                        r.insert(kp.1, c);
                        proof {
                            assert(r@ == prev.insert(kp.1, c));
                            assert(c@ == votes[kp]@);
                            assert(r@.map_values(|v: Vec<u8>| v@) =~= prev.map_values(
                                |v: Vec<u8>| v@,
                            ).insert(kp.1, c@));
                        }
                    },
                    None => {
                        proof {
                            assert(false);
                        }
                    },
                }
            }
            proof {
                assert forall|x: (u8, PeerPubkey)| #[trigger] entries@.take(i as int + 1).contains(x) <==> (
                entries@.take(i as int).contains(x) || x == kp) by {
                    if x == kp {
                        assert(entries@.take(i as int + 1)[i as int] == kp);
                    }
                    if entries@.take(i as int).contains(x) {
                        let j = choose|j: int| 0 <= j < i && entries@.take(i as int)[j] == x;
                        assert(entries@.take(i as int + 1)[j] == x);
                    }
                }
                assert(r@.map_values(|v: Vec<u8>| v@) =~= Map::new(
                    |p: PeerPubkey| votes.contains_key((key, p)) && entries@.take(i as int + 1).contains((key, p)),
                    |p: PeerPubkey| votes[(key, p)]@,
                ));
            }
            i = i + 1;
        }
        proof {
            assert(entries@.take(i as int) =~= entries@);
            assert forall|p: PeerPubkey| votes.contains_key((key, p)) implies entries@.contains((key, p)) by {
                assert(entries@.to_set().contains((key, p)));
            }
            assert(r@.map_values(|v: Vec<u8>| v@) =~= Map::new(
                |p: PeerPubkey| votes.contains_key((key, p)),
                |p: PeerPubkey| votes[(key, p)]@,
            ));
        }
        r
    }

    /// Records this node's wish to propose `value` for `key` and refreshes
    /// the proposals.
    pub fn propose_key_value(&mut self, key: u8, value: Vec<u8>) -> (r: Result<(), MetaError>)
        ensures
            r is Ok,
            key_value_proposal_step(*old(self), *final(self), key, value@),
    {
        proof {
            lemma_lawful_keys();
        }
        let ghost v = value@;
        self.db.pending_proposals.insert(key, value);
        proof {
            assert(values_view(self.db.pending_proposals@) =~= values_view(
                old(self).db.pending_proposals@,
            ).insert(key, v));
        }
        self.refresh_consensus_proposals();
        Ok(())
    }
}
} // verus!
