//! Re-deciding meta keys after the peer set shrank: with fewer peers a
//! smaller number of votes can reach the threshold.
use vstd::prelude::*;

use super::module::{
    clear_key_votes, copy_bytes, count_value_votes, lemma_single_agreed_value,
    reaches_threshold, value_voters, values_view, votes_view, MetaModule, MetaTables,
};
use crate::effects::{spec_effect_id, ModuleCItemEffect};
use crate::keys::{lemma_lawful_keys, set_elements, sorted_keys};
use crate::num_peers::threshold;
use crate::types::{PeerPubkey, PeerSet, MODULE_KIND_CONSENSUS_CTRL};

verus! {

/// Key `k` has no agreed value yet, but some value now reaches the
/// threshold among `peers`.
pub open spec fn decidable(
    votes: Map<(u8, PeerPubkey), Seq<u8>>,
    cons: Map<u8, Seq<u8>>,
    peers: Set<PeerPubkey>,
    k: u8,
) -> bool {
    !cons.contains_key(k) && exists|v: Seq<u8>| reaches_threshold(votes, peers, k, v)
}

/// The value of key `k` that reaches the threshold among `peers`.
pub open spec fn winner(votes: Map<(u8, PeerPubkey), Seq<u8>>, peers: Set<PeerPubkey>, k: u8) -> Seq<u8> {
    choose|v: Seq<u8>| reaches_threshold(votes, peers, k, v)
}

/// The tables `new` are `old` with every decidable key decided: its value
/// agreed, its pending proposal dropped and the peers' votes for it cleared.
pub open spec fn recheck_step(old: MetaTables, new: MetaTables, peers: Set<PeerPubkey>) -> bool {
    let votes = votes_view(old.key_value_votes@);
    let cons = values_view(old.consensus_values@);
    &&& values_view(new.consensus_values@) == Map::new(
        |k: u8| cons.contains_key(k) || decidable(votes, cons, peers, k),
        |k: u8|
            if cons.contains_key(k) {
                cons[k]
            } else {
                winner(votes, peers, k)
            },
    )
    &&& values_view(new.pending_proposals@) == values_view(old.pending_proposals@).remove_keys(
        Set::new(|k: u8| decidable(votes, cons, peers, k)),
    )
    &&& votes_view(new.key_value_votes@) == votes.restrict(
        votes.dom().filter(
            |kp: (u8, PeerPubkey)| !(decidable(votes, cons, peers, kp.0) && peers.contains(kp.1)),
        ),
    )
}

/// Key `k` is decidable and the vote of one of the first `i` entries, cast
/// by a peer, is its winning value.
spec fn decided_by(
    entries: Seq<(u8, PeerPubkey)>,
    i: int,
    votes: Map<(u8, PeerPubkey), Seq<u8>>,
    cons: Map<u8, Seq<u8>>,
    peers: Set<PeerPubkey>,
    k: u8,
) -> bool {
    &&& decidable(votes, cons, peers, k)
    &&& exists|j: int|
        0 <= j < i && #[trigger] entries[j].0 == k && peers.contains(entries[j].1) && votes[entries[j]]
            == winner(votes, peers, k)
}

/// After a recheck no key is decidable any more, so a second recheck
/// changes nothing.
pub proof fn lemma_recheck_idempotent(
    s0: MetaTables,
    s1: MetaTables,
    s2: MetaTables,
    peers: Set<PeerPubkey>,
)
    requires
        peers.finite(),
        recheck_step(s0, s1, peers),
        recheck_step(s1, s2, peers),
    ensures
        votes_view(s2.key_value_votes@) == votes_view(s1.key_value_votes@),
        values_view(s2.consensus_values@) == values_view(s1.consensus_values@),
        values_view(s2.pending_proposals@) == values_view(s1.pending_proposals@),
{
    let votes0 = votes_view(s0.key_value_votes@);
    let cons0 = values_view(s0.consensus_values@);
    let votes1 = votes_view(s1.key_value_votes@);
    let cons1 = values_view(s1.consensus_values@);
    assert forall|k: u8| !decidable(votes1, cons1, peers, k) by {
        if decidable(votes1, cons1, peers, k) {
            let v = choose|v: Seq<u8>| reaches_threshold(votes1, peers, k, v);
            assert(!cons0.contains_key(k) && !decidable(votes0, cons0, peers, k));
            assert(value_voters(votes1, peers, k, v) =~= value_voters(votes0, peers, k, v));
            assert(reaches_threshold(votes0, peers, k, v));
        }
    }
    assert(votes_view(s2.key_value_votes@) =~= votes1);
    assert(values_view(s2.consensus_values@) =~= cons1);
    assert(values_view(s2.pending_proposals@) =~= values_view(s1.pending_proposals@));
}

impl MetaModule {
    /// Decides every key whose votes from `peer_set` now reach the threshold
    /// for some value.
    pub fn recheck_consensus_after_peer_removal(&mut self, peer_set: &PeerSet)
        ensures
            recheck_step(old(self).db, final(self).db, peer_set@),
            peer_set@.finite(),
            final(self).version == old(self).version,
            final(self).peer_pubkey == old(self).peer_pubkey,
            final(self).proposed_citems == old(self).proposed_citems,
    {
        proof {
            lemma_lawful_keys();
        }
        let entries = sorted_keys(&self.db.key_value_votes);
        let peers = set_elements(peer_set);
        let needed = threshold(peer_set.len());
        let ghost votes0 = votes_view(self.db.key_value_votes@);
        let ghost cons0 = values_view(self.db.consensus_values@);
        let ghost pending0 = values_view(self.db.pending_proposals@);
        let ghost ps = peer_set@;
        proof {
            broadcast use vstd::seq_lib::seq_to_set_is_finite;

            assert(ps.finite());
            assert(votes0.dom() == self.db.key_value_votes@.dom());
        }
        let mut i: usize = 0;
        proof {
            assert(values_view(self.db.consensus_values@) =~= Map::new(
                |k: u8| cons0.contains_key(k) || decided_by(entries@, 0, votes0, cons0, ps, k),
                |k: u8|
                    if cons0.contains_key(k) {
                        cons0[k]
                    } else {
                        winner(votes0, ps, k)
                    },
            ));
            assert(values_view(self.db.pending_proposals@) =~= pending0.remove_keys(
                Set::new(|k: u8| decided_by(entries@, 0, votes0, cons0, ps, k)),
            ));
            assert(votes_view(self.db.key_value_votes@) =~= votes0.restrict(
                votes0.dom().filter(
                    |kp: (u8, PeerPubkey)|
                        !(decided_by(entries@, 0, votes0, cons0, ps, kp.0) && ps.contains(kp.1)),
                ),
            ));
        }
        while i < entries.len()
            invariant
                0 <= i <= entries@.len(),
                entries@.to_set() == votes0.dom(),
                peers@.to_set() == ps,
                peers@.no_duplicates(),
                ps == peer_set@,
                ps.finite(),
                needed == crate::num_peers::spec_threshold(ps.len()),
                values_view(self.db.consensus_values@) == Map::new(
                    |k: u8| cons0.contains_key(k) || decided_by(entries@, i as int, votes0, cons0, ps, k),
                    |k: u8|
                        if cons0.contains_key(k) {
                            cons0[k]
                        } else {
                            winner(votes0, ps, k)
                        },
                ),
                values_view(self.db.pending_proposals@) == pending0.remove_keys(
                    Set::new(|k: u8| decided_by(entries@, i as int, votes0, cons0, ps, k)),
                ),
                votes_view(self.db.key_value_votes@) == votes0.restrict(
                    votes0.dom().filter(
                        |kp: (u8, PeerPubkey)|
                            !(decided_by(entries@, i as int, votes0, cons0, ps, kp.0) && ps.contains(
                                kp.1,
                            )),
                    ),
                ),
                self.version == old(self).version,
                self.peer_pubkey == old(self).peer_pubkey,
                self.proposed_citems == old(self).proposed_citems,
            decreases entries@.len() - i,
        {
            let kp = entries[i];
            let key = kp.0;
            let voter = kp.1;
            proof {
                assert(entries@.to_set().contains(kp));
            }
            let ghost before_votes = votes_view(self.db.key_value_votes@);
            let ghost before_cons = values_view(self.db.consensus_values@);
            let ghost before_pending = values_view(self.db.pending_proposals@);
            let mut decided_now = false;
            if !self.db.consensus_values.contains_key(&key) && peer_set.contains(&voter) {
                proof {
                    assert(!before_cons.contains_key(key));
                    assert(!decided_by(entries@, i as int, votes0, cons0, ps, key));
                    assert(before_votes.contains_key(kp));
                }
                let value = match self.db.key_value_votes.get(&kp) {
                    Some(v) => copy_bytes(v),
                    None => {
                        proof {
                            assert(false);
                        }
                        Vec::new()
                    },
                };
                let count = count_value_votes(&self.db.key_value_votes, &peers, key, &value);
                proof {
                    assert(before_votes[kp] == votes0[kp]);
                    assert(self.db.key_value_votes@[kp]@ == before_votes[kp]);
                    assert(value@ == votes0[kp]);
                    assert(value_voters(before_votes, ps, key, value@) =~= value_voters(
                        votes0,
                        ps,
                        key,
                        value@,
                    ));
                    assert(value_voters(votes0, ps, key, value@).contains(voter));
                    ps.lemma_len_filter(
                        |p: PeerPubkey| votes0.contains_key((key, p)) && votes0[(key, p)] == value@,
                    );
                    if value_voters(votes0, ps, key, value@).len() == 0 {
                        value_voters(votes0, ps, key, value@).lemma_len0_is_empty();
                    }
                    if decidable(votes0, cons0, ps, key) && winner(votes0, ps, key) == value@ {
                        let v = choose|v: Seq<u8>| reaches_threshold(votes0, ps, key, v);
                        assert(reaches_threshold(votes0, ps, key, winner(votes0, ps, key)));
                    }
                }
                if count >= needed {
                    proof {
                        assert(reaches_threshold(votes0, ps, key, value@));
                        assert(decidable(votes0, cons0, ps, key));
                        let w = winner(votes0, ps, key);
                        assert(reaches_threshold(votes0, ps, key, w));
                        lemma_single_agreed_value(votes0, ps, key, w, value@);
                    }
                    let ghost v = value@;
                    self.db.consensus_values.insert(key, value);
                    self.db.pending_proposals.remove(&key);
                    clear_key_votes(&mut self.db.key_value_votes, peer_set, key);
                    decided_now = true;
                    proof {
                        assert(values_view(self.db.consensus_values@) =~= before_cons.insert(key, v));
                        assert(values_view(self.db.pending_proposals@) =~= before_pending.remove(key));
                        assert(votes_view(self.db.key_value_votes@) =~= before_votes.restrict(
                            before_votes.dom().filter(
                                |x: (u8, PeerPubkey)| x.0 != key || !ps.contains(x.1),
                            ),
                        ));
                    }
                }
            }
            proof {
                assert forall|k: u8| #[trigger]
                    decided_by(entries@, i as int + 1, votes0, cons0, ps, k) == (decided_by(
                        entries@,
                        i as int,
                        votes0,
                        cons0,
                        ps,
                        k,
                    ) || (decided_now && k == key)) by {
                    if decided_by(entries@, i as int, votes0, cons0, ps, k) {
                        let j = choose|j: int|
                            0 <= j < i && #[trigger] entries@[j].0 == k && ps.contains(
                                entries@[j].1,
                            ) && votes0[entries@[j]] == winner(votes0, ps, k);
                        assert(0 <= j < i + 1);
                    }
                    if decided_now && k == key {
                        assert(entries@[i as int].0 == k);
                    }
                    if decided_by(entries@, i as int + 1, votes0, cons0, ps, k) && !decided_by(
                        entries@,
                        i as int,
                        votes0,
                        cons0,
                        ps,
                        k,
                    ) {
                        let j = choose|j: int|
                            0 <= j < i + 1 && #[trigger] entries@[j].0 == k && ps.contains(
                                entries@[j].1,
                            ) && votes0[entries@[j]] == winner(votes0, ps, k);
                        assert(j == i);
                        if !decided_now {
                            if before_cons.contains_key(key) {
                            } else {
                                assert(reaches_threshold(votes0, ps, key, winner(votes0, ps, key)));
                            }
                        }
                    }
                }
                assert(values_view(self.db.consensus_values@) =~= Map::new(
                    |k: u8|
                        cons0.contains_key(k) || decided_by(entries@, i as int + 1, votes0, cons0, ps, k),
                    |k: u8|
                        if cons0.contains_key(k) {
                            cons0[k]
                        } else {
                            winner(votes0, ps, k)
                        },
                ));
                assert(values_view(self.db.pending_proposals@) =~= pending0.remove_keys(
                    Set::new(|k: u8| decided_by(entries@, i as int + 1, votes0, cons0, ps, k)),
                ));
                assert(votes_view(self.db.key_value_votes@) =~= votes0.restrict(
                    votes0.dom().filter(
                        |x: (u8, PeerPubkey)|
                            !(decided_by(entries@, i as int + 1, votes0, cons0, ps, x.0) && ps.contains(
                                x.1,
                            )),
                    ),
                ));
            }
            i = i + 1;
        }
        proof {
            assert forall|k: u8| #[trigger]
                decided_by(entries@, i as int, votes0, cons0, ps, k) == decidable(votes0, cons0, ps, k) by {
                if decidable(votes0, cons0, ps, k) {
                    let w = winner(votes0, ps, k);
                    let v = choose|v: Seq<u8>| reaches_threshold(votes0, ps, k, v);
                    assert(reaches_threshold(votes0, ps, k, w));
                    let voters = value_voters(votes0, ps, k, w);
                    if voters.len() == 0 {
                        voters.lemma_len0_is_empty();
                    }
                    let p = voters.choose();
                    assert(voters.contains(p));
                    assert(entries@.to_set().contains((k, p)));
                    let j = choose|j: int| 0 <= j < entries@.len() && entries@[j] == (k, p);
                    assert(entries@[j].0 == k && ps.contains(entries@[j].1));
                }
            }
            assert(values_view(self.db.consensus_values@) =~= Map::new(
                |k: u8| cons0.contains_key(k) || decidable(votes0, cons0, ps, k),
                |k: u8|
                    if cons0.contains_key(k) {
                        cons0[k]
                    } else {
                        winner(votes0, ps, k)
                    },
            ));
            assert(values_view(self.db.pending_proposals@) =~= pending0.remove_keys(
                Set::new(|k: u8| decidable(votes0, cons0, ps, k)),
            ));
            assert(votes_view(self.db.key_value_votes@) =~= votes0.restrict(
                votes0.dom().filter(
                    |x: (u8, PeerPubkey)| !(decidable(votes0, cons0, ps, x.0) && ps.contains(x.1)),
                ),
            ));
        }
    }
}


/// Some effect of `effects` reports a peer leaving the peer set.
pub open spec fn has_peer_removal(effects: Seq<ModuleCItemEffect>) -> bool {
    exists|i: int|
        0 <= i < effects.len() && effects[i].module_kind == MODULE_KIND_CONSENSUS_CTRL
            && spec_effect_id(#[trigger] effects[i].inner@) == 1
}

impl MetaModule {
    /// Reacts to the effects of a processed consensus item: after a peer
    /// left the peer set, keys are re-decided with the new peer set.
    pub fn process_effects(&mut self, peer_set: &PeerSet, effects: &Vec<ModuleCItemEffect>)
        ensures
            has_peer_removal(effects@) ==> recheck_step(old(self).db, final(self).db, peer_set@),
            !has_peer_removal(effects@) ==> final(self).db == old(self).db,
            final(self).version == old(self).version,
            final(self).peer_pubkey == old(self).peer_pubkey,
            final(self).proposed_citems == old(self).proposed_citems,
    {
        let ghost old_db = self.db;
        let mut i: usize = 0;
        while i < effects.len()
            invariant
                0 <= i <= effects@.len(),
                (exists|j: int|
                    0 <= j < i && effects@[j].module_kind == MODULE_KIND_CONSENSUS_CTRL
                        && spec_effect_id(#[trigger] effects@[j].inner@) == 1) ==> recheck_step(
                    old_db,
                    self.db,
                    peer_set@,
                ),
                !(exists|j: int|
                    0 <= j < i && effects@[j].module_kind == MODULE_KIND_CONSENSUS_CTRL
                        && spec_effect_id(#[trigger] effects@[j].inner@) == 1) ==> self.db == old_db,
                self.version == old(self).version,
                self.peer_pubkey == old(self).peer_pubkey,
                self.proposed_citems == old(self).proposed_citems,
            decreases effects@.len() - i,
        {
            let effect = &effects[i];
            if effect.module_kind == MODULE_KIND_CONSENSUS_CTRL && effect.inner.effect_id() == 1 {
                let ghost before = self.db;
                self.recheck_consensus_after_peer_removal(peer_set);
                proof {
                    if exists|j: int|
                        0 <= j < i && effects@[j].module_kind == MODULE_KIND_CONSENSUS_CTRL
                            && spec_effect_id(#[trigger] effects@[j].inner@) == 1 {
                        lemma_recheck_idempotent(old_db, before, self.db, peer_set@);
                    }
                    assert(0 <= i < i + 1 && effects@[i as int].module_kind
                        == MODULE_KIND_CONSENSUS_CTRL && spec_effect_id(effects@[i as int].inner@)
                        == 1);
                }
            }
            proof {
                if !(effect.module_kind == MODULE_KIND_CONSENSUS_CTRL && spec_effect_id(effect.inner@) == 1) {
                    assert forall|j: int|
                        0 <= j < i + 1 && effects@[j].module_kind == MODULE_KIND_CONSENSUS_CTRL
                            && spec_effect_id(#[trigger] effects@[j].inner@) == 1 implies 0 <= j < i by {
                        if j == i {
                            assert(effects@[j] == *effect);
                        }
                    }
                }
            }
            i = i + 1;
        }
    }
}
} // verus!
