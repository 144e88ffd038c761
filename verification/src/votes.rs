//! Vote tallies shared by the voting modules: every peer holds at most one
//! vote per question, and a question is decided once a threshold of the
//! current peers hold the same vote.
use vstd::prelude::*;
use std::collections::BTreeMap;

use crate::keys::{lemma_lawful_keys, set_elements, sorted_keys};
use crate::types::{peer_eq, PeerPubkey, PeerSet};

verus! {

/// The peers of `peers` whose recorded vote is `target`.
pub open spec fn votes_for(
    peers: Set<PeerPubkey>,
    votes: Map<PeerPubkey, PeerPubkey>,
    target: PeerPubkey,
) -> Set<PeerPubkey> {
    peers.filter(|p: PeerPubkey| votes.contains_key(p) && votes[p] == target)
}

/// `votes` without the votes whose value is `target`.
pub open spec fn without_votes_for(
    votes: Map<PeerPubkey, PeerPubkey>,
    target: PeerPubkey,
) -> Map<PeerPubkey, PeerPubkey> {
    votes.restrict(votes.dom().filter(|v: PeerPubkey| votes[v] != target))
}

/// `votes` without the votes of voters outside `peers` and without the votes
/// whose value is `target`.
pub open spec fn from_peers_not_for(
    votes: Map<PeerPubkey, PeerPubkey>,
    peers: Set<PeerPubkey>,
    target: PeerPubkey,
) -> Map<PeerPubkey, PeerPubkey> {
    votes.restrict(votes.dom().filter(|v: PeerPubkey| peers.contains(v) && votes[v] != target))
}

/// Number of peers of `peer_set` whose vote in `votes` is `target`.
pub fn count_votes_for(
    peer_set: &PeerSet,
    votes: &BTreeMap<PeerPubkey, PeerPubkey>,
    target: PeerPubkey,
) -> (r: usize)
    ensures
        r == votes_for(peer_set@, votes@, target).len(),
{
    proof {
        lemma_lawful_keys();
    }
    let elems = set_elements(peer_set);
    let ghost f = |p: PeerPubkey| votes@.contains_key(p) && votes@[p] == target;
    let mut count: usize = 0;
    let mut i: usize = 0;
    proof {
        assert(elems@.take(0).to_set().filter(f) =~= Set::<PeerPubkey>::empty());
    }
    while i < elems.len()
        invariant
            0 <= i <= elems@.len(),
            elems@.no_duplicates(),
            elems@.to_set() == peer_set@,
            f == (|p: PeerPubkey| votes@.contains_key(p) && votes@[p] == target),
            count == elems@.take(i as int).to_set().filter(f).len(),
            count <= i,
        decreases elems@.len() - i,
    {
        let p = elems[i];
        let hit = match votes.get(&p) {
            Some(v) => peer_eq(*v, target),
            None => false,
        };
        proof {
            broadcast use vstd::seq_lib::seq_to_set_is_finite;

            let before = elems@.take(i as int).to_set();
            assert(elems@.take(i as int + 1).to_set() =~= before.insert(p)) by {
                assert(elems@.take(i as int + 1) =~= elems@.take(i as int).push(p));
                elems@.take(i as int).lemma_push_to_set_commute(p);
            }
            assert(!before.contains(p)) by {
                if before.contains(p) {
                    let j = choose|j: int| 0 <= j < i && elems@.take(i as int)[j] == p;
                    assert(elems@[j] == elems@[i as int]);
                }
            }
            before.lemma_len_filter(f);
            if hit {
                assert(before.insert(p).filter(f) =~= before.filter(f).insert(p));
            } else {
                assert(before.insert(p).filter(f) =~= before.filter(f));
            }
        }
        if hit {
            count = count + 1;
        }
        i = i + 1;
    }
    proof {
        assert(elems@.take(i as int) =~= elems@);
        assert(peer_set@.filter(f) =~= votes_for(peer_set@, votes@, target));
    }
    count
}

/// Removes every vote whose value is `target`.
pub fn clear_votes_for(votes: &mut BTreeMap<PeerPubkey, PeerPubkey>, target: PeerPubkey)
    ensures
        final(votes)@ == without_votes_for(old(votes)@, target),
{
    proof {
        lemma_lawful_keys();
    }
    let voters = sorted_keys(votes);
    let ghost old_votes = votes@;
    let mut i: usize = 0;
    while i < voters.len()
        invariant
            0 <= i <= voters@.len(),
            voters@.to_set() == old_votes.dom(),
            voters@.no_duplicates(),
            forall|k: PeerPubkey| #[trigger]
                votes@.contains_key(k) <==> (old_votes.contains_key(k) && !(
                voters@.take(i as int).contains(k) && old_votes[k] == target)),
            forall|k: PeerPubkey| #[trigger]
                votes@.contains_key(k) ==> votes@[k] == old_votes[k],
        decreases voters@.len() - i,
    {
        let k = voters[i];
        let drop = match votes.get(&k) {
            Some(v) => peer_eq(*v, target),
            None => false,
        };
        proof {
            assert(voters@.take(i as int + 1) =~= voters@.take(i as int).push(k));
            assert(old_votes.contains_key(k)) by {
                assert(voters@.to_set().contains(k));
            }
            assert(!voters@.take(i as int).contains(k)) by {
                if voters@.take(i as int).contains(k) {
                    let j = choose|j: int| 0 <= j < i && voters@.take(i as int)[j] == k;
                    assert(voters@[j] == voters@[i as int]);
                }
            }
        }
        if drop {
            votes.remove(&k);
        }
        proof {
            assert forall|x: PeerPubkey| #[trigger]
                votes@.contains_key(x) <==> (old_votes.contains_key(x) && !(voters@.take(
                i as int + 1,
            ).contains(x) && old_votes[x] == target)) by {
                if x != k {
                    assert(voters@.take(i as int + 1).contains(x) == voters@.take(
                        i as int,
                    ).contains(x));
                } else {
                    assert(voters@.take(i as int + 1)[i as int] == k);
                }
            }
        }
        i = i + 1;
    }
    proof {
        assert(voters@.take(i as int) =~= voters@);
        assert forall|k: PeerPubkey| voters@.contains(k) <==> old_votes.contains_key(k) by {
            if old_votes.contains_key(k) {
                assert(voters@.to_set().contains(k));
            }
        }
        assert(votes@ =~= without_votes_for(old_votes, target));
    }
}

/// Keeps only the votes of voters in `peer_set` whose value is not `target`.
pub fn retain_from_peers_not_for(
    votes: &mut BTreeMap<PeerPubkey, PeerPubkey>,
    peer_set: &PeerSet,
    target: PeerPubkey,
)
    ensures
        final(votes)@ == from_peers_not_for(old(votes)@, peer_set@, target),
{
    proof {
        lemma_lawful_keys();
    }
    let voters = sorted_keys(votes);
    let ghost old_votes = votes@;
    let mut i: usize = 0;
    while i < voters.len()
        invariant
            0 <= i <= voters@.len(),
            voters@.to_set() == old_votes.dom(),
            voters@.no_duplicates(),
            forall|k: PeerPubkey| #[trigger]
                votes@.contains_key(k) <==> (old_votes.contains_key(k) && !(
                voters@.take(i as int).contains(k) && (!peer_set@.contains(k) || old_votes[k]
                == target))),
            forall|k: PeerPubkey| #[trigger]
                votes@.contains_key(k) ==> votes@[k] == old_votes[k],
        decreases voters@.len() - i,
    {
        let k = voters[i];
        let drop = match votes.get(&k) {
            Some(v) => !peer_set.contains(&k) || peer_eq(*v, target),
            None => false,
        };
        proof {
            assert(voters@.take(i as int + 1) =~= voters@.take(i as int).push(k));
            assert(old_votes.contains_key(k)) by {
                assert(voters@.to_set().contains(k));
            }
            assert(!voters@.take(i as int).contains(k)) by {
                if voters@.take(i as int).contains(k) {
                    let j = choose|j: int| 0 <= j < i && voters@.take(i as int)[j] == k;
                    assert(voters@[j] == voters@[i as int]);
                }
            }
        }
        if drop {
            votes.remove(&k);
        }
        proof {
            assert forall|x: PeerPubkey| #[trigger]
                votes@.contains_key(x) <==> (old_votes.contains_key(x) && !(voters@.take(
                i as int + 1,
            ).contains(x) && (!peer_set@.contains(x) || old_votes[x] == target))) by {
                if x != k {
                    assert(voters@.take(i as int + 1).contains(x) == voters@.take(
                        i as int,
                    ).contains(x));
                } else {
                    assert(voters@.take(i as int + 1)[i as int] == k);
                }
            }
        }
        i = i + 1;
    }
    proof {
        assert(voters@.take(i as int) =~= voters@);
        assert forall|k: PeerPubkey| voters@.contains(k) <==> old_votes.contains_key(k) by {
            if old_votes.contains_key(k) {
                assert(voters@.to_set().contains(k));
            }
        }
        assert(votes@ =~= from_peers_not_for(old_votes, peer_set@, target));
    }
}

/// Keeps only the votes of voters in `peer_set`.
pub fn retain_from_peers(votes: &mut BTreeMap<PeerPubkey, PeerPubkey>, peer_set: &PeerSet)
    ensures
        final(votes)@ == old(votes)@.restrict(peer_set@),
{
    proof {
        lemma_lawful_keys();
    }
    let voters = sorted_keys(votes);
    let ghost old_votes = votes@;
    let mut i: usize = 0;
    while i < voters.len()
        invariant
            0 <= i <= voters@.len(),
            voters@.to_set() == old_votes.dom(),
            voters@.no_duplicates(),
            forall|k: PeerPubkey| #[trigger]
                votes@.contains_key(k) <==> (old_votes.contains_key(k) && !(
                voters@.take(i as int).contains(k) && !peer_set@.contains(k))),
            forall|k: PeerPubkey| #[trigger]
                votes@.contains_key(k) ==> votes@[k] == old_votes[k],
        decreases voters@.len() - i,
    {
        let k = voters[i];
        let drop = !peer_set.contains(&k);
        proof {
            assert(voters@.take(i as int + 1) =~= voters@.take(i as int).push(k));
            assert(old_votes.contains_key(k)) by {
                assert(voters@.to_set().contains(k));
            }
        }
        if drop {
            votes.remove(&k);
        }
        proof {
            assert forall|x: PeerPubkey| #[trigger]
                votes@.contains_key(x) <==> (old_votes.contains_key(x) && !(voters@.take(
                i as int + 1,
            ).contains(x) && !peer_set@.contains(x))) by {
                if x != k {
                    assert(voters@.take(i as int + 1).contains(x) == voters@.take(
                        i as int,
                    ).contains(x));
                } else {
                    assert(voters@.take(i as int + 1)[i as int] == k);
                }
            }
        }
        i = i + 1;
    }
    proof {
        assert(voters@.take(i as int) =~= voters@);
        assert forall|k: PeerPubkey| voters@.contains(k) <==> old_votes.contains_key(k) by {
            if old_votes.contains_key(k) {
                assert(voters@.to_set().contains(k));
            }
        }
        assert(votes@ =~= old_votes.restrict(peer_set@));
    }
}

} // verus!
