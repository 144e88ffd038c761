//! What holds of every run of the core consensus module.
use vstd::prelude::*;

use super::citem::CoreConsensusCitem;
use super::module::{core_add_peer_step, core_citem_step, CoreConsensusError, CoreConsensusTables};
use crate::consensus_ctrl::module::{has_vote, lemma_remove_keeps_nonempty};
use crate::effects::EffectView;
use crate::num_peers::spec_threshold;
use crate::types::PeerPubkey;
use crate::votes::votes_for;

verus! {

/// The recorded votes that a consensus item votes in, and the peer it
/// votes about.
pub open spec fn citem_votes(db: CoreConsensusTables, citem: CoreConsensusCitem) -> Map<
    PeerPubkey,
    PeerPubkey,
> {
    match citem {
        CoreConsensusCitem::VoteAddPeer(_) => db.add_peer_votes@,
        CoreConsensusCitem::VoteRemovePeer(_) => db.remove_peer_votes@,
    }
}

/// The peer a consensus item votes about.
pub open spec fn citem_target(citem: CoreConsensusCitem) -> PeerPubkey {
    match citem {
        CoreConsensusCitem::VoteAddPeer(p) => p,
        CoreConsensusCitem::VoteRemovePeer(p) => p,
    }
}

/// A vote to add a peer that the voter has already recorded changes
/// nothing: it is accepted without effect from a current peer and refused
/// from anyone else.
pub proof fn lemma_core_recorded_add_vote_is_noop(
    old: CoreConsensusTables,
    new: CoreConsensusTables,
    voter: PeerPubkey,
    peers: Set<PeerPubkey>,
    p: PeerPubkey,
    r: Result<Seq<EffectView>, CoreConsensusError>,
)
    requires
        core_add_peer_step(old, new, voter, peers, p, r),
        has_vote(old.add_peer_votes@, voter, p),
    ensures
        new == old,
        peers.contains(voter) ==> r == Ok::<_, CoreConsensusError>(Seq::<EffectView>::empty()),
        !peers.contains(voter) ==> r == Err::<Seq<EffectView>, _>(CoreConsensusError::VoterNotInPeerSet),
{
}

/// Submitting a vote again right after it was accepted without effect
/// changes nothing and has no effect.
pub proof fn lemma_core_repeated_vote_is_noop(
    old: CoreConsensusTables,
    mid: CoreConsensusTables,
    new: CoreConsensusTables,
    voter: PeerPubkey,
    peers: Set<PeerPubkey>,
    citem: CoreConsensusCitem,
    r: Result<Seq<EffectView>, CoreConsensusError>,
)
    requires
        core_citem_step(
            old,
            mid,
            voter,
            peers,
            citem,
            Ok::<_, CoreConsensusError>(Seq::<EffectView>::empty()),
        ),
        core_citem_step(mid, new, voter, peers, citem, r),
    ensures
        r == Ok::<_, CoreConsensusError>(Seq::<EffectView>::empty()),
        new == mid,
{
    let p = citem_target(citem);
    let votes = citem_votes(old, citem).insert(voter, p);
    if peers.contains(voter) && !has_vote(citem_votes(old, citem), voter, p) {
        let decided = votes_for(peers, votes, p).len() >= spec_threshold(peers.len());
        if decided {
            let e = match citem {
                CoreConsensusCitem::VoteAddPeer(p) => seq![
                    EffectView::AddPeer(p),
                    EffectView::ConsensusParamsChange(old.peers@.insert(p)),
                ],
                CoreConsensusCitem::VoteRemovePeer(p) => seq![
                    EffectView::RemovePeer(p),
                    EffectView::ConsensusParamsChange(old.peers@.remove(p)),
                ],
            };
            assert(e.len() == 2);
        }
        assert(citem_votes(mid, citem)[voter] == p);
    }
    assert(has_vote(citem_votes(mid, citem), voter, p));
}

/// A vote changes the peer set exactly when it is new and, once recorded,
/// a threshold of the current peers hold it; the effects then name the
/// peer and carry the new peer set, which is the old one with the peer
/// added or removed.
pub proof fn lemma_core_effects_follow_threshold(
    old: CoreConsensusTables,
    new: CoreConsensusTables,
    voter: PeerPubkey,
    peers: Set<PeerPubkey>,
    citem: CoreConsensusCitem,
    effects: Seq<EffectView>,
)
    requires
        core_citem_step(old, new, voter, peers, citem, Ok::<_, CoreConsensusError>(effects)),
    ensures
        effects.len() != 0 <==> !has_vote(citem_votes(old, citem), voter, citem_target(citem))
            && votes_for(
            peers,
            citem_votes(old, citem).insert(voter, citem_target(citem)),
            citem_target(citem),
        ).len() >= spec_threshold(peers.len()),
        effects.len() != 0 ==> {
            &&& effects.len() == 2
            &&& effects[1] == EffectView::ConsensusParamsChange(new.peers@)
            &&& match citem {
                CoreConsensusCitem::VoteAddPeer(p) => effects[0] == EffectView::AddPeer(p)
                    && new.peers@ == old.peers@.insert(p),
                CoreConsensusCitem::VoteRemovePeer(p) => effects[0] == EffectView::RemovePeer(p)
                    && new.peers@ == old.peers@.remove(p),
            }
        },
        effects.len() == 0 ==> new.peers == old.peers,
{
}

/// When the current peer set is the recorded one, processing a consensus
/// item never leaves the consensus without peers.
pub proof fn lemma_core_keeps_a_peer(
    old: CoreConsensusTables,
    new: CoreConsensusTables,
    voter: PeerPubkey,
    citem: CoreConsensusCitem,
    r: Result<Seq<EffectView>, CoreConsensusError>,
)
    requires
        core_citem_step(old, new, voter, old.peers@, citem, r),
        exists|q: PeerPubkey| old.peers@.contains(q),
    ensures
        exists|q: PeerPubkey| new.peers@.contains(q),
{
    let q = choose|q: PeerPubkey| old.peers@.contains(q);
    match citem {
        CoreConsensusCitem::VoteAddPeer(p) => {
            assert(new.peers@.contains(q));
        },
        CoreConsensusCitem::VoteRemovePeer(p) => {
            if old.peers@.contains(voter) && old.peers@.len() != 1 && old.peers@.contains(p) {
                lemma_remove_keeps_nonempty(old.peers@, p);
            } else {
                assert(new.peers@.contains(q));
            }
        },
    }
}

} // verus!
