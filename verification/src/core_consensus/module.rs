use vstd::prelude::*;
use std::collections::{BTreeMap, BTreeSet};

use super::citem::CoreConsensusCitem;
use crate::consensus_ctrl::module::{has_vote, result_view};
use crate::effects::{
    effects_view, AddPeerEffect, CItemEffect, ConsensusParamsChange, EffectView,
    ModuleCItemEffect, RemovePeerEffect,
};
use crate::num_peers::{spec_threshold, threshold};
use crate::types::{peer_eq, ConsensusVersion, ModuleConfig, ModuleId, PeerPubkey, PeerSet};
use crate::votes::{clear_votes_for, count_votes_for, votes_for, without_votes_for};

verus! {

/// Why the core consensus module rejected a request or a consensus item.
#[derive(PartialEq, Eq, Structural, Clone, Copy, Debug)]
pub enum CoreConsensusError {
    /// This node has no peer key, so it cannot vote.
    NotAVotingPeer,
    /// The voter does not belong to the current peer set.
    VoterNotInPeerSet,
    /// Removing the peer would leave the consensus without peers.
    CannotRemoveLastPeer,
    /// The peer voted out does not belong to the current peer set.
    PeerNotInPeerSet,
    /// The module accepts no inputs.
    InputsNotSupported,
    /// The module accepts no outputs.
    OutputsNotSupported,
}

/// The tables of the core consensus module.
pub struct CoreConsensusTables {
    /// Configuration of every module instance.
    pub modules_configs: BTreeMap<ModuleId, ModuleConfig>,
    /// The set of voting peers.
    pub peers: PeerSet,
    /// For each voter, the peer it votes to add.
    pub add_peer_votes: BTreeMap<PeerPubkey, PeerPubkey>,
    /// For each voter, the peer it votes to remove.
    pub remove_peer_votes: BTreeMap<PeerPubkey, PeerPubkey>,
    /// This node's own vote to add a peer.
    pub pending_add_peer_vote: Option<PeerPubkey>,
}

impl CoreConsensusModule {
    /// Creates the module's tables, all empty.
    pub fn init_db_tx() -> (r: CoreConsensusTables)
        ensures
            r.modules_configs@ == Map::<ModuleId, ModuleConfig>::empty(),
            r.peers@ == Set::<PeerPubkey>::empty(),
            r.add_peer_votes@ == Map::<PeerPubkey, PeerPubkey>::empty(),
            r.remove_peer_votes@ == Map::<PeerPubkey, PeerPubkey>::empty(),
            r.pending_add_peer_vote is None,
    {
        CoreConsensusTables {
            modules_configs: BTreeMap::new(),
            peers: BTreeSet::new(),
            add_peer_votes: BTreeMap::new(),
            remove_peer_votes: BTreeMap::new(),
            pending_add_peer_vote: None,
        }
    }
}

/// The core consensus module: its version, this node's peer key (none for a
/// node that does not vote), its tables and the consensus items it proposes.
pub struct CoreConsensusModule {
    pub version: ConsensusVersion,
    pub peer_pubkey: Option<PeerPubkey>,
    pub db: CoreConsensusTables,
    pub proposed_citems: Vec<CoreConsensusCitem>,
}

/// The consensus items a node voting as `me` proposes given the tables `db`:
/// its pending vote to add a peer, unless that vote is already recorded.
pub open spec fn spec_core_proposals(db: &CoreConsensusTables, me: PeerPubkey) -> Seq<
    CoreConsensusCitem,
> {
    match db.pending_add_peer_vote {
        Some(p) => if has_vote(db.add_peer_votes@, me, p) {
            seq![]
        } else {
            seq![CoreConsensusCitem::VoteAddPeer(p)]
        },
        None => seq![],
    }
}

/// Processing `voter`'s vote to add `p`, where `peers` is the current peer
/// set, takes the tables from `old` to `new` with result `r`.
///
/// The vote is refused if the voter is not a current peer; a vote already
/// recorded changes nothing. Otherwise it is recorded (replacing the
/// voter's previous add vote), and once a threshold of the current peers
/// vote for `p`, `p` joins the peer set and all votes for it are cleared.
pub open spec fn core_add_peer_step(
    old: CoreConsensusTables,
    new: CoreConsensusTables,
    voter: PeerPubkey,
    peers: Set<PeerPubkey>,
    p: PeerPubkey,
    r: Result<Seq<EffectView>, CoreConsensusError>,
) -> bool {
    if !peers.contains(voter) {
        r == Err::<Seq<EffectView>, _>(CoreConsensusError::VoterNotInPeerSet) && new == old
    } else if has_vote(old.add_peer_votes@, voter, p) {
        r == Ok::<_, CoreConsensusError>(Seq::<EffectView>::empty()) && new == old
    } else {
        let votes = old.add_peer_votes@.insert(voter, p);
        let decided = votes_for(peers, votes, p).len() >= spec_threshold(peers.len());
        &&& new.modules_configs == old.modules_configs
        &&& new.remove_peer_votes == old.remove_peer_votes
        &&& new.pending_add_peer_vote == old.pending_add_peer_vote
        &&& if decided {
            &&& new.add_peer_votes@ == without_votes_for(votes, p)
            &&& new.peers@ == old.peers@.insert(p)
            &&& r == Ok::<_, CoreConsensusError>(
                seq![
                    EffectView::AddPeer(p),
                    EffectView::ConsensusParamsChange(old.peers@.insert(p)),
                ],
            )
        } else {
            &&& new.add_peer_votes@ == votes
            &&& new.peers == old.peers
            &&& r == Ok::<_, CoreConsensusError>(Seq::<EffectView>::empty())
        }
    }
}

/// Processing `voter`'s vote to remove `p`, where `peers` is the current
/// peer set, takes the tables from `old` to `new` with result `r`.
///
/// The vote is refused if the voter is not a current peer, if the current
/// peer set holds a single peer, or if `p` is not a current peer; a vote
/// already recorded changes nothing. Otherwise it is recorded, and once a
/// threshold of the current peers vote for removing `p`, `p` leaves the
/// peer set and all votes for removing it are cleared.
pub open spec fn core_remove_peer_step(
    old: CoreConsensusTables,
    new: CoreConsensusTables,
    voter: PeerPubkey,
    peers: Set<PeerPubkey>,
    p: PeerPubkey,
    r: Result<Seq<EffectView>, CoreConsensusError>,
) -> bool {
    if !peers.contains(voter) {
        r == Err::<Seq<EffectView>, _>(CoreConsensusError::VoterNotInPeerSet) && new == old
    } else if peers.len() == 1 {
        r == Err::<Seq<EffectView>, _>(CoreConsensusError::CannotRemoveLastPeer) && new == old
    } else if !peers.contains(p) {
        r == Err::<Seq<EffectView>, _>(CoreConsensusError::PeerNotInPeerSet) && new == old
    } else if has_vote(old.remove_peer_votes@, voter, p) {
        r == Ok::<_, CoreConsensusError>(Seq::<EffectView>::empty()) && new == old
    } else {
        let votes = old.remove_peer_votes@.insert(voter, p);
        let decided = votes_for(peers, votes, p).len() >= spec_threshold(peers.len());
        &&& new.modules_configs == old.modules_configs
        &&& new.add_peer_votes == old.add_peer_votes
        &&& new.pending_add_peer_vote == old.pending_add_peer_vote
        &&& if decided {
            &&& new.remove_peer_votes@ == without_votes_for(votes, p)
            &&& new.peers@ == old.peers@.remove(p)
            &&& r == Ok::<_, CoreConsensusError>(
                seq![
                    EffectView::RemovePeer(p),
                    EffectView::ConsensusParamsChange(old.peers@.remove(p)),
                ],
            )
        } else {
            &&& new.remove_peer_votes@ == votes
            &&& new.peers == old.peers
            &&& r == Ok::<_, CoreConsensusError>(Seq::<EffectView>::empty())
        }
    }
}

/// Processing consensus item `citem` from `voter`, where `peers` is the
/// current peer set, takes the tables from `old` to `new` with result `r`.
pub open spec fn core_citem_step(
    old: CoreConsensusTables,
    new: CoreConsensusTables,
    voter: PeerPubkey,
    peers: Set<PeerPubkey>,
    citem: CoreConsensusCitem,
    r: Result<Seq<EffectView>, CoreConsensusError>,
) -> bool {
    match citem {
        CoreConsensusCitem::VoteAddPeer(p) => core_add_peer_step(old, new, voter, peers, p, r),
        CoreConsensusCitem::VoteRemovePeer(p) => core_remove_peer_step(
            old,
            new,
            voter,
            peers,
            p,
            r,
        ),
    }
}

/// Whether `voter`'s recorded vote in `votes` is `target`.
fn voted_for(votes: &BTreeMap<PeerPubkey, PeerPubkey>, voter: PeerPubkey, target: PeerPubkey) -> (r:
    bool)
    ensures
        r == has_vote(votes@, voter, target),
{
    match votes.get(&voter) {
        Some(v) => peer_eq(*v, target),
        None => false,
    }
}

impl CoreConsensusModule {
    /// Processes `voter_pubkey`'s vote to add `peer_to_add`, with the current
    /// peer set `peer_set`, as `core_add_peer_step` describes.
    pub fn process_vote_add_peer(
        &mut self,
        voter_pubkey: PeerPubkey,
        peer_set: &PeerSet,
        peer_to_add: PeerPubkey,
    ) -> (r: Result<Vec<CItemEffect>, CoreConsensusError>)
        ensures
            core_add_peer_step(
                old(self).db,
                final(self).db,
                voter_pubkey,
                peer_set@,
                peer_to_add,
                result_view(r),
            ),
            final(self).version == old(self).version,
            final(self).peer_pubkey == old(self).peer_pubkey,
            final(self).proposed_citems == old(self).proposed_citems,
    {
        if !peer_set.contains(&voter_pubkey) {
            return Err(CoreConsensusError::VoterNotInPeerSet);
        }
        if voted_for(&self.db.add_peer_votes, voter_pubkey, peer_to_add) {
            let none: Vec<CItemEffect> = Vec::new();
            proof {
                assert(effects_view(none@) =~= Seq::<EffectView>::empty());
            }
            return Ok(none);
        }
        let ghost old_db = self.db;
        self.db.add_peer_votes.insert(voter_pubkey, peer_to_add);
        let votes_for_candidate = count_votes_for(peer_set, &self.db.add_peer_votes, peer_to_add);
        let needed = threshold(peer_set.len());
        let mut effects: Vec<CItemEffect> = Vec::new();
        if votes_for_candidate >= needed {
            clear_votes_for(&mut self.db.add_peer_votes, peer_to_add);
            self.db.peers.insert(peer_to_add);
            let updated_peer_set = self.db.peers.clone();
            effects.push(CItemEffect::AddPeer(AddPeerEffect { peer: peer_to_add }));
            effects.push(
                CItemEffect::ConsensusParamsChange(
                    ConsensusParamsChange { peer_set: updated_peer_set },
                ),
            );
            proof {
                assert(effects_view(effects@) =~= seq![
                    EffectView::AddPeer(peer_to_add),
                    EffectView::ConsensusParamsChange(old_db.peers@.insert(peer_to_add)),
                ]);
            }
        } else {
            proof {
                assert(effects_view(effects@) =~= Seq::<EffectView>::empty());
            }
        }
        Ok(effects)
    }

    fn process_vote_remove_peer(
        &mut self,
        voter_pubkey: PeerPubkey,
        peer_set: &PeerSet,
        peer_to_remove: PeerPubkey,
    ) -> (r: Result<Vec<CItemEffect>, CoreConsensusError>)
        ensures
            core_remove_peer_step(
                old(self).db,
                final(self).db,
                voter_pubkey,
                peer_set@,
                peer_to_remove,
                result_view(r),
            ),
            final(self).version == old(self).version,
            final(self).peer_pubkey == old(self).peer_pubkey,
            final(self).proposed_citems == old(self).proposed_citems,
    {
        if !peer_set.contains(&voter_pubkey) {
            return Err(CoreConsensusError::VoterNotInPeerSet);
        }
        if peer_set.len() == 1 {
            return Err(CoreConsensusError::CannotRemoveLastPeer);
        }
        if !peer_set.contains(&peer_to_remove) {
            return Err(CoreConsensusError::PeerNotInPeerSet);
        }
        if voted_for(&self.db.remove_peer_votes, voter_pubkey, peer_to_remove) {
            let none: Vec<CItemEffect> = Vec::new();
            proof {
                assert(effects_view(none@) =~= Seq::<EffectView>::empty());
            }
            return Ok(none);
        }
        let ghost old_db = self.db;
        self.db.remove_peer_votes.insert(voter_pubkey, peer_to_remove);
        let votes_for_removal = count_votes_for(
            peer_set,
            &self.db.remove_peer_votes,
            peer_to_remove,
        );
        let needed = threshold(peer_set.len());
        let mut effects: Vec<CItemEffect> = Vec::new();
        if votes_for_removal >= needed {
            clear_votes_for(&mut self.db.remove_peer_votes, peer_to_remove);
            self.db.peers.remove(&peer_to_remove);
            let updated_peer_set = self.db.peers.clone();
            effects.push(CItemEffect::RemovePeer(RemovePeerEffect { peer: peer_to_remove }));
            effects.push(
                CItemEffect::ConsensusParamsChange(
                    ConsensusParamsChange { peer_set: updated_peer_set },
                ),
            );
            proof {
                assert(effects_view(effects@) =~= seq![
                    EffectView::RemovePeer(peer_to_remove),
                    EffectView::ConsensusParamsChange(old_db.peers@.remove(peer_to_remove)),
                ]);
            }
        } else {
            proof {
                assert(effects_view(effects@) =~= Seq::<EffectView>::empty());
            }
        }
        Ok(effects)
    }
}

impl CoreConsensusModule {
    /// Recomputes the consensus items this node proposes; a node without a
    /// peer key keeps what it proposed.
    pub fn refresh_consensus_proposals(&mut self)
        ensures
            match old(self).peer_pubkey {
                Some(me) => final(self).proposed_citems@ == spec_core_proposals(&old(self).db, me),
                None => final(self).proposed_citems == old(self).proposed_citems,
            },
            final(self).db == old(self).db,
            final(self).peer_pubkey == old(self).peer_pubkey,
            final(self).version == old(self).version,
    {
        let me = match self.peer_pubkey {
            Some(me) => me,
            None => {
                return;
            },
        };
        let mut proposals: Vec<CoreConsensusCitem> = Vec::new();
        match self.db.pending_add_peer_vote {
            Some(pending_peer) => {
                if !voted_for(&self.db.add_peer_votes, me, pending_peer) {
                    proposals.push(CoreConsensusCitem::VoteAddPeer(pending_peer));
                }
            },
            None => {},
        }
        proof {
            assert(proposals@ =~= spec_core_proposals(&self.db, me));
        }
        self.proposed_citems = proposals;
    }

    /// Records this node's wish to vote for adding `peer_to_add`, unless it
    /// already is a peer, and refreshes the proposals.
    pub fn set_pending_add_peer_vote(&mut self, peer_to_add: PeerPubkey) -> (r: Result<
        (),
        CoreConsensusError,
    >)
        ensures
            old(self).peer_pubkey is None ==> r == Err::<(), _>(
                CoreConsensusError::NotAVotingPeer,
            ) && *final(self) == *old(self),
            old(self).peer_pubkey is Some && old(self).db.peers@.contains(peer_to_add) ==> r
                is Ok && *final(self) == *old(self),
            old(self).peer_pubkey is Some && !old(self).db.peers@.contains(peer_to_add) ==> {
                &&& r is Ok
                &&& final(self).db == (CoreConsensusTables {
                    pending_add_peer_vote: Some(peer_to_add),
                    ..old(self).db
                })
                &&& final(self).proposed_citems@ == spec_core_proposals(
                    &final(self).db,
                    old(self).peer_pubkey.unwrap(),
                )
                &&& final(self).peer_pubkey == old(self).peer_pubkey
                &&& final(self).version == old(self).version
            },
    {
        if self.peer_pubkey.is_none() {
            return Err(CoreConsensusError::NotAVotingPeer);
        }
        if self.db.peers.contains(&peer_to_add) {
            return Ok(());
        }
        self.db.pending_add_peer_vote = Some(peer_to_add);
        self.refresh_consensus_proposals();
        Ok(())
    }

    /// Applies consensus item `citem` from `peer_pubkey`, where `peer_set` is
    /// the current peer set, and returns the effects it produced.
    pub fn process_citem(
        &mut self,
        peer_pubkey: PeerPubkey,
        peer_set: &PeerSet,
        citem: &CoreConsensusCitem,
    ) -> (r: Result<Vec<CItemEffect>, CoreConsensusError>)
        ensures
            core_citem_step(
                old(self).db,
                final(self).db,
                peer_pubkey,
                peer_set@,
                *citem,
                result_view(r),
            ),
            r is Err ==> *final(self) == *old(self),
            final(self).version == old(self).version,
            final(self).peer_pubkey == old(self).peer_pubkey,
            final(self).proposed_citems == old(self).proposed_citems,
    {
        match citem {
            CoreConsensusCitem::VoteAddPeer(p) => self.process_vote_add_peer(peer_pubkey, peer_set, *p),
            CoreConsensusCitem::VoteRemovePeer(p) => self.process_vote_remove_peer(
                peer_pubkey,
                peer_set,
                *p,
            ),
        }
    }

    /// Inputs are not part of this module: every input is refused.
    pub fn process_input(&self, input: &[u8]) -> (r: Result<Vec<CItemEffect>, CoreConsensusError>)
        ensures
            r == Err::<Vec<CItemEffect>, _>(CoreConsensusError::InputsNotSupported),
    {
        Err(CoreConsensusError::InputsNotSupported)
    }

    /// Outputs are not part of this module: every output is refused.
    pub fn process_output(&self, output: &[u8]) -> (r: Result<Vec<CItemEffect>, CoreConsensusError>)
        ensures
            r == Err::<Vec<CItemEffect>, _>(CoreConsensusError::OutputsNotSupported),
    {
        Err(CoreConsensusError::OutputsNotSupported)
    }

    /// Human readable name of the module.
    pub fn display_name(&self) -> (r: &'static str)
        ensures
            r@ == "Core Consensus"@,
    {
        "Core Consensus"
    }

    /// The module reacts to no effect: its tables change only while its own
    /// consensus items are processed.
    pub fn process_effects(&self, effects: &Vec<ModuleCItemEffect>) -> (r: Result<(), CoreConsensusError>)
        ensures
            r is Ok,
    {
        Ok(())
    }

    /// The configurations of all modules.
    pub fn get_modules_configs(&self) -> (r: BTreeMap<ModuleId, ModuleConfig>)
        ensures
            r@ == self.db.modules_configs@,
    {
        self.db.modules_configs.clone()
    }

    /// The current peer set.
    pub fn get_peer_set(&self) -> (r: PeerSet)
        ensures
            r@ == self.db.peers@,
    {
        self.db.peers.clone()
    }
}

} // verus!
