use vstd::prelude::*;
use std::collections::{BTreeMap, BTreeSet};

use super::citem::ConsensusCtrlCitem;
use super::upgrades::{
    check_module_version_upgrades, spec_upgrades, upgrades_applied, VersionVotes,
};
use crate::effects::{
    effects_view, AddPeerEffect, CItemEffect, ConsensusParamsChange, EffectView, RemovePeerEffect,
};
use crate::keys::{lemma_ascending_u32, lemma_lawful_keys, sorted_keys};
use crate::num_peers::{spec_threshold, threshold};
use crate::types::{
    ascending_ids, lemma_ascending_ids_unique, peer_eq, ConsensusVersion,
    ConsensusVersionMajor, ConsensusVersionMinor, ModuleConfig, ModuleId, ModuleKind,
    PeerPubkey, PeerSet,
};
use crate::votes::{
    clear_votes_for, count_votes_for, from_peers_not_for, retain_from_peers,
    retain_from_peers_not_for, votes_for, without_votes_for,
};

verus! {

/// Why the consensus control module rejected a request or a consensus item.
#[derive(PartialEq, Eq, Structural, Clone, Copy, Debug)]
pub enum ConsensusCtrlError {
    /// This node has no peer key, so it cannot vote.
    NotAVotingPeer,
    /// The peer proposed for addition already belongs to the peer set.
    PeerAlreadyInPeerSet,
    /// The peer proposed for removal does not belong to the latest peer set.
    PeerNotInLatestPeerSet,
    /// Removing the peer would leave the consensus without peers.
    CannotRemoveLastPeer,
    /// The voter does not belong to the current peer set.
    VoterNotInPeerSet,
    /// The module voted on has no configuration.
    ModuleNotFound,
    /// The module has no processing for this kind of consensus item.
    UnsupportedCitem,
    /// The module accepts no inputs.
    InputsNotSupported,
    /// The module accepts no outputs.
    OutputsNotSupported,
}

/// The tables of the consensus control module.
pub struct AppConsensusTables {
    /// The module's own consensus version, set once at bootstrap.
    pub self_version: Option<ConsensusVersion>,
    /// The latest set of voting peers.
    pub peers: PeerSet,
    /// For each voter, the peer it votes to add.
    pub add_peer_votes: BTreeMap<PeerPubkey, PeerPubkey>,
    /// For each voter, the peer it votes to remove.
    pub remove_peer_votes: BTreeMap<PeerPubkey, PeerPubkey>,
    /// This node's own vote to add a peer, still to be proposed.
    pub pending_add_peer_vote: Option<PeerPubkey>,
    /// This node's own vote to remove a peer, still to be proposed.
    pub pending_remove_peer_vote: Option<PeerPubkey>,
    /// Configuration of every module instance.
    pub modules_configs: BTreeMap<ModuleId, ModuleConfig>,
    /// For each voter and module, the version it votes for.
    pub modules_versions_votes: VersionVotes,
    /// This node's own module version votes, still to be proposed.
    pub pending_modules_versions_votes: BTreeMap<ModuleId, ConsensusVersionMinor>,
}

impl AppConsensusModule {
    /// Creates the module's tables, all empty.
    pub fn init_db_tx() -> (r: AppConsensusTables)
        ensures
            r.self_version is None,
            r.peers@ == Set::<PeerPubkey>::empty(),
            r.add_peer_votes@ == Map::<PeerPubkey, PeerPubkey>::empty(),
            r.remove_peer_votes@ == Map::<PeerPubkey, PeerPubkey>::empty(),
            r.pending_add_peer_vote is None,
            r.pending_remove_peer_vote is None,
            r.modules_configs@ == Map::<ModuleId, ModuleConfig>::empty(),
            r.modules_versions_votes@ == Map::<(PeerPubkey, ModuleId), ConsensusVersion>::empty(),
            r.pending_modules_versions_votes@ == Map::<ModuleId, ConsensusVersionMinor>::empty(),
    {
        AppConsensusTables {
            self_version: None,
            peers: BTreeSet::new(),
            add_peer_votes: BTreeMap::new(),
            remove_peer_votes: BTreeMap::new(),
            pending_add_peer_vote: None,
            pending_remove_peer_vote: None,
            modules_configs: BTreeMap::new(),
            modules_versions_votes: BTreeMap::new(),
            pending_modules_versions_votes: BTreeMap::new(),
        }
    }
}

/// The consensus control module: its version, this node's peer key (none
/// for a node that does not vote), its tables and the consensus items it
/// currently proposes.
pub struct AppConsensusModule {
    pub version: ConsensusVersion,
    pub peer_pubkey: Option<PeerPubkey>,
    pub db: AppConsensusTables,
    pub proposed_citems: Vec<ConsensusCtrlCitem>,
}

/// `db`'s votes for `me` hold a vote by `me` for `target`.
pub open spec fn has_vote(votes: Map<PeerPubkey, PeerPubkey>, me: PeerPubkey, target: PeerPubkey) -> bool {
    votes.contains_key(me) && votes[me] == target
}

/// Proposal of this node's pending vote to add a peer, if it still needs
/// proposing.
pub open spec fn spec_add_peer_proposal(db: &AppConsensusTables, me: PeerPubkey) -> Seq<
    ConsensusCtrlCitem,
> {
    match db.pending_add_peer_vote {
        Some(p) => if !db.peers@.contains(p) && !has_vote(db.add_peer_votes@, me, p) {
            seq![ConsensusCtrlCitem::VoteAddPeer(p)]
        } else {
            seq![]
        },
        None => seq![],
    }
}

/// Proposal of this node's pending vote to remove a peer, if it still needs
/// proposing.
pub open spec fn spec_remove_peer_proposal(db: &AppConsensusTables, me: PeerPubkey) -> Seq<
    ConsensusCtrlCitem,
> {
    match db.pending_remove_peer_vote {
        Some(p) => if db.peers@.contains(p) && !has_vote(db.remove_peer_votes@, me, p) {
            seq![ConsensusCtrlCitem::VoteRemovePeer(p)]
        } else {
            seq![]
        },
        None => seq![],
    }
}

/// This node's pending version vote for module `m` differs from the vote it
/// has recorded.
pub open spec fn module_version_vote_due(db: &AppConsensusTables, me: PeerPubkey, m: ModuleId) -> bool {
    &&& db.pending_modules_versions_votes@.contains_key(m)
    &&& !(db.modules_versions_votes@.contains_key((me, m))
        && db.modules_versions_votes@[(me, m)].minor == db.pending_modules_versions_votes@[m])
}

/// Proposals of this node's pending module version votes, in increasing
/// module order.
pub open spec fn spec_module_version_proposals(db: &AppConsensusTables, me: PeerPubkey) -> Seq<
    ConsensusCtrlCitem,
> {
    ascending_ids(db.pending_modules_versions_votes@.dom()).filter(
        |m: ModuleId| module_version_vote_due(db, me, m),
    ).map_values(
        |m: ModuleId|
            ConsensusCtrlCitem::VoteModuleVersion {
                module_id: m,
                minor_consensus_version: db.pending_modules_versions_votes@[m],
            },
    )
}

/// All consensus items a node with peer key `peer_pubkey` proposes given
/// the tables `db`.
pub open spec fn spec_proposals(db: &AppConsensusTables, peer_pubkey: Option<PeerPubkey>) -> Seq<
    ConsensusCtrlCitem,
> {
    match peer_pubkey {
        None => seq![],
        Some(me) => spec_add_peer_proposal(db, me) + spec_remove_peer_proposal(db, me)
            + spec_module_version_proposals(db, me),
    }
}

impl AppConsensusModule {
    /// The consensus items this node proposes given its current tables.
    pub fn refresh_consensus_proposals_tx(&self) -> (r: Vec<ConsensusCtrlCitem>)
        ensures
            r@ == spec_proposals(&self.db, self.peer_pubkey),
    {
        proof {
            lemma_lawful_keys();
        }
        let mut proposals: Vec<ConsensusCtrlCitem> = Vec::new();
        let me = match self.peer_pubkey {
            None => {
                proof {
                    assert(proposals@ =~= spec_proposals(&self.db, self.peer_pubkey));
                }
                return proposals;
            },
            Some(me) => me,
        };
        let db = &self.db;
        match db.pending_add_peer_vote {
            Some(p) => {
                if !db.peers.contains(&p) {
                    let voted = match db.add_peer_votes.get(&me) {
                        Some(v) => peer_eq(*v, p),
                        None => false,
                    };
                    if !voted {
                        proposals.push(ConsensusCtrlCitem::VoteAddPeer(p));
                    }
                }
            },
            None => {},
        }
        proof {
            assert(proposals@ =~= spec_add_peer_proposal(db, me));
        }
        match db.pending_remove_peer_vote {
            Some(p) => {
                if db.peers.contains(&p) {
                    let voted = match db.remove_peer_votes.get(&me) {
                        Some(v) => peer_eq(*v, p),
                        None => false,
                    };
                    if !voted {
                        proposals.push(ConsensusCtrlCitem::VoteRemovePeer(p));
                    }
                }
            },
            None => {},
        }
        let ghost prefix = spec_add_peer_proposal(db, me) + spec_remove_peer_proposal(db, me);
        proof {
            assert(proposals@ =~= prefix);
        }
        let ids = sorted_keys(&db.pending_modules_versions_votes);
        let ghost due = |m: ModuleId| module_version_vote_due(db, me, m);
        let ghost mk = |m: ModuleId|
            ConsensusCtrlCitem::VoteModuleVersion {
                module_id: m,
                minor_consensus_version: db.pending_modules_versions_votes@[m],
            };
        proof {
            lemma_ascending_u32(ids@);
            lemma_ascending_ids_unique(ids@, db.pending_modules_versions_votes@.dom());
        }
        let mut i: usize = 0;
        while i < ids.len()
            invariant
                0 <= i <= ids@.len(),
                ids@.to_set() == db.pending_modules_versions_votes@.dom(),
                due == (|m: ModuleId| module_version_vote_due(db, me, m)),
                mk == (|m: ModuleId|
                    ConsensusCtrlCitem::VoteModuleVersion {
                        module_id: m,
                        minor_consensus_version: db.pending_modules_versions_votes@[m],
                    }),
                proposals@ == prefix + ids@.take(i as int).filter(due).map_values(mk),
            decreases ids@.len() - i,
        {
            let m = ids[i];
            proof {
                assert(ids@.to_set().contains(m));
            }
            let pending = match db.pending_modules_versions_votes.get(&m) {
                Some(v) => *v,
                None => {
                    proof {
                        assert(false);
                    }
                    0
                },
            };
            let recorded = match db.modules_versions_votes.get(&(me, m)) {
                Some(v) => v.minor == pending,
                None => false,
            };
            proof {
                assert(ids@.take(i as int + 1) =~= ids@.take(i as int).push(m));
                ids@.take(i as int).lemma_filter_push(m, due);
                ids@.take(i as int).filter(due).lemma_push_map_commute(mk, m);
                assert(due(m) == !recorded);
            }
            if !recorded {
                proposals.push(
                    ConsensusCtrlCitem::VoteModuleVersion {
                        module_id: m,
                        minor_consensus_version: pending,
                    },
                );
            }
            i = i + 1;
        }
        proof {
            assert(ids@.take(i as int) =~= ids@);
            assert(proposals@ =~= spec_proposals(db, self.peer_pubkey));
        }
        proposals
    }

    /// Recomputes the consensus items this node proposes.
    pub fn refresh_consensus_proposals(&mut self)
        ensures
            final(self).proposed_citems@ == spec_proposals(&old(self).db, old(self).peer_pubkey),
            final(self).db == old(self).db,
            final(self).peer_pubkey == old(self).peer_pubkey,
            final(self).version == old(self).version,
    {
        self.proposed_citems = self.refresh_consensus_proposals_tx();
    }
}


/// The plain form of a processing result.
pub open spec fn result_view<E>(r: Result<Vec<CItemEffect>, E>) -> Result<Seq<EffectView>, E> {
    match r {
        Ok(e) => Ok(effects_view(e@)),
        Err(x) => Err(x),
    }
}

/// `new` keeps the tables that only bootstrap and version votes change.
pub open spec fn peer_vote_frame(old: AppConsensusTables, new: AppConsensusTables) -> bool {
    &&& new.self_version == old.self_version
    &&& new.modules_configs == old.modules_configs
    &&& new.modules_versions_votes == old.modules_versions_votes
    &&& new.pending_modules_versions_votes == old.pending_modules_versions_votes
}

/// Processing `voter`'s vote to add `p`, where `peers` is the effective
/// peer set, takes the tables from `old` to `new` with result `r`.
///
/// The vote is refused if `p` already belongs to the latest peer set.
/// Otherwise it is recorded (replacing the voter's previous add vote), and
/// once a threshold of the effective peers vote for `p`, `p` joins the
/// peer set and all votes for it are cleared.
pub open spec fn add_peer_step(
    old: AppConsensusTables,
    new: AppConsensusTables,
    me: Option<PeerPubkey>,
    voter: PeerPubkey,
    peers: Set<PeerPubkey>,
    p: PeerPubkey,
    r: Result<Seq<EffectView>, ConsensusCtrlError>,
) -> bool {
    if old.peers@.contains(p) {
        r == Err::<Seq<EffectView>, _>(ConsensusCtrlError::PeerAlreadyInPeerSet) && new == old
    } else {
        let votes = old.add_peer_votes@.insert(voter, p);
        let decided = votes_for(peers, votes, p).len() >= spec_threshold(peers.len());
        &&& peer_vote_frame(old, new)
        &&& new.remove_peer_votes == old.remove_peer_votes
        &&& new.pending_remove_peer_vote == old.pending_remove_peer_vote
        &&& new.pending_add_peer_vote == (if me == Some(voter) {
            None
        } else {
            old.pending_add_peer_vote
        })
        &&& if decided {
            &&& new.add_peer_votes@ == without_votes_for(votes, p)
            &&& new.peers@ == old.peers@.insert(p)
            &&& r == Ok::<_, ConsensusCtrlError>(
                seq![
                    EffectView::AddPeer(p),
                    EffectView::ConsensusParamsChange(old.peers@.insert(p)),
                ],
            )
        } else {
            &&& new.add_peer_votes@ == votes
            &&& new.peers == old.peers
            &&& r == Ok::<_, ConsensusCtrlError>(Seq::<EffectView>::empty())
        }
    }
}

/// The upgrade effects in their plain form.
pub open spec fn upgrade_effects(
    configs: Map<ModuleId, ModuleConfig>,
    votes: Map<(PeerPubkey, ModuleId), ConsensusVersion>,
    peers: Set<PeerPubkey>,
) -> Seq<EffectView> {
    spec_upgrades(configs, votes, peers).map_values(
        |u: crate::effects::ModuleVersionUpgradeEffect| EffectView::ModuleVersionUpgrade(u),
    )
}

/// Processing `voter`'s vote to remove `p`, where `peers` is the effective
/// peer set, takes the tables from `old` to `new` with result `r`.
///
/// The vote is refused if `p` is not in the latest peer set or is its only
/// peer; a vote already recorded changes nothing. Otherwise it is recorded,
/// and once a threshold of the effective peers vote for removing `p`, `p`
/// leaves the peer set, votes of removed voters and votes against `p` are
/// cleared, and module versions are re-evaluated for the new peer set.
pub open spec fn remove_peer_step(
    old: AppConsensusTables,
    new: AppConsensusTables,
    me: Option<PeerPubkey>,
    voter: PeerPubkey,
    peers: Set<PeerPubkey>,
    p: PeerPubkey,
    r: Result<Seq<EffectView>, ConsensusCtrlError>,
) -> bool {
    if !old.peers@.contains(p) {
        r == Err::<Seq<EffectView>, _>(ConsensusCtrlError::PeerNotInLatestPeerSet) && new == old
    } else if old.peers@.len() == 1 {
        r == Err::<Seq<EffectView>, _>(ConsensusCtrlError::CannotRemoveLastPeer) && new == old
    } else if has_vote(old.remove_peer_votes@, voter, p) {
        r == Ok::<_, ConsensusCtrlError>(Seq::<EffectView>::empty()) && new == old
    } else {
        let votes = old.remove_peer_votes@.insert(voter, p);
        let decided = votes_for(peers, votes, p).len() >= spec_threshold(peers.len());
        let remaining = old.peers@.remove(p);
        &&& new.self_version == old.self_version
        &&& new.pending_add_peer_vote == old.pending_add_peer_vote
        &&& new.modules_versions_votes == old.modules_versions_votes
        &&& new.pending_modules_versions_votes == old.pending_modules_versions_votes
        &&& new.pending_remove_peer_vote == (if me == Some(voter) {
            None
        } else {
            old.pending_remove_peer_vote
        })
        &&& if decided {
            &&& new.peers@ == remaining
            &&& new.remove_peer_votes@ == from_peers_not_for(votes, remaining, p)
            &&& new.add_peer_votes@ == old.add_peer_votes@.restrict(remaining)
            &&& upgrades_applied(
                old.modules_configs@,
                new.modules_configs@,
                old.modules_versions_votes@,
                remaining,
            )
            &&& r == Ok::<_, ConsensusCtrlError>(
                seq![EffectView::RemovePeer(p), EffectView::ConsensusParamsChange(remaining)]
                    + upgrade_effects(
                    old.modules_configs@,
                    old.modules_versions_votes@,
                    remaining,
                ),
            )
        } else {
            &&& new.remove_peer_votes@ == votes
            &&& new.peers == old.peers
            &&& new.add_peer_votes == old.add_peer_votes
            &&& new.modules_configs == old.modules_configs
            &&& r == Ok::<_, ConsensusCtrlError>(Seq::<EffectView>::empty())
        }
    }
}

/// Processing `voter`'s vote for minor version `minor` of module `m`, where
/// `peers` is the effective peer set, takes the tables from `old` to `new`
/// with result `r`.
///
/// The vote is refused if the voter is not an effective peer or the module
/// is unknown. Otherwise it is recorded under the module's current major
/// version and every module's version is re-evaluated.
pub open spec fn module_version_step(
    old: AppConsensusTables,
    new: AppConsensusTables,
    me: Option<PeerPubkey>,
    voter: PeerPubkey,
    peers: Set<PeerPubkey>,
    m: ModuleId,
    minor: ConsensusVersionMinor,
    r: Result<Seq<EffectView>, ConsensusCtrlError>,
) -> bool {
    if !peers.contains(voter) {
        r == Err::<Seq<EffectView>, _>(ConsensusCtrlError::VoterNotInPeerSet) && new == old
    } else if !old.modules_configs@.contains_key(m) {
        r == Err::<Seq<EffectView>, _>(ConsensusCtrlError::ModuleNotFound) && new == old
    } else {
        let votes = old.modules_versions_votes@.insert(
            (voter, m),
            ConsensusVersion { major: old.modules_configs@[m].version.major, minor },
        );
        &&& new.self_version == old.self_version
        &&& new.peers == old.peers
        &&& new.add_peer_votes == old.add_peer_votes
        &&& new.remove_peer_votes == old.remove_peer_votes
        &&& new.pending_add_peer_vote == old.pending_add_peer_vote
        &&& new.pending_remove_peer_vote == old.pending_remove_peer_vote
        &&& new.modules_versions_votes@ == votes
        &&& new.pending_modules_versions_votes@ == (if me == Some(voter) {
            old.pending_modules_versions_votes@.remove(m)
        } else {
            old.pending_modules_versions_votes@
        })
        &&& upgrades_applied(old.modules_configs@, new.modules_configs@, votes, peers)
        &&& r == Ok::<_, ConsensusCtrlError>(upgrade_effects(old.modules_configs@, votes, peers))
    }
}

impl AppConsensusModule {
    fn process_citem_vote_add_peer(
        &mut self,
        voter_pubkey: PeerPubkey,
        peer_set: &PeerSet,
        peer_to_add: PeerPubkey,
    ) -> (r: Result<Vec<CItemEffect>, ConsensusCtrlError>)
        ensures
            add_peer_step(
                old(self).db,
                final(self).db,
                old(self).peer_pubkey,
                voter_pubkey,
                peer_set@,
                peer_to_add,
                result_view(r),
            ),
            final(self).version == old(self).version,
            final(self).peer_pubkey == old(self).peer_pubkey,
            final(self).proposed_citems == old(self).proposed_citems,
    {
        if self.db.peers.contains(&peer_to_add) {
            return Err(ConsensusCtrlError::PeerAlreadyInPeerSet);
        }
        let ghost old_db = self.db;
        self.db.add_peer_votes.insert(voter_pubkey, peer_to_add);
        let is_me = match self.peer_pubkey {
            Some(me) => peer_eq(me, voter_pubkey),
            None => false,
        };
        if is_me {
            self.db.pending_add_peer_vote = None;
        }
        let votes_for_candidate = count_votes_for(peer_set, &self.db.add_peer_votes, peer_to_add);
        let needed = threshold(peer_set.len());
        let mut effects: Vec<CItemEffect> = Vec::new();
        if votes_for_candidate >= needed {
            clear_votes_for(&mut self.db.add_peer_votes, peer_to_add);
            self.db.peers.insert(peer_to_add);
            let updated_peer_set = self.db.peers.clone();
            effects.push(CItemEffect::AddPeer(AddPeerEffect { peer: peer_to_add }));
            effects.push(
                CItemEffect::ConsensusParamsChange(
                    ConsensusParamsChange { peer_set: updated_peer_set },
                ),
            );
            proof {
                assert(effects_view(effects@) =~= seq![
                    EffectView::AddPeer(peer_to_add),
                    EffectView::ConsensusParamsChange(old_db.peers@.insert(peer_to_add)),
                ]);
            }
        } else {
            proof {
                assert(effects_view(effects@) =~= Seq::<EffectView>::empty());
            }
        }
        Ok(effects)
    }
}

impl AppConsensusModule {
    /// Processes `voter_pubkey`'s vote to remove `peer_to_remove`, with the
    /// effective peer set `cur_effective_peer_set`, as `remove_peer_step`
    /// describes.
    pub fn process_citem_vote_remove_peer(
        &mut self,
        voter_pubkey: PeerPubkey,
        cur_effective_peer_set: &PeerSet,
        peer_to_remove: PeerPubkey,
    ) -> (r: Result<Vec<CItemEffect>, ConsensusCtrlError>)
        ensures
            remove_peer_step(
                old(self).db,
                final(self).db,
                old(self).peer_pubkey,
                voter_pubkey,
                cur_effective_peer_set@,
                peer_to_remove,
                result_view(r),
            ),
            final(self).version == old(self).version,
            final(self).peer_pubkey == old(self).peer_pubkey,
            final(self).proposed_citems == old(self).proposed_citems,
    {
        if !self.db.peers.contains(&peer_to_remove) {
            return Err(ConsensusCtrlError::PeerNotInLatestPeerSet);
        }
        if self.db.peers.len() == 1 {
            return Err(ConsensusCtrlError::CannotRemoveLastPeer);
        }
        let already = match self.db.remove_peer_votes.get(&voter_pubkey) {
            Some(v) => peer_eq(*v, peer_to_remove),
            None => false,
        };
        if already {
            let none: Vec<CItemEffect> = Vec::new();
            proof {
                assert(effects_view(none@) =~= Seq::<EffectView>::empty());
            }
            return Ok(none);
        }
        let ghost old_db = self.db;
        self.db.remove_peer_votes.insert(voter_pubkey, peer_to_remove);
        let is_me = match self.peer_pubkey {
            Some(me) => peer_eq(me, voter_pubkey),
            None => false,
        };
        if is_me {
            self.db.pending_remove_peer_vote = None;
        }
        let votes_for_removal = count_votes_for(
            cur_effective_peer_set,
            &self.db.remove_peer_votes,
            peer_to_remove,
        );
        let needed = threshold(cur_effective_peer_set.len());
        let mut effects: Vec<CItemEffect> = Vec::new();
        if votes_for_removal >= needed {
            self.db.peers.remove(&peer_to_remove);
            let updated_peer_set = self.db.peers.clone();
            retain_from_peers_not_for(
                &mut self.db.remove_peer_votes,
                &updated_peer_set,
                peer_to_remove,
            );
            retain_from_peers(&mut self.db.add_peer_votes, &updated_peer_set);
            let upgrades = check_module_version_upgrades(
                &mut self.db.modules_configs,
                &self.db.modules_versions_votes,
                &updated_peer_set,
            );
            effects.push(CItemEffect::RemovePeer(RemovePeerEffect { peer: peer_to_remove }));
            effects.push(
                CItemEffect::ConsensusParamsChange(
                    ConsensusParamsChange { peer_set: updated_peer_set },
                ),
            );
            let ghost head = effects_view(effects@);
            let mut k: usize = 0;
            while k < upgrades.len()
                invariant
                    0 <= k <= upgrades@.len(),
                    effects_view(effects@) == head + upgrades@.take(k as int).map_values(
                        |u: crate::effects::ModuleVersionUpgradeEffect|
                            EffectView::ModuleVersionUpgrade(u),
                    ),
                decreases upgrades@.len() - k,
            {
                let u = upgrades[k];
                proof {
                    assert(upgrades@.take(k as int + 1) =~= upgrades@.take(k as int).push(u));
                }
                let ghost prev = effects@;
                effects.push(CItemEffect::ModuleVersionUpgrade(u));
                proof {
                    assert(effects_view(effects@) =~= effects_view(prev).push(
                        EffectView::ModuleVersionUpgrade(u),
                    ));
                    assert(effects_view(effects@) =~= head + upgrades@.take(
                        k as int + 1,
                    ).map_values(
                        |u: crate::effects::ModuleVersionUpgradeEffect|
                            EffectView::ModuleVersionUpgrade(u),
                    ));
                }
                k = k + 1;
            }
            proof {
                assert(upgrades@.take(k as int) =~= upgrades@);
                assert(head =~= seq![
                    EffectView::RemovePeer(peer_to_remove),
                    EffectView::ConsensusParamsChange(old_db.peers@.remove(peer_to_remove)),
                ]);
            }
        } else {
            proof {
                assert(effects_view(effects@) =~= Seq::<EffectView>::empty());
            }
        }
        Ok(effects)
    }

    fn process_citem_vote_module_version(
        &mut self,
        voter_pubkey: PeerPubkey,
        peer_set: &PeerSet,
        module_id: ModuleId,
        minor_consensus_version: ConsensusVersionMinor,
    ) -> (r: Result<Vec<CItemEffect>, ConsensusCtrlError>)
        ensures
            module_version_step(
                old(self).db,
                final(self).db,
                old(self).peer_pubkey,
                voter_pubkey,
                peer_set@,
                module_id,
                minor_consensus_version,
                result_view(r),
            ),
            final(self).version == old(self).version,
            final(self).peer_pubkey == old(self).peer_pubkey,
            final(self).proposed_citems == old(self).proposed_citems,
    {
        if !peer_set.contains(&voter_pubkey) {
            return Err(ConsensusCtrlError::VoterNotInPeerSet);
        }
        let major: ConsensusVersionMajor = match self.db.modules_configs.get(&module_id) {
            Some(c) => c.version.major,
            None => {
                return Err(ConsensusCtrlError::ModuleNotFound);
            },
        };
        let new_version = ConsensusVersion { major, minor: minor_consensus_version };
        self.db.modules_versions_votes.insert((voter_pubkey, module_id), new_version);
        let is_me = match self.peer_pubkey {
            Some(me) => peer_eq(me, voter_pubkey),
            None => false,
        };
        if is_me {
            self.db.pending_modules_versions_votes.remove(&module_id);
        }
        let upgrades = check_module_version_upgrades(
            &mut self.db.modules_configs,
            &self.db.modules_versions_votes,
            peer_set,
        );
        let mut effects: Vec<CItemEffect> = Vec::new();
        let mut k: usize = 0;
        while k < upgrades.len()
            invariant
                0 <= k <= upgrades@.len(),
                effects_view(effects@) == upgrades@.take(k as int).map_values(
                    |u: crate::effects::ModuleVersionUpgradeEffect|
                        EffectView::ModuleVersionUpgrade(u),
                ),
            decreases upgrades@.len() - k,
        {
            let u = upgrades[k];
            proof {
                assert(upgrades@.take(k as int + 1) =~= upgrades@.take(k as int).push(u));
            }
            let ghost prev = effects@;
            effects.push(CItemEffect::ModuleVersionUpgrade(u));
            proof {
                assert(effects_view(effects@) =~= effects_view(prev).push(
                    EffectView::ModuleVersionUpgrade(u),
                ));
                assert(effects_view(effects@) =~= upgrades@.take(k as int + 1).map_values(
                    |u: crate::effects::ModuleVersionUpgradeEffect|
                        EffectView::ModuleVersionUpgrade(u),
                ));
            }
            k = k + 1;
        }
        proof {
            assert(upgrades@.take(k as int) =~= upgrades@);
        }
        Ok(effects)
    }
}

/// Processing consensus item `citem` from `voter`, where `peers` is the
/// effective peer set, takes the tables from `old` to `new` with result `r`.
pub open spec fn citem_step(
    old: AppConsensusTables,
    new: AppConsensusTables,
    me: Option<PeerPubkey>,
    voter: PeerPubkey,
    peers: Set<PeerPubkey>,
    citem: ConsensusCtrlCitem,
    r: Result<Seq<EffectView>, ConsensusCtrlError>,
) -> bool {
    match citem {
        ConsensusCtrlCitem::VoteAddPeer(p) => add_peer_step(old, new, me, voter, peers, p, r),
        ConsensusCtrlCitem::VoteRemovePeer(p) => remove_peer_step(
            old,
            new,
            me,
            voter,
            peers,
            p,
            r,
        ),
        ConsensusCtrlCitem::VoteModuleVersion { module_id, minor_consensus_version } =>
            module_version_step(old, new, me, voter, peers, module_id, minor_consensus_version, r),
        ConsensusCtrlCitem::VoteAddModule { .. } => r == Err::<Seq<EffectView>, _>(
            ConsensusCtrlError::UnsupportedCitem,
        ) && new == old,
    }
}

/// A set that is not empty still has an element after removing a member,
/// as long as it did not have exactly one element.
pub(crate) proof fn lemma_remove_keeps_nonempty(s: Set<PeerPubkey>, p: PeerPubkey)
    requires
        s.contains(p),
        s.len() != 1,
    ensures
        exists|q: PeerPubkey| s.remove(p).contains(q),
{
    if s.finite() {
        assert(s.remove(p).len() == s.len() - 1);
        if !(exists|q: PeerPubkey| s.remove(p).contains(q)) {
            assert(s.remove(p) =~= Set::<PeerPubkey>::empty());
        }
    } else {
        if !(exists|q: PeerPubkey| s.remove(p).contains(q)) {
            assert forall|x: PeerPubkey| s.contains(x) implies x == p by {
                if x != p {
                    assert(s.remove(p).contains(x));
                }
            }
            assert(s =~= Set::<PeerPubkey>::empty().insert(p));
        }
    }
}

impl AppConsensusModule {
    /// Processes a consensus item submitted by `peer_pubkey`, a member of
    /// the effective peer set `peer_set`, and returns its effects.
    ///
    /// On success the proposals are refreshed for the new tables; on error
    /// nothing changes. The peer set never becomes empty.
    pub fn process_citem(
        &mut self,
        peer_pubkey: PeerPubkey,
        peer_set: &PeerSet,
        citem: &ConsensusCtrlCitem,
    ) -> (r: Result<Vec<CItemEffect>, ConsensusCtrlError>)
        requires
            peer_set@.contains(peer_pubkey),
        ensures
            citem_step(
                old(self).db,
                final(self).db,
                old(self).peer_pubkey,
                peer_pubkey,
                peer_set@,
                *citem,
                result_view(r),
            ),
            r is Ok ==> final(self).proposed_citems@ == spec_proposals(
                &final(self).db,
                old(self).peer_pubkey,
            ),
            r is Err ==> *final(self) == *old(self),
            final(self).version == old(self).version,
            final(self).peer_pubkey == old(self).peer_pubkey,
            (exists|q: PeerPubkey| old(self).db.peers@.contains(q)) ==> (exists|q: PeerPubkey|
                final(self).db.peers@.contains(q)),
    {
        let res = match citem {
            ConsensusCtrlCitem::VoteAddPeer(p) => {
                let r = self.process_citem_vote_add_peer(peer_pubkey, peer_set, *p);
                proof {
                    if r is Ok {
                        assert(self.db.peers@.contains(*p) || self.db.peers == old(self).db.peers);
                    }
                }
                r
            },
            ConsensusCtrlCitem::VoteRemovePeer(p) => {
                let r = self.process_citem_vote_remove_peer(peer_pubkey, peer_set, *p);
                proof {
                    if old(self).db.peers@.contains(*p) && old(self).db.peers@.len() != 1 {
                        lemma_remove_keeps_nonempty(old(self).db.peers@, *p);
                    }
                }
                r
            },
            ConsensusCtrlCitem::VoteModuleVersion { module_id, minor_consensus_version } => {
                self.process_citem_vote_module_version(
                    peer_pubkey,
                    peer_set,
                    *module_id,
                    *minor_consensus_version,
                )
            },
            ConsensusCtrlCitem::VoteAddModule { .. } => Err(ConsensusCtrlError::UnsupportedCitem),
        };
        match res {
            Ok(effects) => {
                self.refresh_consensus_proposals();
                Ok(effects)
            },
            Err(e) => Err(e),
        }
    }

    /// Inputs are not part of this module: every input is refused.
    pub fn process_input(&self, input: &[u8]) -> (r: Result<Vec<CItemEffect>, ConsensusCtrlError>)
        ensures
            r == Err::<Vec<CItemEffect>, _>(ConsensusCtrlError::InputsNotSupported),
    {
        Err(ConsensusCtrlError::InputsNotSupported)
    }

    /// Outputs are not part of this module: every output is refused.
    pub fn process_output(&self, output: &[u8]) -> (r: Result<Vec<CItemEffect>, ConsensusCtrlError>)
        ensures
            r == Err::<Vec<CItemEffect>, _>(ConsensusCtrlError::OutputsNotSupported),
    {
        Err(ConsensusCtrlError::OutputsNotSupported)
    }

    /// The module reacts to no effect: its tables change only while its own
    /// consensus items are processed.
    pub fn process_effects(&self, effects: &Vec<crate::effects::ModuleCItemEffect>) -> (r: Result<
        (),
        ConsensusCtrlError,
    >)
        ensures
            r is Ok,
    {
        Ok(())
    }

    /// The configurations of all modules.
    pub fn get_modules_configs(&self) -> (r: BTreeMap<ModuleId, ModuleConfig>)
        ensures
            r@ == self.db.modules_configs@,
    {
        self.db.modules_configs.clone()
    }

    /// The latest peer set.
    pub fn get_peer_set(&self) -> (r: PeerSet)
        ensures
            r@ == self.db.peers@,
    {
        self.db.peers.clone()
    }

    /// The recorded votes to add peers: voter to candidate.
    pub fn get_add_peer_votes(&self) -> (r: BTreeMap<PeerPubkey, PeerPubkey>)
        ensures
            r@ == self.db.add_peer_votes@,
    {
        self.db.add_peer_votes.clone()
    }

    /// The recorded votes to remove peers: voter to peer voted out.
    pub fn get_remove_peer_votes(&self) -> (r: BTreeMap<PeerPubkey, PeerPubkey>)
        ensures
            r@ == self.db.remove_peer_votes@,
    {
        self.db.remove_peer_votes.clone()
    }

    /// Refreshes and returns the consensus items this node proposes.
    pub fn propose_citems(&mut self) -> (r: Vec<ConsensusCtrlCitem>)
        ensures
            r@ == spec_proposals(&old(self).db, old(self).peer_pubkey),
            final(self).proposed_citems@ == r@,
            final(self).db == old(self).db,
            final(self).peer_pubkey == old(self).peer_pubkey,
            final(self).version == old(self).version,
    {
        self.refresh_consensus_proposals();
        let mut r: Vec<ConsensusCtrlCitem> = Vec::new();
        let mut i: usize = 0;
        while i < self.proposed_citems.len()
            invariant
                0 <= i <= self.proposed_citems@.len(),
                r@ == self.proposed_citems@.take(i as int),
            decreases self.proposed_citems@.len() - i,
        {
            r.push(self.proposed_citems[i]);
            proof {
                assert(self.proposed_citems@.take(i as int + 1) =~= r@);
            }
            i = i + 1;
        }
        proof {
            assert(self.proposed_citems@.take(i as int) =~= self.proposed_citems@);
        }
        r
    }

    /// Records this node's wish to vote for adding `peer_to_add`, unless it
    /// already is a peer, and refreshes the proposals.
    pub fn set_pending_add_peer_vote(&mut self, peer_to_add: PeerPubkey) -> (r: Result<
        (),
        ConsensusCtrlError,
    >)
        ensures
            pending_add_vote_step(*old(self), *final(self), peer_to_add, r),
    {
        if self.peer_pubkey.is_none() {
            return Err(ConsensusCtrlError::NotAVotingPeer);
        }
        if self.db.peers.contains(&peer_to_add) {
            return Ok(());
        }
        self.db.pending_add_peer_vote = Some(peer_to_add);
        self.refresh_consensus_proposals();
        Ok(())
    }

    /// Records this node's wish to vote for removing `peer_to_remove`, if it
    /// is a peer and not the last one, and refreshes the proposals.
    pub fn set_pending_remove_peer_vote(&mut self, peer_to_remove: PeerPubkey) -> (r: Result<
        (),
        ConsensusCtrlError,
    >)
        ensures
            pending_remove_vote_step(*old(self), *final(self), peer_to_remove, r),
    {
        if self.peer_pubkey.is_none() {
            return Err(ConsensusCtrlError::NotAVotingPeer);
        }
        if !self.db.peers.contains(&peer_to_remove) {
            return Ok(());
        }
        if self.db.peers.len() == 1 {
            return Err(ConsensusCtrlError::CannotRemoveLastPeer);
        }
        self.db.pending_remove_peer_vote = Some(peer_to_remove);
        self.refresh_consensus_proposals();
        Ok(())
    }
}

/// Recording this node's wish to vote for adding `p` took the module from
/// `old` to `new` with result `r`: refused for a node that does not vote,
/// nothing to do when `p` already is a peer, and otherwise the wish is
/// recorded and the proposals refreshed.
pub open spec fn pending_add_vote_step(
    old: AppConsensusModule,
    new: AppConsensusModule,
    p: PeerPubkey,
    r: Result<(), ConsensusCtrlError>,
) -> bool {
    if old.peer_pubkey is None {
        r == Err::<(), _>(ConsensusCtrlError::NotAVotingPeer) && new == old
    } else if old.db.peers@.contains(p) {
        r is Ok && new == old
    } else {
        &&& r is Ok
        &&& new.db == (AppConsensusTables { pending_add_peer_vote: Some(p), ..old.db })
        &&& new.proposed_citems@ == spec_proposals(&new.db, old.peer_pubkey)
        &&& new.peer_pubkey == old.peer_pubkey
        &&& new.version == old.version
    }
}

/// Recording this node's wish to vote for removing `p` took the module from
/// `old` to `new` with result `r`: refused for a node that does not vote,
/// nothing to do when `p` is no peer, refused when `p` is the last peer,
/// and otherwise the wish is recorded and the proposals refreshed.
pub open spec fn pending_remove_vote_step(
    old: AppConsensusModule,
    new: AppConsensusModule,
    p: PeerPubkey,
    r: Result<(), ConsensusCtrlError>,
) -> bool {
    if old.peer_pubkey is None {
        r == Err::<(), _>(ConsensusCtrlError::NotAVotingPeer) && new == old
    } else if !old.db.peers@.contains(p) {
        r is Ok && new == old
    } else if old.db.peers@.len() == 1 {
        r == Err::<(), _>(ConsensusCtrlError::CannotRemoveLastPeer) && new == old
    } else {
        &&& r is Ok
        &&& new.db == (AppConsensusTables { pending_remove_peer_vote: Some(p), ..old.db })
        &&& new.proposed_citems@ == spec_proposals(&new.db, old.peer_pubkey)
        &&& new.peer_pubkey == old.peer_pubkey
        &&& new.version == old.version
    }
}

/// Newest supported minor version of each supported major version.
pub type ModuleSupportedConsensusVersions = BTreeMap<ConsensusVersionMajor, ConsensusVersionMinor>;

/// The newest minor version this node supports for the major version the
/// module with configuration `config` runs at.
pub open spec fn newest_supported_minor(
    supported: Map<ModuleKind, ModuleSupportedConsensusVersions>,
    config: ModuleConfig,
) -> ConsensusVersionMinor {
    supported[config.kind]@[config.version.major]
}

impl AppConsensusModule {
    /// Queues this node's votes for every module to run at the newest minor
    /// version this node supports for the module's current major version.
    pub fn record_module_init_versions(
        &mut self,
        modules_supported_versions: &BTreeMap<ModuleKind, ModuleSupportedConsensusVersions>,
    )
        requires
            forall|m: ModuleId| #[trigger]
                old(self).db.modules_configs@.contains_key(m) ==> {
                    let c = old(self).db.modules_configs@[m];
                    &&& modules_supported_versions@.contains_key(c.kind)
                    &&& modules_supported_versions@[c.kind]@.contains_key(c.version.major)
                },
        ensures
            final(self).db.pending_modules_versions_votes@
                == old(self).db.pending_modules_versions_votes@.union_prefer_right(
                Map::new(
                    |m: ModuleId| old(self).db.modules_configs@.contains_key(m),
                    |m: ModuleId|
                        newest_supported_minor(
                            modules_supported_versions@,
                            old(self).db.modules_configs@[m],
                        ),
                ),
            ),
            final(self).db.self_version == old(self).db.self_version,
            final(self).db.peers == old(self).db.peers,
            final(self).db.add_peer_votes == old(self).db.add_peer_votes,
            final(self).db.remove_peer_votes == old(self).db.remove_peer_votes,
            final(self).db.pending_add_peer_vote == old(self).db.pending_add_peer_vote,
            final(self).db.pending_remove_peer_vote == old(self).db.pending_remove_peer_vote,
            final(self).db.modules_configs == old(self).db.modules_configs,
            final(self).db.modules_versions_votes == old(self).db.modules_versions_votes,
            final(self).peer_pubkey == old(self).peer_pubkey,
            final(self).version == old(self).version,
            final(self).proposed_citems == old(self).proposed_citems,
    {
        proof {
            lemma_lawful_keys();
        }
        let ids = sorted_keys(&self.db.modules_configs);
        let ghost configs = self.db.modules_configs@;
        let ghost old_pending = self.db.pending_modules_versions_votes@;
        let ghost f = |m: ModuleId| newest_supported_minor(modules_supported_versions@, configs[m]);
        let mut i: usize = 0;
        while i < ids.len()
            invariant
                0 <= i <= ids@.len(),
                ids@.to_set() == configs.dom(),
                self.db.modules_configs@ == configs,
                f == (|m: ModuleId| newest_supported_minor(modules_supported_versions@, configs[m])),
                forall|m: ModuleId| #[trigger]
                    configs.contains_key(m) ==> {
                        let c = configs[m];
                        &&& modules_supported_versions@.contains_key(c.kind)
                        &&& modules_supported_versions@[c.kind]@.contains_key(c.version.major)
                    },
                self.db.pending_modules_versions_votes@ == old_pending.union_prefer_right(
                    Map::new(|m: ModuleId| ids@.take(i as int).contains(m), f),
                ),
                self.db.self_version == old(self).db.self_version,
                self.db.peers == old(self).db.peers,
                self.db.add_peer_votes == old(self).db.add_peer_votes,
                self.db.remove_peer_votes == old(self).db.remove_peer_votes,
                self.db.pending_add_peer_vote == old(self).db.pending_add_peer_vote,
                self.db.pending_remove_peer_vote == old(self).db.pending_remove_peer_vote,
                self.db.modules_configs == old(self).db.modules_configs,
                self.db.modules_versions_votes == old(self).db.modules_versions_votes,
                self.peer_pubkey == old(self).peer_pubkey,
                self.version == old(self).version,
                self.proposed_citems == old(self).proposed_citems,
            decreases ids@.len() - i,
        {
            let m = ids[i];
            proof {
                assert(ids@.to_set().contains(m));
            }
            let (kind, major) = match self.db.modules_configs.get(&m) {
                Some(c) => (c.kind, c.version.major),
                None => {
                    proof {
                        assert(false);
                    }
                    (0, 0)
                },
            };
            let max_minor: ConsensusVersionMinor = match modules_supported_versions.get(&kind) {
                Some(versions) => match versions.get(&major) {
                    Some(v) => *v,
                    None => {
                        proof {
                            assert(false);
                        }
                        0
                    },
                },
                None => {
                    proof {
                        assert(false);
                    }
                    0
                },
            };
            self.db.pending_modules_versions_votes.insert(m, max_minor);
            proof {
                assert(ids@.take(i as int + 1) =~= ids@.take(i as int).push(m));
                assert(max_minor == f(m));
                assert forall|x: ModuleId| #[trigger] ids@.take(i as int + 1).contains(x) <==> (
                ids@.take(i as int).contains(x) || x == m) by {
                    if x == m {
                        assert(ids@.take(i as int + 1)[i as int] == m);
                    }
                    if ids@.take(i as int).contains(x) {
                        let j = choose|j: int| 0 <= j < i && ids@.take(i as int)[j] == x;
                        assert(ids@.take(i as int + 1)[j] == x);
                    }
                }
                assert(self.db.pending_modules_versions_votes@ =~= old_pending.union_prefer_right(
                    Map::new(|x: ModuleId| ids@.take(i as int + 1).contains(x), f),
                ));
            }
            i = i + 1;
        }
        proof {
            assert(ids@.take(i as int) =~= ids@);
            assert(Map::new(|m: ModuleId| ids@.take(i as int).contains(m), f) =~= Map::new(
                |m: ModuleId| configs.contains_key(m),
                f,
            )) by {
                assert forall|m: ModuleId| ids@.contains(m) <==> configs.contains_key(m) by {
                    if configs.contains_key(m) {
                        assert(ids@.to_set().contains(m));
                    }
                }
            }
        }
    }
}
} // verus!
