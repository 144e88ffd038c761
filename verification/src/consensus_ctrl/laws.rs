//! What holds of every run of the consensus control module.
use vstd::prelude::*;

use super::citem::ConsensusCtrlCitem;
use super::module::{
    add_peer_step, has_vote, remove_peer_step, spec_module_version_proposals, spec_proposals,
    AppConsensusTables, ConsensusCtrlError,
};
use super::upgrades::{
    agreed_minor, spec_upgrade, spec_upgrades, upgrade_due, upgrades_applied,
};
use crate::effects::EffectView;
use crate::num_peers::spec_threshold;
use crate::votes::votes_for;
use crate::types::{ConsensusVersion, ModuleConfig, ModuleId, PeerPubkey};

verus! {

/// Applying the due upgrades never lowers a module's version: its major
/// version stays and its minor version does not decrease.
pub proof fn lemma_upgrades_never_downgrade(
    old: Map<ModuleId, ModuleConfig>,
    new: Map<ModuleId, ModuleConfig>,
    votes: Map<(PeerPubkey, ModuleId), ConsensusVersion>,
    peers: Set<PeerPubkey>,
    m: ModuleId,
)
    requires
        upgrades_applied(old, new, votes, peers),
        old.contains_key(m),
    ensures
        new[m].version.major == old[m].version.major,
        old[m].version.minor <= new[m].version.minor,
{
}

/// Once the due upgrades are applied, no further upgrade is due under the
/// same votes and peers.
pub proof fn lemma_upgrades_settle(
    old: Map<ModuleId, ModuleConfig>,
    new: Map<ModuleId, ModuleConfig>,
    votes: Map<(PeerPubkey, ModuleId), ConsensusVersion>,
    peers: Set<PeerPubkey>,
)
    requires
        upgrades_applied(old, new, votes, peers),
    ensures
        spec_upgrades(new, votes, peers) == Seq::<crate::effects::ModuleVersionUpgradeEffect>::empty(),
{
    broadcast use vstd::seq_lib::group_filter_ensures;

    let due = |m: ModuleId| upgrade_due(new, votes, peers, m);
    assert forall|m: ModuleId| !#[trigger] upgrade_due(new, votes, peers, m) by {
        if new.contains_key(m) {
            assert(old.contains_key(m));
        }
    }
    let ids = crate::types::ascending_ids(new.dom());
    let kept = ids.filter(due);
    if kept.len() > 0 {
        assert(due(kept[0]));
    }
    assert(kept.map_values(|m: ModuleId| spec_upgrade(new, votes, peers, m)) =~= Seq::<
        crate::effects::ModuleVersionUpgradeEffect,
    >::empty());
}

/// A vote to add a peer, when accepted, adds it exactly when, once
/// recorded, a threshold of the effective peers vote for it; the effects
/// then name the peer and carry the new peer set, the old one with the
/// peer added. Otherwise the peer set stays and there is no effect.
pub proof fn lemma_add_peer_follows_threshold(
    old: AppConsensusTables,
    new: AppConsensusTables,
    me: Option<PeerPubkey>,
    voter: PeerPubkey,
    peers: Set<PeerPubkey>,
    p: PeerPubkey,
    effects: Seq<EffectView>,
)
    requires
        add_peer_step(old, new, me, voter, peers, p, Ok::<_, ConsensusCtrlError>(effects)),
    ensures
        !old.peers@.contains(p),
        effects.len() != 0 <==> votes_for(peers, old.add_peer_votes@.insert(voter, p), p).len()
            >= spec_threshold(peers.len()),
        effects.len() != 0 ==> {
            &&& new.peers@ == old.peers@.insert(p)
            &&& effects == seq![EffectView::AddPeer(p), EffectView::ConsensusParamsChange(new.peers@)]
        },
        effects.len() == 0 ==> new.peers == old.peers,
{
    if votes_for(peers, old.add_peer_votes@.insert(voter, p), p).len() >= spec_threshold(
        peers.len(),
    ) {
        let e = seq![
            EffectView::AddPeer(p),
            EffectView::ConsensusParamsChange(old.peers@.insert(p)),
        ];
        assert(e.len() == 2);
    }
}

/// A vote to remove a peer, when accepted, removes it exactly when the vote
/// is new and, once recorded, a threshold of the effective peers vote for
/// it; the effects then start by naming the peer and carrying the new peer
/// set, the old one without the peer. Otherwise the peer set stays and
/// there is no effect.
pub proof fn lemma_remove_peer_follows_threshold(
    old: AppConsensusTables,
    new: AppConsensusTables,
    me: Option<PeerPubkey>,
    voter: PeerPubkey,
    peers: Set<PeerPubkey>,
    p: PeerPubkey,
    effects: Seq<EffectView>,
)
    requires
        remove_peer_step(old, new, me, voter, peers, p, Ok::<_, ConsensusCtrlError>(effects)),
    ensures
        old.peers@.contains(p),
        old.peers@.len() != 1,
        effects.len() != 0 <==> !has_vote(old.remove_peer_votes@, voter, p) && votes_for(
            peers,
            old.remove_peer_votes@.insert(voter, p),
            p,
        ).len() >= spec_threshold(peers.len()),
        effects.len() != 0 ==> {
            &&& new.peers@ == old.peers@.remove(p)
            &&& effects.len() >= 2
            &&& effects[0] == EffectView::RemovePeer(p)
            &&& effects[1] == EffectView::ConsensusParamsChange(new.peers@)
        },
        effects.len() == 0 ==> new.peers == old.peers,
{
    if !has_vote(old.remove_peer_votes@, voter, p) && votes_for(
        peers,
        old.remove_peer_votes@.insert(voter, p),
        p,
    ).len() >= spec_threshold(peers.len()) {
        let e = seq![
            EffectView::RemovePeer(p),
            EffectView::ConsensusParamsChange(old.peers@.remove(p)),
        ];
        let u = crate::consensus_ctrl::module::upgrade_effects(
            old.modules_configs@,
            old.modules_versions_votes@,
            old.peers@.remove(p),
        );
        assert((e + u)[0] == e[0]);
        assert((e + u)[1] == e[1]);
    }
}

/// The module version proposals are votes on module versions only.
proof fn lemma_version_proposals_are_version_votes(db: AppConsensusTables, me: PeerPubkey, c: ConsensusCtrlCitem)
    requires
        spec_module_version_proposals(&db, me).contains(c),
    ensures
        c is VoteModuleVersion,
{
    let i = choose|i: int|
        0 <= i < spec_module_version_proposals(&db, me).len() && spec_module_version_proposals(
            &db,
            me,
        )[i] == c;
    assert(spec_module_version_proposals(&db, me)[i] == c);
}

/// While this node's pending version vote for module `m` differs from the
/// version vote it has recorded for `m` (or it has none), it proposes that
/// vote.
pub proof fn lemma_changed_version_vote_is_proposed(db: AppConsensusTables, me: PeerPubkey, m: ModuleId)
    requires
        db.pending_modules_versions_votes@.contains_key(m),
        !(db.modules_versions_votes@.contains_key((me, m)) && db.modules_versions_votes@[(me, m)].minor
            == db.pending_modules_versions_votes@[m]),
    ensures
        spec_proposals(&db, Some(me)).contains(
            ConsensusCtrlCitem::VoteModuleVersion {
                module_id: m,
                minor_consensus_version: db.pending_modules_versions_votes@[m],
            },
        ),
{
    broadcast use vstd::std_specs::btree::group_btree_axioms;
    broadcast use vstd::seq_lib::group_filter_ensures;

    let dom = db.pending_modules_versions_votes@.dom();
    crate::types::lemma_ascending_ids_lists(dom);
    let q = crate::types::ascending_ids(dom);
    let pred = |x: ModuleId| super::module::module_version_vote_due(&db, me, x);
    assert(q.to_set().contains(m));
    let j = choose|j: int| 0 <= j < q.len() && q[j] == m;
    assert(pred(q[j]));
    let f = q.filter(pred);
    assert(f.contains(q[j]));
    let i = choose|i: int| 0 <= i < f.len() && f[i] == m;
    let item = ConsensusCtrlCitem::VoteModuleVersion {
        module_id: m,
        minor_consensus_version: db.pending_modules_versions_votes@[m],
    };
    let versions = spec_module_version_proposals(&db, me);
    assert(versions[i] == item);
    let a = super::module::spec_add_peer_proposal(&db, me);
    let r = super::module::spec_remove_peer_proposal(&db, me);
    let props = spec_proposals(&db, Some(me));
    assert(props =~= a + r + versions);
    assert(props[a.len() + r.len() + i] == item);
}

/// Every module version vote the node proposes is its pending vote for the
/// module, and differs from the vote it has recorded for the module.
pub proof fn lemma_version_proposals_follow_pending_votes(db: AppConsensusTables, me: PeerPubkey)
    ensures
        forall|i: int| #![trigger spec_proposals(&db, Some(me))[i]]
            0 <= i < spec_proposals(&db, Some(me)).len() && spec_proposals(&db, Some(me))[i]
                is VoteModuleVersion ==> {
                let c = spec_proposals(&db, Some(me))[i];
                let m = c->module_id;
                &&& db.pending_modules_versions_votes@.contains_key(m)
                &&& c->minor_consensus_version == db.pending_modules_versions_votes@[m]
                &&& !(db.modules_versions_votes@.contains_key((me, m))
                    && db.modules_versions_votes@[(me, m)].minor == db.pending_modules_versions_votes@[m])
            },
{
    broadcast use vstd::seq_lib::group_filter_ensures;

    let q = crate::types::ascending_ids(db.pending_modules_versions_votes@.dom());
    let pred = |x: ModuleId| super::module::module_version_vote_due(&db, me, x);
    let f = q.filter(pred);
    let versions = spec_module_version_proposals(&db, me);
    let a = super::module::spec_add_peer_proposal(&db, me);
    let r = super::module::spec_remove_peer_proposal(&db, me);
    let props = spec_proposals(&db, Some(me));
    assert(props =~= a + r + versions);
    assert forall|i: int| #![trigger props[i]]
        0 <= i < props.len() && props[i] is VoteModuleVersion implies {
        let c = props[i];
        let m = c->module_id;
        &&& db.pending_modules_versions_votes@.contains_key(m)
        &&& c->minor_consensus_version == db.pending_modules_versions_votes@[m]
        &&& !(db.modules_versions_votes@.contains_key((me, m))
            && db.modules_versions_votes@[(me, m)].minor == db.pending_modules_versions_votes@[m])
    } by {
        if i < a.len() {
            assert(props[i] == a[i]);
        } else if i < a.len() + r.len() {
            assert(props[i] == r[i - a.len()]);
        } else {
            let k = i - a.len() - r.len();
            assert(props[i] == versions[k]);
            assert(versions[k] == ConsensusCtrlCitem::VoteModuleVersion {
                module_id: f[k],
                minor_consensus_version: db.pending_modules_versions_votes@[f[k]],
            });
            assert(pred(f[k]));
        }
    }
}

/// While this node wishes to vote for adding a peer that is not in the
/// peer set and for which its vote is not recorded, that vote is the first
/// item it proposes.
pub proof fn lemma_pending_add_vote_is_proposed(db: AppConsensusTables, me: PeerPubkey, p: PeerPubkey)
    requires
        db.pending_add_peer_vote == Some(p),
        !db.peers@.contains(p),
        !has_vote(db.add_peer_votes@, me, p),
    ensures
        spec_proposals(&db, Some(me)).len() > 0,
        spec_proposals(&db, Some(me))[0] == ConsensusCtrlCitem::VoteAddPeer(p),
{
}

/// Once this node's own vote to add `p` is accepted, it proposes no vote to
/// add any peer.
pub proof fn lemma_own_add_vote_withdraws_proposal(
    old: AppConsensusTables,
    new: AppConsensusTables,
    me: PeerPubkey,
    peers: Set<PeerPubkey>,
    p: PeerPubkey,
    effects: Seq<EffectView>,
)
    requires
        add_peer_step(old, new, Some(me), me, peers, p, Ok::<_, ConsensusCtrlError>(effects)),
    ensures
        forall|q: PeerPubkey| !spec_proposals(&new, Some(me)).contains(ConsensusCtrlCitem::VoteAddPeer(q)),
{
    let props = spec_proposals(&new, Some(me));
    let rest = super::module::spec_remove_peer_proposal(&new, me);
    let versions = spec_module_version_proposals(&new, me);
    assert(super::module::spec_add_peer_proposal(&new, me) =~= Seq::<ConsensusCtrlCitem>::empty());
    assert(props =~= rest + versions);
    assert forall|q: PeerPubkey| !props.contains(ConsensusCtrlCitem::VoteAddPeer(q)) by {
        if props.contains(ConsensusCtrlCitem::VoteAddPeer(q)) {
            let i = choose|i: int| 0 <= i < props.len() && props[i] == ConsensusCtrlCitem::VoteAddPeer(q);
            if i >= rest.len() {
                assert(versions[i - rest.len()] == props[i]);
                lemma_version_proposals_are_version_votes(new, me, props[i]);
            } else {
                assert(rest[i] == props[i]);
            }
        }
    }
}

/// While this node wishes to vote for removing a peer of the peer set, for
/// which its vote is not recorded, that vote is proposed, right after any
/// vote to add a peer.
pub proof fn lemma_pending_remove_vote_is_proposed(db: AppConsensusTables, me: PeerPubkey, p: PeerPubkey)
    requires
        db.pending_remove_peer_vote == Some(p),
        db.peers@.contains(p),
        !has_vote(db.remove_peer_votes@, me, p),
    ensures
        spec_proposals(&db, Some(me)).contains(ConsensusCtrlCitem::VoteRemovePeer(p)),
{
    let a = super::module::spec_add_peer_proposal(&db, me);
    let props = spec_proposals(&db, Some(me));
    assert(props[a.len() as int] == ConsensusCtrlCitem::VoteRemovePeer(p));
}

/// Once this node's own vote to remove `p` is accepted, it no longer
/// proposes that vote.
pub proof fn lemma_own_remove_vote_withdraws_proposal(
    old: AppConsensusTables,
    new: AppConsensusTables,
    me: PeerPubkey,
    peers: Set<PeerPubkey>,
    p: PeerPubkey,
    effects: Seq<EffectView>,
)
    requires
        remove_peer_step(old, new, Some(me), me, peers, p, Ok::<_, ConsensusCtrlError>(effects)),
    ensures
        !spec_proposals(&new, Some(me)).contains(ConsensusCtrlCitem::VoteRemovePeer(p)),
{
    let props = spec_proposals(&new, Some(me));
    let a = super::module::spec_add_peer_proposal(&new, me);
    let rest = super::module::spec_remove_peer_proposal(&new, me);
    let versions = spec_module_version_proposals(&new, me);
    assert(props =~= a + rest + versions);
    if has_vote(old.remove_peer_votes@, me, p) {
        assert(new == old);
    } else {
        let votes = old.remove_peer_votes@.insert(me, p);
        if votes_for(peers, votes, p).len() >= spec_threshold(peers.len()) {
            let e = seq![
                EffectView::RemovePeer(p),
                EffectView::ConsensusParamsChange(old.peers@.remove(p)),
            ];
            let u = super::module::upgrade_effects(
                old.modules_configs@,
                old.modules_versions_votes@,
                old.peers@.remove(p),
            );
            assert((e + u).len() >= 2);
        }
    }
    if props.contains(ConsensusCtrlCitem::VoteRemovePeer(p)) {
        let i = choose|i: int| 0 <= i < props.len() && props[i] == ConsensusCtrlCitem::VoteRemovePeer(p);
        if i < a.len() {
            assert(a[i] == props[i]);
        } else if i < a.len() + rest.len() {
            assert(rest[i - a.len()] == props[i]);
        } else {
            assert(versions[i - a.len() - rest.len()] == props[i]);
            lemma_version_proposals_are_version_votes(new, me, props[i]);
        }
    }
}

/// A vote to remove a peer that the voter has already recorded, for a peer
/// of a peer set of more than one, is accepted and changes nothing.
pub proof fn lemma_recorded_remove_vote_is_noop(
    old: AppConsensusTables,
    new: AppConsensusTables,
    me: Option<PeerPubkey>,
    voter: PeerPubkey,
    peers: Set<PeerPubkey>,
    p: PeerPubkey,
    r: Result<Seq<EffectView>, ConsensusCtrlError>,
)
    requires
        remove_peer_step(old, new, me, voter, peers, p, r),
        old.peers@.contains(p),
        old.peers@.len() != 1,
        has_vote(old.remove_peer_votes@, voter, p),
    ensures
        r == Ok::<_, ConsensusCtrlError>(Seq::<EffectView>::empty()),
        new == old,
{
}

/// When a vote removes a peer, the vote tables keep only votes of peers
/// that remain: every remaining peer keeps its vote to add a peer, and every
/// remaining peer but the voter keeps its vote to remove a peer unless that
/// vote was for the removed peer.
pub proof fn lemma_removal_keeps_only_remaining_voters(
    old: AppConsensusTables,
    new: AppConsensusTables,
    me: Option<PeerPubkey>,
    voter: PeerPubkey,
    peers: Set<PeerPubkey>,
    p: PeerPubkey,
    effects: Seq<EffectView>,
)
    requires
        remove_peer_step(old, new, me, voter, peers, p, Ok::<_, ConsensusCtrlError>(effects)),
        effects.len() != 0,
    ensures
        forall|v: PeerPubkey| #[trigger] new.add_peer_votes@.contains_key(v) ==> new.peers@.contains(v),
        forall|v: PeerPubkey| #[trigger] new.remove_peer_votes@.contains_key(v) ==> new.peers@.contains(v),
        forall|v: PeerPubkey|
            #[trigger] old.add_peer_votes@.contains_key(v) && new.peers@.contains(v) ==> {
                &&& new.add_peer_votes@.contains_key(v)
                &&& new.add_peer_votes@[v] == old.add_peer_votes@[v]
            },
        forall|v: PeerPubkey|
            #[trigger] old.remove_peer_votes@.contains_key(v) && new.peers@.contains(v) && v != voter
                && old.remove_peer_votes@[v] != p ==> {
                &&& new.remove_peer_votes@.contains_key(v)
                &&& new.remove_peer_votes@[v] == old.remove_peer_votes@[v]
            },
{
    lemma_remove_peer_follows_threshold(old, new, me, voter, peers, p, effects);
    let remaining = old.peers@.remove(p);
    let votes = old.remove_peer_votes@.insert(voter, p);
    assert(new.peers@ == remaining);
    assert(new.add_peer_votes@ == old.add_peer_votes@.restrict(remaining));
    assert(new.remove_peer_votes@ == crate::votes::from_peers_not_for(votes, remaining, p));
    assert forall|v: PeerPubkey|
        #[trigger] old.remove_peer_votes@.contains_key(v) && new.peers@.contains(v) && v != voter
            && old.remove_peer_votes@[v] != p implies {
        &&& new.remove_peer_votes@.contains_key(v)
        &&& new.remove_peer_votes@[v] == old.remove_peer_votes@[v]
    } by {
        assert(votes[v] == old.remove_peer_votes@[v]);
        assert(votes.dom().filter(|x: PeerPubkey| remaining.contains(x) && votes[x] != p).contains(v));
    }
}

/// Submitting a vote to add a peer again right after it was accepted
/// without effect changes nothing and has no effect.
pub proof fn lemma_repeated_add_vote_is_noop(
    old: AppConsensusTables,
    mid: AppConsensusTables,
    new: AppConsensusTables,
    me: Option<PeerPubkey>,
    voter: PeerPubkey,
    peers: Set<PeerPubkey>,
    p: PeerPubkey,
    r: Result<Seq<EffectView>, ConsensusCtrlError>,
)
    requires
        add_peer_step(
            old,
            mid,
            me,
            voter,
            peers,
            p,
            Ok::<_, ConsensusCtrlError>(Seq::<EffectView>::empty()),
        ),
        add_peer_step(mid, new, me, voter, peers, p, r),
    ensures
        r == Ok::<_, ConsensusCtrlError>(Seq::<EffectView>::empty()),
        new.peers == mid.peers,
        new.add_peer_votes@ == mid.add_peer_votes@,
        new.remove_peer_votes == mid.remove_peer_votes,
        new.pending_add_peer_vote == mid.pending_add_peer_vote,
        new.pending_remove_peer_vote == mid.pending_remove_peer_vote,
        new.self_version == mid.self_version,
        new.modules_configs == mid.modules_configs,
        new.modules_versions_votes == mid.modules_versions_votes,
        new.pending_modules_versions_votes == mid.pending_modules_versions_votes,
{
    let e = seq![
        EffectView::AddPeer(p),
        EffectView::ConsensusParamsChange(old.peers@.insert(p)),
    ];
    assert(e.len() == 2);
    assert(mid.add_peer_votes@ == old.add_peer_votes@.insert(voter, p));
    assert(mid.add_peer_votes@.insert(voter, p) =~= mid.add_peer_votes@);
}

/// Submitting a vote to remove a peer again right after it was accepted
/// without effect changes nothing and has no effect.
pub proof fn lemma_repeated_remove_vote_is_noop(
    old: AppConsensusTables,
    mid: AppConsensusTables,
    new: AppConsensusTables,
    me: Option<PeerPubkey>,
    voter: PeerPubkey,
    peers: Set<PeerPubkey>,
    p: PeerPubkey,
    r: Result<Seq<EffectView>, ConsensusCtrlError>,
)
    requires
        remove_peer_step(
            old,
            mid,
            me,
            voter,
            peers,
            p,
            Ok::<_, ConsensusCtrlError>(Seq::<EffectView>::empty()),
        ),
        remove_peer_step(mid, new, me, voter, peers, p, r),
    ensures
        r == Ok::<_, ConsensusCtrlError>(Seq::<EffectView>::empty()),
        new == mid,
{
    if !has_vote(old.remove_peer_votes@, voter, p) && old.peers@.contains(p) && old.peers@.len()
        != 1 {
        let e = seq![
            EffectView::RemovePeer(p),
            EffectView::ConsensusParamsChange(old.peers@.remove(p)),
        ];
        assert(e.len() == 2);
        assert((e + crate::consensus_ctrl::module::upgrade_effects(
            old.modules_configs@,
            old.modules_versions_votes@,
            old.peers@.remove(p),
        )).len() >= 2);
    }
    assert(has_vote(mid.remove_peer_votes@, voter, p));
}

/// When applying the due upgrades reports none, every module keeps its
/// configuration.
pub proof fn lemma_no_upgrade_reported_keeps_configs(
    old: Map<ModuleId, ModuleConfig>,
    new: Map<ModuleId, ModuleConfig>,
    votes: Map<(PeerPubkey, ModuleId), ConsensusVersion>,
    peers: Set<PeerPubkey>,
)
    requires
        old.dom().finite(),
        upgrades_applied(old, new, votes, peers),
        spec_upgrades(old, votes, peers).len() == 0,
    ensures
        new.dom() == old.dom(),
        forall|m: ModuleId| #[trigger] old.contains_key(m) ==> new[m]@ == old[m]@,
{
    broadcast use vstd::seq_lib::group_filter_ensures;

    crate::types::lemma_ascending_ids_lists(old.dom());
    let ids = crate::types::ascending_ids(old.dom());
    let due = |m: ModuleId| upgrade_due(old, votes, peers, m);
    assert forall|m: ModuleId| #[trigger] old.contains_key(m) implies new[m]@ == old[m]@ by {
        if upgrade_due(old, votes, peers, m) {
            assert(ids.to_set().contains(m));
            let k = choose|k: int| 0 <= k < ids.len() && ids[k] == m;
            assert(due(ids[k]));
            assert(ids.filter(due).contains(ids[k]));
            assert(ids.filter(due).len() > 0);
            assert(ids.filter(due).map_values(|m: ModuleId| spec_upgrade(old, votes, peers, m)).len()
                > 0);
        }
    }
}

} // verus!
