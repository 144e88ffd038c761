//! The application layer caches the peer set and the module configurations
//! between consensus items; these lemmas show the caches always hold what
//! the consensus control module records.
use vstd::prelude::*;
use std::collections::BTreeMap;

use super::app::CONSENSUS_CTRL_MODULE_ID;
use super::citem::{CItem, ModuleCItem};
use super::hosted::{module_citem_step, module_effects_step, ModuleWithConfig};
use super::process::{
    citem_applied, collect_step, effects_applied, invalidates_configs, is_peer_set_change,
    module_effects_view, peer_set_after, peer_set_changes, tag_effects, untag_effects, CItemOutcome,
};
use super::processable::app_invariant;
use super::setup::ctrl_module;
use crate::consensus_ctrl::laws::lemma_no_upgrade_reported_keeps_configs;
use crate::consensus_ctrl::module::{citem_step, upgrade_effects, AppConsensusTables};
use crate::consensus_ctrl::ConsensusCtrlCitem;
use crate::effects::EffectView;
use crate::meta::module::meta_citem_step;
use crate::types::{
    ModuleConfig, ModuleConfigView, ModuleId, ModuleKind, PeerPubkey, PeerSet,
    MODULE_KIND_CONSENSUS_CTRL,
};

verus! {

/// Module configurations in plain form.
pub open spec fn configs_view(c: Map<ModuleId, ModuleConfig>) -> Map<ModuleId, ModuleConfigView> {
    c.map_values(|x: ModuleConfig| x@)
}

/// The cached peer set and module configurations, when present, are those
/// the consensus control module records, and the modules are processable.
pub open spec fn caches_consistent(
    modules: Map<ModuleId, ModuleWithConfig>,
    peer_set: Option<PeerSet>,
    modules_configs: Option<BTreeMap<ModuleId, ModuleConfig>>,
) -> bool {
    &&& app_invariant(modules)
    &&& (peer_set matches Some(p) ==> p@ == ctrl_module(modules).db.peers@)
    &&& (modules_configs matches Some(c) ==> configs_view(c@) == configs_view(
        ctrl_module(modules).db.modules_configs@,
    ))
}

/// The peer set after some effects is the one carried by their last peer
/// set change, or the starting one when none of them changes it.
pub proof fn lemma_peer_set_after_last_change(
    peers: Set<PeerPubkey>,
    effects: Seq<(ModuleKind, EffectView)>,
)
    ensures
        peer_set_changes(effects).len() == 0 ==> peer_set_after(peers, effects) == peers,
        peer_set_changes(effects).len() > 0 ==> peer_set_after(peers, effects) == peer_set_changes(
            effects,
        ).last(),
    decreases effects.len(),
{
    if effects.len() > 0 && !is_peer_set_change(effects.last()) {
        lemma_peer_set_after_last_change(peers, effects.drop_last());
    }
}

/// Effects that change no peer set leave the peer set where it was.
pub proof fn lemma_peer_set_after_skips(
    peers: Set<PeerPubkey>,
    a: Seq<(ModuleKind, EffectView)>,
    b: Seq<(ModuleKind, EffectView)>,
)
    requires
        forall|i: int| 0 <= i < b.len() ==> !is_peer_set_change(#[trigger] b[i]),
    ensures
        peer_set_after(peers, a + b) == peer_set_after(peers, a),
    decreases b.len(),
{
    if b.len() == 0 {
        assert(a + b =~= a);
    } else {
        let b2 = b.drop_last();
        assert((a + b).drop_last() =~= a + b2);
        assert((a + b).last() == b[b.len() - 1]);
        lemma_peer_set_after_skips(peers, a, b2);
    }
}

/// The effects of a consensus control item carry the module's peer set:
/// following them from the recorded peer set ends at the new one.
pub proof fn lemma_ctrl_effects_carry_peer_set(
    old: AppConsensusTables,
    new: AppConsensusTables,
    me: Option<PeerPubkey>,
    voter: PeerPubkey,
    peers: Set<PeerPubkey>,
    citem: ConsensusCtrlCitem,
    effects: Seq<EffectView>,
)
    requires
        citem_step(old, new, me, voter, peers, citem, Ok(effects)),
    ensures
        peer_set_after(old.peers@, tag_effects(MODULE_KIND_CONSENSUS_CTRL, effects)) == new.peers@,
{
    let k = MODULE_KIND_CONSENSUS_CTRL;
    let e0 = Seq::<(ModuleKind, EffectView)>::empty();
    match citem {
        ConsensusCtrlCitem::VoteAddPeer(p) => {
            assert(tag_effects(k, effects).len() == effects.len());
            if effects.len() != 0 {
                let t = tag_effects(k, effects);
                assert(t.last() == (k, effects[1]));
            }
        },
        ConsensusCtrlCitem::VoteRemovePeer(p) => {
            if effects.len() != 0 {
                let remaining = old.peers@.remove(p);
                let head = seq![
                    EffectView::RemovePeer(p),
                    EffectView::ConsensusParamsChange(remaining),
                ];
                let ups = upgrade_effects(
                    old.modules_configs@,
                    old.modules_versions_votes@,
                    remaining,
                );
                assert(effects == head + ups);
                assert(tag_effects(k, effects) =~= tag_effects(k, head) + tag_effects(k, ups));
                lemma_peer_set_after_skips(old.peers@, tag_effects(k, head), tag_effects(k, ups));
                assert(tag_effects(k, head).last() == (k, head[1]));
            } else {
                assert(tag_effects(k, effects) =~= e0);
            }
        },
        ConsensusCtrlCitem::VoteModuleVersion { module_id, minor_consensus_version } => {
            assert(e0 + tag_effects(k, effects) =~= tag_effects(k, effects));
            lemma_peer_set_after_skips(old.peers@, e0, tag_effects(k, effects));
        },
        ConsensusCtrlCitem::VoteAddModule { .. } => {},
    }
}

/// A consensus control item whose effects report no module added or
/// upgraded leaves every module configuration as it was.
pub proof fn lemma_ctrl_configs_kept_unless_reported(
    old: AppConsensusTables,
    new: AppConsensusTables,
    me: Option<PeerPubkey>,
    voter: PeerPubkey,
    peers: Set<PeerPubkey>,
    citem: ConsensusCtrlCitem,
    effects: Seq<EffectView>,
)
    requires
        citem_step(old, new, me, voter, peers, citem, Ok(effects)),
        !invalidates_configs(tag_effects(MODULE_KIND_CONSENSUS_CTRL, effects)),
    ensures
        configs_view(new.modules_configs@) == configs_view(old.modules_configs@),
{
    let k = MODULE_KIND_CONSENSUS_CTRL;
    vstd::std_specs::btree::axiom_btree_map_view_finite_dom(old.modules_configs);
    let t = tag_effects(k, effects);
    match citem {
        ConsensusCtrlCitem::VoteRemovePeer(p) => {
            if effects.len() != 0 {
                let remaining = old.peers@.remove(p);
                let ups = upgrade_effects(
                    old.modules_configs@,
                    old.modules_versions_votes@,
                    remaining,
                );
                if ups.len() > 0 {
                    assert(effects[2] == ups[0]);
                    assert(t[2].1 is ModuleVersionUpgrade);
                }
                lemma_no_upgrade_reported_keeps_configs(
                    old.modules_configs@,
                    new.modules_configs@,
                    old.modules_versions_votes@,
                    remaining,
                );
                assert(configs_view(new.modules_configs@) =~= configs_view(old.modules_configs@));
            }
        },
        ConsensusCtrlCitem::VoteModuleVersion { module_id, minor_consensus_version } => {
            if effects.len() > 0 {
                assert(t[0].1 is ModuleVersionUpgrade);
            }
            let votes = old.modules_versions_votes@.insert(
                (voter, module_id),
                crate::types::ConsensusVersion {
                    major: old.modules_configs@[module_id].version.major,
                    minor: minor_consensus_version,
                },
            );
            lemma_no_upgrade_reported_keeps_configs(
                old.modules_configs@,
                new.modules_configs@,
                votes,
                peers,
            );
            assert(configs_view(new.modules_configs@) =~= configs_view(old.modules_configs@));
        },
        _ => {},
    }
}

/// A meta module only ever reports agreed key values.
proof fn lemma_meta_effects_are_values(
    old: crate::meta::module::MetaTables,
    new: crate::meta::module::MetaTables,
    voter: PeerPubkey,
    peers: Set<PeerPubkey>,
    citem: crate::meta::citem::MetaCitemView,
    effects: Seq<EffectView>,
)
    requires
        meta_citem_step(old, new, voter, peers, citem, Ok(effects)),
    ensures
        forall|i: int| 0 <= i < effects.len() ==> (#[trigger] effects[i]) is KeyValueConsensus,
{
}

/// Applying a consensus item keeps the caches consistent: the cached peer
/// set becomes the new peer set, and the cached configurations stay valid
/// unless the item reported a module added or upgraded (then they are
/// dropped).
pub proof fn lemma_citem_keeps_caches(
    old: Map<ModuleId, ModuleWithConfig>,
    new: Map<ModuleId, ModuleWithConfig>,
    voter: PeerPubkey,
    peer_set: PeerSet,
    modules_configs: Option<BTreeMap<ModuleId, ModuleConfig>>,
    citem: CItem,
    outcome: CItemOutcome,
)
    requires
        caches_consistent(old, Some(peer_set), modules_configs),
        citem_applied(old, new, voter, peer_set@, citem, outcome),
    ensures
        caches_consistent(
            new,
            Some(outcome.peer_set),
            if outcome.modules_configs_invalidated {
                None
            } else {
                modules_configs
            },
        ),
{
    super::processable::lemma_citem_keeps_app_invariant(old, new, voter, peer_set@, citem, outcome);
    let ev = module_effects_view(outcome.effects@);
    let mid = choose|mid: Map<ModuleId, ModuleWithConfig>|
        #[trigger] collect_step(old, mid, voter, peer_set@, citem, Ok(ev)) && effects_applied(
            mid,
            new,
            outcome.peer_set@,
            outcome.effects@,
        );
    let id = CONSENSUS_CTRL_MODULE_ID;
    let e0 = Seq::<(ModuleKind, EffectView)>::empty();
    assert(module_effects_step(mid[id].inner, new[id].inner, outcome.peer_set@, outcome.effects@));
    let mut ctrl_item = false;
    match citem {
        CItem::PeerCItem { module_id, citem: mc } => {
            if module_id == id {
                match mc {
                    ModuleCItem::ConsensusCtrl(c) => {
                        ctrl_item = true;
                        let o = old[id].inner->ConsensusCtrl_0;
                        let n = mid[id].inner->ConsensusCtrl_0;
                        let e = untag_effects(ev);
                        assert(ev == tag_effects(MODULE_KIND_CONSENSUS_CTRL, e));
                        lemma_ctrl_effects_carry_peer_set(o.db, n.db, o.peer_pubkey, voter, peer_set@, c, e);
                        if !outcome.modules_configs_invalidated {
                            lemma_ctrl_configs_kept_unless_reported(
                                o.db,
                                n.db,
                                o.peer_pubkey,
                                voter,
                                peer_set@,
                                c,
                                e,
                            );
                        }
                    },
                    _ => {},
                }
            } else {
                assert(old[module_id].inner is Meta);
                let o = old[module_id].inner->Meta_0;
                match mc {
                    ModuleCItem::Meta(c) => {
                        let n = mid[module_id].inner->Meta_0;
                        let e = untag_effects(ev);
                        lemma_meta_effects_are_values(o.db, n.db, voter, peer_set@, c@, e);
                        assert forall|i: int| 0 <= i < ev.len() implies !is_peer_set_change(
                            #[trigger] ev[i],
                        ) by {
                            assert(ev[i] == (old[module_id].config.kind, e[i]));
                        }
                    },
                    _ => {},
                }
            }
        },
        CItem::Transaction { .. } => {},
    }
    if !ctrl_item {
        assert(mid[id] == old[id]);
        assert(forall|i: int| 0 <= i < ev.len() ==> !is_peer_set_change(#[trigger] ev[i]));
        assert(e0 + ev =~= ev);
        lemma_peer_set_after_skips(peer_set@, e0, ev);
    }
}

} // verus!
