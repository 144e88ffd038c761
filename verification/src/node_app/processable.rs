//! What stays true of the running modules while blocks are processed.
use vstd::prelude::*;

use super::app::CONSENSUS_CTRL_MODULE_ID;
use super::citem::CItem;
use super::hosted::{module_citem_step, module_effects_step, AppModule, ModuleWithConfig};
use super::process::{citem_applied, collect_step, effects_applied, CItemOutcome};
use super::setup::{ctrl_module, ctrl_running, setup_applied, needs_setup, created_module, entry};
use crate::consensus_ctrl::module::{citem_step, AppConsensusTables, ConsensusCtrlError};
use crate::consensus_ctrl::ConsensusCtrlCitem;
use crate::effects::EffectView;
use crate::node_app::hosted::ModuleTables;
use crate::types::{ModuleConfig, ModuleId, PeerPubkey, MODULE_KIND_CONSENSUS_CTRL};

verus! {

/// The module configurations `new` have the identifiers of `old`, each
/// with the same module kind.
pub open spec fn same_configs_shape(
    old: Map<ModuleId, ModuleConfig>,
    new: Map<ModuleId, ModuleConfig>,
) -> bool {
    &&& new.dom() == old.dom()
    &&& forall|m: ModuleId| #[trigger] old.contains_key(m) ==> new[m].kind == old[m].kind
}

/// The running modules are in a state where blocks can be processed: the
/// consensus control module runs under its fixed identifier, configured
/// there as such, and every running module has a configuration.
pub open spec fn app_invariant(modules: Map<ModuleId, ModuleWithConfig>) -> bool {
    &&& ctrl_running(modules)
    &&& modules[CONSENSUS_CTRL_MODULE_ID].config.kind == MODULE_KIND_CONSENSUS_CTRL
    &&& forall|id: ModuleId|
        #[trigger] modules.contains_key(id) && id != CONSENSUS_CTRL_MODULE_ID ==> modules[id].inner is Meta
    &&& modules.dom().subset_of(ctrl_module(modules).db.modules_configs@.dom())
    &&& ctrl_configs_valid(ctrl_module(modules).db.modules_configs@)
}

/// The module configurations hold the consensus control module's own,
/// under its fixed identifier, and no other module of its kind.
pub open spec fn ctrl_configs_valid(configs: Map<ModuleId, ModuleConfig>) -> bool {
    &&& configs.contains_key(CONSENSUS_CTRL_MODULE_ID)
    &&& configs[CONSENSUS_CTRL_MODULE_ID].kind == MODULE_KIND_CONSENSUS_CTRL
    &&& forall|id: ModuleId|
        #[trigger] configs.contains_key(id) && id != CONSENSUS_CTRL_MODULE_ID ==> configs[id].kind
            != MODULE_KIND_CONSENSUS_CTRL
}

/// Processing a consensus control item never adds or drops a module
/// configuration, nor changes a module's kind.
pub proof fn lemma_ctrl_step_keeps_configs_shape(
    old: AppConsensusTables,
    new: AppConsensusTables,
    me: Option<PeerPubkey>,
    voter: PeerPubkey,
    peers: Set<PeerPubkey>,
    citem: ConsensusCtrlCitem,
    r: Result<Seq<EffectView>, ConsensusCtrlError>,
)
    requires
        citem_step(old, new, me, voter, peers, citem, r),
    ensures
        same_configs_shape(old.modules_configs@, new.modules_configs@),
{
}

/// Applying a consensus item keeps the running modules processable.
pub proof fn lemma_citem_keeps_app_invariant(
    old: Map<ModuleId, ModuleWithConfig>,
    new: Map<ModuleId, ModuleWithConfig>,
    voter: PeerPubkey,
    peers: Set<PeerPubkey>,
    citem: CItem,
    outcome: CItemOutcome,
)
    requires
        app_invariant(old),
        citem_applied(old, new, voter, peers, citem, outcome),
    ensures
        app_invariant(new),
        new.dom() == old.dom(),
        same_configs_shape(
            ctrl_module(old).db.modules_configs@,
            ctrl_module(new).db.modules_configs@,
        ),
{
    let ev = super::process::module_effects_view(outcome.effects@);
    let mid = choose|mid: Map<ModuleId, ModuleWithConfig>|
        #[trigger] collect_step(old, mid, voter, peers, citem, Ok(ev)) && effects_applied(
            mid,
            new,
            outcome.peer_set@,
            outcome.effects@,
        );
    let id = CONSENSUS_CTRL_MODULE_ID;
    assert(mid.dom() == old.dom());
    assert(mid.contains_key(id));
    assert(mid[id].inner is ConsensusCtrl && same_configs_shape(
        ctrl_module(old).db.modules_configs@,
        mid[id].inner->ConsensusCtrl_0.db.modules_configs@,
    )) by {
        match citem {
            CItem::PeerCItem { module_id, citem: mc } => {
                if module_id == id && peers.contains(voter) {
                    let o = old[id].inner->ConsensusCtrl_0;
                    match mc {
                        super::citem::ModuleCItem::ConsensusCtrl(c) => {
                            let n = mid[id].inner->ConsensusCtrl_0;
                            lemma_ctrl_step_keeps_configs_shape(
                                o.db,
                                n.db,
                                o.peer_pubkey,
                                voter,
                                peers,
                                c,
                                Ok(super::process::untag_effects(ev)),
                            );
                        },
                        _ => {},
                    }
                }
            },
            CItem::Transaction { .. } => {},
        }
    }
    assert(new[id].inner == mid[id].inner);
    assert forall|j: ModuleId| #[trigger] new.contains_key(j) && j != id implies new[j].inner is Meta by {
        assert(old[j].inner is Meta);
        assert(mid[j].inner is Meta) by {
            match citem {
                CItem::PeerCItem { module_id, citem: mc } => {
                    if module_id == j && peers.contains(voter) {
                        assert(module_citem_step(
                            old[j].inner,
                            mid[j].inner,
                            voter,
                            peers,
                            mc,
                            Ok(super::process::untag_effects(ev)),
                        ));
                    }
                },
                CItem::Transaction { .. } => {},
            }
        }
        assert(module_effects_step(mid[j].inner, new[j].inner, outcome.peer_set@, outcome.effects@));
    }
}

/// Setting up the running modules for the consensus control module's own
/// configurations keeps them processable, and the consensus control
/// module keeps its tables.
pub proof fn lemma_setup_keeps_app_invariant(
    old: Map<ModuleId, ModuleWithConfig>,
    stored: Map<ModuleId, ModuleTables>,
    me: Option<PeerPubkey>,
    new: Map<ModuleId, ModuleWithConfig>,
    new_stored: Map<ModuleId, ModuleTables>,
)
    requires
        app_invariant(old),
        setup_applied(old, stored, ctrl_module(old).db.modules_configs@, me, new, new_stored),
    ensures
        app_invariant(new),
        ctrl_module(new).db == ctrl_module(old).db,
        new.dom() == ctrl_module(old).db.modules_configs@.dom(),
{
    let id = CONSENSUS_CTRL_MODULE_ID;
    let configs = ctrl_module(old).db.modules_configs@;
    assert(configs.contains_key(id));
    if needs_setup(old, id, configs[id]) {
        assert(created_module(new[id], configs[id], me, entry(old, id), entry(stored, id)));
        assert(entry(old, id) == Some(old[id]));
    }
    assert forall|j: ModuleId| #[trigger] new.contains_key(j) && j != id implies new[j].inner is Meta by {
        assert(configs.contains_key(j));
        if needs_setup(old, j, configs[j]) {
            assert(created_module(new[j], configs[j], me, entry(old, j), entry(stored, j)));
        } else {
            assert(old.contains_key(j));
        }
    }
}

} // verus!
