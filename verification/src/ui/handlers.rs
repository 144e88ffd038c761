//! What the web UI's vote forms do to the running modules.
use vstd::prelude::*;
use std::collections::BTreeMap;

use super::http::{ErrorCause, RequestError};
use super::routes::push_all;
use super::text::{decimal_digits, push_decimal};
use crate::consensus_ctrl::module::{
    pending_add_vote_step, pending_remove_vote_step, ConsensusCtrlError,
};
use crate::keys::lemma_lawful_keys;
use crate::meta::module::{key_value_proposal_step, values_view};
use crate::node_app::hosted::{AppModule, ModuleWithConfig};
use crate::types::{ModuleId, PeerPubkey, MODULE_KIND_CONSENSUS_CTRL, MODULE_KIND_META};
use crate::meta::module::copy_bytes;

verus! {

/// `/ui/module/`
pub open spec fn spec_route_module_prefix() -> Seq<u8> {
    seq![47u8, 117u8, 105u8, 47u8, 109u8, 111u8, 100u8, 117u8, 108u8, 101u8, 47u8]
}

/// `/meta_key/`
pub open spec fn spec_meta_key_infix() -> Seq<u8> {
    seq![47u8, 109u8, 101u8, 116u8, 97u8, 95u8, 107u8, 101u8, 121u8, 47u8]
}

/// The page of module `module_id`: `/ui/module/{module_id}`.
pub open spec fn spec_module_page(module_id: ModuleId) -> Seq<u8> {
    spec_route_module_prefix() + decimal_digits(module_id as nat)
}

/// The voting page of key `key` of meta module `module_id`:
/// `/ui/module/{module_id}/meta_key/{key}`.
pub open spec fn spec_meta_key_page(module_id: ModuleId, key: u8) -> Seq<u8> {
    spec_module_page(module_id) + spec_meta_key_infix() + decimal_digits(key as nat)
}

/// The page of module `module_id`.
pub fn module_page_location(module_id: ModuleId) -> (r: Vec<u8>)
    ensures
        r@ == spec_module_page(module_id),
{
    let mut r = vec![47u8, 117u8, 105u8, 47u8, 109u8, 111u8, 100u8, 117u8, 108u8, 101u8, 47u8];
    proof {
        assert(r@ =~= spec_route_module_prefix());
    }
    push_decimal(&mut r, module_id);
    r
}

/// The voting page of key `key` of meta module `module_id`.
pub fn meta_key_page_location(module_id: ModuleId, key: u8) -> (r: Vec<u8>)
    ensures
        r@ == spec_meta_key_page(module_id, key),
{
    let mut r = module_page_location(module_id);
    let infix = vec![47u8, 109u8, 101u8, 116u8, 97u8, 95u8, 107u8, 101u8, 121u8, 47u8];
    proof {
        assert(infix@ =~= spec_meta_key_infix());
    }
    push_all(&mut r, infix.as_slice());
    push_decimal(&mut r, key as u32);
    r
}

/// Module `module_id` runs and is a consensus control module.
pub open spec fn runs_ctrl(modules: Map<ModuleId, ModuleWithConfig>, module_id: ModuleId) -> bool {
    &&& modules.contains_key(module_id)
    &&& modules[module_id].config.kind == MODULE_KIND_CONSENSUS_CTRL
    &&& modules[module_id].inner is ConsensusCtrl
}

/// Module `module_id` runs and is a meta module.
pub open spec fn runs_meta(modules: Map<ModuleId, ModuleWithConfig>, module_id: ModuleId) -> bool {
    &&& modules.contains_key(module_id)
    &&& modules[module_id].config.kind == MODULE_KIND_META
    &&& modules[module_id].inner is Meta
}

/// Only the module `module_id` may have changed between `old` and `new`,
/// and it kept its configuration.
pub open spec fn only_module_changed(
    old: Map<ModuleId, ModuleWithConfig>,
    new: Map<ModuleId, ModuleWithConfig>,
    module_id: ModuleId,
) -> bool {
    &&& new.dom() == old.dom()
    &&& forall|j: ModuleId| j != module_id && #[trigger] old.contains_key(j) ==> new[j] == old[j]
    &&& new[module_id].config == old[module_id].config
}

/// The error answered when a module refuses a vote.
pub open spec fn vote_refused(e: RequestError) -> bool {
    e matches RequestError::Other { source } && source@ == seq![ErrorCause::Other]
}

fn refused() -> (r: RequestError)
    ensures
        vote_refused(r),
{
    let mut source: Vec<ErrorCause> = Vec::new();
    source.push(ErrorCause::Other);
    proof {
        assert(source@ =~= seq![ErrorCause::Other]);
    }
    RequestError::Other { source }
}

/// The vote form for adding a peer: when module `module_id` is a consensus
/// control module, records this node's wish to vote for adding
/// `peer_pubkey` there. Leads back to the module's page.
pub fn post_add_peer_vote(
    modules: &mut BTreeMap<ModuleId, ModuleWithConfig>,
    module_id: ModuleId,
    peer_pubkey: PeerPubkey,
) -> (r: Result<Vec<u8>, RequestError>)
    ensures
        r matches Ok(location) ==> location@ == spec_module_page(module_id),
        r matches Err(e) ==> vote_refused(e),
        runs_ctrl(old(modules)@, module_id) ==> {
            &&& only_module_changed(old(modules)@, final(modules)@, module_id)
            &&& final(modules)@[module_id].inner is ConsensusCtrl
            &&& exists|res: Result<(), ConsensusCtrlError>|
                #[trigger] pending_add_vote_step(
                    old(modules)@[module_id].inner->ConsensusCtrl_0,
                    final(modules)@[module_id].inner->ConsensusCtrl_0,
                    peer_pubkey,
                    res,
                ) && (res is Ok <==> r is Ok)
        },
        !runs_ctrl(old(modules)@, module_id) ==> r is Ok && final(modules)@ == old(modules)@,
{
    proof {
        lemma_lawful_keys();
    }
    let location = module_page_location(module_id);
    let ghost before = modules@;
    let runs = match modules.get(&module_id) {
        Some(m) => m.config.kind == MODULE_KIND_CONSENSUS_CTRL && match &m.inner {
            AppModule::ConsensusCtrl(_) => true,
            _ => false,
        },
        None => false,
    };
    if !runs {
        return Ok(location);
    }
    let mut entry = match modules.remove(&module_id) {
        Some(m) => m,
        None => {
            proof {
                assert(false);
            }
            return Ok(location);
        },
    };
    let res = match &mut entry.inner {
        AppModule::ConsensusCtrl(c) => c.set_pending_add_peer_vote(peer_pubkey),
        AppModule::Meta(_) => {
            proof {
                assert(false);
            }
            Ok(())
        },
    };
    modules.insert(module_id, entry);
    proof {
        assert(modules@.dom() =~= before.dom());
    }
    match res {
        Ok(()) => Ok(location),
        Err(_) => Err(refused()),
    }
}

/// The vote form for removing a peer: when module `module_id` is a
/// consensus control module, records this node's wish to vote for removing
/// `peer_pubkey` there. Leads back to the module's page.
pub fn post_remove_peer_vote(
    modules: &mut BTreeMap<ModuleId, ModuleWithConfig>,
    module_id: ModuleId,
    peer_pubkey: PeerPubkey,
) -> (r: Result<Vec<u8>, RequestError>)
    ensures
        r matches Ok(location) ==> location@ == spec_module_page(module_id),
        r matches Err(e) ==> vote_refused(e),
        runs_ctrl(old(modules)@, module_id) ==> {
            &&& only_module_changed(old(modules)@, final(modules)@, module_id)
            &&& final(modules)@[module_id].inner is ConsensusCtrl
            &&& exists|res: Result<(), ConsensusCtrlError>|
                #[trigger] pending_remove_vote_step(
                    old(modules)@[module_id].inner->ConsensusCtrl_0,
                    final(modules)@[module_id].inner->ConsensusCtrl_0,
                    peer_pubkey,
                    res,
                ) && (res is Ok <==> r is Ok)
        },
        !runs_ctrl(old(modules)@, module_id) ==> r is Ok && final(modules)@ == old(modules)@,
{
    proof {
        lemma_lawful_keys();
    }
    let location = module_page_location(module_id);
    let ghost before = modules@;
    let runs = match modules.get(&module_id) {
        Some(m) => m.config.kind == MODULE_KIND_CONSENSUS_CTRL && match &m.inner {
            AppModule::ConsensusCtrl(_) => true,
            _ => false,
        },
        None => false,
    };
    if !runs {
        return Ok(location);
    }
    let mut entry = match modules.remove(&module_id) {
        Some(m) => m,
        None => {
            proof {
                assert(false);
            }
            return Ok(location);
        },
    };
    let res = match &mut entry.inner {
        AppModule::ConsensusCtrl(c) => c.set_pending_remove_peer_vote(peer_pubkey),
        AppModule::Meta(_) => {
            proof {
                assert(false);
            }
            Ok(())
        },
    };
    modules.insert(module_id, entry);
    proof {
        assert(modules@.dom() =~= before.dom());
    }
    match res {
        Ok(()) => Ok(location),
        Err(_) => Err(refused()),
    }
}

/// The vote form of a meta key: when module `module_id` is a meta module,
/// records this node's wish to propose `value` for `key` there. Leads back
/// to the key's voting page.
pub fn post_meta_vote(
    modules: &mut BTreeMap<ModuleId, ModuleWithConfig>,
    module_id: ModuleId,
    key: u8,
    value: Vec<u8>,
) -> (r: Result<Vec<u8>, RequestError>)
    ensures
        r matches Ok(location) && location@ == spec_meta_key_page(module_id, key),
        runs_meta(old(modules)@, module_id) ==> {
            &&& only_module_changed(old(modules)@, final(modules)@, module_id)
            &&& final(modules)@[module_id].inner is Meta
            &&& key_value_proposal_step(
                old(modules)@[module_id].inner->Meta_0,
                final(modules)@[module_id].inner->Meta_0,
                key,
                value@,
            )
        },
        !runs_meta(old(modules)@, module_id) ==> final(modules)@ == old(modules)@,
{
    proof {
        lemma_lawful_keys();
    }
    let location = meta_key_page_location(module_id, key);
    let ghost before = modules@;
    let runs = match modules.get(&module_id) {
        Some(m) => m.config.kind == MODULE_KIND_META && match &m.inner {
            AppModule::Meta(_) => true,
            _ => false,
        },
        None => false,
    };
    if !runs {
        return Ok(location);
    }
    let mut entry = match modules.remove(&module_id) {
        Some(m) => m,
        None => {
            proof {
                assert(false);
            }
            return Ok(location);
        },
    };
    let ghost v = value@;
    match &mut entry.inner {
        AppModule::Meta(m) => {
            let _ = m.propose_key_value(key, value);
        },
        AppModule::ConsensusCtrl(_) => {
            proof {
                assert(false);
            }
        },
    }
    modules.insert(module_id, entry);
    proof {
        assert(modules@.dom() =~= before.dom());
    }
    Ok(location)
}

/// What the voting page of a meta key shows.
#[derive(Debug)]
pub enum MetaKeyPage {
    /// The module is no running meta module: go to this page instead.
    Redirect { location: Vec<u8> },
    /// The value the peers agreed on for the key, if any, and each
    /// voter's value for it.
    Voting { current_value: Option<Vec<u8>>, votes: BTreeMap<PeerPubkey, Vec<u8>> },
}

/// The voting page of key `key` of module `module_id`: when that module is
/// a running meta module, the key's agreed value and votes; else a
/// redirect to the module's page.
pub fn get_meta_key(modules: &BTreeMap<ModuleId, ModuleWithConfig>, module_id: ModuleId, key: u8) -> (r:
    MetaKeyPage)
    ensures
        !runs_meta(modules@, module_id) ==> (r matches MetaKeyPage::Redirect { location }
            && location@ == spec_module_page(module_id)),
        runs_meta(modules@, module_id) ==> (r matches MetaKeyPage::Voting { current_value, votes } && {
            let db = modules@[module_id].inner->Meta_0.db;
            &&& (current_value matches Some(v) ==> db.consensus_values@.contains_key(key) && v@
                == db.consensus_values@[key]@)
            &&& (current_value is None ==> !db.consensus_values@.contains_key(key))
            &&& votes@.map_values(|v: Vec<u8>| v@) == Map::new(
                |p: PeerPubkey| db.key_value_votes@.contains_key((key, p)),
                |p: PeerPubkey| db.key_value_votes@[(key, p)]@,
            )
        }),
{
    proof {
        lemma_lawful_keys();
    }
    match modules.get(&module_id) {
        Some(m) => {
            if m.config.kind == MODULE_KIND_META {
                match &m.inner {
                    AppModule::Meta(meta) => {
                        let votes = meta.get_votes_for_key(key);
                        let values = meta.get_consensus_values();
                        let current_value = match values.get(&key) {
                            Some(v) => {
                                proof {
                                    assert(values_view(values@).contains_key(key));
                                    assert(values_view(meta.db.consensus_values@).contains_key(key));
                                    assert(values_view(values@)[key] == values@[key]@);
                                    assert(values_view(meta.db.consensus_values@)[key]
                                        == meta.db.consensus_values@[key]@);
                                }
                                Some(copy_bytes(v))
                            },
                            None => {
                                proof {
                                    assert(!values_view(values@).contains_key(key));
                                }
                                None
                            },
                        };
                        return MetaKeyPage::Voting { current_value, votes };
                    },
                    AppModule::ConsensusCtrl(_) => {},
                }
            }
        },
        None => {},
    }
    MetaKeyPage::Redirect { location: module_page_location(module_id) }
}

} // verus!
