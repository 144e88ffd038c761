use vstd::prelude::*;

use super::citem::ModuleCItem;
use crate::consensus_ctrl::module::{
    citem_step, result_view, spec_proposals, AppConsensusModule, AppConsensusTables,
    ConsensusCtrlError,
};
use crate::effects::{CItemEffect, EffectView, ModuleCItemEffect};
use crate::meta::citem::citems_view;
use crate::meta::module::{
    meta_citem_step, meta_result_view, spec_meta_proposals, MetaError, MetaModule, MetaTables,
};
use crate::meta::recheck::{has_peer_removal, recheck_step};
use crate::types::{ModuleConfig, ModuleKind, PeerPubkey, PeerSet};

verus! {

/// Why a hosted module refused a consensus item, an input or an output.
#[derive(PartialEq, Eq, Structural, Clone, Copy, Debug)]
pub enum ModuleError {
    /// Refused by the consensus control module.
    ConsensusCtrl(ConsensusCtrlError),
    /// Refused by the meta module.
    Meta(MetaError),
    /// The item's bytes are no consensus item of the module's kind.
    UndecodableCItem,
    /// The submitting peer is not in the peer set (it is pending removal).
    PeerNotInPeerSet,
}

/// The tables of one module instance.
pub enum ModuleTables {
    ConsensusCtrl(AppConsensusTables),
    Meta(MetaTables),
}

/// A running module instance.
pub enum AppModule {
    ConsensusCtrl(AppConsensusModule),
    Meta(MetaModule),
}

/// A running module instance with the configuration it was created for.
pub struct ModuleWithConfig {
    pub config: ModuleConfig,
    pub inner: AppModule,
}

/// Processing `citem` from `voter` with peer set `peers` takes the module
/// instance from `old` to `new` with result `r`: the module whose kind the
/// item was decoded for processes it, and any other item is refused.
pub open spec fn module_citem_step(
    old: AppModule,
    new: AppModule,
    voter: PeerPubkey,
    peers: Set<PeerPubkey>,
    citem: ModuleCItem,
    r: Result<Seq<EffectView>, ModuleError>,
) -> bool {
    match old {
        AppModule::ConsensusCtrl(o) => match citem {
            ModuleCItem::ConsensusCtrl(c) => match new {
                AppModule::ConsensusCtrl(n) => match r {
                    Ok(e) => {
                        &&& citem_step(o.db, n.db, o.peer_pubkey, voter, peers, c, Ok(e))
                        &&& n.proposed_citems@ == spec_proposals(&n.db, o.peer_pubkey)
                        &&& n.version == o.version
                        &&& n.peer_pubkey == o.peer_pubkey
                    },
                    Err(ModuleError::ConsensusCtrl(x)) => citem_step(
                        o.db,
                        n.db,
                        o.peer_pubkey,
                        voter,
                        peers,
                        c,
                        Err(x),
                    ) && n == o,
                    Err(_) => false,
                },
                AppModule::Meta(_) => false,
            },
            _ => r == Err::<Seq<EffectView>, _>(ModuleError::UndecodableCItem) && new == old,
        },
        AppModule::Meta(o) => match citem {
            ModuleCItem::Meta(c) => match new {
                AppModule::Meta(n) => match r {
                    Ok(e) => {
                        &&& meta_citem_step(o.db, n.db, voter, peers, c@, Ok(e))
                        &&& citems_view(n.proposed_citems@) == spec_meta_proposals(
                            &n.db,
                            o.peer_pubkey,
                        )
                        &&& n.version == o.version
                        &&& n.peer_pubkey == o.peer_pubkey
                    },
                    Err(ModuleError::Meta(x)) => meta_citem_step(
                        o.db,
                        n.db,
                        voter,
                        peers,
                        c@,
                        Err(x),
                    ) && n == o,
                    Err(_) => false,
                },
                AppModule::ConsensusCtrl(_) => false,
            },
            _ => r == Err::<Seq<EffectView>, _>(ModuleError::UndecodableCItem) && new == old,
        },
    }
}

/// What a module instance answers to any input.
pub open spec fn input_refusal(m: AppModule) -> ModuleError {
    match m {
        AppModule::ConsensusCtrl(_) => ModuleError::ConsensusCtrl(
            ConsensusCtrlError::InputsNotSupported,
        ),
        AppModule::Meta(_) => ModuleError::Meta(MetaError::InputsNotSupported),
    }
}

/// What a module instance answers to any output.
pub open spec fn output_refusal(m: AppModule) -> ModuleError {
    match m {
        AppModule::ConsensusCtrl(_) => ModuleError::ConsensusCtrl(
            ConsensusCtrlError::OutputsNotSupported,
        ),
        AppModule::Meta(_) => ModuleError::Meta(MetaError::OutputsNotSupported),
    }
}

/// Reacting to `effects` with peer set `peers` takes the module instance
/// from `old` to `new`: the meta module re-decides its keys after a peer
/// left; nothing else changes.
pub open spec fn module_effects_step(
    old: AppModule,
    new: AppModule,
    peers: Set<PeerPubkey>,
    effects: Seq<ModuleCItemEffect>,
) -> bool {
    match old {
        AppModule::ConsensusCtrl(_) => new == old,
        AppModule::Meta(o) => if has_peer_removal(effects) {
            match new {
                AppModule::Meta(n) => {
                    &&& recheck_step(o.db, n.db, peers)
                    &&& n.version == o.version
                    &&& n.peer_pubkey == o.peer_pubkey
                    &&& n.proposed_citems == o.proposed_citems
                },
                AppModule::ConsensusCtrl(_) => false,
            }
        } else {
            new == old
        },
    }
}

/// Refreshing its proposals took the module instance from `old` to `new`:
/// only the consensus items it proposes changed, to those due for its
/// tables.
pub open spec fn proposals_refreshed(old: AppModule, new: AppModule) -> bool {
    match old {
        AppModule::ConsensusCtrl(o) => match new {
            AppModule::ConsensusCtrl(n) => {
                &&& n.db == o.db
                &&& n.version == o.version
                &&& n.peer_pubkey == o.peer_pubkey
                &&& n.proposed_citems@ == spec_proposals(&o.db, o.peer_pubkey)
            },
            AppModule::Meta(_) => false,
        },
        AppModule::Meta(o) => match new {
            AppModule::Meta(n) => {
                &&& n.db == o.db
                &&& n.version == o.version
                &&& n.peer_pubkey == o.peer_pubkey
                &&& citems_view(n.proposed_citems@) == spec_meta_proposals(&o.db, o.peer_pubkey)
            },
            AppModule::ConsensusCtrl(_) => false,
        },
    }
}

impl AppModule {
    /// Recomputes the consensus items the module proposes.
    pub fn refresh_proposals(&mut self)
        ensures
            proposals_refreshed(*old(self), *final(self)),
    {
        match self {
            AppModule::ConsensusCtrl(m) => m.refresh_consensus_proposals(),
            AppModule::Meta(m) => m.refresh_consensus_proposals(),
        }
    }

    /// Hands `citem` from `voter`, a member of `peer_set`, to the module.
    pub fn process_citem(&mut self, voter: PeerPubkey, peer_set: &PeerSet, citem: ModuleCItem) -> (r:
        Result<Vec<CItemEffect>, ModuleError>)
        requires
            peer_set@.contains(voter),
        ensures
            module_citem_step(*old(self), *final(self), voter, peer_set@, citem, result_view(r)),
    {
        match self {
            AppModule::ConsensusCtrl(m) => match citem {
                ModuleCItem::ConsensusCtrl(c) => match m.process_citem(voter, peer_set, &c) {
                    Ok(e) => Ok(e),
                    Err(x) => Err(ModuleError::ConsensusCtrl(x)),
                },
                _ => Err(ModuleError::UndecodableCItem),
            },
            AppModule::Meta(m) => match citem {
                ModuleCItem::Meta(c) => {
                    let ghost cv = c@;
                    match m.process_citem(voter, peer_set, c) {
                        Ok(e) => {
                            proof {
                                assert(meta_result_view(Ok(e)) == result_view::<MetaError>(Ok(e)));
                            }
                            Ok(e)
                        },
                        Err(x) => Err(ModuleError::Meta(x)),
                    }
                },
                _ => Err(ModuleError::UndecodableCItem),
            },
        }
    }

    /// Hands an input to the module, which refuses it.
    pub fn process_input(&self, input: &[u8]) -> (r: Result<Vec<CItemEffect>, ModuleError>)
        ensures
            r == Err::<Vec<CItemEffect>, _>(input_refusal(*self)),
    {
        match self {
            AppModule::ConsensusCtrl(m) => match m.process_input(input) {
                Ok(e) => Ok(e),
                Err(x) => Err(ModuleError::ConsensusCtrl(x)),
            },
            AppModule::Meta(m) => match m.process_input(input) {
                Ok(e) => Ok(e),
                Err(x) => Err(ModuleError::Meta(x)),
            },
        }
    }

    /// Hands an output to the module, which refuses it.
    pub fn process_output(&self, output: &[u8]) -> (r: Result<Vec<CItemEffect>, ModuleError>)
        ensures
            r == Err::<Vec<CItemEffect>, _>(output_refusal(*self)),
    {
        match self {
            AppModule::ConsensusCtrl(m) => match m.process_output(output) {
                Ok(e) => Ok(e),
                Err(x) => Err(ModuleError::ConsensusCtrl(x)),
            },
            AppModule::Meta(m) => match m.process_output(output) {
                Ok(e) => Ok(e),
                Err(x) => Err(ModuleError::Meta(x)),
            },
        }
    }

    /// Lets the module react to the effects of a processed consensus item.
    pub fn process_effects(&mut self, peer_set: &PeerSet, effects: &Vec<ModuleCItemEffect>)
        ensures
            module_effects_step(*old(self), *final(self), peer_set@, effects@),
    {
        match self {
            AppModule::ConsensusCtrl(m) => {
                let _ = m.process_effects(effects);
            },
            AppModule::Meta(m) => {
                m.process_effects(peer_set, effects);
            },
        }
    }
}

} // verus!
