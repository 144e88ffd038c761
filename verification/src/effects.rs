//! Effects: what processing a consensus item changed, as reported to the
//! application layer and to the other modules.
use vstd::prelude::*;

use crate::types::{
    ConsensusVersion, ModuleId, ModuleKind, PeerPubkey, PeerSet, MODULE_KIND_CONSENSUS_CTRL,
    MODULE_KIND_META,
};

verus! {

/// Identifier of an effect within the module kind that emits it.
pub type EffectId = u16;

/// A peer joined the voting peer set.
#[derive(PartialEq, Eq, Clone, Copy, Debug)]
pub struct AddPeerEffect {
    pub peer: PeerPubkey,
}

/// A peer left the voting peer set.
#[derive(PartialEq, Eq, Clone, Copy, Debug)]
pub struct RemovePeerEffect {
    pub peer: PeerPubkey,
}

/// The voting peer set changed; carries the new peer set.
#[derive(Debug)]
pub struct ConsensusParamsChange {
    pub peer_set: PeerSet,
}

/// A module's consensus version was raised.
#[derive(PartialEq, Eq, Structural, Clone, Copy, Debug)]
pub struct ModuleVersionUpgradeEffect {
    pub module_id: ModuleId,
    pub old_version: ConsensusVersion,
    pub new_version: ConsensusVersion,
}

/// A module instance was added.
#[derive(PartialEq, Eq, Structural, Clone, Copy, Debug)]
pub struct AddModuleEffect {
    pub module_kind: ModuleKind,
    pub module_id: ModuleId,
    pub consensus_version: ConsensusVersion,
}

/// The peers agreed on a value for a meta key.
#[derive(Debug)]
pub struct KeyValueConsensusEffect {
    pub key: u8,
    pub value: Vec<u8>,
}

/// Effect emitted by processing a consensus item.
#[derive(Debug)]
pub enum CItemEffect {
    AddPeer(AddPeerEffect),
    RemovePeer(RemovePeerEffect),
    ConsensusParamsChange(ConsensusParamsChange),
    ModuleVersionUpgrade(ModuleVersionUpgradeEffect),
    AddModule(AddModuleEffect),
    KeyValueConsensus(KeyValueConsensusEffect),
}

/// Plain mathematical form of an effect.
pub enum EffectView {
    AddPeer(PeerPubkey),
    RemovePeer(PeerPubkey),
    ConsensusParamsChange(Set<PeerPubkey>),
    ModuleVersionUpgrade(ModuleVersionUpgradeEffect),
    AddModule(AddModuleEffect),
    KeyValueConsensus(u8, Seq<u8>),
}

impl View for CItemEffect {
    type V = EffectView;

    open spec fn view(&self) -> EffectView {
        match self {
            CItemEffect::AddPeer(e) => EffectView::AddPeer(e.peer),
            CItemEffect::RemovePeer(e) => EffectView::RemovePeer(e.peer),
            CItemEffect::ConsensusParamsChange(e) => EffectView::ConsensusParamsChange(
                e.peer_set@,
            ),
            CItemEffect::ModuleVersionUpgrade(e) => EffectView::ModuleVersionUpgrade(*e),
            CItemEffect::AddModule(e) => EffectView::AddModule(*e),
            CItemEffect::KeyValueConsensus(e) => EffectView::KeyValueConsensus(e.key, e.value@),
        }
    }
}

/// The effects of a sequence, in their plain form.
pub open spec fn effects_view(s: Seq<CItemEffect>) -> Seq<EffectView> {
    s.map_values(|e: CItemEffect| e@)
}

/// Kind of the module that emits an effect of this form.
pub open spec fn spec_effect_module_kind(e: EffectView) -> ModuleKind {
    match e {
        EffectView::KeyValueConsensus(_, _) => MODULE_KIND_META,
        _ => MODULE_KIND_CONSENSUS_CTRL,
    }
}

/// Identifier of an effect of this form within its module kind.
pub open spec fn spec_effect_id(e: EffectView) -> EffectId {
    match e {
        EffectView::AddPeer(_) => 0,
        EffectView::RemovePeer(_) => 1,
        EffectView::ConsensusParamsChange(_) => 2,
        EffectView::ModuleVersionUpgrade(_) => 3,
        EffectView::AddModule(_) => 4,
        EffectView::KeyValueConsensus(_, _) => 0,
    }
}

impl CItemEffect {
    /// Identifier of this effect within the kind of module that emits it.
    pub fn effect_id(&self) -> (r: EffectId)
        ensures
            r == spec_effect_id(self@),
    {
        match self {
            CItemEffect::AddPeer(_) => 0,
            CItemEffect::RemovePeer(_) => 1,
            CItemEffect::ConsensusParamsChange(_) => 2,
            CItemEffect::ModuleVersionUpgrade(_) => 3,
            CItemEffect::AddModule(_) => 4,
            CItemEffect::KeyValueConsensus(_) => 0,
        }
    }

    /// Kind of the module that emits this effect.
    pub fn module_kind(&self) -> (r: ModuleKind)
        ensures
            r == spec_effect_module_kind(self@),
    {
        match self {
            CItemEffect::KeyValueConsensus(_) => MODULE_KIND_META,
            _ => MODULE_KIND_CONSENSUS_CTRL,
        }
    }
}

/// An effect together with the kind of the module that emitted it.
#[derive(Debug)]
pub struct ModuleCItemEffect {
    pub module_kind: ModuleKind,
    pub inner: CItemEffect,
}

} // verus!
