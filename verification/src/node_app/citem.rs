use vstd::prelude::*;

use crate::consensus_ctrl::ConsensusCtrlCitem;
use crate::meta::citem::MetaCitem;
use crate::types::ModuleId;

verus! {

/// A peer's consensus item, decoded for the kind of module it is addressed
/// to; `Undecodable` when its bytes are no item of that kind.
#[derive(Debug)]
pub enum ModuleCItem {
    ConsensusCtrl(ConsensusCtrlCitem),
    Meta(MetaCitem),
    Undecodable,
}

/// An item of a finalized block: a peer's consensus item for one module,
/// or a transaction whose inputs and outputs each name the module that
/// handles them.
#[derive(Debug)]
pub enum CItem {
    PeerCItem { module_id: ModuleId, citem: ModuleCItem },
    Transaction { inputs: Vec<(ModuleId, Vec<u8>)>, outputs: Vec<(ModuleId, Vec<u8>)> },
}

} // verus!
