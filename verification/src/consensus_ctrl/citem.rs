use vstd::prelude::*;

use crate::types::{ConsensusVersion, ConsensusVersionMinor, ModuleId, ModuleKind, PeerPubkey};

verus! {

/// Consensus item of the consensus control module: a peer's vote.
#[derive(PartialEq, Eq, Clone, Copy, Debug)]
pub enum ConsensusCtrlCitem {
    /// Vote to add a peer to the voting peer set.
    VoteAddPeer(PeerPubkey),
    /// Vote to remove a peer from the voting peer set.
    VoteRemovePeer(PeerPubkey),
    /// Vote to add a module instance.
    VoteAddModule { module_kind: ModuleKind, consensus_version: ConsensusVersion },
    /// Vote for the minor consensus version a module should run at.
    VoteModuleVersion { module_id: ModuleId, minor_consensus_version: ConsensusVersionMinor },
}

} // verus!
