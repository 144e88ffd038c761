use vstd::prelude::*;

use crate::types::PeerPubkey;

verus! {

/// Consensus item of the core consensus module: a peer's vote.
#[derive(PartialEq, Eq, Clone, Copy, Debug)]
pub enum CoreConsensusCitem {
    /// Vote to add a peer to the voting peer set.
    VoteAddPeer(PeerPubkey),
    /// Vote to remove a peer from the voting peer set.
    VoteRemovePeer(PeerPubkey),
}

/// An effect of a core consensus item, as the module reports it.
#[derive(PartialEq, Eq, Clone, Copy, Debug)]
pub enum CoreConsensusCItemEffect {
    /// A peer joined the voting peer set.
    AddPeer(PeerPubkey),
}

} // verus!
