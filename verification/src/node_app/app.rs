use vstd::prelude::*;
use std::collections::{BTreeMap, BTreeSet};

use super::hosted::{ModuleTables, ModuleWithConfig};
use super::position::BlockCItemIdx;
use crate::types::{BlockRound, ModuleId, ModuleKind, PeerPubkey, MODULE_KIND_CONSENSUS_CTRL};

verus! {

/// Identifier under which the consensus control module always runs.
pub const CONSENSUS_CTRL_MODULE_ID: ModuleId = 0;

/// The application layer of a node.
pub struct NodeApp {
    /// This node's peer key; none for a node that does not vote.
    pub peer_pubkey: Option<PeerPubkey>,
    /// The kinds of module this node can run.
    pub modules_inits: BTreeSet<ModuleKind>,
    /// The running module instances.
    pub modules: BTreeMap<ModuleId, ModuleWithConfig>,
    /// Tables of modules that have no running instance yet.
    pub stored_tables: BTreeMap<ModuleId, ModuleTables>,
    /// Round of the block being processed.
    pub cur_round: BlockRound,
    /// Position of the next consensus item to process in that block.
    pub cur_idx: BlockCItemIdx,
}

impl NodeApp {
    /// A node application that runs no module yet, resuming at the
    /// position (`cur_round`, `cur_idx`) it saved before.
    pub fn new(
        peer_pubkey: Option<PeerPubkey>,
        modules_inits: BTreeSet<ModuleKind>,
        stored_tables: BTreeMap<ModuleId, ModuleTables>,
        cur_round: BlockRound,
        cur_idx: BlockCItemIdx,
    ) -> (r: Self)
        requires
            modules_inits@.contains(MODULE_KIND_CONSENSUS_CTRL),
        ensures
            r.peer_pubkey == peer_pubkey,
            r.modules_inits == modules_inits,
            r.modules@ == Map::<ModuleId, ModuleWithConfig>::empty(),
            r.stored_tables == stored_tables,
            r.cur_round == cur_round,
            r.cur_idx == cur_idx,
    {
        NodeApp {
            peer_pubkey,
            modules_inits,
            modules: BTreeMap::new(),
            stored_tables,
            cur_round,
            cur_idx,
        }
    }

    /// The saved position: the round of the block being processed and the
    /// position of the next consensus item in it.
    pub fn load_cur_round_and_idx(&self) -> (r: (BlockRound, BlockCItemIdx))
        ensures
            r == (self.cur_round, self.cur_idx),
    {
        (self.cur_round, self.cur_idx)
    }
}

} // verus!
