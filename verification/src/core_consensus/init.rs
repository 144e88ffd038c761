use vstd::prelude::*;
use std::collections::BTreeMap;

use super::module::{CoreConsensusModule, CoreConsensusTables};
use crate::keys::{lemma_lawful_keys, set_elements};
use crate::module_init::ModuleInitError;
use crate::types::{
    ConsensusVersion, ConsensusVersionMajor, ConsensusVersionMinor, ModuleConfig, ModuleId,
    ModuleKind, PeerPubkey, PeerSet,
};

verus! {

/// Kind of the core consensus module.
pub const CORE_CONSENSUS_KIND: ModuleKind = 0;

/// Major consensus version of this implementation of the module.
pub const CORE_CONSENSUS_VERSION_MAJOR: ConsensusVersionMajor = 0;

/// Minor consensus version of this implementation of the module.
pub const CORE_CONSENSUS_VERSION_MINOR: ConsensusVersionMinor = 0;

/// Creates core consensus module instances.
pub struct CoreConsensusModuleInit;

impl CoreConsensusModuleInit {
    /// The kind of module this creates.
    pub fn kind(&self) -> (r: ModuleKind)
        ensures
            r == CORE_CONSENSUS_KIND,
    {
        CORE_CONSENSUS_KIND
    }

    /// Sets up the tables of a fresh consensus: records the module's own
    /// configuration and the initial peer set.
    ///
    /// Returns the configuration the module was set up with.
    pub fn bootstrap_consensus(
        &self,
        db: &mut CoreConsensusTables,
        module_id: ModuleId,
        peer_set: &PeerSet,
    ) -> (r: ModuleConfig)
        ensures
            r.kind == CORE_CONSENSUS_KIND,
            r.version == ConsensusVersion::new(
                CORE_CONSENSUS_VERSION_MAJOR,
                CORE_CONSENSUS_VERSION_MINOR,
            ),
            r.params@ == Seq::<u8>::empty(),
            final(db).modules_configs@.dom() == old(db).modules_configs@.dom().insert(module_id),
            final(db).modules_configs@[module_id]@ == r@,
            forall|m: ModuleId|
                m != module_id && #[trigger] old(db).modules_configs@.contains_key(m)
                    ==> final(db).modules_configs@[m] == old(db).modules_configs@[m],
            final(db).peers@ == old(db).peers@.union(peer_set@),
            final(db).add_peer_votes == old(db).add_peer_votes,
            final(db).remove_peer_votes == old(db).remove_peer_votes,
            final(db).pending_add_peer_vote == old(db).pending_add_peer_vote,
    {
        proof {
            lemma_lawful_keys();
        }
        let config = ModuleConfig {
            kind: CORE_CONSENSUS_KIND,
            version: ConsensusVersion::new(
                CORE_CONSENSUS_VERSION_MAJOR,
                CORE_CONSENSUS_VERSION_MINOR,
            ),
            params: Vec::new(),
        };
        db.modules_configs.insert(module_id, config.clone());
        let peers = set_elements(peer_set);
        let ghost old_peers = db.peers@;
        let ghost before = *db;
        let mut i: usize = 0;
        while i < peers.len()
            invariant
                0 <= i <= peers@.len(),
                db.modules_configs == before.modules_configs,
                db.add_peer_votes == before.add_peer_votes,
                db.remove_peer_votes == before.remove_peer_votes,
                db.pending_add_peer_vote == before.pending_add_peer_vote,
                db.peers@ == old_peers.union(peers@.take(i as int).to_set()),
            decreases peers@.len() - i,
        {
            db.peers.insert(peers[i]);
            proof {
                assert(peers@.take(i as int + 1) =~= peers@.take(i as int).push(peers@[i as int]));
                peers@.take(i as int).lemma_push_to_set_commute(peers@[i as int]);
                assert(db.peers@ =~= old_peers.union(peers@.take(i as int + 1).to_set()));
            }
            i = i + 1;
        }
        proof {
            assert(peers@.take(i as int) =~= peers@);
        }
        config
    }

    /// Creates the module over `db` if `module_consensus_version` is no newer
    /// than the version this implementation runs at. A new module proposes
    /// nothing until its proposals are refreshed.
    pub fn init(
        &self,
        module_consensus_version: ConsensusVersion,
        db: CoreConsensusTables,
        peer_pubkey: Option<PeerPubkey>,
    ) -> (r: Result<CoreConsensusModule, ModuleInitError>)
        ensures
            r is Ok <==> module_consensus_version.spec_not_newer(
                ConsensusVersion::new(CORE_CONSENSUS_VERSION_MAJOR, CORE_CONSENSUS_VERSION_MINOR),
            ),
            r matches Ok(m) ==> {
                &&& m.version == module_consensus_version
                &&& m.db == db
                &&& m.peer_pubkey == peer_pubkey
                &&& m.proposed_citems@ == Seq::<super::CoreConsensusCitem>::empty()
            },
            r matches Err(e) ==> e == (ModuleInitError::UnsupportedVersion {
                requested: module_consensus_version,
                supported: ConsensusVersion::new(
                    CORE_CONSENSUS_VERSION_MAJOR,
                    CORE_CONSENSUS_VERSION_MINOR,
                ),
            }),
    {
        let supported = ConsensusVersion::new(
            CORE_CONSENSUS_VERSION_MAJOR,
            CORE_CONSENSUS_VERSION_MINOR,
        );
        if !module_consensus_version.not_newer(&supported) {
            return Err(
                ModuleInitError::UnsupportedVersion {
                    requested: module_consensus_version,
                    supported,
                },
            );
        }
        Ok(
            CoreConsensusModule {
                version: module_consensus_version,
                peer_pubkey,
                db,
                proposed_citems: Vec::new(),
            },
        )
    }
}

} // verus!
