use vstd::prelude::*;
use std::collections::BTreeMap;

use super::module::{
    spec_proposals, AppConsensusModule, AppConsensusTables, ModuleSupportedConsensusVersions,
};
use crate::keys::{lemma_lawful_keys, set_elements};
use crate::module_init::ModuleInitError;
use crate::types::{
    ConsensusVersion, ConsensusVersionMajor, ConsensusVersionMinor, ModuleConfig, ModuleId,
    ModuleKind, PeerPubkey, PeerSet, MODULE_KIND_CONSENSUS_CTRL,
};

verus! {

/// Major consensus version of this implementation of the module.
pub const CURRENT_VERSION_MAJOR: ConsensusVersionMajor = 0;

/// Newest minor consensus version this implementation supports.
pub const CURRENT_VERSION_MINOR: ConsensusVersionMinor = 1;

/// Creates consensus control module instances.
pub struct AppConsensusModuleInit;

impl AppConsensusModuleInit {
    /// The kind of module this creates.
    pub fn kind(&self) -> (r: ModuleKind)
        ensures
            r == MODULE_KIND_CONSENSUS_CTRL,
    {
        MODULE_KIND_CONSENSUS_CTRL
    }

    /// Human readable name of the module.
    pub fn display_name(&self) -> (r: &'static str)
        ensures
            r@ == "App Consensus"@,
    {
        "App Consensus"
    }

    /// Each supported major version with the newest supported minor version.
    pub fn supported_versions(&self) -> (r: ModuleSupportedConsensusVersions)
        ensures
            r@ == Map::<ConsensusVersionMajor, ConsensusVersionMinor>::empty().insert(
                CURRENT_VERSION_MAJOR,
                CURRENT_VERSION_MINOR,
            ),
    {
        let mut r = BTreeMap::new();
        r.insert(CURRENT_VERSION_MAJOR, CURRENT_VERSION_MINOR);
        r
    }

    /// Whether the tables were already bootstrapped.
    pub fn is_bootstrapped(&self, db: &AppConsensusTables) -> (r: bool)
        ensures
            r == (db.self_version is Some),
    {
        db.self_version.is_some()
    }

    /// Sets up the tables of a fresh consensus: records the module's own
    /// version and configuration, and the initial peer set.
    ///
    /// Returns the configuration the module was set up with.
    pub fn bootstrap_consensus(
        &self,
        db: &mut AppConsensusTables,
        module_id: ModuleId,
        peer_set: &PeerSet,
    ) -> (r: ModuleConfig)
        requires
            old(db).self_version is None,
        ensures
            r.kind == MODULE_KIND_CONSENSUS_CTRL,
            r.version == ConsensusVersion::new(CURRENT_VERSION_MAJOR, CURRENT_VERSION_MINOR),
            r.params@ == Seq::<u8>::empty(),
            final(db).self_version == Some(r.version),
            final(db).modules_configs@.dom() == old(db).modules_configs@.dom().insert(module_id),
            final(db).modules_configs@[module_id]@ == r@,
            forall|m: ModuleId|
                m != module_id && #[trigger] old(db).modules_configs@.contains_key(m)
                    ==> final(db).modules_configs@[m] == old(db).modules_configs@[m],
            final(db).peers@ == old(db).peers@.union(peer_set@),
            final(db).add_peer_votes == old(db).add_peer_votes,
            final(db).remove_peer_votes == old(db).remove_peer_votes,
            final(db).pending_add_peer_vote == old(db).pending_add_peer_vote,
            final(db).pending_remove_peer_vote == old(db).pending_remove_peer_vote,
            final(db).modules_versions_votes == old(db).modules_versions_votes,
            final(db).pending_modules_versions_votes == old(db).pending_modules_versions_votes,
    {
        proof {
            lemma_lawful_keys();
        }
        let version = ConsensusVersion::new(CURRENT_VERSION_MAJOR, CURRENT_VERSION_MINOR);
        let config = ModuleConfig {
            kind: MODULE_KIND_CONSENSUS_CTRL,
            version,
            params: Vec::new(),
        };
        db.self_version = Some(version);
        db.modules_configs.insert(module_id, config.clone());
        let peers = set_elements(peer_set);
        let ghost old_peers = db.peers@;
        let ghost before = *db;
        let mut i: usize = 0;
        while i < peers.len()
            invariant
                0 <= i <= peers@.len(),
                db.self_version == before.self_version,
                db.add_peer_votes == before.add_peer_votes,
                db.remove_peer_votes == before.remove_peer_votes,
                db.pending_add_peer_vote == before.pending_add_peer_vote,
                db.pending_remove_peer_vote == before.pending_remove_peer_vote,
                db.modules_configs == before.modules_configs,
                db.modules_versions_votes == before.modules_versions_votes,
                db.pending_modules_versions_votes == before.pending_modules_versions_votes,
                db.peers@ == old_peers.union(peers@.take(i as int).to_set()),
            decreases peers@.len() - i,
        {
            db.peers.insert(peers[i]);
            proof {
                assert(peers@.take(i as int + 1) =~= peers@.take(i as int).push(peers@[i as int]));
                peers@.take(i as int).lemma_push_to_set_commute(peers@[i as int]);
                assert(db.peers@ =~= old_peers.union(peers@.take(i as int + 1).to_set()));
            }
            i = i + 1;
        }
        proof {
            assert(peers@.take(i as int) =~= peers@);
        }
        config
    }

    /// The configurations of all modules, read straight from the tables.
    pub fn get_modules_configs(&self, db: &AppConsensusTables) -> (r: BTreeMap<
        ModuleId,
        ModuleConfig,
    >)
        ensures
            r@ == db.modules_configs@,
    {
        db.modules_configs.clone()
    }

    /// Creates the module over `db` if `module_consensus_version` is
    /// supported: its major version must be the current one and its minor
    /// version no newer than the newest supported one.
    pub fn init(
        &self,
        module_consensus_version: ConsensusVersion,
        db: AppConsensusTables,
        peer_pubkey: Option<PeerPubkey>,
    ) -> (r: Result<AppConsensusModule, ModuleInitError>)
        ensures
            r is Ok <==> module_consensus_version.major == CURRENT_VERSION_MAJOR
                && module_consensus_version.minor <= CURRENT_VERSION_MINOR,
            r matches Ok(m) ==> {
                &&& m.version == module_consensus_version
                &&& m.db == db
                &&& m.peer_pubkey == peer_pubkey
                &&& m.proposed_citems@ == spec_proposals(&db, peer_pubkey)
            },
            r matches Err(e) ==> e == (ModuleInitError::UnsupportedVersion {
                requested: module_consensus_version,
                supported: ConsensusVersion::new(CURRENT_VERSION_MAJOR, CURRENT_VERSION_MINOR),
            }),
    {
        if !(module_consensus_version.major == CURRENT_VERSION_MAJOR
            && module_consensus_version.minor <= CURRENT_VERSION_MINOR) {
            return Err(
                ModuleInitError::UnsupportedVersion {
                    requested: module_consensus_version,
                    supported: ConsensusVersion::new(CURRENT_VERSION_MAJOR, CURRENT_VERSION_MINOR),
                },
            );
        }
        let mut module = AppConsensusModule {
            version: module_consensus_version,
            peer_pubkey,
            db,
            proposed_citems: Vec::new(),
        };
        module.refresh_consensus_proposals();
        Ok(module)
    }
}

} // verus!
