use vstd::prelude::*;
use std::collections::BTreeMap;

use super::module::{MetaModule, MetaTables};
use crate::consensus_ctrl::module::ModuleSupportedConsensusVersions;
use crate::module_init::ModuleInitError;
use crate::types::{
    ConsensusVersion, ConsensusVersionMajor, ConsensusVersionMinor, ModuleKind, PeerPubkey,
    MODULE_KIND_META,
};

verus! {

/// Major consensus version of this implementation of the meta module.
pub const CURRENT_VERSION_MAJOR: ConsensusVersionMajor = 0;

/// Minor consensus version of this implementation of the meta module.
pub const CURRENT_VERSION_MINOR: ConsensusVersionMinor = 0;

/// Creates meta module instances.
pub struct MetaModuleInit;

impl MetaModuleInit {
    pub fn new() -> (r: Self) {
        MetaModuleInit
    }

    /// The kind of module this creates.
    pub fn kind(&self) -> (r: ModuleKind)
        ensures
            r == MODULE_KIND_META,
    {
        MODULE_KIND_META
    }

    /// A consensus has at most one meta module.
    pub fn singleton(&self) -> (r: bool)
        ensures
            r,
    {
        true
    }

    /// Human readable name of the module.
    pub fn display_name(&self) -> (r: &'static str)
        ensures
            r@ == "Meta"@,
    {
        "Meta"
    }

    /// Each supported major version with the newest supported minor version.
    pub fn supported_versions(&self) -> (r: ModuleSupportedConsensusVersions)
        ensures
            r@ == Map::<ConsensusVersionMajor, ConsensusVersionMinor>::empty().insert(
                CURRENT_VERSION_MAJOR,
                CURRENT_VERSION_MINOR,
            ),
    {
        let mut versions = BTreeMap::new();
        versions.insert(CURRENT_VERSION_MAJOR, CURRENT_VERSION_MINOR);
        versions
    }

    /// Creates the module over `db` if `module_consensus_version` is exactly
    /// the version this implementation supports.
    pub fn init(
        &self,
        module_consensus_version: ConsensusVersion,
        db: MetaTables,
        peer_pubkey: Option<PeerPubkey>,
    ) -> (r: Result<MetaModule, ModuleInitError>)
        ensures
            r is Ok <==> module_consensus_version == ConsensusVersion::new(
                CURRENT_VERSION_MAJOR,
                CURRENT_VERSION_MINOR,
            ),
            r matches Ok(m) ==> {
                &&& m.version == module_consensus_version
                &&& m.db == db
                &&& m.peer_pubkey == peer_pubkey
                &&& m.proposed_citems@.len() == 0
            },
            r matches Err(e) ==> e == (ModuleInitError::UnsupportedVersion {
                requested: module_consensus_version,
                supported: ConsensusVersion::new(CURRENT_VERSION_MAJOR, CURRENT_VERSION_MINOR),
            }),
    {
        let supported = ConsensusVersion::new(CURRENT_VERSION_MAJOR, CURRENT_VERSION_MINOR);
        if module_consensus_version != supported {
            return Err(
                ModuleInitError::UnsupportedVersion {
                    requested: module_consensus_version,
                    supported,
                },
            );
        }
        Ok(MetaModule::new(module_consensus_version, db, peer_pubkey))
    }
}

impl Default for MetaModuleInit {
    fn default() -> (r: Self) {
        MetaModuleInit::new()
    }
}

} // verus!
