//! The bare consensus module: it only keeps the configuration of every
//! module instance, starting with its own.
use vstd::prelude::*;
use std::collections::BTreeMap;

use crate::module_init::ModuleInitError;
use crate::types::{
    ConsensusVersion, ConsensusVersionMajor, ConsensusVersionMinor, ModuleConfig, ModuleId,
    ModuleKind,
};

verus! {

/// Kind of the consensus module.
pub const CONSENSUS_KIND: ModuleKind = 0;

/// Major consensus version of this implementation of the module.
pub const CONSENSUS_VERSION_MAJOR: ConsensusVersionMajor = 0;

/// Minor consensus version of this implementation of the module.
pub const CONSENSUS_VERSION_MINOR: ConsensusVersionMinor = 0;

/// The consensus module over its table of module configurations.
pub struct ConsensusModule {
    pub version: ConsensusVersion,
    pub modules_configs: BTreeMap<ModuleId, ModuleConfig>,
}

impl ConsensusModule {
    /// The configurations of all modules.
    pub fn get_modules_configs(&self) -> (r: BTreeMap<ModuleId, ModuleConfig>)
        ensures
            r@ == self.modules_configs@,
    {
        self.modules_configs.clone()
    }
}

/// Creates consensus module instances.
pub struct ConsensusModuleInit;

impl ConsensusModuleInit {
    /// The kind of module this creates.
    pub fn kind(&self) -> (r: ModuleKind)
        ensures
            r == CONSENSUS_KIND,
    {
        CONSENSUS_KIND
    }

    /// Records the consensus module's own configuration under `module_id`,
    /// with `params` the encoded consensus parameters, and returns it.
    pub fn init_consensus(
        &self,
        modules_configs: &mut BTreeMap<ModuleId, ModuleConfig>,
        module_id: ModuleId,
        params: Vec<u8>,
    ) -> (r: ModuleConfig)
        ensures
            r.kind == CONSENSUS_KIND,
            r.version == ConsensusVersion::new(CONSENSUS_VERSION_MAJOR, CONSENSUS_VERSION_MINOR),
            r.params@ == params@,
            final(modules_configs)@.dom() == old(modules_configs)@.dom().insert(module_id),
            final(modules_configs)@[module_id]@ == r@,
            forall|m: ModuleId|
                m != module_id && #[trigger] old(modules_configs)@.contains_key(m)
                    ==> final(modules_configs)@[m] == old(modules_configs)@[m],
    {
        let config = ModuleConfig {
            kind: CONSENSUS_KIND,
            version: ConsensusVersion::new(CONSENSUS_VERSION_MAJOR, CONSENSUS_VERSION_MINOR),
            params,
        };
        modules_configs.insert(module_id, config.clone());
        config
    }

    /// Creates the module over `modules_configs` if `module_consensus_version`
    /// is no newer than the version this implementation runs at.
    pub fn init(
        &self,
        module_consensus_version: ConsensusVersion,
        modules_configs: BTreeMap<ModuleId, ModuleConfig>,
    ) -> (r: Result<ConsensusModule, ModuleInitError>)
        ensures
            r is Ok <==> module_consensus_version.spec_not_newer(
                ConsensusVersion::new(CONSENSUS_VERSION_MAJOR, CONSENSUS_VERSION_MINOR),
            ),
            r matches Ok(m) ==> m.version == module_consensus_version && m.modules_configs@
                == modules_configs@,
            r matches Err(e) ==> e == (ModuleInitError::UnsupportedVersion {
                requested: module_consensus_version,
                supported: ConsensusVersion::new(CONSENSUS_VERSION_MAJOR, CONSENSUS_VERSION_MINOR),
            }),
    {
        let supported = ConsensusVersion::new(CONSENSUS_VERSION_MAJOR, CONSENSUS_VERSION_MINOR);
        if !module_consensus_version.not_newer(&supported) {
            return Err(
                ModuleInitError::UnsupportedVersion {
                    requested: module_consensus_version,
                    supported,
                },
            );
        }
        Ok(ConsensusModule { version: module_consensus_version, modules_configs })
    }
}

} // verus!
