//! What module initialization can report.
use vstd::prelude::*;

use crate::types::ConsensusVersion;

verus! {

/// Why a module instance could not be created.
#[derive(PartialEq, Eq, Structural, Clone, Copy, Debug)]
pub enum ModuleInitError {
    /// The consensus asks for a version this implementation does not support.
    UnsupportedVersion { requested: ConsensusVersion, supported: ConsensusVersion },
}

} // verus!
