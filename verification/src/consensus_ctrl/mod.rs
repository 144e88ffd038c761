//! Consensus control: the module every consensus starts with.
//!
//! It tracks the modules of the consensus and their configurations, the
//! voting peer set, and the peers' votes on changing either.

pub mod citem;
pub mod init;
pub mod laws;
pub mod module;
pub mod upgrades;

pub use self::citem::ConsensusCtrlCitem;
