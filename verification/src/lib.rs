//! Verified core of a BFT consensus engine: the consensus control module
//! (peer set membership and module versions), the meta key-value module,
//! the application layer that feeds finalized consensus items to modules,
//! and the decisions made by the web UI.

pub mod address;
pub mod consensus;
pub mod consensus_ctrl;
pub mod core_consensus;
pub mod effects;
pub mod keys;
pub mod meta;
pub mod module_init;
pub mod node_app;
pub mod num_peers;
pub mod outside;
pub mod shared_modules;
pub mod types;
pub mod ui;
pub mod votes;
