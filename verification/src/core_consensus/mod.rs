//! Core consensus: the first peer-set module. Peers vote to add or remove
//! a peer; a threshold of the current peers decides.

pub mod citem;
pub mod init;
pub mod laws;
pub mod module;

pub use self::citem::CoreConsensusCitem;
