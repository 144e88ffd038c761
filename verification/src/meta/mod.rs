//! Meta module: peers vote on byte values for one-byte keys; a value is
//! agreed once a threshold of the peers vote for it.

pub mod citem;
pub mod init;
pub mod module;
pub mod recheck;
