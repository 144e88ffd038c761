//! The application layer: it feeds the consensus items of finalized blocks
//! to the modules, applies the effects they report, and (re)creates module
//! instances when their configurations change.

pub mod app;
pub mod block;
pub mod caches;
pub mod citem;
pub mod hosted;
pub mod processable;
pub mod position;
pub mod process;
pub mod setup;

pub use self::citem::{CItem, ModuleCItem};
pub use self::position::BlockCItemIdx;
