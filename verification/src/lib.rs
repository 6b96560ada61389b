//! A verified core for a content-addressed, alias-rooted filesystem store.
//!
//! The library covers the logic of a small private filesystem mounted over a
//! kernel filesystem bridge: deterministic content addressing of blocks, a
//! canonical byte codec for the published root record, the two-phase publish
//! protocol that commits a new tree version and repoints a named alias, a
//! session-local inode table, and the pure decision logic of the kernel
//! adapter. Disk storage is an external sqlite-backed block store reached
//! through a small set of trusted wrappers; the versioned tree itself is an
//! external capability driven by the surrounding application.

pub mod errors;
pub mod address;
pub mod record;
pub mod store;
pub mod root;
pub mod inode;
pub mod paths;
pub mod adapter;
