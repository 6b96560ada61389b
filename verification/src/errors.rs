//! The error taxonomy of the store and the adapter.

use vstd::prelude::*;

verus! {

/// Every failure the core can report.
///
/// `NotFound`: an address or alias is absent from the store.
/// `CorruptRecord`: a block is present but fails the typed decode.
/// `StorageIo`: the disk-backed store failed.
/// `PathNotFound`: a tree traversal dead-ended.
/// `WrongKind`: a file was expected where a directory stands, or the reverse.
/// `UnknownInode`: the adapter was handed an inode it never assigned.
/// `NotSupported`: the adapter does not implement the requested operation.
#[derive(Clone, Copy, Debug, PartialEq, Eq, Structural)]
pub enum FsError {
    NotFound,
    CorruptRecord,
    StorageIo,
    PathNotFound,
    WrongKind,
    UnknownInode,
    NotSupported,
}

} // verus!
