//! The decision logic of the kernel filesystem bridge.
//!
//! The surrounding application receives kernel requests, resolves inodes
//! through the [`crate::inode::Inodes`] table, asks the external versioned
//! tree about nodes, and hands the plain results to the functions here;
//! they compute the reply. Every internal failure is collapsed by the
//! caller into the kernel's single "no entry" signal — a deliberate
//! simplification of this adapter, not an oversight.

use vstd::prelude::*;
use vstd::string::StringExecFns;

use crate::errors::FsError;
use crate::inode::{Inodes, spec_assign};
use crate::paths::push_segment;

verus! {

/// The reserved inode number of the filesystem root.
pub const ROOT_INO: u64 = 1;

/// The block size attributes are reported in.
pub const BLOCK_SIZE: u64 = 512;

/// What a tree node is.
#[derive(Clone, Copy, Debug, PartialEq, Eq, Structural)]
pub enum NodeKind {
    Directory,
    File,
}

/// What the tree reports of one node: its kind, its content size upper
/// bound (files; directories report zero), and its timestamps in seconds
/// since the epoch, absent when the tree has none.
#[derive(Clone, Copy, Debug, PartialEq, Eq)]
pub struct NodeInfo {
    pub kind: NodeKind,
    pub size: u64,
    pub modified_secs: Option<i64>,
    pub created_secs: Option<i64>,
}

/// The attributes a kernel reply carries for one inode.
#[derive(Clone, Copy, Debug, PartialEq, Eq, Structural)]
pub struct FileAttr {
    pub ino: u64,
    pub size: u64,
    pub blocks: u64,
    pub nlink: u32,
    pub perm: u16,
    pub uid: u32,
    pub gid: u32,
    pub blksize: u32,
    pub kind: NodeKind,
    pub atime_secs: i64,
    pub mtime_secs: i64,
    pub ctime_secs: i64,
    pub crtime_secs: i64,
}

/// The attributes a node reports under a given inode: fixed read-only
/// permission bits (directories `0o555`, files `0o444`), the tree-reported
/// size for files and zero for directories, a block count of
/// `size / 512`, link count 1 for files and 2 for directories, and
/// timestamps with an epoch-start fallback.
pub open spec fn spec_attr_of(ino: u64, node: NodeInfo) -> FileAttr {
    let size: u64 = if node.kind is File {
        node.size
    } else {
        0
    };
    let mtime: i64 = match node.modified_secs {
        Some(t) => t,
        None => 0,
    };
    let ctime: i64 = match node.created_secs {
        Some(t) => t,
        None => 0,
    };
    FileAttr {
        ino,
        size,
        blocks: size / 512,
        nlink: if node.kind is File {
            1
        } else {
            2
        },
        perm: if node.kind is File {
            0o444
        } else {
            0o555
        },
        uid: 1000,
        gid: 1000,
        blksize: 512,
        kind: node.kind,
        atime_secs: mtime,
        mtime_secs: mtime,
        ctime_secs: ctime,
        crtime_secs: ctime,
    }
}

/// Computes the reply attributes of a node. A file of content size `n`
/// reports `size == n` and `blocks == n / 512`.
pub fn node_to_attr(ino: u64, node: &NodeInfo) -> (a: FileAttr)
    ensures
        a == spec_attr_of(ino, *node),
{
    let size: u64 = match node.kind {
        NodeKind::File => node.size,
        NodeKind::Directory => 0,
    };
    let mtime: i64 = match node.modified_secs {
        Some(t) => t,
        None => 0,
    };
    let ctime: i64 = match node.created_secs {
        Some(t) => t,
        None => 0,
    };
    FileAttr {
        ino,
        size,
        blocks: size / 512,
        nlink: match node.kind {
            NodeKind::File => 1,
            NodeKind::Directory => 2,
        },
        perm: match node.kind {
            NodeKind::File => 0o444,
            NodeKind::Directory => 0o555,
        },
        uid: 1000,
        gid: 1000,
        blksize: 512,
        kind: node.kind,
        atime_secs: mtime,
        mtime_secs: mtime,
        ctime_secs: ctime,
        crtime_secs: ctime,
    }
}

/// Resolves the child path a lookup request names: the parent's path plus
/// the requested name. `None` exactly when the parent inode was never
/// assigned.
pub fn lookup_path(inodes: &Inodes, parent: u64, name: &str) -> (r: Option<Vec<String>>)
    requires
        inodes.wf(),
    ensures
        match r {
            Some(path) => 1 <= parent && parent <= inodes.paths().len() && path.deep_view()
                == inodes.paths()[parent - 1].push(name@),
            None => parent < 1 || parent > inodes.paths().len(),
        },
{
    match inodes.get_path_segments(parent) {
        Some(parent_path) => Some(push_segment(parent_path, name)),
        None => None,
    }
}

/// Computes the reply of a lookup once the tree has answered: assigns (or
/// finds) the inode of the path, then reports the node's attributes, or
/// `NotFound` when the path did not resolve. The inode is assigned before
/// the node is examined, so it stays assigned either way.
pub fn lookup_reply(inodes: &mut Inodes, path: &Vec<String>, node: &Option<NodeInfo>) -> (r: Result<
    FileAttr,
    FsError,
>)
    requires
        old(inodes).wf(),
        old(inodes).paths().len() < 0xffff_ffff_ffff_ffff,
    ensures
        final(inodes).wf(),
        final(inodes).paths() == spec_assign(old(inodes).paths(), path.deep_view()).0,
        match r {
            Ok(attr) => (*node) is Some && attr == spec_attr_of(
                spec_assign(old(inodes).paths(), path.deep_view()).1 as u64,
                (*node)->Some_0,
            ),
            Err(e) => (*node) is None && e == FsError::NotFound,
        },
{
    let inode = inodes.get_or_push(path.as_slice());
    match node {
        Some(info) => Ok(node_to_attr(inode.ino, info)),
        None => Err(FsError::NotFound),
    }
}

/// Computes the reply of a mkdir once the directory has been created and
/// looked up again: on a resolved node, assigns the new path's inode and
/// reports the node's attributes; on an unresolved one, `NotFound` with the
/// table untouched — a failed mkdir assigns no inode.
pub fn mkdir_reply(inodes: &mut Inodes, path: &Vec<String>, node: &Option<NodeInfo>) -> (r: Result<
    FileAttr,
    FsError,
>)
    requires
        old(inodes).wf(),
        old(inodes).paths().len() < 0xffff_ffff_ffff_ffff,
    ensures
        final(inodes).wf(),
        match r {
            Ok(attr) => (*node) is Some && final(inodes).paths() == spec_assign(
                old(inodes).paths(),
                path.deep_view(),
            ).0 && attr == spec_attr_of(
                spec_assign(old(inodes).paths(), path.deep_view()).1 as u64,
                (*node)->Some_0,
            ),
            Err(e) => (*node) is None && e == FsError::NotFound && final(inodes).paths() == old(
                inodes,
            ).paths(),
        },
{
    match node {
        Some(info) => {
            let inode = inodes.get_or_push(path.as_slice());
            Ok(node_to_attr(inode.ino, info))
        },
        None => Err(FsError::NotFound),
    }
}

/// Computes the reply of a getattr once the tree has answered: the node's
/// attributes under its inode, or `NotFound` when the inode or its path
/// did not resolve.
pub fn getattr_reply(ino: u64, node: &Option<NodeInfo>) -> (r: Result<FileAttr, FsError>)
    ensures
        match r {
            Ok(attr) => (*node) is Some && attr == spec_attr_of(ino, (*node)->Some_0),
            Err(e) => (*node) is None && e == FsError::NotFound,
        },
{
    match node {
        Some(info) => Ok(node_to_attr(ino, info)),
        None => Err(FsError::NotFound),
    }
}

/// Classifies the target of a read: only a resolved file can be read; an
/// unresolved path is `NotFound` and a directory is `WrongKind` (both are
/// collapsed to the kernel's "no entry" signal by the caller).
pub fn check_read_target(node: &Option<NodeInfo>) -> (r: Result<(), FsError>)
    ensures
        match r {
            Ok(()) => (*node) is Some && (*node)->Some_0.kind is File,
            Err(e) => ((*node) is None && e == FsError::NotFound) || ((*node) is Some
                && (*node)->Some_0.kind is Directory && e == FsError::WrongKind),
        },
{
    match node {
        Some(info) => match info.kind {
            NodeKind::File => Ok(()),
            NodeKind::Directory => Err(FsError::WrongKind),
        },
        None => Err(FsError::NotFound),
    }
}

/// The kernel write path of this adapter variant: unconditionally the
/// not-supported signal, for every inode, offset and payload.
pub fn write_reply(_ino: u64, _offset: i64, _data_len: usize) -> (r: Result<u32, FsError>)
    ensures
        r == Err::<u32, FsError>(FsError::NotSupported),
{
    Err(FsError::NotSupported)
}

/// One entry of a directory listing reply.
#[derive(Debug)]
pub struct DirEntry {
    pub ino: u64,
    pub kind: NodeKind,
    pub name: String,
}

/// The plain value of a listing entry: inode, kind, name.
pub open spec fn entry_view(e: DirEntry) -> (u64, NodeKind, Seq<char>) {
    (e.ino, e.kind, e.name@)
}

/// The plain values of the children the tree enumerated: name, and the
/// kind of the resolved node (`None` where the node failed to resolve).
pub open spec fn children_view(children: Seq<(String, Option<NodeKind>)>) -> Seq<
    (Seq<char>, Option<NodeKind>),
> {
    children.map_values(|c: (String, Option<NodeKind>)| (c.0@, c.1))
}

/// One step of a listing: an unresolved child is silently skipped; a
/// resolved one is assigned an inode (fresh if unseen) and appended with
/// its kind.
pub open spec fn spec_readdir_step(
    state: (Seq<(u64, NodeKind, Seq<char>)>, Seq<Seq<Seq<char>>>),
    dir_path: Seq<Seq<char>>,
    child: (Seq<char>, Option<NodeKind>),
) -> (Seq<(u64, NodeKind, Seq<char>)>, Seq<Seq<Seq<char>>>) {
    match child.1 {
        None => state,
        Some(kind) => {
            let p = dir_path.push(child.0);
            let assigned = spec_assign(state.1, p);
            (state.0.push((assigned.1 as u64, kind, child.0)), assigned.0)
        },
    }
}

/// The full listing of a directory and the inode table it leaves behind:
/// `.` and `..` under the directory's own inode, then each resolved child
/// in enumeration order.
pub open spec fn spec_readdir(
    paths: Seq<Seq<Seq<char>>>,
    dir_ino: u64,
    dir_path: Seq<Seq<char>>,
    children: Seq<(Seq<char>, Option<NodeKind>)>,
) -> (Seq<(u64, NodeKind, Seq<char>)>, Seq<Seq<Seq<char>>>)
    decreases children.len(),
{
    if children.len() == 0 {
        (
            seq![
                (dir_ino, NodeKind::Directory, "."@),
                (dir_ino, NodeKind::Directory, ".."@),
            ],
            paths,
        )
    } else {
        spec_readdir_step(
            spec_readdir(paths, dir_ino, dir_path, children.drop_last()),
            dir_path,
            children.last(),
        )
    }
}

/// Builds a directory listing reply, recomputed fresh on every call and
/// sliced from the caller-supplied offset. Children are `(name, kind)`
/// pairs as the tree resolved them, `None` kind marking a child whose node
/// failed to resolve (skipped without error). Every listed child holds a
/// distinct, stable inode.
pub fn readdir_entries(
    inodes: &mut Inodes,
    ino: u64,
    path_segments: &Vec<String>,
    children: &Vec<(String, Option<NodeKind>)>,
    offset: usize,
) -> (r: Vec<DirEntry>)
    requires
        old(inodes).wf(),
        old(inodes).paths().len() + children@.len() < 0xffff_ffff_ffff_ffff,
    ensures
        final(inodes).wf(),
        final(inodes).paths() == spec_readdir(
            old(inodes).paths(),
            ino,
            path_segments.deep_view(),
            children_view(children@),
        ).1,
        r@.map_values(|e: DirEntry| entry_view(e)) == ({
            let full = spec_readdir(
                old(inodes).paths(),
                ino,
                path_segments.deep_view(),
                children_view(children@),
            ).0;
            if offset <= full.len() {
                full.skip(offset as int)
            } else {
                Seq::empty()
            }
        }),
{
    let ghost dir_path = path_segments.deep_view();
    let mut full: Vec<DirEntry> = Vec::new();
    full.push(DirEntry { ino, kind: NodeKind::Directory, name: String::from_str(".") });
    full.push(DirEntry { ino, kind: NodeKind::Directory, name: String::from_str("..") });
    proof {
        assert(children_view(children@).take(0) =~= Seq::empty());
        assert(full@.map_values(|e: DirEntry| entry_view(e)) =~= spec_readdir(
            old(inodes).paths(),
            ino,
            dir_path,
            children_view(children@).take(0),
        ).0);
    }
    let mut i: usize = 0;
    while i < children.len()
        invariant
            inodes.wf(),
            i <= children@.len(),
            dir_path == path_segments.deep_view(),
            inodes.paths().len() <= old(inodes).paths().len() + i,
            old(inodes).paths().len() + children@.len() < 0xffff_ffff_ffff_ffff,
            full@.map_values(|e: DirEntry| entry_view(e)) == spec_readdir(
                old(inodes).paths(),
                ino,
                dir_path,
                children_view(children@).take(i as int),
            ).0,
            inodes.paths() == spec_readdir(
                old(inodes).paths(),
                ino,
                dir_path,
                children_view(children@).take(i as int),
            ).1,
        decreases children@.len() - i,
    {
        let ghost cview = children_view(children@);
        let ghost state = spec_readdir(old(inodes).paths(), ino, dir_path, cview.take(i as int));
        proof {
            assert(cview.take(i + 1).drop_last() =~= cview.take(i as int));
            assert(cview.take(i + 1).last() == cview[i as int]);
        }
        let c = &children[i];
        match c.1 {
            Some(kind) => {
                let child_path = push_segment(path_segments, c.0.as_str());
                let ghost prev_paths = inodes.paths();
                let entry = inodes.get_or_push(child_path.as_slice());
                let ghost prev_full = full@.map_values(|e: DirEntry| entry_view(e));
                full.push(DirEntry { ino: entry.ino, kind, name: c.0.clone() });
                proof {
                    let assigned = spec_assign(prev_paths, dir_path.push(c.0@));
                    assert(child_path.deep_view() == dir_path.push(c.0@));
                    assert(entry.ino == assigned.1);
                    assert(0 <= assigned.1 <= prev_paths.len() + 1) by {
                        crate::inode::lemma_assign_resolve(prev_paths, dir_path.push(c.0@));
                    }
                    assert(full@.map_values(|e: DirEntry| entry_view(e)) =~= prev_full.push(
                        (entry.ino, kind, c.0@),
                    ));
                    assert(full@.map_values(|e: DirEntry| entry_view(e)) =~= spec_readdir(
                        old(inodes).paths(),
                        ino,
                        dir_path,
                        cview.take(i + 1),
                    ).0);
                }
            },
            None => {
                proof {
                    assert(spec_readdir(old(inodes).paths(), ino, dir_path, cview.take(i + 1))
                        == state);
                }
            },
        }
        i += 1;
    }
    proof {
        assert(children_view(children@).take(children@.len() as int) =~= children_view(
            children@,
        ));
    }
    let mut r: Vec<DirEntry> = Vec::new();
    let mut j: usize = offset;
    let ghost full_spec = full@.map_values(|e: DirEntry| entry_view(e));
    proof {
        if offset <= full_spec.len() {
            assert(full_spec.skip(offset as int).take(0) =~= Seq::empty());
            assert(r@.map_values(|e: DirEntry| entry_view(e)) =~= Seq::empty());
        }
    }
    while j < full.len()
        invariant
            offset <= j,
            j <= full@.len() || j == offset,
            full_spec == full@.map_values(|e: DirEntry| entry_view(e)),
            offset <= full_spec.len() ==> j <= full_spec.len() && r@.map_values(
                |e: DirEntry| entry_view(e),
            ) == full_spec.skip(offset as int).take(j - offset),
            offset > full_spec.len() ==> r@.len() == 0,
        decreases full@.len() - j,
    {
        let e = &full[j];
        let ghost prev = r@.map_values(|e: DirEntry| entry_view(e));
        r.push(DirEntry { ino: e.ino, kind: e.kind, name: e.name.clone() });
        proof {
            assert(r@.map_values(|e: DirEntry| entry_view(e)) =~= prev.push(entry_view(full@[
                j as int
            ])));
            assert(full_spec.skip(offset as int).take(j - offset + 1) =~= full_spec.skip(
                offset as int,
            ).take(j - offset).push(full_spec[j as int]));
        }
        j += 1;
    }
    proof {
        if offset <= full_spec.len() {
            assert(full_spec.skip(offset as int).take(full_spec.len() - offset) =~= full_spec.skip(
                offset as int,
            ));
        }
        assert(r@.map_values(|e: DirEntry| entry_view(e)) =~= (if offset <= full_spec.len() {
            full_spec.skip(offset as int)
        } else {
            Seq::empty()
        }));
    }
    r
}

} // verus!
