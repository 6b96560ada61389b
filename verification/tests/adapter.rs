use wnfs_fuse::adapter::{
    FileAttr, NodeInfo, NodeKind, check_read_target, getattr_reply, lookup_path, lookup_reply,
    mkdir_reply, node_to_attr, readdir_entries, write_reply, BLOCK_SIZE, ROOT_INO,
};
use wnfs_fuse::errors::FsError;
use wnfs_fuse::inode::Inodes;

fn path(segments: &[&str]) -> Vec<String> {
    segments.iter().map(|s| s.to_string()).collect()
}

fn file_node(size: u64) -> NodeInfo {
    NodeInfo { kind: NodeKind::File, size, modified_secs: Some(1_000_000), created_secs: Some(500) }
}

fn dir_node() -> NodeInfo {
    NodeInfo { kind: NodeKind::Directory, size: 0, modified_secs: None, created_secs: None }
}

#[test]
fn file_attr_reports_size_and_blocks() {
    let attr = node_to_attr(5, &file_node(4096));
    assert_eq!(attr.ino, 5);
    assert_eq!(attr.size, 4096);
    assert_eq!(attr.blocks, 4096 / BLOCK_SIZE);
    assert_eq!(attr.blocks, 8);
    assert_eq!(attr.perm, 0o444);
    assert_eq!(attr.nlink, 1);
    assert_eq!(attr.kind, NodeKind::File);
    assert_eq!(attr.blksize, 512);
}

#[test]
fn block_count_rounds_down() {
    assert_eq!(node_to_attr(1, &file_node(0)).blocks, 0);
    assert_eq!(node_to_attr(1, &file_node(511)).blocks, 0);
    assert_eq!(node_to_attr(1, &file_node(512)).blocks, 1);
    assert_eq!(node_to_attr(1, &file_node(1023)).blocks, 1);
    assert_eq!(node_to_attr(1, &file_node(1024)).blocks, 2);
}

#[test]
fn directory_attr_is_fixed() {
    let attr = node_to_attr(ROOT_INO, &dir_node());
    assert_eq!(attr.size, 0);
    assert_eq!(attr.blocks, 0);
    assert_eq!(attr.perm, 0o555);
    assert_eq!(attr.nlink, 2);
    assert_eq!(attr.kind, NodeKind::Directory);
}

#[test]
fn timestamps_fall_back_to_epoch_start() {
    let attr = node_to_attr(1, &dir_node());
    assert_eq!(attr.mtime_secs, 0);
    assert_eq!(attr.atime_secs, 0);
    assert_eq!(attr.ctime_secs, 0);
    assert_eq!(attr.crtime_secs, 0);
    let attr = node_to_attr(1, &file_node(1));
    assert_eq!(attr.mtime_secs, 1_000_000);
    assert_eq!(attr.atime_secs, 1_000_000);
    assert_eq!(attr.ctime_secs, 500);
    assert_eq!(attr.crtime_secs, 500);
}

#[test]
fn write_always_reports_not_supported() {
    assert_eq!(write_reply(1, 0, 0), Err(FsError::NotSupported));
    assert_eq!(write_reply(42, 4096, 123), Err(FsError::NotSupported));
    assert_eq!(write_reply(u64::MAX, -1, usize::MAX), Err(FsError::NotSupported));
}

#[test]
fn getattr_of_missing_node_is_not_found() {
    assert_eq!(getattr_reply(7, &None), Err(FsError::NotFound));
    let attr: FileAttr = getattr_reply(7, &Some(dir_node())).unwrap();
    assert_eq!(attr.ino, 7);
}

#[test]
fn read_target_must_be_a_file() {
    assert_eq!(check_read_target(&None), Err(FsError::NotFound));
    assert_eq!(check_read_target(&Some(dir_node())), Err(FsError::WrongKind));
    assert_eq!(check_read_target(&Some(file_node(3))), Ok(()));
}

#[test]
fn lookup_builds_the_child_path() {
    let mut t = Inodes::with_root();
    let docs = t.get_or_push(&path(&["docs"]));
    let p = lookup_path(&t, docs.ino, "readme").unwrap();
    assert_eq!(p, path(&["docs", "readme"]));
    assert!(lookup_path(&t, 99, "readme").is_none());
}

#[test]
fn lookup_assigns_the_inode_even_when_the_node_is_missing() {
    let mut t = Inodes::with_root();
    let p = path(&["ghost"]);
    assert_eq!(lookup_reply(&mut t, &p, &None), Err(FsError::NotFound));
    // The inode stays assigned; a later successful lookup reuses it.
    let ino_before = t.get_by_path(&p).unwrap().ino;
    let attr = lookup_reply(&mut t, &p, &Some(file_node(10))).unwrap();
    assert_eq!(attr.ino, ino_before);
}

#[test]
fn readdir_lists_dot_dotdot_and_children() {
    let mut t = Inodes::with_root();
    let children = vec![
        ("a".to_string(), Some(NodeKind::Directory)),
        ("b".to_string(), Some(NodeKind::File)),
    ];
    let entries = readdir_entries(&mut t, ROOT_INO, &path(&[]), &children, 0);
    assert_eq!(entries.len(), 4);

    assert_eq!(entries[0].name, ".");
    assert_eq!(entries[0].ino, ROOT_INO);
    assert_eq!(entries[0].kind, NodeKind::Directory);
    assert_eq!(entries[1].name, "..");
    assert_eq!(entries[1].ino, ROOT_INO);
    assert_eq!(entries[1].kind, NodeKind::Directory);

    assert_eq!(entries[2].name, "a");
    assert_eq!(entries[2].kind, NodeKind::Directory);
    assert_eq!(entries[3].name, "b");
    assert_eq!(entries[3].kind, NodeKind::File);

    // Each child holds a distinct inode, distinct from the directory's.
    assert_ne!(entries[2].ino, entries[3].ino);
    assert_ne!(entries[2].ino, ROOT_INO);
    assert_ne!(entries[3].ino, ROOT_INO);

    // The inodes are stable: listing again yields the same numbers.
    let again = readdir_entries(&mut t, ROOT_INO, &path(&[]), &children, 0);
    assert_eq!(again.len(), 4);
    assert_eq!(again[2].ino, entries[2].ino);
    assert_eq!(again[3].ino, entries[3].ino);
}

#[test]
fn readdir_skips_unresolved_children_silently() {
    let mut t = Inodes::with_root();
    let children = vec![
        ("a".to_string(), Some(NodeKind::File)),
        ("broken".to_string(), None),
        ("b".to_string(), Some(NodeKind::File)),
    ];
    let entries = readdir_entries(&mut t, ROOT_INO, &path(&[]), &children, 0);
    assert_eq!(entries.len(), 4);
    assert_eq!(entries[2].name, "a");
    assert_eq!(entries[3].name, "b");
}

#[test]
fn readdir_slices_from_the_offset() {
    let mut t = Inodes::with_root();
    let children = vec![
        ("a".to_string(), Some(NodeKind::Directory)),
        ("b".to_string(), Some(NodeKind::File)),
    ];
    let tail = readdir_entries(&mut t, ROOT_INO, &path(&[]), &children, 3);
    assert_eq!(tail.len(), 1);
    assert_eq!(tail[0].name, "b");

    let none = readdir_entries(&mut t, ROOT_INO, &path(&[]), &children, 10);
    assert_eq!(none.len(), 0);
}

#[test]
fn failed_mkdir_assigns_no_inode() {
    let mut t = Inodes::with_root();
    let p = path(&["newdir"]);
    assert_eq!(mkdir_reply(&mut t, &p, &None), Err(FsError::NotFound));
    assert!(t.get_by_path(&p).is_none());
}

#[test]
fn successful_mkdir_assigns_the_inode() {
    let mut t = Inodes::with_root();
    let p = path(&["newdir"]);
    let attr = mkdir_reply(&mut t, &p, &Some(dir_node())).unwrap();
    assert_eq!(attr.kind, NodeKind::Directory);
    assert_eq!(t.get_by_path(&p).unwrap().ino, attr.ino);
}
