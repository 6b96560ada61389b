use wnfs_fuse::address::{Codec, address_for};
use wnfs_fuse::errors::FsError;
use wnfs_fuse::record::RootRecord;
use wnfs_fuse::root::{load_root, publish_root, root_alias};
use wnfs_fuse::store::SqliteBlockStore;

fn record(tag: u8) -> RootRecord {
    let tree_root = address_for(&vec![tag; 8], Codec::DagCbor);
    RootRecord { tree_root, revision: vec![tag; 3] }
}

#[test]
fn put_then_get_returns_the_bytes() {
    let mut store = SqliteBlockStore::memory().unwrap();
    let addr = store.put_block(b"hello blocks".to_vec(), Codec::Raw).unwrap();
    let back = store.get_block(&addr).unwrap();
    assert_eq!(back, b"hello blocks".to_vec());
}

#[test]
fn put_is_idempotent() {
    let mut store = SqliteBlockStore::memory().unwrap();
    let a1 = store.put_block(b"same".to_vec(), Codec::Raw).unwrap();
    let a2 = store.put_block(b"same".to_vec(), Codec::Raw).unwrap();
    assert_eq!(a1, a2);
    assert_eq!(store.get_block(&a1).unwrap(), b"same".to_vec());
}

#[test]
fn get_of_absent_address_is_not_found() {
    let mut store = SqliteBlockStore::memory().unwrap();
    let addr = address_for(&b"never stored".to_vec(), Codec::Raw);
    assert_eq!(store.get_block(&addr), Err(FsError::NotFound));
}

#[test]
fn alias_round_trip() {
    let mut store = SqliteBlockStore::memory().unwrap();
    let addr = store.put_with_alias("name", b"aliased".to_vec(), Codec::Raw).unwrap();
    let resolved = store.resolve_alias("name").unwrap();
    assert_eq!(resolved, Some(addr));
}

#[test]
fn alias_last_write_wins() {
    let mut store = SqliteBlockStore::memory().unwrap();
    let _a1 = store.put_with_alias("name", b"first".to_vec(), Codec::Raw).unwrap();
    let a2 = store.put_with_alias("name", b"second".to_vec(), Codec::Raw).unwrap();
    assert_eq!(store.resolve_alias("name").unwrap(), Some(a2));
    assert_eq!(store.get_from_alias("name").unwrap(), Some(b"second".to_vec()));
}

#[test]
fn absent_alias_resolves_to_none() {
    let mut store = SqliteBlockStore::memory().unwrap();
    assert_eq!(store.resolve_alias("nobody").unwrap(), None);
    assert_eq!(store.get_from_alias("nobody").unwrap(), None);
}

#[test]
fn record_alias_round_trip() {
    let mut store = SqliteBlockStore::memory().unwrap();
    let rec = record(3);
    store.put_record_with_alias("root", &rec).unwrap();
    let back = store.get_record_from_alias("root").unwrap();
    assert_eq!(back, rec);
}

#[test]
fn record_from_absent_alias_is_not_found() {
    let mut store = SqliteBlockStore::memory().unwrap();
    assert_eq!(store.get_record_from_alias("root"), Err(FsError::NotFound));
}

#[test]
fn record_behind_foreign_block_is_corrupt() {
    let mut store = SqliteBlockStore::memory().unwrap();
    store.put_with_alias("root", b"not a record".to_vec(), Codec::Raw).unwrap();
    assert_eq!(store.get_record_from_alias("root"), Err(FsError::CorruptRecord));
}

#[test]
fn root_alias_prefix() {
    assert_eq!(root_alias("demo"), "private-root:demo".to_string());
}

#[test]
fn open_of_fresh_store_finds_no_root() {
    let mut store = SqliteBlockStore::memory().unwrap();
    assert_eq!(load_root(&mut store, "x").unwrap(), None);
}

#[test]
fn publish_then_reload_sees_the_new_root() {
    let mut store = SqliteBlockStore::memory().unwrap();

    // Opening a fresh store creates and publishes the initial root.
    let r0 = record(0);
    publish_root(&mut store, "x", &r0).unwrap();
    assert_eq!(load_root(&mut store, "x").unwrap(), Some(r0.clone()));

    // A mutation publishes a new version; the alias now points at it.
    let r1 = record(1);
    publish_root(&mut store, "x", &r1).unwrap();
    let reloaded = load_root(&mut store, "x").unwrap();
    assert_eq!(reloaded, Some(r1.clone()));
    assert_ne!(reloaded, Some(r0));

    // A different name is untouched.
    assert_eq!(load_root(&mut store, "y").unwrap(), None);
}

#[test]
fn skipped_alias_repoint_preserves_the_prior_root() {
    let mut store = SqliteBlockStore::memory().unwrap();
    let r0 = record(0);
    publish_root(&mut store, "x", &r0).unwrap();

    // The content-publish phase of the next flush completes: new tree
    // blocks are stored. The alias repoint is skipped (a crash between the
    // two phases).
    store.put_block(b"new tree node a".to_vec(), Codec::DagCbor).unwrap();
    store.put_block(b"new tree node b".to_vec(), Codec::Raw).unwrap();

    // A subsequent open still resolves to the prior, valid root.
    assert_eq!(load_root(&mut store, "x").unwrap(), Some(r0));
}
