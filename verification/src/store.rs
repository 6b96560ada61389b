//! The content-addressed block store and its alias table.
//!
//! The store is one local sqlite-backed file holding immutable blocks keyed
//! by their 36 content-address bytes, and a mutable name-to-address alias
//! table. The disk side is the outside `ipfs_sqlite_block_store` crate,
//! reached through trusted wrappers; everything above the wrappers is
//! verified against two model maps: the blocks the store holds and the
//! aliases it holds. Blocks are only ever inserted, never overwritten or
//! removed (the store deduplicates by address and this core never runs its
//! garbage collector); aliases are upserted, last write wins.

use vstd::prelude::*;

use crate::address::{
    Address, AddressView, Codec, address_for, address_of, address_wf, cid_bytes, decode_address,
    spec_cid_bytes,
};
use crate::errors::FsError;
use crate::record::{RootRecord, record_wf, spec_decode_record, spec_encode_record, decode_record, encode_record};

verus! {

#[verifier::external_type_specification]
#[verifier::external_body]
#[verifier::reject_recursive_types(S)]
pub struct ExDbBlockStore<S>(ipfs_sqlite_block_store::BlockStore<S>);

#[verifier::external_type_specification]
#[verifier::external_body]
pub struct ExDefaultParams(libipld::store::DefaultParams);

/// The blocks a store holds: content-address bytes to block bytes.
pub uninterp spec fn store_blocks(
    db: ipfs_sqlite_block_store::BlockStore<libipld::store::DefaultParams>,
) -> Map<Seq<u8>, Seq<u8>>;

/// The aliases a store holds: name to content-address bytes.
pub uninterp spec fn store_aliases(
    db: ipfs_sqlite_block_store::BlockStore<libipld::store::DefaultParams>,
) -> Map<Seq<char>, Seq<u8>>;

/// A handle on one open sqlite-backed block store file.
pub struct SqliteBlockStore {
    db: ipfs_sqlite_block_store::BlockStore<libipld::store::DefaultParams>,
}

/// The store a sequence of puts leaves behind: the new block is inserted
/// under its deterministic address unless that address is already taken, in
/// which case the store is unchanged.
pub open spec fn model_put(blocks: Map<Seq<u8>, Seq<u8>>, bytes: Seq<u8>, codec: Codec) -> Map<
    Seq<u8>,
    Seq<u8>,
> {
    let k = spec_cid_bytes(address_of(bytes, codec));
    if blocks.contains_key(k) {
        blocks
    } else {
        blocks.insert(k, bytes)
    }
}

impl SqliteBlockStore {
    /// The blocks this store holds.
    pub closed spec fn blocks(&self) -> Map<Seq<u8>, Seq<u8>> {
        store_blocks(self.db)
    }

    /// The aliases this store holds.
    pub closed spec fn aliases(&self) -> Map<Seq<char>, Seq<u8>> {
        store_aliases(self.db)
    }

    /// Relies on `BlockStore::open` of ipfs_sqlite_block_store: opens or
    /// creates the store file at `path`. Nothing is assumed about what an
    /// existing file holds.
    #[verifier::external_body]
    pub fn new(path: &str) -> (r: Result<SqliteBlockStore, FsError>)
    {
        match ipfs_sqlite_block_store::BlockStore::open(
            path,
            ipfs_sqlite_block_store::Config::default(),
        ) {
            Ok(db) => Ok(SqliteBlockStore { db }),
            Err(_) => Err(FsError::StorageIo),
        }
    }

    /// Relies on `BlockStore::memory` of ipfs_sqlite_block_store: a fresh
    /// in-memory store starts with no blocks and no aliases.
    #[verifier::external_body]
    pub fn memory() -> (r: Result<SqliteBlockStore, FsError>)
        ensures
            match r {
                Ok(s) => s.blocks() == Map::<Seq<u8>, Seq<u8>>::empty() && s.aliases()
                    == Map::<Seq<char>, Seq<u8>>::empty(),
                Err(e) => e == FsError::StorageIo,
            },
    {
        match ipfs_sqlite_block_store::BlockStore::memory(
            ipfs_sqlite_block_store::Config::default(),
        ) {
            Ok(db) => Ok(SqliteBlockStore { db }),
            Err(_) => Err(FsError::StorageIo),
        }
    }

    /// Relies on `BlockStore::put_blocks` (one block): inserts the block
    /// under its cid bytes only if that key is absent, leaves aliases
    /// untouched, and changes nothing on failure (the transaction rolls
    /// back). The key must be a canonical address encoding: the cid parser
    /// reads a prefix of the slice and re-encodes canonically, so on any
    /// other key the store would file the block elsewhere.
    #[verifier::external_body]
    fn db_put(&mut self, key: &Vec<u8>, data: Vec<u8>) -> (r: Result<(), FsError>)
        requires
            exists|av: AddressView| address_wf(av) && spec_cid_bytes(av) == key@,
        ensures
            store_aliases(final(self).db) == store_aliases(old(self).db),
            match r {
                Ok(()) => store_blocks(final(self).db) == (if store_blocks(old(self).db).contains_key(key@) {
                    store_blocks(old(self).db)
                } else {
                    store_blocks(old(self).db).insert(key@, data@)
                }),
                Err(e) => e == FsError::StorageIo && store_blocks(final(self).db) == store_blocks(old(self).db),
            },
    {
        let cid = match libipld::Cid::try_from(key.as_slice()) {
            Ok(c) => c,
            Err(_) => return Err(FsError::StorageIo),
        };
        let block = match libipld::Block::<libipld::store::DefaultParams>::new(cid, data) {
            Ok(b) => b,
            Err(_) => return Err(FsError::StorageIo),
        };
        self.db.put_blocks(vec![block], None).map_err(|_| FsError::StorageIo)
    }

    /// Relies on `BlockStore::get_block`: returns the block stored under the
    /// given cid bytes, or `None` if that key is absent; the store is not
    /// changed. The key must be a canonical address encoding (see
    /// [`Self::db_put`]).
    #[verifier::external_body]
    fn db_get(&mut self, key: &Vec<u8>) -> (r: Result<Option<Vec<u8>>, FsError>)
        requires
            exists|av: AddressView| address_wf(av) && spec_cid_bytes(av) == key@,
        ensures
            store_blocks(final(self).db) == store_blocks(old(self).db),
            store_aliases(final(self).db) == store_aliases(old(self).db),
            match r {
                Ok(Some(data)) => store_blocks(old(self).db).contains_key(key@) && data@
                    == store_blocks(old(self).db)[key@],
                Ok(None) => !store_blocks(old(self).db).contains_key(key@),
                Err(e) => e == FsError::StorageIo,
            },
    {
        let cid = match libipld::Cid::try_from(key.as_slice()) {
            Ok(c) => c,
            Err(_) => return Err(FsError::StorageIo),
        };
        self.db.get_block(&cid).map_err(|_| FsError::StorageIo)
    }

    /// Relies on `BlockStore::alias` with a target: upserts the alias to the
    /// given cid bytes (`REPLACE INTO`, last write wins); blocks are
    /// untouched; nothing changes on failure. The key must be a canonical
    /// address encoding (see [`Self::db_put`]).
    #[verifier::external_body]
    fn db_alias_set(&mut self, name: &str, key: &Vec<u8>) -> (r: Result<(), FsError>)
        requires
            exists|av: AddressView| address_wf(av) && spec_cid_bytes(av) == key@,
        ensures
            store_blocks(final(self).db) == store_blocks(old(self).db),
            match r {
                Ok(()) => store_aliases(final(self).db) == store_aliases(old(self).db).insert(name@, key@),
                Err(e) => e == FsError::StorageIo && store_aliases(final(self).db) == store_aliases(old(self).db),
            },
    {
        let cid = match libipld::Cid::try_from(key.as_slice()) {
            Ok(c) => c,
            Err(_) => return Err(FsError::StorageIo),
        };
        self.db.alias(name.as_bytes(), Some(&cid)).map_err(|_| FsError::StorageIo)
    }

    /// Relies on `BlockStore::resolve`: returns the cid bytes the alias
    /// points at, or `None` if the alias is absent; the store is not
    /// changed.
    #[verifier::external_body]
    fn db_resolve(&mut self, name: &str) -> (r: Result<Option<Vec<u8>>, FsError>)
        ensures
            store_blocks(final(self).db) == store_blocks(old(self).db),
            store_aliases(final(self).db) == store_aliases(old(self).db),
            match r {
                Ok(Some(key)) => store_aliases(old(self).db).contains_key(name@) && key@
                    == store_aliases(old(self).db)[name@],
                Ok(None) => !store_aliases(old(self).db).contains_key(name@),
                Err(e) => e == FsError::StorageIo,
            },
    {
        match self.db.resolve(name.as_bytes()) {
            Ok(Some(cid)) => Ok(Some(cid.to_bytes())),
            Ok(None) => Ok(None),
            Err(_) => Err(FsError::StorageIo),
        }
    }

    /// Stores a block under its deterministic content address.
    ///
    /// Idempotent and deduplicating: a block whose address is already
    /// present leaves the store unchanged, and the same bytes and codec
    /// always return the same address.
    pub fn put_block(&mut self, bytes: Vec<u8>, codec: Codec) -> (r: Result<Address, FsError>)
        ensures
            final(self).aliases() == old(self).aliases(),
            match r {
                Ok(a) => a@ == address_of(bytes@, codec) && address_wf(a@) && final(self).blocks()
                    == model_put(old(self).blocks(), bytes@, codec),
                Err(e) => e == FsError::StorageIo && final(self).blocks() == old(self).blocks(),
            },
    {
        let addr = address_for(&bytes, codec);
        let key = cid_bytes(&addr);
        match self.db_put(&key, bytes) {
            Ok(()) => Ok(addr),
            Err(e) => Err(e),
        }
    }

    /// Fetches the block stored under an address; fails with `NotFound` if
    /// the address is absent.
    pub fn get_block(&mut self, addr: &Address) -> (r: Result<Vec<u8>, FsError>)
        requires
            address_wf(addr@),
        ensures
            final(self).blocks() == old(self).blocks(),
            final(self).aliases() == old(self).aliases(),
            match r {
                Ok(data) => old(self).blocks().contains_key(spec_cid_bytes(addr@)) && data@ == old(
                    self,
                ).blocks()[spec_cid_bytes(addr@)],
                Err(e) => (e == FsError::NotFound && !old(self).blocks().contains_key(
                    spec_cid_bytes(addr@),
                )) || e == FsError::StorageIo,
            },
    {
        let key = cid_bytes(addr);
        match self.db_get(&key) {
            Ok(Some(data)) => Ok(data),
            Ok(None) => Err(FsError::NotFound),
            Err(e) => Err(e),
        }
    }

    /// Stores a block and points the alias at its address, in that order.
    pub fn put_with_alias(&mut self, name: &str, blob: Vec<u8>, codec: Codec) -> (r: Result<
        Address,
        FsError,
    >)
        ensures
            match r {
                Ok(a) => a@ == address_of(blob@, codec) && address_wf(a@) && final(self).blocks()
                    == model_put(old(self).blocks(), blob@, codec) && final(self).aliases() == old(
                    self,
                ).aliases().insert(name@, spec_cid_bytes(a@)),
                Err(e) => e == FsError::StorageIo && final(self).aliases() == old(self).aliases()
                    && (final(self).blocks() == old(self).blocks() || final(self).blocks()
                    == model_put(old(self).blocks(), blob@, codec)),
            },
    {
        let addr = match self.put_block(blob, codec) {
            Ok(a) => a,
            Err(e) => {
                return Err(e);
            },
        };
        let key = cid_bytes(&addr);
        match self.db_alias_set(name, &key) {
            Ok(()) => Ok(addr),
            Err(e) => Err(e),
        }
    }

    /// Resolves an alias to the address it points at; `None` if the alias
    /// is absent, `CorruptRecord` if it points outside the address format
    /// this store writes.
    pub fn resolve_alias(&mut self, name: &str) -> (r: Result<Option<Address>, FsError>)
        ensures
            final(self).blocks() == old(self).blocks(),
            final(self).aliases() == old(self).aliases(),
            match r {
                Ok(Some(a)) => address_wf(a@) && old(self).aliases().contains_key(name@)
                    && spec_cid_bytes(a@) == old(self).aliases()[name@],
                Ok(None) => !old(self).aliases().contains_key(name@),
                Err(e) => (e == FsError::CorruptRecord && old(self).aliases().contains_key(name@)
                    && (forall|av: AddressView|
                    address_wf(av) ==> spec_cid_bytes(av) != old(self).aliases()[name@])) || e
                    == FsError::StorageIo,
            },
    {
        match self.db_resolve(name) {
            Ok(Some(key)) => match decode_address(&key) {
                Ok(a) => Ok(Some(a)),
                Err(e) => Err(e),
            },
            Ok(None) => Ok(None),
            Err(e) => Err(e),
        }
    }

    /// Fetches the block an alias points at; `None` if the alias is absent
    /// or the addressed block is missing, `CorruptRecord` if the alias
    /// points outside the address format this store writes.
    pub fn get_from_alias(&mut self, name: &str) -> (r: Result<Option<Vec<u8>>, FsError>)
        ensures
            final(self).blocks() == old(self).blocks(),
            final(self).aliases() == old(self).aliases(),
            match r {
                Ok(Some(data)) => old(self).aliases().contains_key(name@) && old(
                    self,
                ).blocks().contains_key(old(self).aliases()[name@]) && data@ == old(
                    self,
                ).blocks()[old(self).aliases()[name@]],
                Ok(None) => !old(self).aliases().contains_key(name@) || !old(
                    self,
                ).blocks().contains_key(old(self).aliases()[name@]),
                Err(e) => (e == FsError::CorruptRecord && old(self).aliases().contains_key(name@)
                    && (forall|av: AddressView|
                    address_wf(av) ==> spec_cid_bytes(av) != old(self).aliases()[name@])) || e
                    == FsError::StorageIo,
            },
    {
        match self.resolve_alias(name) {
            Ok(Some(addr)) => {
                let key = cid_bytes(&addr);
                match self.db_get(&key) {
                    Ok(found) => Ok(found),
                    Err(e) => Err(e),
                }
            },
            Ok(None) => Ok(None),
            Err(e) => Err(e),
        }
    }

    /// Stores a root record in its canonical encoding and points the alias
    /// at it: the externally visible step of a publish.
    pub fn put_record_with_alias(&mut self, name: &str, record: &RootRecord) -> (r: Result<
        Address,
        FsError,
    >)
        requires
            record_wf(record@),
        ensures
            match r {
                Ok(a) => a@ == address_of(spec_encode_record(record@), Codec::DagCbor)
                    && address_wf(a@) && final(self).blocks() == model_put(
                    old(self).blocks(),
                    spec_encode_record(record@),
                    Codec::DagCbor,
                ) && final(self).aliases() == old(self).aliases().insert(
                    name@,
                    spec_cid_bytes(a@),
                ),
                Err(e) => e == FsError::StorageIo && final(self).aliases() == old(self).aliases()
                    && (final(self).blocks() == old(self).blocks() || final(self).blocks()
                    == model_put(old(self).blocks(), spec_encode_record(record@), Codec::DagCbor)),
            },
    {
        let enc = encode_record(record);
        self.put_with_alias(name, enc, Codec::DagCbor)
    }

    /// Fetches and decodes the root record an alias points at. `NotFound`
    /// when the alias or the addressed block is absent, `CorruptRecord`
    /// when the block is present but is no canonical record (or the alias
    /// points outside the address format this store writes).
    pub fn get_record_from_alias(&mut self, name: &str) -> (r: Result<RootRecord, FsError>)
        ensures
            final(self).blocks() == old(self).blocks(),
            final(self).aliases() == old(self).aliases(),
            match r {
                Ok(rec) => record_wf(rec@) && old(self).aliases().contains_key(name@) && old(
                    self,
                ).blocks().contains_key(old(self).aliases()[name@]) && spec_decode_record(
                    old(self).blocks()[old(self).aliases()[name@]],
                ) == Some(rec@),
                Err(e) => (e == FsError::NotFound && (!old(self).aliases().contains_key(name@)
                    || !old(self).blocks().contains_key(old(self).aliases()[name@]))) || (e
                    == FsError::CorruptRecord && old(self).aliases().contains_key(name@) && ((old(
                    self,
                ).blocks().contains_key(old(self).aliases()[name@]) && spec_decode_record(
                    old(self).blocks()[old(self).aliases()[name@]],
                ) is None) || (forall|av: AddressView|
                    address_wf(av) ==> spec_cid_bytes(av) != old(self).aliases()[name@]))) || e
                    == FsError::StorageIo,
            },
    {
        match self.resolve_alias(name) {
            Ok(Some(addr)) => match self.get_block(&addr) {
                Ok(data) => decode_record(&data),
                Err(e) => Err(e),
            },
            Ok(None) => Err(FsError::NotFound),
            Err(e) => Err(e),
        }
    }
}

/// `put` is idempotent: identical bytes and codec always yield the
/// identical address, and a second put of the same block leaves the store
/// exactly as the first left it, holding one physical copy under that
/// address.
pub proof fn lemma_put_idempotent(blocks: Map<Seq<u8>, Seq<u8>>, bytes: Seq<u8>, codec: Codec)
    ensures
        model_put(model_put(blocks, bytes, codec), bytes, codec) == model_put(blocks, bytes, codec),
{
}

/// A block read back under the address its put returned is the block that
/// was put, provided no other bytes already sat under that address (content
/// addressing makes that collision impossible in practice; the model cannot
/// rule it out).
pub proof fn lemma_get_after_put(blocks: Map<Seq<u8>, Seq<u8>>, bytes: Seq<u8>, codec: Codec)
    requires
        blocks.contains_key(spec_cid_bytes(address_of(bytes, codec))) ==> blocks[spec_cid_bytes(
            address_of(bytes, codec),
        )] == bytes,
    ensures
        model_put(blocks, bytes, codec).contains_key(spec_cid_bytes(address_of(bytes, codec))),
        model_put(blocks, bytes, codec)[spec_cid_bytes(address_of(bytes, codec))] == bytes,
{
}

/// Alias round trip: after pointing an alias at an address, resolving the
/// alias yields exactly that address.
pub proof fn lemma_alias_round_trip(
    aliases: Map<Seq<char>, Seq<u8>>,
    name: Seq<char>,
    key: Seq<u8>,
)
    ensures
        aliases.insert(name, key).contains_key(name),
        aliases.insert(name, key)[name] == key,
{
}

/// A put never disturbs what the store already holds: every block present
/// before is present, unchanged, after.
pub proof fn lemma_put_extends(blocks: Map<Seq<u8>, Seq<u8>>, bytes: Seq<u8>, codec: Codec)
    ensures
        forall|k: Seq<u8>|
            blocks.contains_key(k) ==> model_put(blocks, bytes, codec).contains_key(k) && model_put(
                blocks,
                bytes,
                codec,
            )[k] == blocks[k],
{
}

} // verus!
