//! The copy-on-write publish protocol of a named root.
//!
//! One logical filesystem is published under the well-known alias
//! `"private-root:<name>"`. A flush happens in two phases: first the new
//! tree version's blocks are stored (content publish — pure puts, safe to
//! retry or lose), then the new root record is stored and the alias is
//! repointed at it (the single externally visible mutation). Loading reads
//! the alias, fetches the record block and decodes it.

use vstd::prelude::*;
use vstd::string::StringExecFns;

use crate::address::{Address, AddressView, address_of, address_wf, spec_cid_bytes, Codec};
use crate::errors::FsError;
use crate::record::{
    RootRecord, RootRecordView, lemma_record_round_trip, record_wf, spec_decode_record,
    spec_encode_record,
};
use crate::store::{SqliteBlockStore, lemma_get_after_put, model_put};

verus! {

/// The alias under which the root record of `name` is published.
pub open spec fn spec_root_alias(name: Seq<char>) -> Seq<char> {
    "private-root:"@ + name
}

/// Renders the alias of a filesystem name.
pub fn root_alias(name: &str) -> (r: String)
    ensures
        r@ == spec_root_alias(name@),
{
    let mut s = String::from_str("private-root:");
    s.append(name);
    s
}

/// The record a load of `name` resolves to: the decoded block behind the
/// root alias, or `None` when the alias, the block, or the decode fails.
pub open spec fn spec_load_root(
    blocks: Map<Seq<u8>, Seq<u8>>,
    aliases: Map<Seq<char>, Seq<u8>>,
    name: Seq<char>,
) -> Option<RootRecordView> {
    let alias = spec_root_alias(name);
    if !aliases.contains_key(alias) {
        None
    } else if !blocks.contains_key(aliases[alias]) {
        None
    } else {
        spec_decode_record(blocks[aliases[alias]])
    }
}

/// Loads the currently published root record of `name`.
///
/// `Ok(None)` reports an absent alias — the caller creates a fresh tree and
/// publishes its first record. A present alias whose record block is
/// missing is `NotFound`; a present block that is no canonical record is
/// `CorruptRecord`; both are fatal, not retried.
pub fn load_root(store: &mut SqliteBlockStore, name: &str) -> (r: Result<
    Option<RootRecord>,
    FsError,
>)
    ensures
        final(store).blocks() == old(store).blocks(),
        final(store).aliases() == old(store).aliases(),
        match r {
            Ok(Some(rec)) => record_wf(rec@) && spec_load_root(
                old(store).blocks(),
                old(store).aliases(),
                name@,
            ) == Some(rec@),
            Ok(None) => !old(store).aliases().contains_key(spec_root_alias(name@)),
            Err(e) => {
                ||| (e == FsError::NotFound && old(store).aliases().contains_key(
                    spec_root_alias(name@),
                ) && !old(store).blocks().contains_key(
                    old(store).aliases()[spec_root_alias(name@)],
                ))
                ||| (e == FsError::CorruptRecord && old(store).aliases().contains_key(
                    spec_root_alias(name@),
                ) && (spec_load_root(old(store).blocks(), old(store).aliases(), name@) is None || (
                forall|av: AddressView|
                    address_wf(av) ==> spec_cid_bytes(av) != old(store).aliases()[spec_root_alias(
                        name@,
                    )])))
                ||| e == FsError::StorageIo
            },
        },
{
    let alias = root_alias(name);
    match store.resolve_alias(alias.as_str()) {
        Ok(Some(addr)) => match store.get_block(&addr) {
            Ok(data) => match crate::record::decode_record(&data) {
                Ok(rec) => {
                    proof {
                        assert(spec_load_root(old(store).blocks(), old(store).aliases(), name@)
                            == Some(rec@));
                    }
                    Ok(Some(rec))
                },
                Err(e) => Err(e),
            },
            Err(e) => Err(e),
        },
        Ok(None) => Ok(None),
        Err(e) => Err(e),
    }
}

/// Publishes `record` as the new root of `name`: stores the canonical
/// encoding as a typed block and repoints the root alias at its address.
/// This is the alias-repoint phase of a flush; the caller has already
/// stored the tree's own blocks (content publish).
pub fn publish_root(store: &mut SqliteBlockStore, name: &str, record: &RootRecord) -> (r: Result<
    Address,
    FsError,
>)
    requires
        record_wf(record@),
    ensures
        match r {
            Ok(a) => a@ == address_of(spec_encode_record(record@), Codec::DagCbor) && address_wf(a@)
                && final(store).blocks() == model_put(
                old(store).blocks(),
                spec_encode_record(record@),
                Codec::DagCbor,
            ) && final(store).aliases() == old(store).aliases().insert(
                spec_root_alias(name@),
                spec_cid_bytes(a@),
            ),
            Err(e) => e == FsError::StorageIo && final(store).aliases() == old(store).aliases() && (
            final(store).blocks() == old(store).blocks() || final(store).blocks() == model_put(
                old(store).blocks(),
                spec_encode_record(record@),
                Codec::DagCbor,
            )),
        },
{
    let alias = root_alias(name);
    store.put_record_with_alias(alias.as_str(), record)
}

/// Publish then reopen: after a publish of `rec` under `name`, a load for
/// `name` resolves exactly to `rec` — provided no other bytes already sat
/// under the record's address (content addressing rules that collision out
/// in practice; the model cannot).
pub proof fn lemma_load_after_publish(
    blocks: Map<Seq<u8>, Seq<u8>>,
    aliases: Map<Seq<char>, Seq<u8>>,
    name: Seq<char>,
    rec: RootRecordView,
)
    requires
        record_wf(rec),
        blocks.contains_key(spec_cid_bytes(address_of(spec_encode_record(rec), Codec::DagCbor)))
            ==> blocks[spec_cid_bytes(address_of(spec_encode_record(rec), Codec::DagCbor))]
            == spec_encode_record(rec),
    ensures
        spec_load_root(
            model_put(blocks, spec_encode_record(rec), Codec::DagCbor),
            aliases.insert(
                spec_root_alias(name),
                spec_cid_bytes(address_of(spec_encode_record(rec), Codec::DagCbor)),
            ),
            name,
        ) == Some(rec),
{
    lemma_get_after_put(blocks, spec_encode_record(rec), Codec::DagCbor);
    lemma_record_round_trip(rec);
}

/// Crash safety of the two-phase flush: the content-publish phase only adds
/// blocks and never touches aliases, so if the process stops before the
/// alias repoint, a later load still resolves to the prior root record.
pub proof fn lemma_load_survives_content_publish(
    blocks: Map<Seq<u8>, Seq<u8>>,
    blocks_after: Map<Seq<u8>, Seq<u8>>,
    aliases: Map<Seq<char>, Seq<u8>>,
    name: Seq<char>,
    rec: RootRecordView,
)
    requires
        spec_load_root(blocks, aliases, name) == Some(rec),
        forall|k: Seq<u8>| #[trigger]
            blocks.contains_key(k) ==> blocks_after.contains_key(k) && blocks_after[k] == blocks[k],
    ensures
        spec_load_root(blocks_after, aliases, name) == Some(rec),
{
}

} // verus!
