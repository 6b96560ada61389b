//! The canonical byte codec of the published root record.
//!
//! A root record names the currently visible version of one logical
//! filesystem: the content address of the tree's root block and the opaque
//! revision pointer that selects the snapshot inside it. The record is
//! persisted as a single typed block, so it has a fixed canonical encoding:
//!
//! `[format version 1][codec tag][32-byte digest][revision length, u32 LE]
//! [revision bytes]`
//!
//! Decoding validates every field and is proved to invert encoding exactly.

use vstd::prelude::*;
use vstd::bytes::{spec_u32_from_le_bytes, spec_u32_to_le_bytes, u32_from_le_bytes, u32_to_le_bytes};
use vstd::bytes::lemma_auto_spec_u32_to_from_le_bytes;
use vstd::slice::{slice_subrange, slice_to_vec};

use crate::address::{Address, AddressView, Codec, address_wf};
use crate::errors::FsError;

verus! {

/// The mathematical value of a [`RootRecord`].
pub struct RootRecordView {
    pub tree_root: AddressView,
    pub revision: Seq<u8>,
}

/// The persisted pointer naming a tree snapshot: the address of the tree's
/// root block and the revision pointer of the snapshot, kept opaque.
#[derive(Clone, Debug, PartialEq, Eq)]
pub struct RootRecord {
    pub tree_root: Address,
    pub revision: Vec<u8>,
}

impl View for RootRecord {
    type V = RootRecordView;

    open spec fn view(&self) -> RootRecordView {
        RootRecordView { tree_root: self.tree_root@, revision: self.revision@ }
    }
}

/// A representable record: a full digest and a revision pointer whose length
/// fits the u32 length field.
pub open spec fn record_wf(r: RootRecordView) -> bool {
    &&& address_wf(r.tree_root)
    &&& r.revision.len() < 0x1_0000_0000
}

/// The canonical encoding of a root record.
pub open spec fn spec_encode_record(r: RootRecordView) -> Seq<u8> {
    seq![1u8, r.tree_root.codec.spec_tag()] + r.tree_root.digest
        + spec_u32_to_le_bytes(r.revision.len() as u32) + r.revision
}

/// The decode of a byte string, `None` on every string that is not the
/// canonical encoding of a well-formed record.
pub open spec fn spec_decode_record(bytes: Seq<u8>) -> Option<RootRecordView> {
    if bytes.len() < 38 {
        None
    } else if bytes[0] != 1u8 {
        None
    } else if bytes[1] != 0x55u8 && bytes[1] != 0x71u8 {
        None
    } else {
        let codec = if bytes[1] == 0x55u8 {
            Codec::Raw
        } else {
            Codec::DagCbor
        };
        let n = spec_u32_from_le_bytes(bytes.subrange(34, 38)) as int;
        if bytes.len() != 38 + n {
            None
        } else {
            Some(
                RootRecordView {
                    tree_root: AddressView { codec, digest: bytes.subrange(2, 34) },
                    revision: bytes.subrange(38, bytes.len() as int),
                },
            )
        }
    }
}

/// Decoding inverts encoding: every well-formed record is recovered exactly
/// from its canonical encoding.
pub proof fn lemma_record_round_trip(r: RootRecordView)
    requires
        record_wf(r),
    ensures
        spec_decode_record(spec_encode_record(r)) == Some(r),
{
    lemma_auto_spec_u32_to_from_le_bytes();
    let enc = spec_encode_record(r);
    assert(enc.len() == 38 + r.revision.len());
    assert(enc.subrange(34, 38) =~= spec_u32_to_le_bytes(r.revision.len() as u32));
    assert(enc.subrange(2, 34) =~= r.tree_root.digest);
    assert(enc.subrange(38, enc.len() as int) =~= r.revision);
    let d = spec_decode_record(enc);
    assert(d is Some);
    assert(d->Some_0.tree_root =~= r.tree_root);
    assert(d->Some_0.revision =~= r.revision);
}

/// Appends the bytes of a slice to a vector.
fn append_bytes(dst: &mut Vec<u8>, src: &[u8])
    ensures
        final(dst)@ == old(dst)@ + src@,
{
    let mut i: usize = 0;
    while i < src.len()
        invariant
            i <= src@.len(),
            dst@ == old(dst)@ + src@.subrange(0, i as int),
        decreases src@.len() - i,
    {
        dst.push(src[i]);
        proof {
            assert(src@.subrange(0, i + 1) == src@.subrange(0, i as int).push(src@[i as int]));
            assert(old(dst)@ + src@.subrange(0, i + 1)
                == (old(dst)@ + src@.subrange(0, i as int)).push(src@[i as int]));
        }
        i += 1;
    }
    proof {
        assert(src@.subrange(0, src@.len() as int) == src@);
    }
}

/// Renders a record in its canonical encoding.
pub fn encode_record(record: &RootRecord) -> (r: Vec<u8>)
    requires
        record_wf(record@),
    ensures
        r@ == spec_encode_record(record@),
{
    let mut out: Vec<u8> = Vec::new();
    out.push(1u8);
    out.push(record.tree_root.codec.tag());
    append_bytes(&mut out, record.tree_root.digest.as_slice());
    let mut len_bytes = u32_to_le_bytes(record.revision.len() as u32);
    out.append(&mut len_bytes);
    append_bytes(&mut out, record.revision.as_slice());
    proof {
        assert(out@ =~= spec_encode_record(record@));
    }
    out
}

/// Parses a byte string as a root record; fails with `CorruptRecord` exactly
/// on the strings that decode to nothing.
pub fn decode_record(bytes: &Vec<u8>) -> (r: Result<RootRecord, FsError>)
    ensures
        match r {
            Ok(rec) => spec_decode_record(bytes@) == Some(rec@) && record_wf(rec@),
            Err(e) => e == FsError::CorruptRecord && spec_decode_record(bytes@) is None,
        },
{
    proof {
        lemma_auto_spec_u32_to_from_le_bytes();
    }
    if bytes.len() < 38 {
        return Err(FsError::CorruptRecord);
    }
    if bytes[0] != 1u8 {
        return Err(FsError::CorruptRecord);
    }
    let codec = if bytes[1] == 0x55u8 {
        Codec::Raw
    } else if bytes[1] == 0x71u8 {
        Codec::DagCbor
    } else {
        return Err(FsError::CorruptRecord);
    };
    let n = u32_from_le_bytes(slice_subrange(bytes.as_slice(), 34, 38));
    let n_usize = n as usize;
    if bytes.len() - 38 != n_usize {
        return Err(FsError::CorruptRecord);
    }
    let digest = slice_to_vec(slice_subrange(bytes.as_slice(), 2, 34));
    let revision = slice_to_vec(slice_subrange(bytes.as_slice(), 38, bytes.len()));
    let rec = RootRecord { tree_root: Address { codec, digest }, revision };
    proof {
        assert(spec_decode_record(bytes@)->Some_0.tree_root =~= rec@.tree_root);
        assert(spec_decode_record(bytes@)->Some_0.revision =~= rec@.revision);
    }
    Ok(rec)
}

} // verus!
