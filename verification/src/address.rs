//! Deterministic content addressing of blocks.
//!
//! The address of a block is a pure function of its bytes and its codec tag:
//! a fixed format version, the codec tag, and the 32-byte blake3 digest of
//! the bytes. On the wire (and as the key of the disk store) an address is
//! the 36-byte sequence `[version, codec tag, hash code, hash length,
//! digest...]`.

use vstd::prelude::*;
use vstd::slice::{slice_subrange, slice_to_vec};
use libipld::multihash::MultihashDigest;

use crate::errors::FsError;

verus! {

/// The codecs this store writes: raw bytes, or the canonical structured
/// encoding used for typed records.
#[derive(Clone, Copy, Debug, PartialEq, Eq, Structural)]
pub enum Codec {
    Raw,
    DagCbor,
}

impl Codec {
    /// The numeric tag of the codec, as the multicodec table assigns it.
    pub open spec fn spec_tag(self) -> u8 {
        match self {
            Codec::Raw => 0x55,
            Codec::DagCbor => 0x71,
        }
    }

    pub fn tag(self) -> (t: u8)
        ensures
            t == self.spec_tag(),
    {
        match self {
            Codec::Raw => 0x55,
            Codec::DagCbor => 0x71,
        }
    }
}

/// The 32-byte digest that the blake3 hash assigns to a byte string.
pub uninterp spec fn blake3_of(bytes: Seq<u8>) -> Seq<u8>;

/// Relies on multihash's `Code::Blake3_256.digest`: a 32-byte digest that
/// depends on the input bytes alone.
#[verifier::external_body]
fn blake3_digest(bytes: &Vec<u8>) -> (r: Vec<u8>)
    ensures
        r@ == blake3_of(bytes@),
        r@.len() == 32,
{
    libipld::multihash::Code::Blake3_256.digest(bytes.as_slice()).digest().to_vec()
}

/// The mathematical value of an [`Address`].
pub struct AddressView {
    pub codec: Codec,
    pub digest: Seq<u8>,
}

/// A content address: the codec of the block and the blake3 digest of its
/// bytes.
#[derive(Clone, Debug, PartialEq, Eq)]
pub struct Address {
    pub codec: Codec,
    pub digest: Vec<u8>,
}

impl View for Address {
    type V = AddressView;

    open spec fn view(&self) -> AddressView {
        AddressView { codec: self.codec, digest: self.digest@ }
    }
}

/// A well-formed address carries a full 32-byte digest.
pub open spec fn address_wf(a: AddressView) -> bool {
    a.digest.len() == 32
}

/// The address that `bytes` under `codec` deterministically receive.
pub open spec fn address_of(bytes: Seq<u8>, codec: Codec) -> AddressView {
    AddressView { codec, digest: blake3_of(bytes) }
}

/// The 36 key bytes of an address: format version 1, the codec tag, the
/// blake3 multihash header (code `0x1e`, length 32), then the digest.
pub open spec fn spec_cid_bytes(a: AddressView) -> Seq<u8> {
    seq![1u8, a.codec.spec_tag(), 0x1eu8, 0x20u8] + a.digest
}

/// Computes the deterministic address of a block.
pub fn address_for(bytes: &Vec<u8>, codec: Codec) -> (a: Address)
    ensures
        a@ == address_of(bytes@, codec),
        address_wf(a@),
{
    Address { codec, digest: blake3_digest(bytes) }
}

/// Renders an address as its 36 key bytes.
pub fn cid_bytes(a: &Address) -> (r: Vec<u8>)
    requires
        address_wf(a@),
    ensures
        r@ == spec_cid_bytes(a@),
{
    let mut r: Vec<u8> = Vec::new();
    r.push(1u8);
    r.push(a.codec.tag());
    r.push(0x1eu8);
    r.push(0x20u8);
    let mut i: usize = 0;
    while i < a.digest.len()
        invariant
            i <= a.digest@.len(),
            a.digest@.len() == 32,
            r@ == seq![1u8, a@.codec.spec_tag(), 0x1eu8, 0x20u8] + a.digest@.subrange(0, i as int),
        decreases a.digest@.len() - i,
    {
        r.push(a.digest[i]);
        proof {
            assert(a.digest@.subrange(0, i + 1) == a.digest@.subrange(0, i as int).push(a.digest@[i as int]));
        }
        i += 1;
    }
    proof {
        assert(a.digest@.subrange(0, a.digest@.len() as int) == a.digest@);
    }
    r
}

/// Parses 36 key bytes back into an address; fails with `CorruptRecord` on
/// any byte string that no well-formed address renders to.
pub fn decode_address(bytes: &Vec<u8>) -> (r: Result<Address, FsError>)
    ensures
        match r {
            Ok(a) => address_wf(a@) && spec_cid_bytes(a@) == bytes@,
            Err(e) => e == FsError::CorruptRecord
                && (forall|a: AddressView| address_wf(a) ==> spec_cid_bytes(a) != bytes@),
        },
{
    if bytes.len() != 36 {
        return Err(FsError::CorruptRecord);
    }
    if bytes[0] != 1u8 {
        return Err(FsError::CorruptRecord);
    }
    let codec = if bytes[1] == 0x55u8 {
        Codec::Raw
    } else if bytes[1] == 0x71u8 {
        Codec::DagCbor
    } else {
        return Err(FsError::CorruptRecord);
    };
    if bytes[2] != 0x1eu8 || bytes[3] != 0x20u8 {
        return Err(FsError::CorruptRecord);
    }
    let digest = slice_to_vec(slice_subrange(bytes.as_slice(), 4, 36));
    let a = Address { codec, digest };
    proof {
        assert(spec_cid_bytes(a@) =~= bytes@);
    }
    Ok(a)
}

} // verus!
