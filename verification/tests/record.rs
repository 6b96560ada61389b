use wnfs_fuse::address::{Address, Codec, address_for, cid_bytes, decode_address};
use wnfs_fuse::errors::FsError;
use wnfs_fuse::record::{RootRecord, decode_record, encode_record};

fn sample_record() -> RootRecord {
    let tree_root = address_for(&b"tree root bytes".to_vec(), Codec::DagCbor);
    RootRecord { tree_root, revision: vec![9, 8, 7, 6, 5] }
}

#[test]
fn address_is_deterministic() {
    let a1 = address_for(&b"same bytes".to_vec(), Codec::Raw);
    let a2 = address_for(&b"same bytes".to_vec(), Codec::Raw);
    assert_eq!(a1, a2);
    let a3 = address_for(&b"other bytes".to_vec(), Codec::Raw);
    assert_ne!(a1, a3);
}

#[test]
fn address_codec_distinguishes() {
    let a1 = address_for(&b"same bytes".to_vec(), Codec::Raw);
    let a2 = address_for(&b"same bytes".to_vec(), Codec::DagCbor);
    assert_eq!(a1.digest, a2.digest);
    assert_ne!(cid_bytes(&a1), cid_bytes(&a2));
}

#[test]
fn cid_bytes_layout() {
    let a = address_for(&b"abc".to_vec(), Codec::Raw);
    let key = cid_bytes(&a);
    assert_eq!(key.len(), 36);
    assert_eq!(key[0], 1);
    assert_eq!(key[1], 0x55);
    assert_eq!(key[2], 0x1e);
    assert_eq!(key[3], 0x20);
    assert_eq!(&key[4..], &a.digest[..]);
}

#[test]
fn address_round_trip() {
    let a = address_for(&b"round trip".to_vec(), Codec::DagCbor);
    let key = cid_bytes(&a);
    let back = decode_address(&key).unwrap();
    assert_eq!(a, back);
}

#[test]
fn address_decode_rejects_garbage() {
    assert_eq!(decode_address(&vec![]), Err(FsError::CorruptRecord));
    assert_eq!(decode_address(&vec![1; 35]), Err(FsError::CorruptRecord));
    let a = address_for(&b"x".to_vec(), Codec::Raw);
    let mut key = cid_bytes(&a);
    key[0] = 2;
    assert_eq!(decode_address(&key), Err(FsError::CorruptRecord));
    let mut key2 = cid_bytes(&a);
    key2[1] = 0x70;
    assert_eq!(decode_address(&key2), Err(FsError::CorruptRecord));
}

#[test]
fn record_round_trip() {
    let rec = sample_record();
    let enc = encode_record(&rec);
    let back = decode_record(&enc).unwrap();
    assert_eq!(rec, back);
}

#[test]
fn record_encoding_layout() {
    let rec = sample_record();
    let enc = encode_record(&rec);
    assert_eq!(enc.len(), 2 + 32 + 4 + 5);
    assert_eq!(enc[0], 1);
    assert_eq!(enc[1], 0x71);
    assert_eq!(&enc[2..34], &rec.tree_root.digest[..]);
    assert_eq!(&enc[34..38], &[5, 0, 0, 0]);
    assert_eq!(&enc[38..], &[9, 8, 7, 6, 5]);
}

#[test]
fn record_empty_revision() {
    let tree_root = address_for(&b"r".to_vec(), Codec::Raw);
    let rec = RootRecord { tree_root, revision: vec![] };
    let enc = encode_record(&rec);
    assert_eq!(enc.len(), 38);
    assert_eq!(decode_record(&enc).unwrap(), rec);
}

#[test]
fn record_decode_rejects_corrupt() {
    let rec = sample_record();
    let enc = encode_record(&rec);

    // Too short.
    assert_eq!(decode_record(&vec![]), Err(FsError::CorruptRecord));
    assert_eq!(decode_record(&enc[..37].to_vec()), Err(FsError::CorruptRecord));

    // Wrong format version.
    let mut bad = enc.clone();
    bad[0] = 9;
    assert_eq!(decode_record(&bad), Err(FsError::CorruptRecord));

    // Unknown codec tag.
    let mut bad = enc.clone();
    bad[1] = 0x42;
    assert_eq!(decode_record(&bad), Err(FsError::CorruptRecord));

    // Length field disagrees with the payload.
    let mut bad = enc.clone();
    bad[34] = 99;
    assert_eq!(decode_record(&bad), Err(FsError::CorruptRecord));

    // Trailing junk.
    let mut bad = enc.clone();
    bad.push(0);
    assert_eq!(decode_record(&bad), Err(FsError::CorruptRecord));
}
