use pagemgr::checksum::{hash, hash32};
use pagemgr::metacluster::Metacluster;
use pagemgr::state_block::{
    decode_head, encode_state_block, CompressionAlgorithm, Config, FreelistHead, State,
};
use pagemgr::SECTOR_SIZE;

#[test]
fn hash_known_values() {
    // FNV-1a 64-bit reference values
    assert_eq!(hash(&[]), 0xcbf29ce484222325);
    assert_eq!(hash(b"a"), 0xaf63dc4c8601ec8c);
    assert_eq!(hash(b"foobar"), 0x85944171f73967e8);
    assert_eq!(hash32(b"a"), 0x8601ec8c);
}

#[test]
fn metacluster_encode_layout() {
    let m = Metacluster { next_checksum: 0x1122334455667788, next: Some(0x0A0B), free: vec![3, 4] };
    let e = m.encode();
    assert_eq!(e.len(), SECTOR_SIZE);
    assert_eq!(&e[0..8], &[0x88, 0x77, 0x66, 0x55, 0x44, 0x33, 0x22, 0x11]);
    assert_eq!(&e[8..16], &[0x0B, 0x0A, 0, 0, 0, 0, 0, 0]);
    assert_eq!(&e[16..24], &[3, 0, 0, 0, 0, 0, 0, 0]);
    assert_eq!(&e[24..32], &[4, 0, 0, 0, 0, 0, 0, 0]);
    assert!(e[32..].iter().all(|&b| b == 0));
}

#[test]
fn metacluster_codec_round_trip() {
    let m = Metacluster { next_checksum: 77, next: Some(12), free: vec![9, 8, 7] };
    let d = Metacluster::decode(&m.encode());
    assert_eq!(d.next_checksum, 77);
    assert_eq!(d.next, Some(12));
    assert_eq!(d.free, vec![9, 8, 7]);
}

#[test]
fn metacluster_checksum_covers_active_prefix_only() {
    // two nodes differing only in their free arrays have different
    // checksums; the padding does not count
    let a = Metacluster { next_checksum: 0, next: None, free: vec![5] };
    let b = Metacluster { next_checksum: 0, next: None, free: vec![6] };
    assert_ne!(a.checksum(), b.checksum());
    let e = a.encode();
    assert_eq!(a.checksum(), hash(&e[0..24]));
}

#[test]
fn state_block_round_trip() {
    let config = Config { compression_algorithm: CompressionAlgorithm::Lz4 };
    let some = State {
        freelist_head: Some(FreelistHead { cluster: 42, checksum: 0xDEAD, counter: 17 }),
    };
    let e = encode_state_block(&config, &some);
    assert_eq!(e.len(), SECTOR_SIZE);
    assert_eq!(decode_head(&e), some.freelist_head);
    let none = State { freelist_head: None };
    assert_eq!(decode_head(&encode_state_block(&config, &none)), None);
}
