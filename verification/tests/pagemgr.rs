use pagemgr::checksum::hash32;
use pagemgr::manager::Manager;
use pagemgr::metacluster::Metacluster;
use pagemgr::page::{Error, Pointer};
use pagemgr::state_block::{
    encode_state_block, CompressionAlgorithm, Config, FreelistHead, State,
};
use pagemgr::store::SectorStore;
use pagemgr::SECTOR_SIZE;

const STATE_ADDR: u64 = 9000;

fn mk_manager(alg: CompressionAlgorithm, clusters: &[u64]) -> Manager {
    let mut store = SectorStore::new();
    let config = Config { compression_algorithm: alg };
    let sb = encode_state_block(&config, &State { freelist_head: None });
    store.write(STATE_ADDR, sb);
    let mut m = Manager::open(store, config, STATE_ADDR).unwrap();
    for &c in clusters.iter().rev() {
        m.freelist_push(c);
    }
    m
}

fn noise(seed: u64) -> Vec<u8> {
    let mut x = seed.wrapping_mul(6364136223846793005).wrapping_add(1442695040888963407);
    let mut v = Vec::with_capacity(SECTOR_SIZE);
    for _ in 0..SECTOR_SIZE {
        x = x.wrapping_mul(6364136223846793005).wrapping_add(1442695040888963407);
        v.push((x >> 33) as u8);
    }
    v
}

#[test]
fn write_read_identity_no_compression() {
    let mut m = mk_manager(CompressionAlgorithm::Identity, &[1, 2, 3]);
    let buf = vec![0xAAu8; SECTOR_SIZE];
    let p = m.alloc_page(&buf).unwrap();
    assert_eq!(p, Pointer { cluster: 1, offset: None, checksum: hash32(&buf) });
    assert_eq!(m.read(p).unwrap(), buf);
    // the freelist is now {2, 3}
    let p2 = m.alloc_page(&vec![0xBBu8; SECTOR_SIZE]).unwrap();
    let p3 = m.alloc_page(&vec![0xCCu8; SECTOR_SIZE]).unwrap();
    assert_eq!(p2.cluster, 2);
    assert_eq!(p3.cluster, 3);
    assert_eq!(m.alloc_page(&vec![0xDDu8; SECTOR_SIZE]), Err(Error::OutOfClusters));
}

#[test]
fn compression_packing() {
    let mut m = mk_manager(CompressionAlgorithm::Lz4, &[10, 11]);
    let a = vec![0x00u8; SECTOR_SIZE];
    let b = vec![0x01u8; SECTOR_SIZE];
    let pa = m.alloc_page(&a).unwrap();
    assert_eq!(pa.cluster, 10);
    assert_eq!(pa.offset, Some(0));
    let pb = m.alloc_page(&b).unwrap();
    assert_eq!(pb.cluster, 10);
    assert_eq!(pb.offset, Some(1));
    // both pages read back despite the rewrite of cluster 10
    assert_eq!(m.read(pa).unwrap(), a);
    assert_eq!(m.read(pb).unwrap(), b);
    // the freelist still holds {11}: an incompressible page consumes it
    let pc = m.alloc_page(&noise(7)).unwrap();
    assert_eq!(pc.cluster, 11);
}

#[test]
fn spill_on_incompressibility() {
    let mut m = mk_manager(CompressionAlgorithm::Lz4, &[20, 21]);
    let a = noise(1);
    let p = m.alloc_page(&a).unwrap();
    assert_eq!(p.cluster, 20);
    assert_eq!(p.offset, None);
    assert!(m.last_cluster.is_none());
    assert_eq!(m.read(p).unwrap(), a);
    let b = noise(2);
    let p2 = m.alloc_page(&b).unwrap();
    assert_eq!(p2.cluster, 21);
    assert_eq!(p2.offset, None);
}

#[test]
fn freelist_exhaustion() {
    let mut m = mk_manager(CompressionAlgorithm::Identity, &[7]);
    let p = m.alloc_page(&vec![0x11u8; SECTOR_SIZE]).unwrap();
    assert_eq!(p.cluster, 7);
    assert_eq!(m.alloc_page(&vec![0x22u8; SECTOR_SIZE]), Err(Error::OutOfClusters));
}

#[test]
fn metacluster_traversal() {
    let mut store = SectorStore::new();
    let m200 = Metacluster { next_checksum: 0, next: None, free: vec![300, 301] };
    let c200 = m200.checksum();
    store.write(200, m200.encode());
    let m100 = Metacluster { next_checksum: c200, next: Some(200), free: vec![] };
    let c100 = m100.checksum();
    store.write(100, m100.encode());
    let config = Config { compression_algorithm: CompressionAlgorithm::Identity };
    let sb = encode_state_block(
        &config,
        &State {
            freelist_head: Some(FreelistHead { cluster: 100, checksum: c100, counter: 0 }),
        },
    );
    store.write(STATE_ADDR, sb);
    let mut m = Manager::open(store, config, STATE_ADDR).unwrap();
    let p = m.alloc_page(&vec![0x33u8; SECTOR_SIZE]).unwrap();
    // the exhausted head itself is recycled as the allocation
    assert_eq!(p.cluster, 100);
    let fh = m.state.freelist_head.unwrap();
    assert_eq!(fh.cluster, 200);
    assert_eq!(fh.counter, 2);
    assert_eq!(m.head_metacluster.free, vec![300, 301]);
}

#[test]
fn metacluster_corruption_detected() {
    let mut store = SectorStore::new();
    let m200 = Metacluster { next_checksum: 0, next: None, free: vec![300, 301] };
    let c200 = m200.checksum();
    store.write(200, m200.encode());
    let m100 = Metacluster { next_checksum: c200, next: Some(200), free: vec![] };
    let c100 = m100.checksum();
    store.write(100, m100.encode());
    let config = Config { compression_algorithm: CompressionAlgorithm::Identity };
    let sb = encode_state_block(
        &config,
        &State {
            freelist_head: Some(FreelistHead { cluster: 100, checksum: c100, counter: 0 }),
        },
    );
    store.write(STATE_ADDR, sb);
    let mut m = Manager::open(store, config, STATE_ADDR).unwrap();
    // corrupt the next metacluster's active prefix
    let mut sector = m.store.read(200).unwrap().clone();
    sector[16] ^= 0xFF;
    m.store.write(200, sector);
    match m.alloc_page(&vec![0x44u8; SECTOR_SIZE]) {
        Err(Error::MetaclusterChecksumMismatch { cluster, expected, found }) => {
            assert_eq!(cluster, 200);
            assert_eq!(expected, c200);
            assert_ne!(found, expected);
        }
        other => panic!("expected a metacluster checksum mismatch, got {:?}", other),
    }
}

#[test]
fn corruption_detection() {
    let mut m = mk_manager(CompressionAlgorithm::Identity, &[5]);
    let buf = vec![0x55u8; SECTOR_SIZE];
    let p = m.alloc_page(&buf).unwrap();
    assert_eq!(p.cluster, 5);
    // flip one byte of the stored sector
    let mut sector = m.store.read(5).unwrap().clone();
    sector[17] ^= 0x01;
    m.store.write(5, sector);
    match m.read(p) {
        Err(Error::PageChecksumMismatch { page, found }) => {
            assert_eq!(page, p);
            assert_ne!(found, p.checksum);
        }
        other => panic!("expected a page checksum mismatch, got {:?}", other),
    }
}

#[test]
fn dedup_idempotence() {
    let mut m = mk_manager(CompressionAlgorithm::Identity, &[1, 2]);
    let buf = vec![0x66u8; SECTOR_SIZE];
    let p1 = m.alloc_page(&buf).unwrap();
    let p2 = m.alloc_page(&buf).unwrap();
    assert_eq!(p1.cluster, p2.cluster);
    assert_eq!(p1.offset, p2.offset);
    // the duplicate consumed nothing: cluster 2 is still free
    let p3 = m.alloc_page(&vec![0x77u8; SECTOR_SIZE]).unwrap();
    assert_eq!(p3.cluster, 2);
}

#[test]
fn freelist_round_trip_mixed_ops() {
    let mut m = mk_manager(CompressionAlgorithm::Identity, &[31, 32, 33]);
    let buf = vec![0x88u8; SECTOR_SIZE];
    let p = m.alloc_page(&buf).unwrap();
    assert_eq!(p.cluster, 31);
    m.free(p);
    // the freed cluster is available again, last in first out
    let q = m.alloc_page(&vec![0x99u8; SECTOR_SIZE]).unwrap();
    assert_eq!(q.cluster, 31);
}

#[test]
fn freelist_chain_overflow_and_drain() {
    // push enough clusters to retire a full head into the chain, then
    // drain everything back out
    let mut m = mk_manager(CompressionAlgorithm::Identity, &[]);
    let n: u64 = 70;
    for c in 1..=n {
        m.freelist_push(1000 + c);
    }
    let mut got = Vec::new();
    loop {
        match m.freelist_pop() {
            Ok(c) => got.push(c),
            Err(Error::OutOfClusters) => break,
            Err(e) => panic!("unexpected error {:?}", e),
        }
    }
    let mut want: Vec<u64> = (1..=n).map(|c| 1000 + c).collect();
    got.sort();
    want.sort();
    assert_eq!(got, want);
}

#[test]
fn read_missing_cluster_is_disk_error() {
    let m = mk_manager(CompressionAlgorithm::Identity, &[]);
    let p = Pointer { cluster: 42, offset: None, checksum: 0 };
    assert_eq!(m.read(p), Err(Error::Disk { cluster: 42 }));
}

#[test]
fn read_invalid_compression() {
    let mut m = mk_manager(CompressionAlgorithm::Lz4, &[]);
    // an all-zero sector frames an empty stream: no page can come of it
    m.store.write(60, vec![0u8; SECTOR_SIZE]);
    let p = Pointer { cluster: 60, offset: Some(0), checksum: 0 };
    assert_eq!(m.read(p), Err(Error::InvalidCompression { cluster: 60 }));
}

#[test]
fn read_offset_past_stream_end() {
    let mut m = mk_manager(CompressionAlgorithm::Lz4, &[10]);
    let a = vec![0u8; SECTOR_SIZE];
    let p = m.alloc_page(&a).unwrap();
    assert_eq!(p.offset, Some(0));
    // the stream holds one page; any later offset is invalid
    let q = Pointer { cluster: 10, offset: Some(7), checksum: p.checksum };
    assert_eq!(m.read(q), Err(Error::InvalidCompression { cluster: 10 }));
}
