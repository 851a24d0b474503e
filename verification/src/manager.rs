//! The page manager: allocation, deallocation, packing, deduplication
//! and checksum verification over a pool of sectors.
//!
//! In a threaded deployment a single lock serializes freelist
//! mutation and an atomic slot hands the packing state between
//! threads; those disciplines reduce every operation to a plain call
//! on one owned manager, which is exactly what this type is.

use vstd::prelude::*;
use vstd::slice::{slice_subrange, slice_to_vec};
use crate::checksum::{hash, hash32, hash_bytes, low32};
use crate::compress::{cluster_stream, compress_page, decompress_cluster, framed, lz4_of};
use crate::dedup::Table;
use crate::metacluster::{checksum_of, encoding_of, stored_checksum, Metacluster};
use crate::page::{Error, Pointer};
use crate::state_block::{
    decode_head, decoded_head, encode_state_block, state_block_bytes, CompressionAlgorithm,
    Config, FreelistHead, State,
};
use crate::store::SectorStore;
use crate::{CLUSTER_CAPACITY, META_CAPACITY, SECTOR_SIZE};

verus! {

/// The cluster currently being packed: its pointer and its content
/// kept uncompressed, so appending a page needs no decompression.
pub struct ClusterState {
    /// The pointer to the cluster.
    pub cluster: u64,
    /// The cluster's pages, uncompressed and concatenated.
    pub uncompressed: Vec<u8>,
}

/// The page manager.
pub struct Manager {
    /// The sector image of the cached device.
    pub store: SectorStore,
    /// The configuration part of the state block; fixed after `open`.
    pub config: Config,
    /// Where the state block lives, from the device header.
    pub state_block_address: u64,
    /// The mutable state as stored in the state block.
    pub state: State,
    /// The decoded head metacluster of the freelist.  Meaningful only
    /// while `state.freelist_head` is present.
    pub head_metacluster: Metacluster,
    /// The most recently allocated compressed cluster, still accepting
    /// appended pages.
    pub last_cluster: Option<ClusterState>,
    /// The deduplication table.
    pub dedup_table: Table,
}

/// What one freelist pop does, as a function of the state it starts
/// from: its result, the head metacluster and state-block descriptor it
/// leaves, and whether it flushes the state block.
pub ghost struct PopView {
    /// The popped cluster, or the error.
    pub result: Result<u64, Error>,
    /// The head metacluster's next-checksum afterwards.
    pub head_next_checksum: u64,
    /// The head metacluster's next pointer afterwards (0 for none).
    pub head_next_ptr: u64,
    /// The head metacluster's free array afterwards.
    pub head_free: Seq<u64>,
    /// The state-block freelist descriptor afterwards.
    pub freelist_head: Option<FreelistHead>,
    /// Whether the state block is flushed.
    pub flushed: bool,
}

/// What one freelist push does, as a function of the starting state
/// and the pushed cluster.
pub ghost struct PushView {
    /// The head metacluster's next-checksum afterwards.
    pub head_next_checksum: u64,
    /// The head metacluster's next pointer afterwards (0 for none).
    pub head_next_ptr: u64,
    /// The head metacluster's free array afterwards.
    pub head_free: Seq<u64>,
    /// The state-block freelist descriptor afterwards.
    pub freelist_head: Option<FreelistHead>,
    /// Whether the full old head is retired to disk and the pushed
    /// cluster written as a fresh head metacluster.
    pub wrote_meta: bool,
    /// The cluster the retired head is written to (when `wrote_meta`).
    pub retired_cluster: u64,
    /// The sector written there: the full old head's encoding.
    pub retired_encoding: Seq<u8>,
}

impl Manager {
    /// The packing slot as plain values: cluster and uncompressed bytes.
    pub open spec fn last_view(self) -> Option<(u64, Seq<u8>)> {
        match self.last_cluster {
            Some(cs) => Some((cs.cluster, cs.uncompressed@)),
            None => None,
        }
    }

    /// Well-formedness.
    ///
    /// The store holds whole sectors; the in-memory head metacluster
    /// agrees with the state-block descriptor (the counter counts its
    /// free array, the checksum hashes its active prefix); and the
    /// packing slot, when occupied, holds whole pages whose framed
    /// compressed stream is what its cluster stores.
    pub open spec fn wf(self) -> bool {
        &&& self.store.wf()
        &&& match self.state.freelist_head {
            Some(fh) => {
                &&& self.head_metacluster.wf()
                &&& fh.cluster != 0
                &&& fh.counter as int == self.head_metacluster.free@.len()
                &&& fh.checksum == self.head_metacluster.spec_checksum()
            },
            None => true,
        }
        &&& match self.last_cluster {
            Some(cs) => {
                &&& self.config.compression_algorithm == CompressionAlgorithm::Lz4
                &&& cs.cluster != 0
                &&& cs.uncompressed@.len() as int % (SECTOR_SIZE as int) == 0
                &&& SECTOR_SIZE <= cs.uncompressed@.len() <= 256 * SECTOR_SIZE
            },
            None => true,
        }
    }

    /// Nothing observable changed: store, freelist state, in-memory
    /// head fields, configuration and dedup record are those of `pre`.
    pub open spec fn unmoved(pre: Manager, post: Manager) -> bool {
        &&& post.store.sectors() == pre.store.sectors()
        &&& post.state == pre.state
        &&& post.head_metacluster.next_checksum == pre.head_metacluster.next_checksum
        &&& post.head_metacluster.next_ptr() == pre.head_metacluster.next_ptr()
        &&& post.head_metacluster.free@ == pre.head_metacluster.free@
        &&& post.config == pre.config
        &&& post.state_block_address == pre.state_block_address
        &&& post.dedup_table.entries_view() == pre.dedup_table.entries_view()
    }

    /// The outcome of a freelist pop from this state.
    pub open spec fn pop_view(self) -> PopView {
        let h = self.head_metacluster;
        match self.state.freelist_head {
            None => PopView {
                result: Err(Error::OutOfClusters),
                head_next_checksum: h.next_checksum,
                head_next_ptr: h.next_ptr(),
                head_free: h.free@,
                freelist_head: None,
                flushed: false,
            },
            Some(fh) => {
                if h.free@.len() > 0 {
                    PopView {
                        result: Ok(h.free@.last()),
                        head_next_checksum: h.next_checksum,
                        head_next_ptr: h.next_ptr(),
                        head_free: h.free@.drop_last(),
                        freelist_head: Some(
                            FreelistHead {
                                cluster: fh.cluster,
                                checksum: checksum_of(
                                    h.next_checksum,
                                    h.next_ptr(),
                                    h.free@.drop_last(),
                                ),
                                counter: (fh.counter - 1) as u8,
                            },
                        ),
                        flushed: true,
                    }
                } else if h.next_ptr() == 0 {
                    PopView {
                        result: Ok(fh.cluster),
                        head_next_checksum: h.next_checksum,
                        head_next_ptr: h.next_ptr(),
                        head_free: h.free@,
                        freelist_head: None,
                        flushed: true,
                    }
                } else if !self.store.sectors().contains_key(h.next_ptr()) {
                    PopView {
                        result: Err(Error::Disk { cluster: h.next_ptr() }),
                        head_next_checksum: h.next_checksum,
                        head_next_ptr: h.next_ptr(),
                        head_free: h.free@,
                        freelist_head: Some(fh),
                        flushed: false,
                    }
                } else {
                    let bytes = self.store.sectors()[h.next_ptr()];
                    let found = stored_checksum(bytes);
                    if found != h.next_checksum {
                        PopView {
                            result: Err(
                                Error::MetaclusterChecksumMismatch {
                                    cluster: h.next_ptr(),
                                    expected: h.next_checksum,
                                    found,
                                },
                            ),
                            head_next_checksum: h.next_checksum,
                            head_next_ptr: h.next_ptr(),
                            head_free: h.free@,
                            freelist_head: Some(fh),
                            flushed: false,
                        }
                    } else {
                        PopView {
                            result: Ok(fh.cluster),
                            head_next_checksum: Metacluster::decoded_checksum(bytes),
                            head_next_ptr: Metacluster::decoded_next(bytes),
                            head_free: Metacluster::decoded_free(bytes),
                            freelist_head: Some(
                                FreelistHead {
                                    cluster: h.next_ptr(),
                                    checksum: found,
                                    counter: Metacluster::decoded_free(bytes).len() as u8,
                                },
                            ),
                            flushed: true,
                        }
                    }
                }
            },
        }
    }

    /// The store after a pop: unchanged, or with the state block flushed.
    pub open spec fn flushed_sectors(self, v: PopView) -> Map<u64, Seq<u8>> {
        if v.flushed {
            self.store.sectors().insert(
                self.state_block_address,
                state_block_bytes(self.config, State { freelist_head: v.freelist_head }),
            )
        } else {
            self.store.sectors()
        }
    }

    /// The freelist parts of `post` are those the pop view dictates.
    pub open spec fn freelist_advanced(pre: Manager, post: Manager, v: PopView) -> bool {
        &&& post.head_metacluster.next_checksum == v.head_next_checksum
        &&& post.head_metacluster.next_ptr() == v.head_next_ptr
        &&& post.head_metacluster.free@ == v.head_free
        &&& post.state.freelist_head == v.freelist_head
        &&& post.config == pre.config
        &&& post.state_block_address == pre.state_block_address
    }

    /// Full contract of [`Manager::freelist_pop`].
    pub open spec fn pop_post(pre: Manager, post: Manager, r: Result<u64, Error>) -> bool {
        let v = pre.pop_view();
        &&& r == v.result
        &&& Manager::freelist_advanced(pre, post, v)
        &&& post.store.sectors() == pre.flushed_sectors(v)
        &&& post.last_cluster == pre.last_cluster
        &&& post.dedup_table.entries_view() == pre.dedup_table.entries_view()
    }

    /// The outcome of pushing `cluster` onto the freelist of this state.
    pub open spec fn push_view(self, cluster: u64) -> PushView {
        let h = self.head_metacluster;
        match self.state.freelist_head {
            None => PushView {
                head_next_checksum: 0,
                head_next_ptr: 0,
                head_free: Seq::empty(),
                freelist_head: Some(
                    FreelistHead {
                        cluster,
                        checksum: checksum_of(0, 0, Seq::empty()),
                        counter: 0,
                    },
                ),
                wrote_meta: false,
                retired_cluster: 0,
                retired_encoding: Seq::empty(),
            },
            Some(fh) => {
                if h.free@.len() >= META_CAPACITY {
                    PushView {
                        head_next_checksum: fh.checksum,
                        head_next_ptr: fh.cluster,
                        head_free: Seq::empty(),
                        freelist_head: Some(
                            FreelistHead {
                                cluster,
                                checksum: checksum_of(fh.checksum, fh.cluster, Seq::empty()),
                                counter: 0,
                            },
                        ),
                        wrote_meta: true,
                        retired_cluster: fh.cluster,
                        retired_encoding: encoding_of(h.next_checksum, h.next_ptr(), h.free@),
                    }
                } else {
                    let free2 = h.free@.push(cluster);
                    PushView {
                        head_next_checksum: h.next_checksum,
                        head_next_ptr: h.next_ptr(),
                        head_free: free2,
                        freelist_head: Some(
                            FreelistHead {
                                cluster: fh.cluster,
                                checksum: checksum_of(h.next_checksum, h.next_ptr(), free2),
                                counter: (fh.counter + 1) as u8,
                            },
                        ),
                        wrote_meta: false,
                        retired_cluster: 0,
                        retired_encoding: Seq::empty(),
                    }
                }
            },
        }
    }

    /// Full contract of [`Manager::freelist_push`].
    pub open spec fn push_post(pre: Manager, post: Manager, cluster: u64) -> bool {
        let v = pre.push_view(cluster);
        &&& post.head_metacluster.next_checksum == v.head_next_checksum
        &&& post.head_metacluster.next_ptr() == v.head_next_ptr
        &&& post.head_metacluster.free@ == v.head_free
        &&& post.state.freelist_head == v.freelist_head
        &&& post.store.sectors() == (if v.wrote_meta {
            pre.store.sectors().insert(v.retired_cluster, v.retired_encoding).insert(
                cluster,
                encoding_of(v.head_next_checksum, v.head_next_ptr, v.head_free),
            )
        } else {
            pre.store.sectors()
        }).insert(
            pre.state_block_address,
            state_block_bytes(pre.config, State { freelist_head: v.freelist_head }),
        )
        &&& post.config == pre.config
        &&& post.state_block_address == pre.state_block_address
        &&& post.last_cluster == pre.last_cluster
        &&& post.dedup_table.entries_view() == pre.dedup_table.entries_view()
    }

    /// Whether `buf` can be appended into the packing slot: the slot is
    /// occupied, under its caps, and the extended stream still fits in
    /// one sector after compression.
    pub open spec fn can_append(self, buf: Seq<u8>) -> bool {
        match self.last_cluster {
            Some(cs) => {
                &&& cs.uncompressed@.len() < CLUSTER_CAPACITY
                &&& cs.uncompressed@.len() + SECTOR_SIZE <= 256 * SECTOR_SIZE
                &&& lz4_of(cs.uncompressed@ + buf).len() + 2 <= SECTOR_SIZE
            },
            None => false,
        }
    }

    /// Full contract of [`Manager::alloc`].
    pub open spec fn alloc_post(
        pre: Manager,
        post: Manager,
        buf: Seq<u8>,
        r: Result<Pointer, Error>,
    ) -> bool {
        let ck = low32(hash_bytes(buf));
        match pre.dedup_table.lookup_of(buf) {
            Some(p) => r == Ok::<Pointer, Error>(p) && post == pre,
            None => {
                if pre.config.compression_algorithm == CompressionAlgorithm::Identity {
                    let v = pre.pop_view();
                    match v.result {
                        Err(e) => {
                            &&& r == Err::<Pointer, Error>(e)
                            &&& Manager::unmoved(pre, post)
                            &&& post.last_cluster == pre.last_cluster
                        },
                        Ok(c) => {
                            let ptr = Pointer { cluster: c, offset: None, checksum: ck };
                            &&& r == Ok::<Pointer, Error>(ptr)
                            &&& Manager::freelist_advanced(pre, post, v)
                            &&& post.store.sectors() == pre.flushed_sectors(v).insert(c, buf)
                            &&& post.last_cluster == pre.last_cluster
                            &&& post.dedup_table.entries_view()
                                == pre.dedup_table.entries_view().push((buf, ptr))
                        },
                    }
                } else if pre.can_append(buf) {
                    match pre.last_cluster {
                        Some(cs) => {
                            let ext = cs.uncompressed@ + buf;
                            let ptr = Pointer {
                                cluster: cs.cluster,
                                offset: Some((ext.len() / (SECTOR_SIZE as nat) - 1) as u8),
                                checksum: ck,
                            };
                            &&& r == Ok::<Pointer, Error>(ptr)
                            &&& post.state == pre.state
                            &&& post.head_metacluster == pre.head_metacluster
                            &&& post.config == pre.config
                            &&& post.state_block_address == pre.state_block_address
                            &&& post.store.sectors() == pre.store.sectors().insert(
                                cs.cluster,
                                framed(lz4_of(ext)),
                            )
                            &&& post.last_view() == Some((cs.cluster, ext))
                            &&& post.dedup_table.entries_view()
                                == pre.dedup_table.entries_view().push((buf, ptr))
                        },
                        None => false,
                    }
                } else {
                    let v = pre.pop_view();
                    match v.result {
                        Err(e) => {
                            &&& r == Err::<Pointer, Error>(e)
                            &&& Manager::unmoved(pre, post)
                            &&& post.last_view() is None
                        },
                        Ok(c) => {
                            if lz4_of(buf).len() + 2 <= SECTOR_SIZE {
                                let ptr = Pointer { cluster: c, offset: Some(0), checksum: ck };
                                &&& r == Ok::<Pointer, Error>(ptr)
                                &&& Manager::freelist_advanced(pre, post, v)
                                &&& post.store.sectors() == pre.flushed_sectors(v).insert(
                                    c,
                                    framed(lz4_of(buf)),
                                )
                                &&& post.last_view() == Some((c, buf))
                                &&& post.dedup_table.entries_view()
                                    == pre.dedup_table.entries_view().push((buf, ptr))
                            } else {
                                let ptr = Pointer { cluster: c, offset: None, checksum: ck };
                                &&& r == Ok::<Pointer, Error>(ptr)
                                &&& Manager::freelist_advanced(pre, post, v)
                                &&& post.store.sectors() == pre.flushed_sectors(v).insert(c, buf)
                                &&& post.last_view() is None
                                &&& post.dedup_table.entries_view()
                                    == pre.dedup_table.entries_view().push((buf, ptr))
                            }
                        },
                    }
                }
            },
        }
    }

    /// Hash a buffer with the configured checksum algorithm.
    pub fn checksum(&self, buf: &[u8]) -> (r: u64)
        ensures
            r == hash_bytes(buf@),
    {
        hash(buf)
    }

    /// Compress a buffer into one framed sector, or report no fit.
    /// The caller handles the disabled-compression configuration; this
    /// must not be called then.
    pub fn compress(&self, input: &[u8]) -> (r: Option<Vec<u8>>)
        requires
            self.config.compression_algorithm == CompressionAlgorithm::Lz4,
        ensures
            lz4_of(input@).len() + 2 <= SECTOR_SIZE ==> (r matches Some(s) && s@ == framed(
                lz4_of(input@),
            ) && s@.len() == SECTOR_SIZE),
            lz4_of(input@).len() + 2 > SECTOR_SIZE ==> r is None,
    {
        compress_page(input)
    }

    /// Decompress one framed cluster: exactly [`cluster_stream`].  The
    /// caller handles the disabled-compression configuration; this must
    /// not be called then.
    pub fn decompress(&self, cluster: &[u8]) -> (r: Option<Vec<u8>>)
        requires
            self.config.compression_algorithm == CompressionAlgorithm::Lz4,
            cluster@.len() == SECTOR_SIZE,
        ensures
            r matches Some(d) ==> cluster_stream(cluster@) == Some(d@),
            r is None ==> cluster_stream(cluster@) is None,
            forall|orig: Seq<u8>|
                (cluster@ == framed(lz4_of(orig)) && lz4_of(orig).len() + 2 <= SECTOR_SIZE) ==> (
                r matches Some(d) && d@ == orig),
    {
        decompress_cluster(cluster)
    }

    /// Flush the state block: write its encoding to the state-block
    /// sector through the cache.
    fn flush_state_block(&mut self)
        ensures
            final(self).store.sectors() == old(self).store.sectors().insert(
                old(self).state_block_address,
                state_block_bytes(old(self).config, old(self).state),
            ),
            old(self).store.wf() ==> final(self).store.wf(),
            final(self).config == old(self).config,
            final(self).state_block_address == old(self).state_block_address,
            final(self).state == old(self).state,
            final(self).head_metacluster == old(self).head_metacluster,
            final(self).last_cluster == old(self).last_cluster,
            final(self).dedup_table == old(self).dedup_table,
    {
        let sector: Vec<u8> = encode_state_block(&self.config, &self.state);
        self.store.write(self.state_block_address, sector);
    }

    /// Write the in-memory head metacluster's encoding to `cluster`.
    fn write_head_metacluster(&mut self, cluster: u64)
        requires
            old(self).head_metacluster.wf(),
        ensures
            final(self).store.sectors() == old(self).store.sectors().insert(
                cluster,
                old(self).head_metacluster.encoding(),
            ),
            old(self).store.wf() ==> final(self).store.wf(),
            final(self).config == old(self).config,
            final(self).state_block_address == old(self).state_block_address,
            final(self).state == old(self).state,
            final(self).head_metacluster == old(self).head_metacluster,
            final(self).last_cluster == old(self).last_cluster,
            final(self).dedup_table == old(self).dedup_table,
    {
        let enc: Vec<u8> = self.head_metacluster.encode();
        self.store.write(cluster, enc);
    }

    /// Pop a cluster from the freelist.
    ///
    /// If the head metacluster still holds free pointers, the last one
    /// is popped and the state block reflects the shortened head in a
    /// single sector flush.  If the head is exhausted, the head cluster
    /// itself is the allocation: the freelist advances to the next
    /// metacluster, whose checksum must match the one stored in the old
    /// head, or ends.
    pub fn freelist_pop(&mut self) -> (r: Result<u64, Error>)
        requires
            old(self).wf(),
        ensures
            final(self).wf(),
            Manager::pop_post(*old(self), *final(self), r),
            r matches Ok(c) ==> c != 0,
    {
        let fh = match self.state.freelist_head {
            None => {
                return Err(Error::OutOfClusters);
            },
            Some(fh) => fh,
        };
        if self.head_metacluster.free.len() > 0 {
            let c: u64 = self.head_metacluster.free.pop().unwrap();
            proof {
                assert(self.head_metacluster.free@ =~= old(
                    self,
                ).head_metacluster.free@.drop_last());
                assert(self.head_metacluster.wf());
            }
            let cksum: u64 = self.head_metacluster.checksum();
            self.state.freelist_head = Some(
                FreelistHead { cluster: fh.cluster, checksum: cksum, counter: fh.counter - 1 },
            );
            self.flush_state_block();
            Ok(c)
        } else {
            match self.head_metacluster.next {
                Some(n) => {
                    let decoded: Metacluster = match self.store.read(n) {
                        Some(s) => Metacluster::decode(s.as_slice()),
                        None => {
                            return Err(Error::Disk { cluster: n });
                        },
                    };
                    let found: u64 = decoded.checksum();
                    if found != self.head_metacluster.next_checksum {
                        return Err(
                            Error::MetaclusterChecksumMismatch {
                                cluster: n,
                                expected: self.head_metacluster.next_checksum,
                                found,
                            },
                        );
                    }
                    let counter: u8 = decoded.free.len() as u8;
                    self.head_metacluster = decoded;
                    self.state.freelist_head = Some(
                        FreelistHead { cluster: n, checksum: found, counter },
                    );
                    self.flush_state_block();
                    Ok(fh.cluster)
                },
                None => {
                    self.state.freelist_head = None;
                    self.flush_state_block();
                    Ok(fh.cluster)
                },
            }
        }
    }

    /// Push a free cluster onto the freelist.
    ///
    /// An empty freelist gains `cluster` as a fresh, empty head.  A full
    /// head is retired: its complete encoding is written to its own
    /// cluster — an interior metacluster always holds its full pointer
    /// array on disk — and `cluster` becomes a new empty head linking to
    /// it, written before the state block flips.  Otherwise the pointer
    /// is simply appended to the head's free array.
    #[verifier::rlimit(50)]
    pub fn freelist_push(&mut self, cluster: u64)
        requires
            old(self).wf(),
            cluster != 0,
        ensures
            final(self).wf(),
            Manager::push_post(*old(self), *final(self), cluster),
    {
        let fh = match self.state.freelist_head {
            None => {
                self.head_metacluster = Metacluster {
                    next_checksum: 0,
                    next: None,
                    free: Vec::new(),
                };
                proof {
                    assert(self.head_metacluster.free@ =~= Seq::<u64>::empty());
                }
                let cksum: u64 = self.head_metacluster.checksum();
                self.state.freelist_head = Some(
                    FreelistHead { cluster, checksum: cksum, counter: 0 },
                );
                self.flush_state_block();
                return ;
            },
            Some(fh) => fh,
        };
        if self.head_metacluster.free.len() >= META_CAPACITY {
            self.write_head_metacluster(fh.cluster);
            self.head_metacluster.free = Vec::new();
            self.head_metacluster.next = Some(fh.cluster);
            self.head_metacluster.next_checksum = fh.checksum;
            proof {
                assert(self.head_metacluster.free@ =~= Seq::<u64>::empty());
            }
            self.write_head_metacluster(cluster);
            let cksum: u64 = self.head_metacluster.checksum();
            self.state.freelist_head = Some(
                FreelistHead { cluster, checksum: cksum, counter: 0 },
            );
            self.flush_state_block();
        } else {
            self.head_metacluster.free.push(cluster);
            let cksum: u64 = self.head_metacluster.checksum();
            self.state.freelist_head = Some(
                FreelistHead { cluster: fh.cluster, checksum: cksum, counter: fh.counter + 1 },
            );
            self.flush_state_block();
        }
    }

    /// Allocate a page with content `buf`.
    ///
    /// A duplicate of already stored content reuses its page.  With
    /// compression disabled every page gets a freshly popped cluster,
    /// raw.  With compression enabled the page is packed into the
    /// cluster most recently allocated if its recompressed stream still
    /// fits in one sector; otherwise a fresh cluster is popped, holding
    /// the page compressed when that fits and raw when not.
    pub fn alloc_page(&mut self, buf: &[u8]) -> (r: Result<Pointer, Error>)
        requires
            old(self).wf(),
            buf@.len() == SECTOR_SIZE,
        ensures
            final(self).wf(),
            Manager::alloc_post(*old(self), *final(self), buf@, r),
    {
        let cksum: u32 = hash32(buf);
        if let Some(page) = self.dedup_table.dedup(buf) {
            return Ok(page);
        }
        match self.config.compression_algorithm {
            CompressionAlgorithm::Identity => {
                let cluster: u64 = match self.freelist_pop() {
                    Ok(c) => c,
                    Err(e) => {
                        return Err(e);
                    },
                };
                let ptr = Pointer { cluster, offset: None, checksum: cksum };
                self.store.write(cluster, slice_to_vec(buf));
                self.dedup_table.insert(slice_to_vec(buf), ptr);
                Ok(ptr)
            },
            CompressionAlgorithm::Lz4 => {
                if let Some(mut cs) = self.last_cluster.take() {
                    if cs.uncompressed.len() < CLUSTER_CAPACITY && cs.uncompressed.len()
                        + SECTOR_SIZE <= 256 * SECTOR_SIZE {
                        append_bytes(&mut cs.uncompressed, buf);
                        if let Some(sec) = self.compress(cs.uncompressed.as_slice()) {
                            let off: usize = cs.uncompressed.len() / SECTOR_SIZE - 1;
                            let ptr = Pointer {
                                cluster: cs.cluster,
                                offset: Some(off as u8),
                                checksum: cksum,
                            };
                            self.store.write(cs.cluster, sec);
                            self.last_cluster = Some(cs);
                            self.dedup_table.insert(slice_to_vec(buf), ptr);
                            return Ok(ptr);
                        }
                    }
                }
                let cluster: u64 = match self.freelist_pop() {
                    Ok(c) => c,
                    Err(e) => {
                        return Err(e);
                    },
                };
                match self.compress(buf) {
                    Some(sec) => {
                        let ptr = Pointer { cluster, offset: Some(0), checksum: cksum };
                        self.store.write(cluster, sec);
                        self.last_cluster = Some(
                            ClusterState { cluster, uncompressed: slice_to_vec(buf) },
                        );
                        self.dedup_table.insert(slice_to_vec(buf), ptr);
                        Ok(ptr)
                    },
                    None => {
                        let ptr = Pointer { cluster, offset: None, checksum: cksum };
                        self.store.write(cluster, slice_to_vec(buf));
                        self.dedup_table.insert(slice_to_vec(buf), ptr);
                        Ok(ptr)
                    },
                }
            },
        }
    }

    /// Read the page `page` points at and verify its checksum.
    ///
    /// A pointer with no offset names the raw sector; one with an
    /// offset names one sector of the decompressed stream.  The page is
    /// returned only when its hash matches the pointer's checksum.
    pub fn read(&self, page: Pointer) -> (r: Result<Vec<u8>, Error>)
        requires
            self.wf(),
            page.offset is Some ==> self.config.compression_algorithm
                == CompressionAlgorithm::Lz4,
        ensures
            r matches Ok(v) ==> v@.len() == SECTOR_SIZE && low32(hash_bytes(v@)) == page.checksum,
            r == Err::<Vec<u8>, Error>(Error::Disk { cluster: page.cluster }) <==> !self.store.sectors(
            ).contains_key(page.cluster),
            page.offset is None && self.store.sectors().contains_key(page.cluster) ==> (if low32(
                hash_bytes(self.store.sectors()[page.cluster]),
            ) == page.checksum {
                r matches Ok(v) && v@ == self.store.sectors()[page.cluster]
            } else {
                r == Err::<Vec<u8>, Error>(
                    Error::PageChecksumMismatch {
                        page,
                        found: low32(hash_bytes(self.store.sectors()[page.cluster])),
                    },
                )
            }),
            page.offset matches Some(off) ==> (self.store.sectors().contains_key(page.cluster)
                ==> (forall|orig: Seq<u8>|
                (self.store.sectors()[page.cluster] == framed(lz4_of(orig)) && lz4_of(orig).len()
                    + 2 <= SECTOR_SIZE) ==> Manager::offset_read(*self, page, off, orig, r))),
            page.offset matches Some(off) ==> (self.store.sectors().contains_key(page.cluster)
                ==> Manager::offset_result(*self, page, off, r)),
            forall|d: Seq<u8>| #[trigger]
                Manager::read_returns(*self, page, d) ==> (r matches Ok(v) && v@ == d),
    {
        let sec: &Vec<u8> = match self.store.read(page.cluster) {
            Some(s) => s,
            None => {
                return Err(Error::Disk { cluster: page.cluster });
            },
        };
        match page.offset {
            None => {
                let found: u32 = hash32(sec.as_slice());
                if found == page.checksum {
                    Ok(slice_to_vec(sec.as_slice()))
                } else {
                    Err(Error::PageChecksumMismatch { page, found })
                }
            },
            Some(off) => {
                let d: Vec<u8> = match self.decompress(sec.as_slice()) {
                    Some(d) => d,
                    None => {
                        return Err(Error::InvalidCompression { cluster: page.cluster });
                    },
                };
                if d.len() % SECTOR_SIZE != 0 || (off as usize + 1) * SECTOR_SIZE > d.len() {
                    return Err(Error::InvalidCompression { cluster: page.cluster });
                }
                let pg: Vec<u8> = slice_to_vec(
                    slice_subrange(
                        d.as_slice(),
                        off as usize * SECTOR_SIZE,
                        (off as usize + 1) * SECTOR_SIZE,
                    ),
                );
                let found: u32 = hash32(pg.as_slice());
                if found == page.checksum {
                    Ok(pg)
                } else {
                    Err(Error::PageChecksumMismatch { page, found })
                }
            },
        }
    }

    /// The store pins the page `page` names down to exactly `data`:
    /// the sector is present, it carries the page (raw, or as one
    /// sector of the compressed stream), and the pointer's checksum is
    /// the content's.  Under these premises `read` must return `data`.
    pub open spec fn read_returns(m: Manager, page: Pointer, data: Seq<u8>) -> bool {
        &&& m.store.sectors().contains_key(page.cluster)
        &&& low32(hash_bytes(data)) == page.checksum
        &&& match page.offset {
            None => m.store.sectors()[page.cluster] == data,
            Some(off) => exists|orig: Seq<u8>|
                {
                    &&& m.store.sectors()[page.cluster] == framed(lz4_of(orig))
                    &&& lz4_of(orig).len() + 2 <= SECTOR_SIZE
                    &&& orig.len() as int % (SECTOR_SIZE as int) == 0
                    &&& (off + 1) * SECTOR_SIZE <= orig.len()
                    &&& data == orig.subrange(off * SECTOR_SIZE, (off + 1) * SECTOR_SIZE)
                },
        }
    }

    /// What a read through an offset pointer yields, pinned for every
    /// stored sector: the framed payload is run through the decoder
    /// ([`cluster_stream`]); a bad framing or stream, a stream that is
    /// not whole sectors, or an offset past its end is
    /// `InvalidCompression`; otherwise the named sector of the stream
    /// comes back exactly when its hash matches the pointer's checksum.
    pub open spec fn offset_result(
        self,
        page: Pointer,
        off: u8,
        r: Result<Vec<u8>, Error>,
    ) -> bool {
        match cluster_stream(self.store.sectors()[page.cluster]) {
            None => r == Err::<Vec<u8>, Error>(
                Error::InvalidCompression { cluster: page.cluster },
            ),
            Some(u) => {
                if u.len() as int % (SECTOR_SIZE as int) != 0 || (off + 1) * SECTOR_SIZE
                    > u.len() {
                    r == Err::<Vec<u8>, Error>(
                        Error::InvalidCompression { cluster: page.cluster },
                    )
                } else {
                    let pg = u.subrange(off * SECTOR_SIZE, (off + 1) * SECTOR_SIZE);
                    if low32(hash_bytes(pg)) == page.checksum {
                        r matches Ok(v) && v@ == pg
                    } else {
                        r == Err::<Vec<u8>, Error>(
                            Error::PageChecksumMismatch { page, found: low32(hash_bytes(pg)) },
                        )
                    }
                }
            },
        }
    }

    /// What a read through an offset pointer yields once the cluster is
    /// known to hold the framing of the compressed stream of `orig`.
    pub open spec fn offset_read(
        self,
        page: Pointer,
        off: u8,
        orig: Seq<u8>,
        r: Result<Vec<u8>, Error>,
    ) -> bool {
        if orig.len() as int % (SECTOR_SIZE as int) != 0 || (off + 1) * SECTOR_SIZE > orig.len() {
            r == Err::<Vec<u8>, Error>(Error::InvalidCompression { cluster: page.cluster })
        } else {
            let pg = orig.subrange(off * SECTOR_SIZE, (off + 1) * SECTOR_SIZE);
            if low32(hash_bytes(pg)) == page.checksum {
                r matches Ok(v) && v@ == pg
            } else {
                r == Err::<Vec<u8>, Error>(Error::PageChecksumMismatch { page, found: low32(hash_bytes(pg)) })
            }
        }
    }

    /// Release the cluster a page pointer references back to the
    /// freelist.  Safe only when no other live pointer references the
    /// same cluster; that coordination is the caller's.
    pub fn free(&mut self, page: Pointer)
        requires
            old(self).wf(),
            page.cluster != 0,
        ensures
            final(self).wf(),
            Manager::push_post(*old(self), *final(self), page.cluster),
    {
        self.freelist_push(page.cluster);
    }

    /// The exact outcome `open` owes on a device image: `None` when a
    /// manager must come back, otherwise the one error that must.  The
    /// state-block sector must exist; a named head metacluster must be a
    /// readable, non-null cluster whose decoded free count matches the
    /// stored counter and whose active-prefix hash matches the stored
    /// checksum.
    pub open spec fn open_outcome(store: SectorStore, state_block_address: u64) -> Option<Error> {
        if !store.sectors().contains_key(state_block_address) {
            Some(Error::Disk { cluster: state_block_address })
        } else {
            match decoded_head(store.sectors()[state_block_address]) {
                None => None,
                Some(fh) => {
                    if fh.cluster == 0 {
                        Some(Error::Disk { cluster: 0 })
                    } else if !store.sectors().contains_key(fh.cluster) {
                        Some(Error::Disk { cluster: fh.cluster })
                    } else {
                        let bytes = store.sectors()[fh.cluster];
                        let found = stored_checksum(bytes);
                        if found != fh.checksum || Metacluster::decoded_free(bytes).len()
                            != fh.counter as int {
                            Some(
                                Error::MetaclusterChecksumMismatch {
                                    cluster: fh.cluster,
                                    expected: fh.checksum,
                                    found,
                                },
                            )
                        } else {
                            None
                        }
                    }
                },
            }
        }
    }

    /// Open a manager over a device image: decode the state block at
    /// `state_block_address`, load the head metacluster the state names,
    /// and verify its checksum and counter against the stored descriptor.
    /// Succeeds exactly when [`Manager::open_outcome`] owes no error.
    pub fn open(store: SectorStore, config: Config, state_block_address: u64) -> (r: Result<
        Manager,
        Error,
    >)
        requires
            store.wf(),
        ensures
            r matches Ok(m) ==> {
                &&& m.wf()
                &&& m.store == store
                &&& m.config == config
                &&& m.state_block_address == state_block_address
                &&& m.store.sectors().contains_key(state_block_address)
                &&& m.state.freelist_head == decoded_head(
                    store.sectors()[state_block_address],
                )
                &&& m.last_cluster is None
                &&& m.dedup_table.entries_view() == Seq::<(Seq<u8>, Pointer)>::empty()
                &&& (m.state.freelist_head matches Some(fh) ==> {
                    let bytes = store.sectors()[fh.cluster];
                    &&& m.head_metacluster.next_checksum == Metacluster::decoded_checksum(bytes)
                    &&& m.head_metacluster.next_ptr() == Metacluster::decoded_next(bytes)
                    &&& m.head_metacluster.free@ == Metacluster::decoded_free(bytes)
                })
            },
            r is Ok <==> Manager::open_outcome(store, state_block_address) is None,
            Manager::open_outcome(store, state_block_address) matches Some(e) ==> r == Err::<
                Manager,
                Error,
            >(e),
    {
        let head: Option<FreelistHead> = match store.read(state_block_address) {
            Some(s) => decode_head(s),
            None => {
                return Err(Error::Disk { cluster: state_block_address });
            },
        };
        let head_metacluster: Metacluster = match head {
            None => Metacluster { next_checksum: 0, next: None, free: Vec::new() },
            Some(fh) => {
                if fh.cluster == 0 {
                    return Err(Error::Disk { cluster: 0 });
                }
                let decoded: Metacluster = match store.read(fh.cluster) {
                    Some(s) => Metacluster::decode(s.as_slice()),
                    None => {
                        return Err(Error::Disk { cluster: fh.cluster });
                    },
                };
                let found: u64 = decoded.checksum();
                if found != fh.checksum || decoded.free.len() != fh.counter as usize {
                    return Err(
                        Error::MetaclusterChecksumMismatch {
                            cluster: fh.cluster,
                            expected: fh.checksum,
                            found,
                        },
                    );
                }
                decoded
            },
        };
        Ok(
            Manager {
                store,
                config,
                state_block_address,
                state: State { freelist_head: head },
                head_metacluster,
                last_cluster: None,
                dedup_table: Table::new(),
            },
        )
    }
}

/// Append `data` to `v`.
fn append_bytes(v: &mut Vec<u8>, data: &[u8])
    ensures
        final(v)@ == old(v)@ + data@,
{
    let mut i: usize = 0;
    while i < data.len()
        invariant
            i <= data@.len(),
            v@ == old(v)@ + data@.take(i as int),
        decreases data@.len() - i,
    {
        v.push(data[i]);
        proof {
            assert(v@ =~= old(v)@ + data@.take(i + 1));
        }
        i = i + 1;
    }
    proof {
        assert(v@ =~= old(v)@ + data@);
    }
}

} // verus!
