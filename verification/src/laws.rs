//! The library's laws: properties that relate several operations,
//! stated over the same spec functions the operations' contracts use.

use vstd::prelude::*;
use vstd::multiset::Multiset;
use vstd::arithmetic::div_mod::{lemma_fundamental_div_mod, lemma_mod_multiples_vanish};
use crate::checksum::{hash_bytes, low32};
use crate::compress::lz4_of;
use crate::dedup::{lemma_lookup_found, lemma_lookup_insert};
use crate::manager::Manager;
use crate::metacluster::{stored_checksum, Metacluster};
use crate::page::{Error, Pointer};
use crate::state_block::CompressionAlgorithm;
use crate::{META_CAPACITY, SECTOR_SIZE};

verus! {

/// Freelist round-trip: popping a cluster out of the head metacluster
/// and pushing it straight back restores the freelist exactly — the
/// head's free array, its links, and the state-block descriptor.
pub proof fn lemma_freelist_round_trip(pre: Manager, mid: Manager, post: Manager, c: u64)
    requires
        pre.wf(),
        pre.state.freelist_head is Some,
        0 < pre.head_metacluster.free@.len() < META_CAPACITY,
        Manager::pop_post(pre, mid, Ok(c)),
        Manager::push_post(mid, post, c),
    ensures
        post.head_metacluster.free@ == pre.head_metacluster.free@,
        post.head_metacluster.next_ptr() == pre.head_metacluster.next_ptr(),
        post.head_metacluster.next_checksum == pre.head_metacluster.next_checksum,
        post.state.freelist_head == pre.state.freelist_head,
{
    let free = pre.head_metacluster.free@;
    assert(free.drop_last().push(free.last()) =~= free);
}

/// Popping from a non-exhausted head removes exactly one occurrence of
/// the returned cluster from the head's free pointers.
pub proof fn lemma_pop_removes_one(pre: Manager, post: Manager, c: u64)
    requires
        pre.wf(),
        pre.state.freelist_head is Some,
        pre.head_metacluster.free@.len() > 0,
        Manager::pop_post(pre, post, Ok(c)),
    ensures
        pre.head_metacluster.free@.to_multiset() == post.head_metacluster.free@.to_multiset(
        ).insert(c),
{
    let free = pre.head_metacluster.free@;
    free.drop_last().to_multiset_ensures();
    assert(free.drop_last().push(free.last()) =~= free);
    assert(free.to_multiset() =~= free.drop_last().to_multiset().insert(c));
}

/// Pushing onto a non-full head adds exactly one occurrence of the
/// pushed cluster to the head's free pointers.
pub proof fn lemma_push_adds_one(pre: Manager, post: Manager, c: u64)
    requires
        pre.wf(),
        pre.state.freelist_head is Some,
        pre.head_metacluster.free@.len() + 1 < META_CAPACITY,
        Manager::push_post(pre, post, c),
    ensures
        post.head_metacluster.free@.to_multiset() == pre.head_metacluster.free@.to_multiset(
        ).insert(c),
{
    pre.head_metacluster.free@.to_multiset_ensures();
    assert(post.head_metacluster.free@.to_multiset() =~= pre.head_metacluster.free@.to_multiset(
    ).insert(c));
}

/// Pointer stability (write–read identity): a page freshly written by
/// an allocation is pinned by the resulting store, so reading its
/// pointer must return exactly the written bytes, in every compression
/// mode.  A deduplication hit instead returns a pointer recorded by an
/// earlier allocation of identical content, for which this law held
/// when that allocation ran.
pub proof fn lemma_write_read_identity(pre: Manager, post: Manager, buf: Seq<u8>, ptr: Pointer)
    requires
        pre.wf(),
        buf.len() == SECTOR_SIZE,
        pre.dedup_table.lookup_of(buf) is None,
        Manager::alloc_post(pre, post, buf, Ok(ptr)),
    ensures
        Manager::read_returns(post, ptr, buf),
        ptr.checksum == low32(hash_bytes(buf)),
{
    if pre.config.compression_algorithm != CompressionAlgorithm::Identity && pre.can_append(buf) {
        match pre.last_cluster {
            Some(cs) => {
                let u = cs.uncompressed@;
                let ext = u + buf;
                lemma_fundamental_div_mod(ext.len() as int, SECTOR_SIZE as int);
                let k = ext.len() as int / (SECTOR_SIZE as int);
                assert(ext.len() as int % (SECTOR_SIZE as int) == 0) by {
                    lemma_fundamental_div_mod(u.len() as int, SECTOR_SIZE as int);
                    lemma_mod_multiples_vanish(
                        u.len() as int / (SECTOR_SIZE as int),
                        SECTOR_SIZE as int,
                        SECTOR_SIZE as int,
                    );
                };
                assert(k * SECTOR_SIZE == ext.len());
                assert(2 <= k <= 256);
                assert(ext.subrange(
                    (k - 1) * SECTOR_SIZE,
                    k * SECTOR_SIZE,
                ) =~= buf);
                assert(Manager::read_returns(post, ptr, buf)) by {
                    let off = (ext.len() / (SECTOR_SIZE as nat) - 1) as u8;
                    assert(off as int == k - 1);
                    assert(ext.len() as int % (SECTOR_SIZE as int) == 0);
                    assert((off + 1) * SECTOR_SIZE <= ext.len());
                    assert(buf == ext.subrange(off * SECTOR_SIZE, (off + 1) * SECTOR_SIZE));
                };
            },
            None => {},
        }
    } else if pre.config.compression_algorithm != CompressionAlgorithm::Identity {
        // spill: stored compressed when the stream fits, raw otherwise
        match pre.pop_view().result {
            Ok(c) => {
                if lz4_of(buf).len() + 2 <= SECTOR_SIZE {
                    assert(buf.subrange(0, SECTOR_SIZE as int) =~= buf);
                    assert(buf.len() as int % (SECTOR_SIZE as int) == 0);
                }
            },
            Err(e) => {},
        }
    }
}

/// Dedup idempotence: after an allocation stores `buf` at `p1`, the
/// table maps `buf` to `p1`, so a second allocation of the same bytes
/// returns `p1` itself — same cluster, same offset — and changes
/// nothing.
pub proof fn lemma_dedup_idempotence(pre: Manager, mid: Manager, buf: Seq<u8>, p1: Pointer)
    requires
        Manager::alloc_post(pre, mid, buf, Ok(p1)),
    ensures
        mid.dedup_table.lookup_of(buf) == Some(p1),
        forall|post: Manager, r2: Result<Pointer, Error>|
            #[trigger] Manager::alloc_post(mid, post, buf, r2) ==> r2 == Ok::<Pointer, Error>(p1)
                && post == mid,
{
    match pre.dedup_table.lookup_of(buf) {
        Some(p) => {
        },
        None => {
            lemma_lookup_insert(pre.dedup_table.entries_view(), buf, p1, buf);
        },
    }
}

/// Compression packing: while the packing slot's recompressed stream
/// still fits in one sector, an allocation appends into the slot's
/// cluster and consumes nothing from the freelist; clusters are spent
/// only on spills.
pub proof fn lemma_packing(pre: Manager, post: Manager, buf: Seq<u8>, ptr: Pointer, c: u64, u: Seq<u8>)
    requires
        pre.dedup_table.lookup_of(buf) is None,
        pre.config.compression_algorithm == CompressionAlgorithm::Lz4,
        pre.can_append(buf),
        pre.last_view() == Some((c, u)),
        Manager::alloc_post(pre, post, buf, Ok(ptr)),
    ensures
        ptr.cluster == c,
        post.state == pre.state,
        post.head_metacluster == pre.head_metacluster,
        post.last_view() == Some((c, u + buf)),
{
}

/// One step of the freelist's abstract history: `None` is an
/// allocation (pop the newest free cluster into the live set), and
/// `Some(c)` returns the live cluster `c`.  Allocating from an empty
/// freelist and freeing a cluster that is not live change nothing.
pub open spec fn fl_step(s: (Seq<u64>, Multiset<u64>), op: Option<u64>) -> (
    Seq<u64>,
    Multiset<u64>,
) {
    match op {
        None => if s.0.len() > 0 {
            (s.0.drop_last(), s.1.insert(s.0.last()))
        } else {
            s
        },
        Some(c) => if s.1.count(c) > 0 {
            (s.0.push(c), s.1.remove(c))
        } else {
            s
        },
    }
}

/// The free stack and live multiset after a whole operation sequence,
/// starting from free clusters `init` and nothing live.
pub open spec fn fl_run(init: Seq<u64>, ops: Seq<Option<u64>>) -> (Seq<u64>, Multiset<u64>)
    decreases ops.len(),
{
    if ops.len() == 0 {
        (init, Multiset::empty())
    } else {
        fl_step(fl_run(init, ops.drop_last()), ops.last())
    }
}

/// Freelist conservation: over any sequence of allocations and frees,
/// the free clusters and the live allocations together are exactly the
/// initial set — nothing is invented and nothing leaks.  Each single
/// step is what `freelist_pop` and `freelist_push` do to the head
/// (`lemma_pop_removes_one`, `lemma_push_adds_one`).
pub proof fn lemma_freelist_conservation(init: Seq<u64>, ops: Seq<Option<u64>>)
    ensures
        fl_run(init, ops).0.to_multiset().add(fl_run(init, ops).1) == init.to_multiset(),
    decreases ops.len(),
{
    if ops.len() == 0 {
        assert(fl_run(init, ops).0.to_multiset().add(Multiset::empty()) =~= init.to_multiset());
    } else {
        lemma_freelist_conservation(init, ops.drop_last());
        let prev = fl_run(init, ops.drop_last());
        let cur = fl_step(prev, ops.last());
        match ops.last() {
            None => {
                if prev.0.len() > 0 {
                    prev.0.drop_last().to_multiset_ensures();
                    assert(prev.0.drop_last().push(prev.0.last()) =~= prev.0);
                    assert(prev.0.to_multiset() =~= prev.0.drop_last().to_multiset().insert(
                        prev.0.last(),
                    ));
                    assert(cur.0.to_multiset().add(cur.1) =~= init.to_multiset());
                }
            },
            Some(c) => {
                if prev.1.count(c) > 0 {
                    prev.0.to_multiset_ensures();
                    assert(cur.0.to_multiset().add(cur.1) =~= init.to_multiset());
                }
            },
        }
    }
}

/// Freelist round-trip, no-duplication half: if the initial free
/// clusters are pairwise distinct, then after any operation sequence
/// the free clusters are still pairwise distinct, and none of them is
/// also live.
pub proof fn lemma_freelist_no_duplicates(init: Seq<u64>, ops: Seq<Option<u64>>, x: u64)
    requires
        forall|y: u64| init.to_multiset().count(y) <= 1,
    ensures
        fl_run(init, ops).0.to_multiset().count(x) + fl_run(init, ops).1.count(x) <= 1,
{
    lemma_freelist_conservation(init, ops);
    let fin = fl_run(init, ops);
    assert(fin.0.to_multiset().add(fin.1).count(x) == init.to_multiset().count(x));
}

/// A head-local pop is one step of the abstract history: for any live
/// multiset, what `freelist_pop` does to the head's free array and what
/// the allocation adds to the live set is exactly `fl_step(_, None)`.
/// Composed with `lemma_freelist_conservation`, any run of such pops
/// and pushes conserves the free-plus-live multiset.
pub proof fn lemma_pop_is_model_step(pre: Manager, post: Manager, c: u64, live: Multiset<u64>)
    requires
        pre.wf(),
        pre.state.freelist_head is Some,
        pre.head_metacluster.free@.len() > 0,
        Manager::pop_post(pre, post, Ok(c)),
    ensures
        fl_step((pre.head_metacluster.free@, live), None) == (
            post.head_metacluster.free@,
            live.insert(c),
        ),
{
}

/// A head-local push is one step of the abstract history: freeing a
/// live cluster appends it to the head's free array and removes it from
/// the live set, exactly `fl_step(_, Some(c))`.
pub proof fn lemma_push_is_model_step(pre: Manager, post: Manager, c: u64, live: Multiset<u64>)
    requires
        pre.wf(),
        pre.state.freelist_head is Some,
        pre.head_metacluster.free@.len() < META_CAPACITY,
        live.count(c) > 0,
        Manager::push_post(pre, post, c),
    ensures
        fl_step((pre.head_metacluster.free@, live), Some(c)) == (
            post.head_metacluster.free@,
            live.remove(c),
        ),
{
}

/// Checksum enforcement: when the stored sector no longer hashes to
/// the pointer's checksum, no page content can satisfy the read
/// contract's success premise, so `read` is forced into an error —
/// its `ensures` then pin that error to `PageChecksumMismatch` with
/// the recomputed hash.
pub proof fn lemma_checksum_enforcement(m: Manager, page: Pointer)
    requires
        page.offset is None,
        m.store.sectors().contains_key(page.cluster),
        low32(hash_bytes(m.store.sectors()[page.cluster])) != page.checksum,
    ensures
        forall|d: Seq<u8>| !Manager::read_returns(m, page, d),
{
}

/// Metacluster checksum enforcement: once the active prefix of the
/// next metacluster's sector is corrupted so that its checksum no
/// longer matches the one the head stores, the next pop that traverses
/// into it returns exactly `MetaclusterChecksumMismatch`.
pub proof fn lemma_metacluster_corruption_detected(m: Manager)
    requires
        m.state.freelist_head is Some,
        m.head_metacluster.free@.len() == 0,
        m.head_metacluster.next_ptr() != 0,
        m.store.sectors().contains_key(m.head_metacluster.next_ptr()),
        stored_checksum(m.store.sectors()[m.head_metacluster.next_ptr()])
            != m.head_metacluster.next_checksum,
    ensures
        m.pop_view().result == Err::<u64, Error>(
            Error::MetaclusterChecksumMismatch {
                cluster: m.head_metacluster.next_ptr(),
                expected: m.head_metacluster.next_checksum,
                found: stored_checksum(m.store.sectors()[m.head_metacluster.next_ptr()]),
            },
        ),
{
}

/// Chain-link integrity: when a push retires a full head, the sector
/// written for it decodes back to that head, so its stored checksum is
/// exactly the one the new head records for its next link — the pop
/// that later traverses into the retired node passes its checksum test.
pub proof fn lemma_retired_head_link(pre: Manager, post: Manager, c: u64)
    requires
        pre.wf(),
        pre.state.freelist_head is Some,
        pre.head_metacluster.free@.len() >= META_CAPACITY,
        c != 0,
        Manager::push_post(pre, post, c),
    ensures
        post.head_metacluster.next_ptr() != 0,
        c != post.head_metacluster.next_ptr() && post.state_block_address
            != post.head_metacluster.next_ptr() ==> {
            &&& post.store.sectors().contains_key(post.head_metacluster.next_ptr())
            &&& stored_checksum(post.store.sectors()[post.head_metacluster.next_ptr()])
                == post.head_metacluster.next_checksum
        },
{
    Metacluster::lemma_decode_encode(pre.head_metacluster);
}

/// The other half of pointer stability, for deduplication hits: as
/// long as every entry the table records still reads back (no store
/// write has disturbed its cluster), the pointer a hit returns reads
/// back exactly the probed content.
pub proof fn lemma_dedup_hit_stable(m: Manager, buf: Seq<u8>, p: Pointer)
    requires
        m.dedup_table.lookup_of(buf) == Some(p),
        forall|i: int|
            0 <= i < m.dedup_table.entries_view().len() ==> Manager::read_returns(
                m,
                (#[trigger] m.dedup_table.entries_view()[i]).1,
                m.dedup_table.entries_view()[i].0,
            ),
    ensures
        Manager::read_returns(m, p, buf),
{
    lemma_lookup_found(m.dedup_table.entries_view(), buf, p);
}

} // verus!
