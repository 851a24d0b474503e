//! Metacluster codec: one freelist node encoded into one sector.
//!
//! A metacluster is a node of the unrolled linked list of free clusters.
//! Its sector layout is: bytes 0..8 the checksum of the next metacluster
//! (little endian), bytes 8..16 the pointer to the next metacluster
//! (little endian, 0 meaning none), then up to [`META_CAPACITY`] packed
//! free-cluster pointers; the unused tail is zero.  Its checksum covers
//! only the *active prefix*: the header plus the live pointers.

use vstd::prelude::*;
use vstd::bytes::{
    lemma_auto_spec_u64_to_from_le_bytes, spec_u64_from_le_bytes, spec_u64_to_le_bytes,
    spec_u64_to_le_bytes_to_open, u64_from_le_bytes, u64_to_le_bytes,
};
use vstd::slice::slice_subrange;
use crate::checksum::{hash, hash_bytes};
use crate::{META_CAPACITY, SECTOR_SIZE};

verus! {

/// One node of the unrolled freelist.  Free pointers are live clusters and
/// therefore never the null pointer 0; a `next` link, when present, is
/// never 0 either (0 encodes "no next node").
pub struct Metacluster {
    /// Active-prefix checksum of the next metacluster.
    pub next_checksum: u64,
    /// Pointer to the next metacluster, if any.
    pub next: Option<u64>,
    /// Pointers to free clusters, oldest first.
    pub free: Vec<u64>,
}

impl Metacluster {
    /// Structural well-formedness: the free array fits in one sector and
    /// holds no null pointer, and the next link is not null.
    pub open spec fn wf(self) -> bool {
        &&& self.free@.len() <= META_CAPACITY
        &&& forall|i: int| 0 <= i < self.free@.len() ==> self.free@[i] != 0
        &&& match self.next {
            Some(n) => n != 0,
            None => true,
        }
    }

    /// The next pointer as encoded on disk: 0 stands for none.
    pub open spec fn next_ptr(self) -> u64 {
        match self.next {
            Some(n) => n,
            None => 0,
        }
    }

    /// Little-endian concatenation of a pointer sequence.
    pub open spec fn free_bytes(free: Seq<u64>) -> Seq<u8>
        decreases free.len(),
    {
        if free.len() == 0 {
            Seq::empty()
        } else {
            Self::free_bytes(free.drop_last()) + spec_u64_to_le_bytes(free.last())
        }
    }

    /// The live part of the encoded sector: header plus live pointers.
    /// The metacluster's checksum covers exactly these bytes.
    pub open spec fn active_prefix(self) -> Seq<u8> {
        prefix_bytes(self.next_checksum, self.next_ptr(), self.free@)
    }

    /// The full encoded sector: active prefix, zero-padded to one sector.
    pub open spec fn encoding(self) -> Seq<u8>
        recommends
            self.wf(),
    {
        encoding_of(self.next_checksum, self.next_ptr(), self.free@)
    }

    /// The checksum of this metacluster: the hash of its active prefix.
    pub open spec fn spec_checksum(self) -> u64 {
        checksum_of(self.next_checksum, self.next_ptr(), self.free@)
    }

    /// Encode the active prefix.
    pub fn encode_prefix(&self) -> (r: Vec<u8>)
        requires
            self.wf(),
        ensures
            r@ == self.active_prefix(),
            r@.len() == 16 + 8 * self.free@.len(),
    {
        let mut buf: Vec<u8> = Vec::new();
        push_u64(&mut buf, self.next_checksum);
        let nxt: u64 = match self.next {
            Some(n) => n,
            None => 0,
        };
        push_u64(&mut buf, nxt);
        let header = Ghost(
            spec_u64_to_le_bytes(self.next_checksum) + spec_u64_to_le_bytes(self.next_ptr()),
        );
        let mut i: usize = 0;
        while i < self.free.len()
            invariant
                i <= self.free@.len(),
                self.wf(),
                header@ == spec_u64_to_le_bytes(self.next_checksum) + spec_u64_to_le_bytes(
                    self.next_ptr(),
                ),
                buf@ == header@ + Self::free_bytes(self.free@.take(i as int)),
            decreases self.free@.len() - i,
        {
            push_u64(&mut buf, self.free[i]);
            proof {
                assert(self.free@.take(i + 1).drop_last() =~= self.free@.take(i as int));
                assert(self.free@.take(i + 1).last() == self.free@[i as int]);
            }
            i = i + 1;
        }
        proof {
            assert(self.free@.take(self.free@.len() as int) =~= self.free@);
            lemma_free_bytes_len(self.free@);
            lemma_auto_spec_u64_to_from_le_bytes();
        }
        buf
    }

    /// Encode the metacluster into its full one-sector representation.
    pub fn encode(&self) -> (r: Vec<u8>)
        requires
            self.wf(),
        ensures
            r@ == self.encoding(),
            r@.len() == SECTOR_SIZE,
    {
        let mut buf: Vec<u8> = self.encode_prefix();
        let plen: usize = buf.len();
        while buf.len() < SECTOR_SIZE
            invariant
                self.wf(),
                plen == 16 + 8 * self.free@.len(),
                plen <= buf@.len() <= SECTOR_SIZE,
                buf@ == self.active_prefix() + Seq::new(
                    (buf@.len() - plen) as nat,
                    |i: int| 0u8,
                ),
            decreases SECTOR_SIZE - buf@.len(),
        {
            buf.push(0u8);
            proof {
                assert(buf@ =~= self.active_prefix() + Seq::new(
                    (buf@.len() - plen) as nat,
                    |i: int| 0u8,
                ));
            }
        }
        buf
    }

    /// Compute the checksum of this metacluster: the configured hash of
    /// its active prefix.
    pub fn checksum(&self) -> (r: u64)
        requires
            self.wf(),
        ensures
            r == self.spec_checksum(),
    {
        let prefix: Vec<u8> = self.encode_prefix();
        hash(prefix.as_slice())
    }

    /// The stored next-metacluster checksum of an encoded sector.
    pub open spec fn decoded_checksum(bytes: Seq<u8>) -> u64 {
        spec_u64_from_le_bytes(bytes.subrange(0, 8))
    }

    /// The stored next pointer of an encoded sector (0 meaning none).
    pub open spec fn decoded_next(bytes: Seq<u8>) -> u64 {
        spec_u64_from_le_bytes(bytes.subrange(8, 16))
    }

    /// The `i`-th stored free pointer of an encoded sector.
    pub open spec fn ptr_at(bytes: Seq<u8>, i: int) -> u64 {
        spec_u64_from_le_bytes(bytes.subrange(16 + 8 * i, 24 + 8 * i))
    }

    /// Number of live pointers from slot `i` on: the decoder counts
    /// leading non-null entries, since a live pointer is never 0.
    pub open spec fn count_from(bytes: Seq<u8>, i: int) -> nat
        decreases META_CAPACITY - i,
    {
        if i < 0 || i >= META_CAPACITY {
            0
        } else if Self::ptr_at(bytes, i) == 0 {
            0
        } else {
            1 + Self::count_from(bytes, i + 1)
        }
    }

    /// Number of live pointers of an encoded sector.
    pub open spec fn decoded_count(bytes: Seq<u8>) -> nat {
        Self::count_from(bytes, 0)
    }

    /// The live pointers of an encoded sector.
    pub open spec fn decoded_free(bytes: Seq<u8>) -> Seq<u64> {
        Seq::new(Self::decoded_count(bytes), |i: int| Self::ptr_at(bytes, i))
    }

    /// Decode one sector into a metacluster.
    pub fn decode(buf: &[u8]) -> (r: Metacluster)
        requires
            buf@.len() == SECTOR_SIZE,
        ensures
            r.wf(),
            r.next_checksum == Self::decoded_checksum(buf@),
            r.next_ptr() == Self::decoded_next(buf@),
            r.free@ == Self::decoded_free(buf@),
    {
        let next_checksum: u64 = u64_from_le_bytes(slice_subrange(buf, 0, 8));
        let np: u64 = u64_from_le_bytes(slice_subrange(buf, 8, 16));
        let next: Option<u64> = if np == 0 {
            None
        } else {
            Some(np)
        };
        let mut free: Vec<u64> = Vec::new();
        let mut i: usize = 0;
        let mut done: bool = false;
        while i < META_CAPACITY && !done
            invariant
                buf@.len() == SECTOR_SIZE,
                i <= META_CAPACITY,
                free@ == Seq::new(i as nat, |j: int| Self::ptr_at(buf@, j)),
                forall|j: int| 0 <= j < i ==> Self::ptr_at(buf@, j) != 0,
                done ==> i < META_CAPACITY && Self::ptr_at(buf@, i as int) == 0,
            decreases META_CAPACITY - i, (if done { 0int } else { 1int }),
        {
            let p: u64 = u64_from_le_bytes(slice_subrange(buf, 16 + 8 * i, 24 + 8 * i));
            if p == 0 {
                done = true;
            } else {
                free.push(p);
                proof {
                    assert(free@ =~= Seq::new((i + 1) as nat, |j: int| Self::ptr_at(buf@, j)));
                }
                i = i + 1;
            }
        }
        proof {
            lemma_count_prefix(buf@, 0, i as int);
            assert(free@ =~= Self::decoded_free(buf@));
        }
        Metacluster { next_checksum, next, free }
    }

    /// Decoding an encoded well-formed metacluster yields it back:
    /// the codec loses nothing.
    pub proof fn lemma_decode_encode(m: Metacluster)
        requires
            m.wf(),
        ensures
            Self::decoded_checksum(m.encoding()) == m.next_checksum,
            Self::decoded_next(m.encoding()) == m.next_ptr(),
            Self::decoded_free(m.encoding()) == m.free@,
    {
        let e = m.encoding();
        let len = m.free@.len() as int;
        lemma_auto_spec_u64_to_from_le_bytes();
        lemma_free_bytes_len(m.free@);
        assert(e.subrange(0, 8) =~= spec_u64_to_le_bytes(m.next_checksum));
        assert(e.subrange(8, 16) =~= spec_u64_to_le_bytes(m.next_ptr()));
        assert forall|i: int| 0 <= i < len implies Self::ptr_at(e, i) == m.free@[i] by {
            lemma_free_bytes_index(m.free@, i);
            assert(e.subrange(16 + 8 * i, 24 + 8 * i) =~= Self::free_bytes(m.free@).subrange(
                8 * i,
                8 * i + 8,
            ));
        }
        if len < META_CAPACITY {
            lemma_from_le_zero();
            assert(e.subrange(16 + 8 * len, 24 + 8 * len) =~= Seq::new(8, |i: int| 0u8));
            assert(Self::ptr_at(e, len) == 0);
        }
        lemma_count_prefix(e, 0, len);
        assert(Self::decoded_free(e) =~= m.free@);
    }
}

/// The active prefix a metacluster with these fields encodes to.
pub open spec fn prefix_bytes(next_checksum: u64, next_ptr: u64, free: Seq<u64>) -> Seq<u8> {
    spec_u64_to_le_bytes(next_checksum) + spec_u64_to_le_bytes(next_ptr)
        + Metacluster::free_bytes(free)
}

/// The checksum of a metacluster with these fields.
pub open spec fn checksum_of(next_checksum: u64, next_ptr: u64, free: Seq<u64>) -> u64 {
    hash_bytes(prefix_bytes(next_checksum, next_ptr, free))
}

/// The full sector a metacluster with these fields encodes to.
pub open spec fn encoding_of(next_checksum: u64, next_ptr: u64, free: Seq<u64>) -> Seq<u8> {
    prefix_bytes(next_checksum, next_ptr, free) + Seq::new(
        (SECTOR_SIZE - 16 - 8 * free.len()) as nat,
        |i: int| 0u8,
    )
}

/// The checksum a raw sector's decoded metacluster has.
pub open spec fn stored_checksum(bytes: Seq<u8>) -> u64 {
    checksum_of(
        Metacluster::decoded_checksum(bytes),
        Metacluster::decoded_next(bytes),
        Metacluster::decoded_free(bytes),
    )
}

/// Append the little-endian encoding of `x` to `buf`.
fn push_u64(buf: &mut Vec<u8>, x: u64)
    ensures
        final(buf)@ == old(buf)@ + spec_u64_to_le_bytes(x),
{
    let mut b: Vec<u8> = u64_to_le_bytes(x);
    buf.append(&mut b);
}

/// The concatenated pointer bytes have eight bytes per pointer.
proof fn lemma_free_bytes_len(free: Seq<u64>)
    ensures
        Metacluster::free_bytes(free).len() == 8 * free.len(),
    decreases free.len(),
{
    lemma_auto_spec_u64_to_from_le_bytes();
    if free.len() > 0 {
        lemma_free_bytes_len(free.drop_last());
    }
}

/// Pointer `i`'s bytes sit at offset `8 * i` of the concatenation.
proof fn lemma_free_bytes_index(free: Seq<u64>, i: int)
    requires
        0 <= i < free.len(),
    ensures
        Metacluster::free_bytes(free).subrange(8 * i, 8 * i + 8) == spec_u64_to_le_bytes(free[i]),
    decreases free.len(),
{
    lemma_auto_spec_u64_to_from_le_bytes();
    lemma_free_bytes_len(free);
    let all = Metacluster::free_bytes(free);
    if i == free.len() - 1 {
        lemma_free_bytes_len(free.drop_last());
        assert(all.subrange(8 * i, 8 * i + 8) =~= spec_u64_to_le_bytes(free.last()));
    } else {
        lemma_free_bytes_index(free.drop_last(), i);
        lemma_free_bytes_len(free.drop_last());
        assert(all.subrange(8 * i, 8 * i + 8) =~= Metacluster::free_bytes(
            free.drop_last(),
        ).subrange(8 * i, 8 * i + 8));
    }
}

/// Eight zero bytes decode to the null pointer.
proof fn lemma_from_le_zero()
    ensures
        spec_u64_from_le_bytes(Seq::new(8, |i: int| 0u8)) == 0,
{
    lemma_auto_spec_u64_to_from_le_bytes();
    spec_u64_to_le_bytes_to_open(0);
    assert((0u64 & 0xff) == 0 && ((0u64 >> 8) & 0xff) == 0 && ((0u64 >> 16) & 0xff) == 0 && ((0u64
        >> 24) & 0xff) == 0 && ((0u64 >> 32) & 0xff) == 0 && ((0u64 >> 40) & 0xff) == 0 && ((0u64
        >> 48) & 0xff) == 0 && ((0u64 >> 56) & 0xff) == 0) by (bit_vector);
    assert(spec_u64_to_le_bytes(0) =~= Seq::new(8, |i: int| 0u8));
}

/// If slots `k..i` are live and slot `i` (when in range) is null, the
/// count from `k` is exactly `i - k`.
proof fn lemma_count_prefix(bytes: Seq<u8>, k: int, i: int)
    requires
        0 <= k <= i <= META_CAPACITY,
        forall|j: int| k <= j < i ==> Metacluster::ptr_at(bytes, j) != 0,
        i < META_CAPACITY ==> Metacluster::ptr_at(bytes, i) == 0,
    ensures
        Metacluster::count_from(bytes, k) == i - k,
    decreases i - k,
{
    if k < i {
        lemma_count_prefix(bytes, k + 1, i);
    }
}

} // verus!
