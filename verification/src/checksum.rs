//! The configured checksum algorithm: a 64-bit FNV-1a hash.
//!
//! Metacluster checksums use the full 64-bit value; page checksums keep
//! only the low 32 bits.

use vstd::prelude::*;

verus! {

/// FNV-1a 64-bit offset basis: the hash of the empty byte sequence.
pub const HASH_OFFSET: u64 = 0xcbf29ce484222325;

/// FNV-1a 64-bit prime.
pub const HASH_PRIME: u64 = 0x100000001b3;

/// One step of the hash: fold one byte into the accumulator.
pub open spec fn hash_step(h: u64, b: u8) -> u64 {
    vstd::wrapping::u64_specs::wrapping_mul(h ^ (b as u64), HASH_PRIME)
}

/// The checksum of a byte sequence.
pub open spec fn hash_bytes(s: Seq<u8>) -> u64
    decreases s.len(),
{
    if s.len() == 0 {
        HASH_OFFSET
    } else {
        hash_step(hash_bytes(s.drop_last()), s.last())
    }
}

/// The low 32 bits of a 64-bit checksum, as stored in page pointers.
pub open spec fn low32(x: u64) -> u32 {
    (x & 0xffff_ffff) as u32
}

/// Hash a byte slice with the configured checksum algorithm.
pub fn hash(data: &[u8]) -> (r: u64)
    ensures
        r == hash_bytes(data@),
{
    let mut h: u64 = HASH_OFFSET;
    let mut i: usize = 0;
    while i < data.len()
        invariant
            0 <= i <= data@.len(),
            h == hash_bytes(data@.take(i as int)),
        decreases data@.len() - i,
    {
        h = (h ^ (data[i] as u64)).wrapping_mul(HASH_PRIME);
        proof {
            assert(data@.take(i + 1).drop_last() =~= data@.take(i as int));
            assert(data@.take(i + 1).last() == data@[i as int]);
        }
        i = i + 1;
    }
    proof {
        assert(data@.take(data@.len() as int) =~= data@);
    }
    h
}

/// Hash a byte slice and keep the low 32 bits, the form used in page pointers.
pub fn hash32(data: &[u8]) -> (r: u32)
    ensures
        r == low32(hash_bytes(data@)),
{
    let h: u64 = hash(data);
    proof {
        assert(h & 0xffff_ffffu64 <= 0xffff_ffffu64) by (bit_vector);
    }
    (h & 0xffff_ffff) as u32
}

} // verus!
