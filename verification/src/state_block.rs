//! The state block: configuration and the freelist-head descriptor,
//! encoded into the well-known sector named by the device header.
//!
//! Layout: byte 0 the compression algorithm, byte 1 whether a freelist
//! head exists, bytes 8..16 the head metacluster's cluster pointer,
//! bytes 16..24 its active-prefix checksum, byte 24 its live-pointer
//! counter; everything else zero.  Checksum and counter share the one
//! sector, so a single atomic sector write commits a freelist operation.

use vstd::prelude::*;
use vstd::bytes::{
    lemma_auto_spec_u64_to_from_le_bytes, spec_u64_from_le_bytes, spec_u64_to_le_bytes,
    u64_from_le_bytes, u64_to_le_bytes,
};
use vstd::slice::slice_subrange;
use crate::SECTOR_SIZE;

verus! {

/// The configured compression codec.  `Identity` is the sentinel for
/// "compression disabled": the codec is then never called.
#[derive(Clone, Copy, Debug, PartialEq, Eq)]
pub enum CompressionAlgorithm {
    /// Store pages raw; the packer is bypassed.
    Identity,
    /// Pack pages as framed LZ4 streams.
    Lz4,
}

/// The immutable configuration part of the state block.
#[derive(Clone, Copy, Debug, PartialEq, Eq)]
pub struct Config {
    /// Which compression codec clusters use.
    pub compression_algorithm: CompressionAlgorithm,
}

/// The descriptor of the head metacluster, as stored in the state block.
#[derive(Clone, Copy, Debug, PartialEq, Eq)]
pub struct FreelistHead {
    /// The cluster holding the head metacluster.
    pub cluster: u64,
    /// The head metacluster's active-prefix checksum.
    pub checksum: u64,
    /// How many free pointers are live in the head metacluster.
    pub counter: u8,
}

/// The mutable state part of the state block.
#[derive(Clone, Copy, Debug, PartialEq, Eq)]
pub struct State {
    /// The head of the freelist, or `None` when the freelist is empty.
    pub freelist_head: Option<FreelistHead>,
}

/// The encoding of one byte of configuration.
pub open spec fn compression_byte(c: CompressionAlgorithm) -> u8 {
    match c {
        CompressionAlgorithm::Identity => 0,
        CompressionAlgorithm::Lz4 => 1,
    }
}

/// The encoded state-block sector.
pub open spec fn state_block_bytes(config: Config, state: State) -> Seq<u8> {
    let (present, cluster, checksum, counter): (u8, u64, u64, u8) = match state.freelist_head {
        None => (0u8, 0u64, 0u64, 0u8),
        Some(fh) => (1u8, fh.cluster, fh.checksum, fh.counter),
    };
    seq![
        compression_byte(config.compression_algorithm),
        present,
        0u8,
        0u8,
        0u8,
        0u8,
        0u8,
        0u8,
    ] + spec_u64_to_le_bytes(cluster) + spec_u64_to_le_bytes(checksum) + seq![counter] + Seq::new(
        (SECTOR_SIZE - 25) as nat,
        |i: int| 0u8,
    )
}

/// The freelist-head descriptor stored in an encoded state block.
pub open spec fn decoded_head(bytes: Seq<u8>) -> Option<FreelistHead>
    recommends
        bytes.len() == SECTOR_SIZE,
{
    if bytes[1] == 0 {
        None
    } else {
        Some(
            FreelistHead {
                cluster: spec_u64_from_le_bytes(bytes.subrange(8, 16)),
                checksum: spec_u64_from_le_bytes(bytes.subrange(16, 24)),
                counter: bytes[24],
            },
        )
    }
}

/// Encode configuration and state into one state-block sector.
pub fn encode_state_block(config: &Config, state: &State) -> (r: Vec<u8>)
    ensures
        r@ == state_block_bytes(*config, *state),
        r@.len() == SECTOR_SIZE,
{
    let (present, cluster, checksum, counter): (u8, u64, u64, u8) = match state.freelist_head {
        None => (0u8, 0u64, 0u64, 0u8),
        Some(fh) => (1u8, fh.cluster, fh.checksum, fh.counter),
    };
    let cb: u8 = match config.compression_algorithm {
        CompressionAlgorithm::Identity => 0,
        CompressionAlgorithm::Lz4 => 1,
    };
    let mut r: Vec<u8> = Vec::new();
    r.push(cb);
    r.push(present);
    let mut i: usize = 0;
    while i < 6
        invariant
            i <= 6,
            r@ == seq![cb, present] + Seq::new(i as nat, |j: int| 0u8),
        decreases 6 - i,
    {
        r.push(0u8);
        proof {
            assert(r@ =~= seq![cb, present] + Seq::new((i + 1) as nat, |j: int| 0u8));
        }
        i = i + 1;
    }
    proof {
        assert(r@ =~= seq![cb, present, 0u8, 0u8, 0u8, 0u8, 0u8, 0u8]);
    }
    let mut b: Vec<u8> = u64_to_le_bytes(cluster);
    r.append(&mut b);
    let mut b2: Vec<u8> = u64_to_le_bytes(checksum);
    r.append(&mut b2);
    r.push(counter);
    let base = Ghost(r@);
    while r.len() < SECTOR_SIZE
        invariant
            base@.len() == 25,
            base@.len() <= r@.len() <= SECTOR_SIZE,
            r@ == base@ + Seq::new((r@.len() - base@.len()) as nat, |j: int| 0u8),
        decreases SECTOR_SIZE - r@.len(),
    {
        r.push(0u8);
        proof {
            assert(r@ =~= base@ + Seq::new((r@.len() - base@.len()) as nat, |j: int| 0u8));
        }
    }
    proof {
        assert(r@ =~= state_block_bytes(*config, *state));
    }
    r
}

/// Decode the freelist-head descriptor out of a state-block sector.
pub fn decode_head(buf: &Vec<u8>) -> (r: Option<FreelistHead>)
    requires
        buf@.len() == SECTOR_SIZE,
    ensures
        r == decoded_head(buf@),
{
    if buf[1] == 0 {
        None
    } else {
        let cluster: u64 = u64_from_le_bytes(slice_subrange(buf.as_slice(), 8, 16));
        let checksum: u64 = u64_from_le_bytes(slice_subrange(buf.as_slice(), 16, 24));
        Some(FreelistHead { cluster, checksum, counter: buf[24] })
    }
}

/// Decoding an encoded state block yields the state back.
pub proof fn lemma_state_block_roundtrip(config: Config, state: State)
    ensures
        decoded_head(state_block_bytes(config, state)) == state.freelist_head,
{
    lemma_auto_spec_u64_to_from_le_bytes();
    let e = state_block_bytes(config, state);
    match state.freelist_head {
        None => {
            assert(e[1] == 0);
        },
        Some(fh) => {
            assert(e[1] == 1);
            assert(e.subrange(8, 16) =~= spec_u64_to_le_bytes(fh.cluster));
            assert(e.subrange(16, 24) =~= spec_u64_to_le_bytes(fh.checksum));
            assert(e[24] == fh.counter);
        },
    }
}

} // verus!
