//! Compression shim and sector framing.
//!
//! A compressed cluster holds a framed LZ4 stream: a two-byte
//! little-endian length prefix, the compressed bytes, then zero padding
//! to the end of the sector.  The length prefix keeps the framing
//! injective, so a decoder never confuses padding with payload.

use vstd::prelude::*;
use vstd::bytes::{
    lemma_auto_spec_u16_to_from_le_bytes, spec_u16_from_le_bytes, spec_u16_to_le_bytes,
    u16_from_le_bytes, u16_to_le_bytes,
};
use vstd::slice::{slice_subrange, slice_to_vec};
use crate::SECTOR_SIZE;

verus! {

/// The LZ4 stream that the codec produces for the given input bytes.
/// The codec is deterministic: on a given build target the stream
/// depends on the input alone (its dictionary hash reads the input in
/// native byte order, so the stream is per target; no stream here ever
/// moves between targets).
pub uninterp spec fn lz4_of(data: Seq<u8>) -> Seq<u8>;

/// What the decoder makes of arbitrary bytes: the decoded stream, or
/// `None` where it reports an error.  The decoder is deterministic: the
/// outcome depends on the input alone.
pub uninterp spec fn lz4_decoded(data: Seq<u8>) -> Option<Seq<u8>>;

/// Relies on lz4_compress::compress: a pure function of the input
/// bytes on a given build target, whose result we name `lz4_of`.
#[verifier::external_body]
fn lz4_compress_bytes(data: &[u8]) -> (r: Vec<u8>)
    ensures
        r@ == lz4_of(data@),
{
    lz4_compress::compress(data)
}

/// Relies on lz4_compress::decompress: a deterministic function of the
/// input bytes, whose outcome we name `lz4_decoded`; and the codec is
/// lossless, so decompressing the stream compressed from `orig` yields
/// `orig` back.  Of other inputs only determinism is claimed.
#[verifier::external_body]
fn lz4_decompress_bytes(data: &[u8]) -> (r: Option<Vec<u8>>)
    ensures
        r matches Some(d) ==> lz4_decoded(data@) == Some(d@),
        r is None ==> lz4_decoded(data@) is None,
        r is None ==> (forall|orig: Seq<u8>| data@ != lz4_of(orig)),
        r matches Some(d) ==> (forall|orig: Seq<u8>| data@ == lz4_of(orig) ==> d@ == orig),
{
    match lz4_compress::decompress(data) {
        Ok(v) => Some(v),
        Err(_) => None,
    }
}

/// A payload framed into one sector: length prefix, payload, zero padding.
pub open spec fn framed(payload: Seq<u8>) -> Seq<u8>
    recommends
        payload.len() + 2 <= SECTOR_SIZE,
{
    spec_u16_to_le_bytes(payload.len() as u16) + payload + Seq::new(
        (SECTOR_SIZE - 2 - payload.len()) as nat,
        |i: int| 0u8,
    )
}

/// The payload a framed sector carries, or `None` when the length
/// prefix overruns the sector.
pub open spec fn unframed(sector: Seq<u8>) -> Option<Seq<u8>>
    recommends
        sector.len() == SECTOR_SIZE,
{
    let len = spec_u16_from_le_bytes(sector.subrange(0, 2)) as int;
    if 2 + len <= SECTOR_SIZE {
        Some(sector.subrange(2, 2 + len))
    } else {
        None
    }
}

/// Unframing inverts framing: the length prefix makes framing injective.
pub proof fn lemma_unframe_frame(payload: Seq<u8>)
    requires
        payload.len() + 2 <= SECTOR_SIZE,
    ensures
        unframed(framed(payload)) == Some(payload),
{
    lemma_auto_spec_u16_to_from_le_bytes();
    let s = framed(payload);
    assert(s.subrange(0, 2) =~= spec_u16_to_le_bytes(payload.len() as u16));
    assert(spec_u16_from_le_bytes(s.subrange(0, 2)) == payload.len());
    assert(s.subrange(2, 2 + payload.len() as int) =~= payload);
}

/// Frame a payload into one full sector.
fn frame(payload: &Vec<u8>) -> (r: Vec<u8>)
    requires
        payload@.len() + 2 <= SECTOR_SIZE,
    ensures
        r@ == framed(payload@),
        r@.len() == SECTOR_SIZE,
{
    proof {
        lemma_auto_spec_u16_to_from_le_bytes();
    }
    let mut r: Vec<u8> = u16_to_le_bytes(payload.len() as u16);
    let mut i: usize = 0;
    while i < payload.len()
        invariant
            i <= payload@.len(),
            payload@.len() + 2 <= SECTOR_SIZE,
            r@ == spec_u16_to_le_bytes(payload@.len() as u16) + payload@.take(i as int),
        decreases payload@.len() - i,
    {
        r.push(payload[i]);
        proof {
            assert(r@ =~= spec_u16_to_le_bytes(payload@.len() as u16) + payload@.take(i + 1));
        }
        i = i + 1;
    }
    proof {
        assert(payload@.take(payload@.len() as int) =~= payload@);
    }
    let base = Ghost(r@);
    while r.len() < SECTOR_SIZE
        invariant
            base@.len() == 2 + payload@.len() <= SECTOR_SIZE,
            base@.len() <= r@.len() <= SECTOR_SIZE,
            r@ == base@ + Seq::new((r@.len() - base@.len()) as nat, |i: int| 0u8),
        decreases SECTOR_SIZE - r@.len(),
    {
        r.push(0u8);
        proof {
            assert(r@ =~= base@ + Seq::new((r@.len() - base@.len()) as nat, |i: int| 0u8));
        }
    }
    proof {
        assert(r@ =~= framed(payload@));
    }
    r
}

/// Recover the framed payload of one sector.
fn unframe(sector: &[u8]) -> (r: Option<Vec<u8>>)
    requires
        sector@.len() == SECTOR_SIZE,
    ensures
        match r {
            Some(v) => unframed(sector@) == Some(v@),
            None => unframed(sector@) is None,
        },
{
    proof {
        lemma_auto_spec_u16_to_from_le_bytes();
    }
    let prefix: &[u8] = slice_subrange(sector, 0, 2);
    let len: u16 = u16_from_le_bytes(prefix);
    if (len as usize) <= SECTOR_SIZE - 2 {
        let v: Vec<u8> = slice_to_vec(slice_subrange(sector, 2, 2 + len as usize));
        Some(v)
    } else {
        None
    }
}

/// Compress one buffer and frame it into a sector, or report that the
/// compressed stream does not fit in one sector.
pub fn compress_page(data: &[u8]) -> (r: Option<Vec<u8>>)
    ensures
        lz4_of(data@).len() + 2 <= SECTOR_SIZE ==> (r matches Some(s) && s@ == framed(
            lz4_of(data@),
        ) && s@.len() == SECTOR_SIZE),
        lz4_of(data@).len() + 2 > SECTOR_SIZE ==> r is None,
{
    let c: Vec<u8> = lz4_compress_bytes(data);
    if c.len() <= SECTOR_SIZE - 2 {
        Some(frame(&c))
    } else {
        None
    }
}

/// The page stream one stored sector carries: its framed payload run
/// through the decoder, `None` when the framing or the stream is bad.
pub open spec fn cluster_stream(sector: Seq<u8>) -> Option<Seq<u8>> {
    match unframed(sector) {
        None => None,
        Some(p) => lz4_decoded(p),
    }
}

/// Decompress one framed cluster: exactly [`cluster_stream`].  For any
/// sector that is the framing of a compressed stream, the original
/// bytes come back.
pub fn decompress_cluster(sector: &[u8]) -> (r: Option<Vec<u8>>)
    requires
        sector@.len() == SECTOR_SIZE,
    ensures
        r matches Some(d) ==> cluster_stream(sector@) == Some(d@),
        r is None ==> cluster_stream(sector@) is None,
        forall|orig: Seq<u8>|
            (sector@ == framed(lz4_of(orig)) && lz4_of(orig).len() + 2 <= SECTOR_SIZE) ==> (
            r matches Some(d) && d@ == orig),
{
    let uf: Option<Vec<u8>> = unframe(sector);
    let r: Option<Vec<u8>> = match uf {
        Some(p) => lz4_decompress_bytes(p.as_slice()),
        None => None,
    };
    proof {
        assert forall|orig: Seq<u8>|
            sector@ == framed(lz4_of(orig)) && lz4_of(orig).len() + 2
                <= SECTOR_SIZE implies (r matches Some(d) && d@ == orig) by {
            lemma_unframe_frame(lz4_of(orig));
        };
    }
    r
}

} // verus!
