//! Page pointers and the page-management error type.

use vstd::prelude::*;

verus! {

/// An opaque pointer to one logical page.
///
/// `offset == None` means the cluster stores the page uncompressed,
/// end to end.  `offset == Some(i)` means the cluster is a compressed
/// stream; decompressing it yields a byte sequence whose `i`-th sector
/// is the page.  The embedded checksum (the low 32 bits of the
/// configured hash of the page bytes) is verified on every read.
#[derive(Clone, Copy, Debug, PartialEq, Eq)]
pub struct Pointer {
    /// The cluster holding the page.
    pub cluster: u64,
    /// Sector index into the decompressed stream, or `None` if the
    /// cluster holds the page raw.
    pub offset: Option<u8>,
    /// Checksum of the page content.
    pub checksum: u32,
}

/// A page-management error.
#[derive(Clone, Copy, Debug, PartialEq, Eq)]
pub enum Error {
    /// No clusters left in the freelist: the disk-space equivalent of
    /// running out of memory.
    OutOfClusters,
    /// The checksum of the read page and the checksum stored in the
    /// page pointer did not match: the sector storing the page is
    /// corrupt.
    PageChecksumMismatch {
        /// The pointer whose page mismatched.
        page: Pointer,
        /// The checksum actually computed from the data.
        found: u32,
    },
    /// A metacluster's checksum and the checksum stored for it in the
    /// previous freelist node did not match: the freelist is corrupt
    /// and allocation through that node is refused.
    MetaclusterChecksumMismatch {
        /// The corrupted metacluster.
        cluster: u64,
        /// The stored, expected checksum.
        expected: u64,
        /// The checksum actually computed from the data.
        found: u64,
    },
    /// The cluster's compressed stream cannot be decompressed.
    InvalidCompression {
        /// The cluster whose content is invalid.
        cluster: u64,
    },
    /// The device has no readable sector for this cluster.
    Disk {
        /// The cluster whose sector could not be read.
        cluster: u64,
    },
}

} // verus!
