//! Page management for a block-device storage engine.
//!
//! The library turns a pool of fixed-size sectors into logical *pages*
//! addressed by opaque pointers.  It allocates and frees storage at cluster
//! granularity through an on-disk freelist of unrolled linked-list nodes
//! (metaclusters), packs several compressed pages into a single cluster,
//! deduplicates pages with identical content, and verifies a checksum on
//! every read.

use vstd::prelude::*;

pub mod checksum;
pub mod compress;
pub mod dedup;
pub mod laws;
pub mod manager;
pub mod metacluster;
pub mod page;
pub mod state_block;
pub mod store;

verus! {

/// Size in bytes of one device sector, the atomic unit of the device.
/// A cluster is one sector; a page is one sector's worth of logical data.
pub const SECTOR_SIZE: usize = 512;

/// Size in bytes of an encoded cluster pointer.
pub const POINTER_SIZE: usize = 8;

/// Number of free-cluster pointers a metacluster can hold:
/// the sector minus the 16-byte header, in pointers.
pub const META_CAPACITY: usize = 62;

/// Soft cap on the uncompressed buffer of the cluster being packed,
/// bounding memory use against adversarial inflation.
pub const CLUSTER_CAPACITY: usize = 512 * 2048;

} // verus!
