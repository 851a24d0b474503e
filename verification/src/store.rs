//! The sector store: an in-memory image of the cached block device.
//!
//! The page manager reads and writes whole sectors keyed by cluster
//! pointer.  The store models the write-back cache it sits on: a write is
//! immediately visible to later reads.

use vstd::prelude::*;
use std::collections::HashMap;
use crate::SECTOR_SIZE;

verus! {

broadcast use vstd::std_specs::hash::group_hash_axioms;

/// A map from cluster pointers to their one-sector contents.
pub struct SectorStore {
    map: HashMap<u64, Vec<u8>>,
}

impl SectorStore {
    /// The stored sectors, as a map from cluster pointer to bytes.
    pub closed spec fn sectors(self) -> Map<u64, Seq<u8>> {
        self.map@.map_values(|v: Vec<u8>| v@)
    }

    /// Every stored sector is exactly one sector long.
    pub open spec fn wf(self) -> bool {
        forall|c: u64| #[trigger]
            self.sectors().contains_key(c) ==> self.sectors()[c].len() == SECTOR_SIZE
    }

    /// An empty device image.
    pub fn new() -> (r: SectorStore)
        ensures
            r.sectors() == Map::<u64, Seq<u8>>::empty(),
            r.wf(),
    {
        let r = SectorStore { map: HashMap::new() };
        proof {
            assert(r.sectors() =~= Map::<u64, Seq<u8>>::empty());
        }
        r
    }

    /// Write one sector: later reads of `cluster` see exactly `data`.
    pub fn write(&mut self, cluster: u64, data: Vec<u8>)
        requires
            data@.len() == SECTOR_SIZE,
        ensures
            final(self).sectors() == old(self).sectors().insert(cluster, data@),
            old(self).wf() ==> final(self).wf(),
    {
        let ghost pre = self.map@;
        self.map.insert(cluster, data);
        proof {
            assert(self.sectors() =~= old(self).sectors().insert(cluster, data@));
        }
    }

    /// Read one sector, or `None` when the cluster was never written.
    pub fn read(&self, cluster: u64) -> (r: Option<&Vec<u8>>)
        ensures
            match r {
                Some(v) => self.sectors().contains_key(cluster) && v@ == self.sectors()[cluster],
                None => !self.sectors().contains_key(cluster),
            },
    {
        self.map.get(&cluster)
    }

    /// Whether a sector is present for `cluster`.
    pub fn contains(&self, cluster: u64) -> (r: bool)
        ensures
            r == self.sectors().contains_key(cluster),
    {
        self.map.contains_key(&cluster)
    }
}

} // verus!
