//! The deduplication table: a content-addressed map from page bytes to
//! the pointer of an already stored page with that exact content.
//!
//! Lookups compare the full content, so a hit can never pair a buffer
//! with a foreign page; a miss is always safe and merely allocates anew.

use vstd::prelude::*;
use crate::page::Pointer;

verus! {

/// The deduplication table.
pub struct Table {
    entries: Vec<(Vec<u8>, Pointer)>,
}

impl Table {
    /// The recorded (content, pointer) pairs, oldest first.
    pub closed spec fn entries_view(self) -> Seq<(Seq<u8>, Pointer)> {
        self.entries@.map_values(|e: (Vec<u8>, Pointer)| (e.0@, e.1))
    }

    /// What a lookup finds: the most recently inserted pointer whose
    /// recorded content equals `buf`.
    pub open spec fn spec_lookup(entries: Seq<(Seq<u8>, Pointer)>, buf: Seq<u8>) -> Option<Pointer>
        decreases entries.len(),
    {
        if entries.len() == 0 {
            None
        } else if entries.last().0 == buf {
            Some(entries.last().1)
        } else {
            Self::spec_lookup(entries.drop_last(), buf)
        }
    }

    /// The table's answer for content `buf`.
    pub open spec fn lookup_of(self, buf: Seq<u8>) -> Option<Pointer> {
        Self::spec_lookup(self.entries_view(), buf)
    }

    /// An empty table.
    pub fn new() -> (r: Table)
        ensures
            r.entries_view() == Seq::<(Seq<u8>, Pointer)>::empty(),
    {
        let r = Table { entries: Vec::new() };
        proof {
            assert(r.entries_view() =~= Seq::<(Seq<u8>, Pointer)>::empty());
        }
        r
    }

    /// Probe the table for a page whose content equals `buf`.
    pub fn dedup(&self, buf: &[u8]) -> (r: Option<Pointer>)
        ensures
            r == self.lookup_of(buf@),
    {
        let mut j: usize = self.entries.len();
        proof {
            assert(self.entries_view().take(j as int) =~= self.entries_view());
        }
        while j > 0
            invariant
                j <= self.entries@.len(),
                Self::spec_lookup(self.entries_view(), buf@) == Self::spec_lookup(
                    self.entries_view().take(j as int),
                    buf@,
                ),
            decreases j,
        {
            j = j - 1;
            if bytes_eq(self.entries[j].0.as_slice(), buf) {
                proof {
                    assert(self.entries_view().take(j + 1).last() == (
                        self.entries@[j as int].0@,
                        self.entries@[j as int].1,
                    ));
                }
                return Some(self.entries[j].1);
            }
            proof {
                assert(self.entries_view().take(j + 1).drop_last() =~= self.entries_view().take(
                    j as int,
                ));
                assert(self.entries_view().take(j + 1).last().0 != buf@);
            }
        }
        None
    }

    /// Record that `buf`'s content now lives at `ptr`.
    pub fn insert(&mut self, buf: Vec<u8>, ptr: Pointer)
        ensures
            final(self).entries_view() == old(self).entries_view().push((buf@, ptr)),
    {
        let ghost pre = self.entries_view();
        self.entries.push((buf, ptr));
        proof {
            assert(self.entries_view() =~= pre.push((buf@, ptr)));
        }
    }
}

/// A lookup right after an insert finds the inserted pointer for the
/// same content and is otherwise undisturbed.
pub proof fn lemma_lookup_insert(
    entries: Seq<(Seq<u8>, Pointer)>,
    buf: Seq<u8>,
    ptr: Pointer,
    q: Seq<u8>,
)
    ensures
        Table::spec_lookup(entries.push((buf, ptr)), q) == if q == buf {
            Some(ptr)
        } else {
            Table::spec_lookup(entries, q)
        },
{
    assert(entries.push((buf, ptr)).last() == (buf, ptr));
    assert(entries.push((buf, ptr)).drop_last() =~= entries);
}

/// A successful lookup names a recorded entry: some entry holds
/// exactly the probed content and the returned pointer.
pub proof fn lemma_lookup_found(entries: Seq<(Seq<u8>, Pointer)>, buf: Seq<u8>, p: Pointer)
    requires
        Table::spec_lookup(entries, buf) == Some(p),
    ensures
        exists|i: int| 0 <= i < entries.len() && #[trigger] entries[i] == (buf, p),
    decreases entries.len(),
{
    if entries.last().0 == buf {
        assert(entries[entries.len() - 1] == (buf, p));
    } else {
        lemma_lookup_found(entries.drop_last(), buf, p);
        let i = choose|i: int|
            0 <= i < entries.drop_last().len() && #[trigger] entries.drop_last()[i] == (buf, p);
        assert(entries[i] == (buf, p));
    }
}

/// Bytewise equality of two byte strings.
fn bytes_eq(a: &[u8], b: &[u8]) -> (r: bool)
    ensures
        r <==> a@ == b@,
{
    if a.len() != b.len() {
        proof {
            assert(a@.len() != b@.len());
        }
        return false;
    }
    let mut i: usize = 0;
    while i < a.len()
        invariant
            i <= a@.len(),
            a@.len() == b@.len(),
            forall|k: int| 0 <= k < i ==> a@[k] == b@[k],
        decreases a@.len() - i,
    {
        if a[i] != b[i] {
            proof {
                assert(a@[i as int] != b@[i as int]);
            }
            return false;
        }
        i = i + 1;
    }
    proof {
        assert(a@ =~= b@);
    }
    true
}

} // verus!
