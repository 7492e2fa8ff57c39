//! Blob storage: large event payloads live here and are referenced from
//! events by pointer.

use vstd::prelude::*;

verus! {

/// Reference to a stored payload.
pub type BlobPtr = u64;

/// The payload a store hands back for a pointer: the most recently stored
/// bytes, or nothing when the pointer was never written.
pub open spec fn blob_lookup(s: Seq<(u64, Seq<u8>)>, ptr: u64) -> Option<Seq<u8>>
    decreases s.len(),
{
    if s.len() == 0 {
        None
    } else if s.last().0 == ptr {
        Some(s.last().1)
    } else {
        blob_lookup(s.drop_last(), ptr)
    }
}

/// In-memory blob store; a later write to the same pointer wins.
pub struct KvStore {
    blobs: Vec<(u64, Vec<u8>)>,
}

impl KvStore {
    /// The stored blobs in write order.
    pub closed spec fn blobs_view(&self) -> Seq<(u64, Seq<u8>)> {
        self.blobs@.map_values(|e: (u64, Vec<u8>)| (e.0, e.1@))
    }

    /// An empty blob store.
    pub fn new() -> (s: KvStore)
        ensures
            s.blobs_view() == Seq::<(u64, Seq<u8>)>::empty(),
    {
        let s = KvStore { blobs: Vec::new() };
        proof {
            assert(s.blobs_view() =~= Seq::<(u64, Seq<u8>)>::empty());
        }
        s
    }

    /// Stores `data` under `ptr`, superseding any earlier write to `ptr`.
    pub fn put_blob(&mut self, ptr: BlobPtr, data: Vec<u8>)
        ensures
            final(self).blobs_view() == old(self).blobs_view().push((ptr, data@)),
            blob_lookup(final(self).blobs_view(), ptr) == Some(data@),
            forall|q: u64|
                q != ptr ==> blob_lookup(final(self).blobs_view(), q) == blob_lookup(
                    old(self).blobs_view(),
                    q,
                ),
    {
        self.blobs.push((ptr, data));
        proof {
            assert(self.blobs_view() =~= old(self).blobs_view().push((ptr, data@)));
            assert(self.blobs_view().drop_last() =~= old(self).blobs_view());
        }
    }

    /// Returns the most recently stored payload for `ptr`, if any.
    pub fn get_blob(&self, ptr: BlobPtr) -> (r: Option<&Vec<u8>>)
        ensures
            match r {
                Some(data) => blob_lookup(self.blobs_view(), ptr) == Some(data@),
                None => blob_lookup(self.blobs_view(), ptr) is None,
            },
    {
        let n = self.blobs.len();
        let mut i: usize = n;
        proof {
            assert(self.blobs_view().take(n as int) =~= self.blobs_view());
        }
        while i > 0
            invariant
                n == self.blobs@.len(),
                0 <= i <= n,
                blob_lookup(self.blobs_view().take(i as int), ptr) == blob_lookup(
                    self.blobs_view(),
                    ptr,
                ),
            decreases i,
        {
            proof {
                assert(self.blobs_view().take(i as int).drop_last() =~= self.blobs_view().take(
                    i as int - 1,
                ));
                assert(self.blobs_view().take(i as int).last() == self.blobs_view()[i as int - 1]);
            }
            if self.blobs[i - 1].0 == ptr {
                return Some(&self.blobs[i - 1].1);
            }
            i = i - 1;
        }
        proof {
            assert(self.blobs_view().take(0) =~= Seq::<(u64, Seq<u8>)>::empty());
        }
        None
    }
}

impl Default for KvStore {
    fn default() -> (s: KvStore)
        ensures
            s.blobs_view() == Seq::<(u64, Seq<u8>)>::empty(),
    {
        KvStore::new()
    }
}

} // verus!
