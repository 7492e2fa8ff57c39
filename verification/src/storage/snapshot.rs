//! Snapshot store: complete, self-sufficient copies of the working context,
//! each tagged with the WAL sequence number at the time of writing.

use vstd::prelude::*;
use crate::model::{CtxView, WorkingContext};

verus! {

/// One stored snapshot: the WAL tag and the full context at that point.
pub struct SnapEntry {
    pub tag: u64,
    pub ctx: WorkingContext,
}

/// The snapshot recovery starts from: the most recently written one, or the
/// initial context with tag zero when none exists.
pub open spec fn latest_entry(entries: Seq<(u64, CtxView)>) -> (u64, CtxView) {
    if entries.len() == 0 {
        (0, CtxView::initial())
    } else {
        entries.last()
    }
}

/// Law: a snapshot read back immediately after it was written — with no
/// further snapshot in between — yields exactly the context and tag that were
/// written.
pub proof fn lemma_snapshot_roundtrip(entries: Seq<(u64, CtxView)>, tag: u64, c: CtxView)
    ensures
        latest_entry(entries.push((tag, c))) == (tag, c),
{
}

/// Writes and reads full snapshots of the working context.
pub struct SnapWriter {
    snaps: Vec<SnapEntry>,
}

impl SnapWriter {
    /// The stored snapshots as (tag, context) pairs, oldest first.
    pub closed spec fn entries(&self) -> Seq<(u64, CtxView)> {
        self.snaps@.map_values(|e: SnapEntry| (e.tag, e.ctx@))
    }

    /// An empty snapshot store.
    pub fn new() -> (w: SnapWriter)
        ensures
            w.entries() == Seq::<(u64, CtxView)>::empty(),
    {
        let w = SnapWriter { snaps: Vec::new() };
        proof {
            assert(w.entries() =~= Seq::<(u64, CtxView)>::empty());
        }
        w
    }

    /// Stores a full copy of `ctx` under `tag` and returns the tag.
    pub fn write_snapshot(&mut self, ctx: &WorkingContext, tag: u64) -> (r: u64)
        ensures
            r == tag,
            final(self).entries() == old(self).entries().push((tag, ctx@)),
    {
        let ghost before: Seq<SnapEntry> = self.snaps@;
        let entry = SnapEntry { tag, ctx: ctx.clone() };
        self.snaps.push(entry);
        proof {
            assert(self.entries() =~= old(self).entries().push((tag, ctx@)));
        }
        tag
    }

    /// Returns the latest snapshot and its tag, or the initial context with
    /// tag zero when none was ever written.
    pub fn load_latest(&self) -> (r: (WorkingContext, u64))
        ensures
            (r.1, r.0@) == latest_entry(self.entries()),
    {
        if self.snaps.len() == 0 {
            let c = WorkingContext::default();
            (c, 0)
        } else {
            let e = &self.snaps[self.snaps.len() - 1];
            (e.ctx.clone(), e.tag)
        }
    }
}

impl Default for SnapWriter {
    fn default() -> (w: SnapWriter)
        ensures
            w.entries() == Seq::<(u64, CtxView)>::empty(),
    {
        SnapWriter::new()
    }
}

} // verus!
