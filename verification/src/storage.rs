//! Persistence layer: write-ahead log, snapshot store, blob storage, and
//! crash recovery.
//!
//! Recovery loads the latest snapshot (or the initial context with tag zero
//! when none exists) and replays every WAL record with a sequence number
//! strictly greater than the snapshot's tag, in order.

pub mod codec;
pub mod kv;
pub mod snapshot;
pub mod wal;

use vstd::prelude::*;
use crate::model::{CtxView, WorkingContext};
use crate::storage::snapshot::{latest_entry, SnapWriter};
use crate::storage::wal::{
    lemma_replay_split, ops_of, replay, replay_ops, WalOp, WalWriter, DEFAULT_FSYNC_DEADLINE_NS,
};

verus! {

/// A persistence failure; fatal to the control loop.
#[derive(Clone, Copy, Debug, PartialEq, Eq, Structural)]
pub enum PersistError {
    /// A stored record failed its integrity check when read back.
    CorruptRecord,
}

/// Write-ahead-log handle owned by the control loop.
pub struct WAL {
    pub writer: WalWriter,
}

impl WAL {
    pub open spec fn wf(&self) -> bool {
        self.writer.wf()
    }

    /// Flushes if the unflushed tail has outlived the fsync deadline at
    /// `now_ns`; afterwards every record written before the call is durable.
    pub fn maybe_flush(&mut self, now_ns: u64) -> (r: Result<(), PersistError>)
        requires
            old(self).wf(),
        ensures
            r is Ok,
            final(self).wf(),
            final(self).writer.recs@ == old(self).writer.recs@,
            final(self).writer.flush_deadline_ns == old(self).writer.flush_deadline_ns,
            old(self).writer.flush_due(now_ns) ==> (final(self).writer.durable_len
                == final(self).writer.recs@.len() && final(self).writer.last_flush_ns == now_ns),
            !old(self).writer.flush_due(now_ns) ==> (final(self).writer.durable_len
                == old(self).writer.durable_len && final(self).writer.last_flush_ns
                == old(self).writer.last_flush_ns),
    {
        self.writer.fsync_deadline(now_ns);
        Ok(())
    }
}

impl Default for WAL {
    fn default() -> (w: WAL)
        ensures
            w.wf(),
            w.writer.recs@.len() == 0,
            w.writer.durable_len == 0,
            w.writer.last_flush_ns == 0,
            w.writer.flush_deadline_ns == DEFAULT_FSYNC_DEADLINE_NS,
    {
        WAL { writer: WalWriter::new(DEFAULT_FSYNC_DEADLINE_NS) }
    }
}

/// Snapshot handle owned by the control loop.
pub struct Snapshot {
    pub writer: SnapWriter,
}

impl Snapshot {
    /// Stores a full copy of `ctx` tagged with the WAL position `tag`.
    pub fn write_snapshot(&mut self, ctx: &WorkingContext, tag: u64) -> (r: Result<
        (),
        PersistError,
    >)
        ensures
            r is Ok,
            final(self).writer.entries() == old(self).writer.entries().push((tag, ctx@)),
    {
        let _ = self.writer.write_snapshot(ctx, tag);
        Ok(())
    }

    /// Returns the latest snapshot and its tag, or the initial context with
    /// tag zero when none was ever written.
    pub fn load_latest(&self) -> (r: Result<(WorkingContext, u64), PersistError>)
        ensures
            r is Ok,
            ({
                let p = r->Ok_0;
                (p.1, p.0@) == latest_entry(self.writer.entries())
            }),
    {
        Ok(self.writer.load_latest())
    }
}

impl Default for Snapshot {
    fn default() -> (s: Snapshot)
        ensures
            s.writer.entries() == Seq::<(u64, CtxView)>::empty(),
    {
        Snapshot { writer: SnapWriter::new() }
    }
}

/// Handle to blob storage.
pub struct Kv {
    pub store: kv::KvStore,
}

impl Default for Kv {
    fn default() -> (k: Kv)
        ensures
            k.store.blobs_view() == Seq::<(u64, Seq<u8>)>::empty(),
    {
        Kv { store: kv::KvStore::new() }
    }
}

/// Appending a delta to the log keeps the snapshot store consistent with it:
/// every stored snapshot still describes a prefix of the longer log.
pub proof fn lemma_stores_consistent_append(
    entries: Seq<(u64, CtxView)>,
    ops: Seq<WalOp>,
    op: WalOp,
)
    requires
        stores_consistent(entries, ops),
    ensures
        stores_consistent(entries, ops.push(op)),
{
    assert forall|i: int|
        0 <= i < entries.len() implies (#[trigger] entries[i]).0 <= ops.push(op).len()
        && entries[i].1 == replay_ops(
        CtxView::initial(),
        ops.push(op).take(entries[i].0 as int),
    ) by {
        assert(ops.push(op).take(entries[i].0 as int) =~= ops.take(entries[i].0 as int));
    }
}

/// Reads a framed log back from a durable medium.  Returns the records
/// exactly when the bytes are the encoding of some log; anything else — a
/// ragged length, a corrupted frame — is a persistence failure.
pub fn import_frames(bytes: &Vec<u8>) -> (r: Result<Vec<crate::storage::wal::WalRec>, PersistError>)
    ensures
        r matches Ok(recs) ==> bytes@ == crate::storage::codec::spec_encode_log(recs@),
        r matches Err(e) ==> e == PersistError::CorruptRecord && (forall|
            recs: Seq<crate::storage::wal::WalRec>,
        |
            bytes@ != crate::storage::codec::spec_encode_log(recs)),
{
    match crate::storage::codec::decode_log(bytes) {
        Some(recs) => Ok(recs),
        None => Err(PersistError::CorruptRecord),
    }
}

/// The deltas recovery replays on top of a snapshot taken at `tag`: every
/// logged delta after the first `tag` ones.
pub open spec fn tail_ops(ops: Seq<WalOp>, tag: u64) -> Seq<WalOp> {
    if tag < ops.len() {
        ops.skip(tag as int)
    } else {
        Seq::empty()
    }
}

/// The context recovery reconstructs from a snapshot store and a log.
pub open spec fn recovered_view(entries: Seq<(u64, CtxView)>, ops: Seq<WalOp>) -> CtxView {
    replay_ops(latest_entry(entries).1, tail_ops(ops, latest_entry(entries).0))
}

/// Rebuilds the working context from the latest snapshot plus the WAL tail
/// with sequence numbers greater than the snapshot's tag; returns the context
/// and that tag.
pub fn recover(snapshot: &Snapshot, wal: &WAL) -> (r: Result<(WorkingContext, u64), PersistError>)
    requires
        wal.wf(),
    ensures
        r is Ok,
        ({
            let p = r->Ok_0;
            p.0@ == recovered_view(snapshot.writer.entries(), wal.writer.ops()) && p.1
                == latest_entry(snapshot.writer.entries()).0
        }),
{
    let loaded = match snapshot.load_latest() {
        Ok(p) => p,
        Err(e) => {
            return Err(e);
        },
    };
    let mut ctx = loaded.0;
    let tag = loaded.1;
    let tail = wal.writer.records_after(tag);
    proof {
        if tag < wal.writer.recs@.len() {
            assert(ops_of(tail@) =~= tail_ops(wal.writer.ops(), tag));
        } else {
            assert(ops_of(tail@) =~= tail_ops(wal.writer.ops(), tag));
        }
    }
    replay(&mut ctx, &tail);
    Ok((ctx, tag))
}

/// The snapshot store agrees with the log: every stored snapshot was taken at
/// a tag within the log and holds exactly the context the log's first `tag`
/// deltas reach from the initial context.
pub open spec fn stores_consistent(entries: Seq<(u64, CtxView)>, ops: Seq<WalOp>) -> bool {
    forall|i: int|
        0 <= i < entries.len() ==> (#[trigger] entries[i]).0 <= ops.len() && entries[i].1
            == replay_ops(CtxView::initial(), ops.take(entries[i].0 as int))
}

/// Law: recovery is correct.  If the snapshot holds the context reached by
/// the first `t` logged deltas from some pre-snapshot state, then that
/// snapshot plus replay of the remaining deltas reconstructs exactly the
/// context reached by applying all deltas in sequence from that state.
pub proof fn lemma_recovery_reconstructs(pre: CtxView, ops: Seq<WalOp>, t: u64)
    requires
        t <= ops.len(),
    ensures
        replay_ops(replay_ops(pre, ops.take(t as int)), tail_ops(ops, t)) == replay_ops(pre, ops),
{
    if t < ops.len() {
        lemma_replay_split(pre, ops, t as int);
    } else {
        assert(ops.take(t as int) =~= ops);
        assert(tail_ops(ops, t) =~= Seq::<WalOp>::empty());
    }
}

} // verus!
