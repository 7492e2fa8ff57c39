//! Write-ahead log: an append-only sequence of state deltas with
//! monotonically increasing sequence numbers, a durable prefix, and a bounded
//! staleness window for unflushed records.

use vstd::prelude::*;
use crate::model::{CtxView, Goal, Mode, Scene, WorkingContext};

verus! {

/// One state delta: what a WAL record says changed.
#[derive(Clone, Copy, Debug, PartialEq, Eq, Structural)]
pub enum WalOp {
    /// A freshly computed salience value and the mode it selected.
    SetSalience { salience: u32, mode: Mode },
    /// A new scene summary hash.
    SetScene { hash: u64 },
    /// A goal appended to the active goals.
    PushGoal { goal: Goal },
}

/// An ordered, durable delta: its position in the log and the change itself.
#[derive(Clone, Copy, Debug, PartialEq, Eq, Structural)]
pub struct WalRec {
    pub seq_no: u64,
    pub op: WalOp,
}

/// The context that results from applying one delta.
pub open spec fn apply_op(c: CtxView, op: WalOp) -> CtxView {
    match op {
        WalOp::SetSalience { salience, mode } => CtxView {
            salience,
            mode,
            scene: c.scene,
            goals: c.goals,
        },
        WalOp::SetScene { hash } => CtxView {
            scene: Scene { hash },
            mode: c.mode,
            goals: c.goals,
            salience: c.salience,
        },
        WalOp::PushGoal { goal } => CtxView {
            goals: c.goals.push(goal),
            mode: c.mode,
            scene: c.scene,
            salience: c.salience,
        },
    }
}

/// The context that results from applying a sequence of deltas in order.
pub open spec fn replay_ops(c: CtxView, ops: Seq<WalOp>) -> CtxView
    decreases ops.len(),
{
    if ops.len() == 0 {
        c
    } else {
        replay_ops(apply_op(c, ops[0]), ops.drop_first())
    }
}

/// Replaying one more delta at the end is applying it to the replayed state.
pub proof fn lemma_replay_push(c: CtxView, ops: Seq<WalOp>, e: WalOp)
    ensures
        replay_ops(c, ops.push(e)) == apply_op(replay_ops(c, ops), e),
    decreases ops.len(),
{
    if ops.len() == 0 {
        assert(ops.push(e)[0] == e);
        assert(ops.push(e).drop_first() =~= Seq::<WalOp>::empty());
        assert(replay_ops(c, ops.push(e)) == replay_ops(
            apply_op(c, e),
            Seq::<WalOp>::empty(),
        ));
        assert(replay_ops(apply_op(c, e), Seq::<WalOp>::empty()) == apply_op(c, e));
        assert(replay_ops(c, ops) == c);
    } else {
        assert(ops.push(e)[0] == ops[0]);
        assert(ops.push(e).drop_first() =~= ops.drop_first().push(e));
        assert(replay_ops(c, ops.push(e)) == replay_ops(
            apply_op(c, ops[0]),
            ops.drop_first().push(e),
        ));
        lemma_replay_push(apply_op(c, ops[0]), ops.drop_first(), e);
        assert(replay_ops(c, ops) == replay_ops(apply_op(c, ops[0]), ops.drop_first()));
    }
}

/// Law: a snapshot taken after the first `t` deltas, plus replay of the rest,
/// reconstructs the same context as applying all deltas in sequence from the
/// pre-snapshot state.
pub proof fn lemma_replay_split(c: CtxView, ops: Seq<WalOp>, t: int)
    requires
        0 <= t <= ops.len(),
    ensures
        replay_ops(replay_ops(c, ops.take(t)), ops.skip(t)) == replay_ops(c, ops),
    decreases t,
{
    if t == 0 {
        assert(ops.take(0) =~= Seq::<WalOp>::empty());
        assert(ops.skip(0) =~= ops);
    } else {
        assert(ops.take(t)[0] == ops[0]);
        assert(ops.take(t).drop_first() =~= ops.drop_first().take(t - 1));
        assert(ops.skip(t) =~= ops.drop_first().skip(t - 1));
        lemma_replay_split(apply_op(c, ops[0]), ops.drop_first(), t - 1);
    }
}

/// Applies one delta to a live context.
pub fn apply_delta(ctx: &mut WorkingContext, op: &WalOp)
    ensures
        final(ctx)@ == apply_op(old(ctx)@, *op),
{
    match op {
        WalOp::SetSalience { salience, mode } => {
            ctx.salience = *salience;
            ctx.mode = *mode;
        },
        WalOp::SetScene { hash } => {
            ctx.scene = Scene { hash: *hash };
        },
        WalOp::PushGoal { goal } => {
            ctx.goals.push(*goal);
        },
    }
    proof {
        assert(ctx@ =~= apply_op(old(ctx)@, *op));
    }
}

/// Replays a tail of WAL records against a live context, in order.
pub fn replay(ctx: &mut WorkingContext, recs: &Vec<WalRec>)
    ensures
        final(ctx)@ == replay_ops(old(ctx)@, ops_of(recs@)),
{
    let ghost ops: Seq<WalOp> = ops_of(recs@);
    let n = recs.len();
    let mut i: usize = 0;
    proof {
        assert(ops.take(0) =~= Seq::<WalOp>::empty());
    }
    while i < n
        invariant
            n == recs@.len(),
            ops == ops_of(recs@),
            0 <= i <= n,
            ctx@ == replay_ops(old(ctx)@, ops.take(i as int)),
        decreases n - i,
    {
        proof {
            assert(ops.take(i as int + 1) =~= ops.take(i as int).push(ops[i as int]));
            lemma_replay_push(old(ctx)@, ops.take(i as int), ops[i as int]);
        }
        let op = recs[i].op;
        apply_delta(ctx, &op);
        i = i + 1;
    }
    proof {
        assert(ops.take(n as int) =~= ops);
    }
}

/// The deltas carried by a sequence of records, in log order.
pub open spec fn ops_of(recs: Seq<WalRec>) -> Seq<WalOp> {
    recs.map_values(|r: WalRec| r.op)
}

/// Default maximum staleness of unflushed records, in nanoseconds.
pub const DEFAULT_FSYNC_DEADLINE_NS: u64 = 10_000_000;

/// Appends records, tracks which prefix has been acknowledged durable, and
/// enforces a maximum staleness for unflushed records.
pub struct WalWriter {
    pub recs: Vec<WalRec>,
    pub durable_len: usize,
    pub last_flush_ns: u64,
    pub flush_deadline_ns: u64,
}

impl WalWriter {
    /// Records are numbered consecutively from one, and the durable prefix
    /// never exceeds what was written.
    pub open spec fn wf(&self) -> bool {
        self.durable_len <= self.recs@.len()
        && forall|i: int| 0 <= i < self.recs@.len() ==> self.recs@[i].seq_no == i + 1
    }

    /// The deltas in the log, in order.
    pub open spec fn ops(&self) -> Seq<WalOp> {
        ops_of(self.recs@)
    }

    /// An empty log that must flush at least every `flush_deadline_ns`.
    pub fn new(flush_deadline_ns: u64) -> (w: WalWriter)
        ensures
            w.wf(),
            w.recs@.len() == 0,
            w.durable_len == 0,
            w.last_flush_ns == 0,
            w.flush_deadline_ns == flush_deadline_ns,
    {
        WalWriter { recs: Vec::new(), durable_len: 0, last_flush_ns: 0, flush_deadline_ns }
    }

    /// Highest sequence number written so far; zero when the log is empty.
    pub fn last_seq(&self) -> (s: u64)
        requires
            self.recs@.len() < u64::MAX,
        ensures
            s == self.recs@.len(),
    {
        self.recs.len() as u64
    }

    /// Appends a batch of deltas; each receives the next sequence number in
    /// order.  Returns the sequence number of the last record in the log.
    pub fn append(&mut self, batch: &Vec<WalOp>) -> (seq: u64)
        requires
            old(self).wf(),
            old(self).recs@.len() + batch@.len() < u64::MAX,
        ensures
            final(self).wf(),
            final(self).ops() == old(self).ops() + batch@,
            final(self).recs@.len() == old(self).recs@.len() + batch@.len(),
            final(self).durable_len == old(self).durable_len,
            final(self).last_flush_ns == old(self).last_flush_ns,
            final(self).flush_deadline_ns == old(self).flush_deadline_ns,
            seq == final(self).recs@.len(),
    {
        let n = batch.len();
        let mut i: usize = 0;
        proof {
            assert(self.ops() =~= old(self).ops() + batch@.take(0));
        }
        while i < n
            invariant
                n == batch@.len(),
                0 <= i <= n,
                self.wf(),
                self.recs@.len() == old(self).recs@.len() + i,
                old(self).recs@.len() + n < u64::MAX,
                self.ops() == old(self).ops() + batch@.take(i as int),
                self.durable_len == old(self).durable_len,
                self.last_flush_ns == old(self).last_flush_ns,
                self.flush_deadline_ns == old(self).flush_deadline_ns,
            decreases n - i,
        {
            let seq_no = self.recs.len() as u64 + 1;
            let rec = WalRec { seq_no, op: batch[i] };
            let ghost before: Seq<WalRec> = self.recs@;
            self.recs.push(rec);
            proof {
                assert(batch@.take(i as int + 1) =~= batch@.take(i as int).push(batch@[i as int]));
                assert(ops_of(before.push(rec)) =~= ops_of(before).push(rec.op));
                assert(self.ops() =~= old(self).ops() + batch@.take(i as int + 1));
            }
            i = i + 1;
        }
        proof {
            assert(batch@.take(n as int) =~= batch@);
            assert(self.ops() =~= old(self).ops() + batch@);
        }
        self.recs.len() as u64
    }

    /// Appends a single delta; returns its sequence number.
    pub fn append_one(&mut self, op: WalOp) -> (seq: u64)
        requires
            old(self).wf(),
            old(self).recs@.len() + 1 < u64::MAX,
        ensures
            final(self).wf(),
            final(self).ops() == old(self).ops().push(op),
            final(self).recs@.len() == old(self).recs@.len() + 1,
            final(self).durable_len == old(self).durable_len,
            final(self).last_flush_ns == old(self).last_flush_ns,
            final(self).flush_deadline_ns == old(self).flush_deadline_ns,
            seq == final(self).recs@.len(),
    {
        let seq_no = self.recs.len() as u64 + 1;
        let ghost before: Seq<WalRec> = self.recs@;
        let rec = WalRec { seq_no, op };
        self.recs.push(rec);
        proof {
            assert(ops_of(before.push(rec)) =~= ops_of(before).push(rec.op));
        }
        self.recs.len() as u64
    }

    /// Whether the unflushed tail has grown staler than the flush deadline
    /// allows at time `now_ns`.
    pub open spec fn flush_due(&self, now_ns: u64) -> bool {
        now_ns >= self.last_flush_ns + self.flush_deadline_ns
    }

    /// Enforces the maximum staleness for unflushed records: if the deadline
    /// has passed at `now_ns`, every record written so far becomes durable;
    /// otherwise nothing changes.
    pub fn fsync_deadline(&mut self, now_ns: u64)
        requires
            old(self).wf(),
        ensures
            final(self).wf(),
            final(self).recs@ == old(self).recs@,
            final(self).flush_deadline_ns == old(self).flush_deadline_ns,
            old(self).flush_due(now_ns) ==> final(self).durable_len == final(self).recs@.len()
                && final(self).last_flush_ns == now_ns,
            !old(self).flush_due(now_ns) ==> final(self).durable_len == old(self).durable_len
                && final(self).last_flush_ns == old(self).last_flush_ns,
    {
        if now_ns >= self.last_flush_ns && now_ns - self.last_flush_ns >= self.flush_deadline_ns {
            self.durable_len = self.recs.len();
            self.last_flush_ns = now_ns;
        }
    }

    /// Frames the whole log as bytes, one fixed-size frame per record: what a
    /// durable medium stores.
    pub fn export_frames(&self) -> (out: Vec<u8>)
        ensures
            out@ == crate::storage::codec::spec_encode_log(self.recs@),
    {
        crate::storage::codec::encode_log(&self.recs)
    }

    /// The records with sequence numbers strictly greater than `tag`, in
    /// order: what recovery replays on top of a snapshot taken at `tag`.
    pub fn records_after(&self, tag: u64) -> (out: Vec<WalRec>)
        requires
            self.wf(),
        ensures
            tag < self.recs@.len() ==> out@ == self.recs@.skip(tag as int),
            tag >= self.recs@.len() ==> out@ == Seq::<WalRec>::empty(),
    {
        let n = self.recs.len();
        let mut out: Vec<WalRec> = Vec::new();
        if tag >= n as u64 {
            proof {
                assert(out@ =~= Seq::<WalRec>::empty());
            }
            return out;
        }
        let start = tag as usize;
        let mut i: usize = start;
        proof {
            assert(out@ =~= self.recs@.subrange(start as int, start as int));
        }
        while i < n
            invariant
                n == self.recs@.len(),
                start <= i <= n,
                out@ == self.recs@.subrange(start as int, i as int),
            decreases n - i,
        {
            out.push(self.recs[i]);
            proof {
                assert(self.recs@.subrange(start as int, i as int + 1) =~= self.recs@.subrange(
                    start as int,
                    i as int,
                ).push(self.recs@[i as int]));
            }
            i = i + 1;
        }
        proof {
            assert(self.recs@.subrange(start as int, n as int) =~= self.recs@.skip(start as int));
        }
        out
    }
}

} // verus!
