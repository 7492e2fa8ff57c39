//! The control loop core: one repeating cycle over salience recomputation,
//! mode transition, budgeted job release, health emission, inbound event
//! application, and persistence.
//!
//! The controller owns the working context, the pending-job set, and the
//! persistence handles exclusively; the surrounding runtime hands it the
//! drained inbound events and the current monotonic time each cycle and
//! forwards what it emits.

use vstd::prelude::*;
use crate::analysis::{estimate_salience, scene_fold, scene_mix, spec_salience, update_scene};
use crate::config::{Cadence, CadenceEntry, ModeThresholds};
use crate::health::HealthStatus;
use crate::interfaces::{count_health, IMHealth, IMModeChange, Inbound, Outbound};
use crate::model::{spec_transition, CtxView, Mode, WorkingContext};
use crate::scheduler::{sorted_by_admission, sum_cost, sum_cost_le, Budget, Budgets, Job,
    PollOutcome, PriQueue};
use crate::storage::wal::{lemma_replay_push, replay_ops, WalOp};
use crate::storage::{recovered_view, stores_consistent, Snapshot, WAL};
use crate::storage::snapshot::latest_entry;
use crate::storage::{lemma_recovery_reconstructs, recover, PersistError};

verus! {

/// The last sequence number remembered for a source: the first entry for it,
/// front to back.
pub open spec fn track_lookup(s: Seq<(u32, u64)>, src: u32) -> Option<u64>
    decreases s.len(),
{
    if s.len() == 0 {
        None
    } else if s[0].0 == src {
        Some(s[0].1)
    } else {
        track_lookup(s.drop_first(), src)
    }
}

proof fn lemma_track_lookup_at(s: Seq<(u32, u64)>, i: int, src: u32)
    requires
        0 <= i < s.len(),
        s[i].0 == src,
        forall|t: int| 0 <= t < i ==> s[t].0 != src,
    ensures
        track_lookup(s, src) == Some(s[i].1),
    decreases i,
{
    if i > 0 {
        assert(s[0].0 != src);
        lemma_track_lookup_at(s.drop_first(), i - 1, src);
    }
}

proof fn lemma_track_lookup_none(s: Seq<(u32, u64)>, src: u32)
    requires
        forall|t: int| 0 <= t < s.len() ==> s[t].0 != src,
    ensures
        track_lookup(s, src) is None,
    decreases s.len(),
{
    if s.len() > 0 {
        lemma_track_lookup_none(s.drop_first(), src);
    }
}

proof fn lemma_track_lookup_update_other(s: Seq<(u32, u64)>, i: int, e: (u32, u64), q: u32)
    requires
        0 <= i < s.len(),
        q != e.0,
        s[i].0 == e.0,
    ensures
        track_lookup(s.update(i, e), q) == track_lookup(s, q),
    decreases s.len(),
{
    if i == 0 {
        assert(s.update(0, e)[0] == e);
        assert(s.update(0, e).drop_first() =~= s.drop_first());
    } else {
        assert(s.update(i, e)[0] == s[0]);
        assert(s.update(i, e).drop_first() =~= s.drop_first().update(i - 1, e));
        lemma_track_lookup_update_other(s.drop_first(), i - 1, e, q);
    }
}

proof fn lemma_track_lookup_push(s: Seq<(u32, u64)>, e: (u32, u64), q: u32)
    ensures
        track_lookup(s.push(e), q) == (if track_lookup(s, q) is Some {
            track_lookup(s, q)
        } else if e.0 == q {
            Some(e.1)
        } else {
            None::<u64>
        }),
    decreases s.len(),
{
    if s.len() == 0 {
        assert(s.push(e)[0] == e);
        assert(s.push(e).drop_first() =~= Seq::<(u32, u64)>::empty());
        assert(track_lookup(s, q) is None);
        if e.0 == q {
            assert(track_lookup(s.push(e), q) == Some(e.1));
        } else {
            assert(track_lookup(s.push(e), q) == track_lookup(Seq::<(u32, u64)>::empty(), q));
        }
    } else {
        assert(s.push(e)[0] == s[0]);
        assert(s.push(e).drop_first() =~= s.drop_first().push(e));
        if s[0].0 == q {
            assert(track_lookup(s.push(e), q) == Some(s[0].1));
            assert(track_lookup(s, q) == Some(s[0].1));
        } else {
            assert(track_lookup(s.push(e), q) == track_lookup(s.drop_first().push(e), q));
            assert(track_lookup(s, q) == track_lookup(s.drop_first(), q));
            lemma_track_lookup_push(s.drop_first(), e, q);
        }
    }
}

/// How an event's sequence number relates to what was last seen from its
/// source.
#[derive(Clone, Copy, Debug, PartialEq, Eq, Structural)]
pub enum SeqStatus {
    /// The source was never seen before.
    FirstSeen,
    /// Exactly one more than the last sequence number: no loss.
    InOrder,
    /// A jump of more than one: a possible-loss signal.
    Gap,
    /// Not greater than the last sequence number: the per-source invariant is
    /// violated and the event is dropped.
    Stale,
}

/// Remembers, per source, the highest sequence number accepted so far.
pub struct SeqTracker {
    entries: Vec<(u32, u64)>,
}

impl SeqTracker {
    /// The remembered (source, sequence number) pairs.
    pub closed spec fn entries_view(&self) -> Seq<(u32, u64)> {
        self.entries@
    }

    /// The last sequence number accepted from `src`, if any.
    pub open spec fn last_seq(&self, src: u32) -> Option<u64> {
        track_lookup(self.entries_view(), src)
    }

    /// A tracker that has seen nothing.
    pub fn new() -> (t: SeqTracker)
        ensures
            t.entries_view() == Seq::<(u32, u64)>::empty(),
    {
        let t = SeqTracker { entries: Vec::new() };
        proof {
            assert(t.entries_view() =~= Seq::<(u32, u64)>::empty());
        }
        t
    }

    /// Classifies `seq` against the last sequence number seen from `src` and
    /// remembers it unless it is stale.
    pub fn note(&mut self, src: u32, seq: u64) -> (st: SeqStatus)
        ensures
            old(self).last_seq(src) is None ==> (st == SeqStatus::FirstSeen
                && final(self).last_seq(src) == Some(seq)),
            (old(self).last_seq(src) matches Some(p) && seq <= p) ==> (st == SeqStatus::Stale
                && final(self).entries_view() == old(self).entries_view()),
            (old(self).last_seq(src) matches Some(p) && seq == p + 1) ==> (st == SeqStatus::InOrder
                && final(self).last_seq(src) == Some(seq)),
            (old(self).last_seq(src) matches Some(p) && seq > p + 1) ==> (st == SeqStatus::Gap
                && final(self).last_seq(src) == Some(seq)),
            forall|q: u32| q != src ==> final(self).last_seq(q) == old(self).last_seq(q),
    {
        let n = self.entries.len();
        let mut i: usize = 0;
        while i < n
            invariant
                n == self.entries@.len(),
                0 <= i <= n,
                self.entries@ == old(self).entries@,
                forall|t: int| 0 <= t < i ==> self.entries@[t].0 != src,
            decreases n - i,
        {
            if self.entries[i].0 == src {
                let p = self.entries[i].1;
                proof {
                    lemma_track_lookup_at(self.entries@, i as int, src);
                }
                if seq <= p {
                    return SeqStatus::Stale;
                }
                let st = if seq - p == 1 {
                    SeqStatus::InOrder
                } else {
                    SeqStatus::Gap
                };
                let ghost before: Seq<(u32, u64)> = self.entries@;
                self.entries.set(i, (src, seq));
                proof {
                    lemma_track_lookup_at(self.entries@, i as int, src);
                    assert forall|q: u32| q != src implies track_lookup(self.entries@, q)
                        == track_lookup(before, q) by {
                        lemma_track_lookup_update_other(before, i as int, (src, seq), q);
                    }
                }
                return st;
            }
            i = i + 1;
        }
        proof {
            lemma_track_lookup_none(self.entries@, src);
        }
        let ghost before: Seq<(u32, u64)> = self.entries@;
        self.entries.push((src, seq));
        proof {
            lemma_track_lookup_push(before, (src, seq), src);
            assert forall|q: u32| q != src implies track_lookup(self.entries@, q) == track_lookup(
                before,
                q,
            ) by {
                lemma_track_lookup_push(before, (src, seq), q);
                if track_lookup(before, q) is None {
                }
            }
        }
        SeqStatus::FirstSeen
    }
}

/// What the loop did with one inbound message.
#[derive(Clone, Copy, Debug, PartialEq, Eq, Structural)]
pub enum EventOutcome {
    /// The event was applied to the working context.
    Applied(SeqStatus),
    /// The event's sequence number was stale; it was dropped, not applied.
    DroppedStale,
    /// The message carries nothing to apply.
    Ignored,
}

/// What one cycle produced.
pub struct CycleReport {
    /// Messages to forward to the outbound queue, in emission order.
    pub outbound: Vec<Outbound>,
    /// Jobs released under this cycle's budget.
    pub released: Vec<Job>,
    /// Jobs dropped because their deadline had passed.
    pub expired: Vec<Job>,
    /// How long to suspend before the next cycle, in milliseconds.
    pub sleep_ms: u64,
    /// Whether a snapshot was written this cycle.
    pub snapshot_written: bool,
}

/// `x + 1`, saturating at the maximum.
pub open spec fn sat_inc(x: u64) -> u64 {
    if x < u64::MAX {
        (x + 1) as u64
    } else {
        x
    }
}

/// The control loop's state: working context, scheduler, configuration,
/// persistence handles, and event-stream bookkeeping.
pub struct ImController {
    pub ctx: WorkingContext,
    pub priq: PriQueue,
    pub budgets: Budgets,
    pub cadence: Cadence,
    pub thresholds: ModeThresholds,
    pub wal: WAL,
    pub snapshot: Snapshot,
    pub tracker: SeqTracker,
    pub gap_count: u64,
    pub stale_count: u64,
}

impl ImController {
    /// Configuration and log are well-formed.
    pub open spec fn wf(&self) -> bool {
        self.wal.wf() && self.thresholds.wf() && self.cadence.wf()
    }

    /// The live context is exactly what replaying the whole log reconstructs,
    /// and every stored snapshot agrees with the log: what recovery relies on.
    pub open spec fn persistent(&self) -> bool {
        self.ctx@ == replay_ops(CtxView::initial(), self.wal.writer.ops()) && stores_consistent(
            self.snapshot.writer.entries(),
            self.wal.writer.ops(),
        )
    }

    /// A fresh controller over empty stores, with the default configuration.
    pub fn new(wal: WAL, snapshot: Snapshot) -> (c: ImController)
        requires
            wal.wf(),
            wal.writer.recs@.len() == 0,
            snapshot.writer.entries().len() == 0,
        ensures
            c.wf(),
            c.persistent(),
            c.ctx@ == CtxView::initial(),
            c.priq@ == Seq::<Job>::empty(),
            c.tracker.entries_view() == Seq::<(u32, u64)>::empty(),
            c.gap_count == 0,
            c.stale_count == 0,
            c.wal == wal,
            c.snapshot == snapshot,
            c.budgets == (Budgets {
                idle: Budget { ns: 1_000_000 },
                observe: Budget { ns: 5_000_000 },
                focus: Budget { ns: 5_000_000 },
                react: Budget { ns: 2_000_000 },
            }),
            c.cadence == (Cadence {
                idle: CadenceEntry { sleep_ms: 1000, snapshot_eligible: false },
                observe: CadenceEntry { sleep_ms: 100, snapshot_eligible: true },
                focus: CadenceEntry { sleep_ms: 20, snapshot_eligible: true },
                react: CadenceEntry { sleep_ms: 5, snapshot_eligible: false },
            }),
            c.thresholds == (ModeThresholds {
                observe_up: 250_000,
                focus_up: 650_000,
                react_up: 900_000,
            }),
    {
        let c = ImController {
            ctx: WorkingContext::default(),
            priq: PriQueue::default(),
            budgets: Budgets::default(),
            cadence: Cadence::default(),
            thresholds: ModeThresholds::default(),
            wal,
            snapshot,
            tracker: SeqTracker::new(),
            gap_count: 0,
            stale_count: 0,
        };
        proof {
            assert(c.wal.writer.ops() =~= Seq::<WalOp>::empty());
        }
        c
    }

    /// A controller restored from existing stores: loads the latest snapshot
    /// and replays the WAL tail after its tag, reconstructing exactly the
    /// context the whole log reaches.
    pub fn from_recovery(wal: WAL, snapshot: Snapshot) -> (r: Result<ImController, PersistError>)
        requires
            wal.wf(),
            stores_consistent(snapshot.writer.entries(), wal.writer.ops()),
        ensures
            r is Ok,
            ({
                let c = r->Ok_0;
                c.wf() && c.persistent() && c.ctx@ == replay_ops(
                    CtxView::initial(),
                    wal.writer.ops(),
                ) && c.priq@ == Seq::<Job>::empty() && c.gap_count == 0 && c.stale_count == 0
            }),
    {
        let recovered = match recover(&snapshot, &wal) {
            Ok(p) => p,
            Err(e) => {
                return Err(e);
            },
        };
        proof {
            let entries = snapshot.writer.entries();
            let ops = wal.writer.ops();
            if entries.len() == 0 {
                assert(latest_entry(entries) == (0u64, CtxView::initial()));
                if ops.len() > 0 {
                    assert(crate::storage::tail_ops(ops, 0) =~= ops);
                } else {
                    assert(recovered_view(entries, ops) == CtxView::initial());
                }
            } else {
                let tag = latest_entry(entries).0;
                let idx = entries.len() - 1;
                assert(entries[idx].0 <= ops.len() && entries[idx].1 == replay_ops(
                    CtxView::initial(),
                    ops.take(entries[idx].0 as int),
                ));
                lemma_recovery_reconstructs(CtxView::initial(), ops, tag);
            }
        }
        let c = ImController {
            ctx: recovered.0,
            priq: PriQueue::default(),
            budgets: Budgets::default(),
            cadence: Cadence::default(),
            thresholds: ModeThresholds::default(),
            wal,
            snapshot,
            tracker: SeqTracker::new(),
            gap_count: 0,
            stale_count: 0,
        };
        Ok(c)
    }

    /// One scheduling step: recomputes salience, re-evaluates the mode, logs
    /// the change, releases the jobs admissible under the new mode's budget,
    /// and reports this cycle's health.
    pub fn tick(&mut self, now_ns: u64) -> (r: (IMHealth, PollOutcome))
        requires
            old(self).wf(),
            old(self).wal.writer.recs@.len() + 1 < u64::MAX,
        ensures
            final(self).wf(),
            // salience and mode are recomputed from scratch
            final(self).ctx.salience == spec_salience(old(self).ctx@),
            final(self).ctx.mode == spec_transition(
                spec_salience(old(self).ctx@),
                old(self).thresholds,
            ),
            final(self).ctx.scene == old(self).ctx.scene,
            final(self).ctx.goals@ == old(self).ctx.goals@,
            // the change is logged as one delta
            final(self).wal.writer.ops() == old(self).wal.writer.ops().push(
                WalOp::SetSalience {
                    salience: final(self).ctx.salience,
                    mode: final(self).ctx.mode,
                },
            ),
            final(self).wal.writer.recs@.len() == old(self).wal.writer.recs@.len() + 1,
            final(self).wal.writer.durable_len == old(self).wal.writer.durable_len,
            final(self).wal.writer.last_flush_ns == old(self).wal.writer.last_flush_ns,
            final(self).wal.writer.flush_deadline_ns == old(self).wal.writer.flush_deadline_ns,
            // the health report reflects this cycle
            r.0.salience == final(self).ctx.salience,
            r.0.mode == final(self).ctx.mode,
            // released jobs fit the new mode's budget, in admission order
            sum_cost(r.1.released@) <= old(self).budgets.spec_for_mode(final(self).ctx.mode).ns,
            sorted_by_admission(r.1.released@),
            // deadline discipline: nothing expired is released, nothing live
            // is reported expired, nothing expired stays pending
            forall|i: int|
                0 <= i < r.1.released@.len() ==> r.1.released@[i].deadline_ns >= now_ns,
            forall|i: int| 0 <= i < r.1.expired@.len() ==> r.1.expired@[i].deadline_ns < now_ns,
            forall|i: int| 0 <= i < final(self).priq@.len() ==> final(self).priq@[i].deadline_ns
                >= now_ns,
            // every pending job is accounted for
            final(self).priq@.to_multiset().add(r.1.released@.to_multiset()).add(
                r.1.expired@.to_multiset(),
            ) == old(self).priq@.to_multiset(),
            // greedy maximality of the admitted set
            forall|i: int|
                0 <= i < final(self).priq@.len() ==> sum_cost_le(
                    r.1.released@,
                    final(self).priq@[i],
                ) + final(self).priq@[i].cost_ns > old(self).budgets.spec_for_mode(
                    final(self).ctx.mode,
                ).ns,
            // everything else is untouched
            final(self).budgets == old(self).budgets,
            final(self).cadence == old(self).cadence,
            final(self).thresholds == old(self).thresholds,
            final(self).tracker.entries_view() == old(self).tracker.entries_view(),
            final(self).snapshot.writer.entries() == old(self).snapshot.writer.entries(),
            final(self).gap_count == old(self).gap_count,
            final(self).stale_count == old(self).stale_count,
            // recovery keeps working
            old(self).persistent() ==> final(self).persistent(),
    {
        let s = estimate_salience(&self.ctx);
        self.ctx.apply_salience(s, &self.thresholds);
        let op = WalOp::SetSalience { salience: s, mode: self.ctx.mode };
        let ghost ops_before: Seq<WalOp> = self.wal.writer.ops();
        let ghost ctx_before: CtxView = old(self).ctx@;
        let _seq = self.wal.writer.append_one(op);
        proof {
            assert(self.ctx@ =~= crate::storage::wal::apply_op(ctx_before, op));
            if old(self).persistent() {
                lemma_replay_push(CtxView::initial(), ops_before, op);
                crate::storage::lemma_stores_consistent_append(
                    self.snapshot.writer.entries(),
                    ops_before,
                    op,
                );
            }
        }
        let budget = self.budgets.for_mode(self.ctx.mode);
        let outcome = self.priq.poll_ready(budget, now_ns);
        let health = IMHealth::from_context(&self.ctx);
        (health, outcome)
    }

    /// Applies one inbound message to the working context.  An event whose
    /// sequence number is stale is dropped and counted; a gap is counted as a
    /// possible-loss signal but the update proceeds with what was received.
    pub fn on_event(&mut self, ev: Inbound) -> (st: EventOutcome)
        requires
            old(self).wf(),
            old(self).wal.writer.recs@.len() + 1 < u64::MAX,
        ensures
            final(self).wf(),
            // mode, salience, and goals are never touched by event intake
            final(self).ctx.mode == old(self).ctx.mode,
            final(self).ctx.salience == old(self).ctx.salience,
            final(self).ctx.goals@ == old(self).ctx.goals@,
            final(self).wal.writer.recs@.len() <= old(self).wal.writer.recs@.len() + 1,
            final(self).wal.writer.durable_len == old(self).wal.writer.durable_len,
            final(self).wal.writer.last_flush_ns == old(self).wal.writer.last_flush_ns,
            final(self).wal.writer.flush_deadline_ns == old(self).wal.writer.flush_deadline_ns,
            // a perception event is applied — folded into the scene and
            // logged — unless its sequence number is stale, in which case it
            // is dropped and counted
            ev matches Inbound::AEIUpdate(a) ==> ({
                let e = a.event;
                let prior = old(self).tracker.last_seq(e.src);
                if (prior matches Some(p) && e.seq_no <= p) {
                    st == EventOutcome::DroppedStale
                    && final(self).ctx.scene == old(self).ctx.scene
                    && final(self).wal.writer.ops() == old(self).wal.writer.ops()
                    && final(self).tracker.entries_view() == old(self).tracker.entries_view()
                    && final(self).stale_count == sat_inc(old(self).stale_count)
                    && final(self).gap_count == old(self).gap_count
                } else {
                    final(self).ctx.scene.hash == scene_mix(old(self).ctx.scene.hash, e)
                    && final(self).wal.writer.ops() == old(self).wal.writer.ops().push(
                        WalOp::SetScene { hash: final(self).ctx.scene.hash },
                    )
                    && final(self).tracker.last_seq(e.src) == Some(e.seq_no)
                    && final(self).stale_count == old(self).stale_count
                    && (forall|q: u32|
                        q != e.src ==> final(self).tracker.last_seq(q)
                            == old(self).tracker.last_seq(q))
                    && (match prior {
                        Option::None => st == EventOutcome::Applied(SeqStatus::FirstSeen)
                            && final(self).gap_count == old(self).gap_count,
                        Option::Some(p) => (e.seq_no == p + 1 ==> st == EventOutcome::Applied(
                            SeqStatus::InOrder,
                        ) && final(self).gap_count == old(self).gap_count) && (e.seq_no > p + 1
                            ==> st == EventOutcome::Applied(SeqStatus::Gap)
                                && final(self).gap_count == sat_inc(old(self).gap_count)),
                    })
                }
            }),
            // everything else carries nothing to apply
            !(ev matches Inbound::AEIUpdate(_)) ==> (st == EventOutcome::Ignored
                && final(self).ctx.scene == old(self).ctx.scene
                && final(self).wal.writer.ops() == old(self).wal.writer.ops()
                && final(self).tracker.entries_view() == old(self).tracker.entries_view()
                && final(self).gap_count == old(self).gap_count
                && final(self).stale_count == old(self).stale_count),
            // configuration, scheduler, and snapshots are untouched
            final(self).priq@ == old(self).priq@,
            final(self).budgets == old(self).budgets,
            final(self).cadence == old(self).cadence,
            final(self).thresholds == old(self).thresholds,
            final(self).snapshot.writer.entries() == old(self).snapshot.writer.entries(),
            // recovery keeps working
            old(self).persistent() ==> final(self).persistent(),
    {
        match ev {
            Inbound::AEIUpdate(a) => {
                let e = a.into_event();
                let status = self.tracker.note(e.src, e.seq_no);
                match status {
                    SeqStatus::Stale => {
                        if self.stale_count < u64::MAX {
                            self.stale_count = self.stale_count + 1;
                        }
                        EventOutcome::DroppedStale
                    },
                    _ => {
                        let is_gap = match status {
                            SeqStatus::Gap => true,
                            _ => false,
                        };
                        if is_gap && self.gap_count < u64::MAX {
                            self.gap_count = self.gap_count + 1;
                        }
                        let mut evs: Vec<crate::model::Event> = Vec::new();
                        evs.push(e);
                        let ghost ctx_before: CtxView = self.ctx@;
                        let ghost ops_before: Seq<WalOp> = self.wal.writer.ops();
                        let _d = update_scene(&mut self.ctx, &evs);
                        proof {
                            assert(evs@.len() == 1);
                            assert(evs@[0] == e);
                            assert(evs@.drop_first() =~= Seq::<crate::model::Event>::empty());
                            assert(scene_fold(ctx_before.scene.hash, evs@) == scene_fold(
                                scene_mix(ctx_before.scene.hash, e),
                                Seq::<crate::model::Event>::empty(),
                            ));
                            assert(scene_fold(
                                scene_mix(ctx_before.scene.hash, e),
                                Seq::<crate::model::Event>::empty(),
                            ) == scene_mix(ctx_before.scene.hash, e));
                        }
                        let op = WalOp::SetScene { hash: self.ctx.scene.hash };
                        let _seq = self.wal.writer.append_one(op);
                        proof {
                            assert(self.ctx@ =~= crate::storage::wal::apply_op(ctx_before, op));
                            if old(self).persistent() {
                                lemma_replay_push(CtxView::initial(), ops_before, op);
                                crate::storage::lemma_stores_consistent_append(
                                    self.snapshot.writer.entries(),
                                    ops_before,
                                    op,
                                );
                            }
                        }
                        EventOutcome::Applied(status)
                    },
                }
            },
            Inbound::SAEvent(_) => EventOutcome::Ignored,
            Inbound::MMQueryResult(_) => EventOutcome::Ignored,
            Inbound::TAPlanUpdate(_) => EventOutcome::Ignored,
            Inbound::DECOutcome(_) => EventOutcome::Ignored,
        }
    }

    /// Persistence step: flushes the WAL if the unflushed tail has outlived
    /// the fsync deadline, and writes a snapshot when the current mode's
    /// cadence entry allows one.  Returns whether a snapshot was written.
    pub fn persist(&mut self, now_ns: u64) -> (r: Result<bool, PersistError>)
        requires
            old(self).wf(),
            old(self).wal.writer.recs@.len() < u64::MAX,
        ensures
            r is Ok,
            final(self).wf(),
            // the log's records are untouched; durability advances per deadline
            final(self).wal.writer.recs@ == old(self).wal.writer.recs@,
            final(self).wal.writer.flush_deadline_ns == old(self).wal.writer.flush_deadline_ns,
            old(self).wal.writer.flush_due(now_ns) ==> (final(self).wal.writer.durable_len
                == final(self).wal.writer.recs@.len() && final(self).wal.writer.last_flush_ns
                == now_ns),
            !old(self).wal.writer.flush_due(now_ns) ==> (final(self).wal.writer.durable_len
                == old(self).wal.writer.durable_len && final(self).wal.writer.last_flush_ns
                == old(self).wal.writer.last_flush_ns),
            // a snapshot is written exactly when the mode allows one
            r->Ok_0 == old(self).cadence.spec_entry(old(self).ctx.mode).snapshot_eligible,
            old(self).cadence.spec_entry(old(self).ctx.mode).snapshot_eligible ==> final(self).snapshot.writer.entries() == old(self).snapshot.writer.entries().push(
                (old(self).wal.writer.recs@.len() as u64, old(self).ctx@),
            ),
            !old(self).cadence.spec_entry(old(self).ctx.mode).snapshot_eligible ==> final(self).snapshot.writer.entries() == old(self).snapshot.writer.entries(),
            // everything else is untouched
            final(self).ctx == old(self).ctx,
            final(self).priq@ == old(self).priq@,
            final(self).budgets == old(self).budgets,
            final(self).cadence == old(self).cadence,
            final(self).thresholds == old(self).thresholds,
            final(self).tracker.entries_view() == old(self).tracker.entries_view(),
            final(self).gap_count == old(self).gap_count,
            final(self).stale_count == old(self).stale_count,
            // recovery keeps working
            old(self).persistent() ==> final(self).persistent(),
    {
        match self.wal.maybe_flush(now_ns) {
            Ok(u) => u,
            Err(e) => {
                return Err(e);
            },
        };
        if self.cadence.should_snapshot(self.ctx.mode) {
            let tag = self.wal.writer.last_seq();
            proof {
                if old(self).persistent() {
                    assert(self.wal.writer.ops().take(tag as int) =~= self.wal.writer.ops());
                }
            }
            match self.snapshot.write_snapshot(&self.ctx, tag) {
                Ok(u) => u,
                Err(e) => {
                    return Err(e);
                },
            };
            Ok(true)
        } else {
            Ok(false)
        }
    }

    /// One full cycle: recompute salience and mode, release jobs under the
    /// new mode's budget, emit the heartbeat, apply the drained inbound
    /// events, then persist.  Exactly one health report is emitted per cycle,
    /// whatever else happens; a mode change additionally announces itself.
    pub fn cycle(&mut self, now_ns: u64, inbound: Vec<Inbound>) -> (r: Result<
        CycleReport,
        PersistError,
    >)
        requires
            old(self).wf(),
            old(self).wal.writer.recs@.len() + inbound@.len() + 1 < u64::MAX,
        ensures
            r is Ok,
            final(self).wf(),
            old(self).persistent() ==> final(self).persistent(),
            final(self).budgets == old(self).budgets,
            final(self).cadence == old(self).cadence,
            final(self).thresholds == old(self).thresholds,
            ({
                let rep = r->Ok_0;
                let s = spec_salience(old(self).ctx@);
                let m = spec_transition(s, old(self).thresholds);
                // salience and mode are recomputed from scratch this cycle
                final(self).ctx.salience == s && final(self).ctx.mode == m
                // exactly one health report per cycle, reflecting this cycle
                && count_health(rep.outbound@) == 1 && rep.outbound@.contains(
                    Outbound::Health(IMHealth { salience: s, mode: m }),
                )
                // a mode change announces itself, and nothing else is emitted
                && rep.outbound@.len() == (if m != old(self).ctx.mode {
                    2int
                } else {
                    1int
                })
                // the loop suspends for the new mode's cadence
                && rep.sleep_ms == old(self).cadence.spec_entry(m).sleep_ms
                // a snapshot is written exactly when the new mode allows one
                && rep.snapshot_written == old(self).cadence.spec_entry(m).snapshot_eligible
                && (rep.snapshot_written ==> final(self).snapshot.writer.entries()
                    == old(self).snapshot.writer.entries().push(
                    (final(self).wal.writer.recs@.len() as u64, final(self).ctx@),
                ))
                && (!rep.snapshot_written ==> final(self).snapshot.writer.entries()
                    == old(self).snapshot.writer.entries())
                // released jobs respect the new mode's budget and deadlines,
                // in admission order
                && sum_cost(rep.released@) <= old(self).budgets.spec_for_mode(m).ns
                && sorted_by_admission(rep.released@)
                && (forall|i: int|
                    0 <= i < rep.released@.len() ==> rep.released@[i].deadline_ns >= now_ns)
                && (forall|i: int|
                    0 <= i < rep.expired@.len() ==> rep.expired@[i].deadline_ns < now_ns)
                && final(self).priq@.to_multiset().add(rep.released@.to_multiset()).add(
                    rep.expired@.to_multiset(),
                ) == old(self).priq@.to_multiset()
                // a cycle without inbound events leaves the scene and the
                // event bookkeeping untouched
                && (inbound@.len() == 0 ==> (final(self).ctx.scene == old(self).ctx.scene
                    && final(self).tracker.entries_view() == old(self).tracker.entries_view()
                    && final(self).gap_count == old(self).gap_count
                    && final(self).stale_count == old(self).stale_count))
            }),
    {
        let old_mode = self.ctx.mode;
        let (health, outcome) = self.tick(now_ns);
        let mut outbound: Vec<Outbound> = Vec::new();
        let changed = !(old_mode == self.ctx.mode);
        if changed {
            outbound.push(Outbound::IMModeChange(IMModeChange { to: self.ctx.mode }));
        }
        proof {
            assert(count_health(Seq::<Outbound>::empty()) == 0);
            if changed {
                crate::interfaces::lemma_count_health_push(
                    Seq::<Outbound>::empty(),
                    Outbound::IMModeChange(IMModeChange { to: self.ctx.mode }),
                );
            }
            crate::interfaces::lemma_count_health_push(outbound@, Outbound::Health(health));
        }
        outbound.push(Outbound::Health(health));
        proof {
            assert(outbound@.last() == Outbound::Health(health));
            assert(outbound@.contains(Outbound::Health(health)));
        }
        let ghost s_g: u32 = self.ctx.salience;
        let ghost m_g: Mode = self.ctx.mode;
        let ghost scene_g = self.ctx.scene;
        let ghost tracker_g = self.tracker.entries_view();
        let ghost gap_g: u64 = self.gap_count;
        let ghost stale_g: u64 = self.stale_count;
        let ghost priq_g: Seq<Job> = self.priq@;
        let ghost wal_len_g: int = self.wal.writer.recs@.len() as int;
        let ghost snap_g = self.snapshot.writer.entries();
        let n = inbound.len();
        let mut i: usize = 0;
        while i < n
            invariant
                n == inbound@.len(),
                0 <= i <= n,
                self.wf(),
                old(self).persistent() ==> self.persistent(),
                self.ctx.salience == s_g,
                self.ctx.mode == m_g,
                self.ctx.goals@ == old(self).ctx.goals@,
                self.wal.writer.recs@.len() <= wal_len_g + i,
                wal_len_g + n < u64::MAX,
                self.priq@ == priq_g,
                self.budgets == old(self).budgets,
                self.cadence == old(self).cadence,
                self.thresholds == old(self).thresholds,
                self.snapshot.writer.entries() == snap_g,
                n == 0 ==> (self.ctx.scene == scene_g && self.tracker.entries_view() == tracker_g
                    && self.gap_count == gap_g && self.stale_count == stale_g),
            decreases n - i,
        {
            let ev = inbound[i];
            let _outcome = self.on_event(ev);
            i = i + 1;
        }
        let snap_written = match self.persist(now_ns) {
            Ok(b) => b,
            Err(e) => {
                return Err(e);
            },
        };
        let sleep_ms = self.cadence.sleep_for(self.ctx.mode);
        Ok(
            CycleReport {
                outbound,
                released: outcome.released,
                expired: outcome.expired,
                sleep_ms,
                snapshot_written: snap_written,
            },
        )
    }

    /// Backpressure hook for a bounded gateway configuration; the unbounded
    /// default has nothing to do.
    pub fn apply_backpressure(&mut self) -> (r: Result<(), PersistError>)
        ensures
            r is Ok,
            *final(self) == *old(self),
    {
        Ok(())
    }

    /// Cycle-local health classification: degraded once any possible-loss or
    /// reordering signal has been observed.
    pub fn health_checks(&self) -> (h: HealthStatus)
        ensures
            h == (if self.gap_count == 0 && self.stale_count == 0 {
                HealthStatus::Healthy
            } else {
                HealthStatus::Degraded
            }),
    {
        if self.gap_count == 0 && self.stale_count == 0 {
            HealthStatus::Healthy
        } else {
            HealthStatus::Degraded
        }
    }
}

} // verus!
