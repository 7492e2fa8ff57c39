//! Deadline/priority job scheduler.
//!
//! Pending jobs carry a lane (P0 highest priority, P2 lowest), a monotonic
//! deadline, and a cost estimate.  Each cycle, `poll_ready` drops every job
//! whose deadline has already passed (reporting it as expired, never silently)
//! and then admits the live jobs greedily in admission order — higher lane
//! first, earlier deadline first within a lane — while the running cost stays
//! within the cycle's budget.  A job that does not fit is skipped and lower
//! jobs are still tried (a bin-packing relaxation, not strict FIFO).

use vstd::prelude::*;
use vstd::multiset::Multiset;
use crate::model::Mode;

verus! {

broadcast use vstd::multiset::group_multiset_axioms, vstd::seq_lib::group_to_multiset_ensures;

/// Priority class of a job; P0 is served before P1, P1 before P2.
#[derive(Clone, Copy, Debug, PartialEq, Eq, Structural)]
pub enum Lane {
    P0,
    P1,
    P2,
}

/// Rank of a lane under the service order P0 < P1 < P2.
pub open spec fn lane_rank(l: Lane) -> int {
    match l {
        Lane::P0 => 0,
        Lane::P1 => 1,
        Lane::P2 => 2,
    }
}

impl Lane {
    /// Executable rank under the service order P0 < P1 < P2.
    pub fn rank(&self) -> (r: u8)
        ensures
            r as int == lane_rank(*self),
    {
        match self {
            Lane::P0 => 0,
            Lane::P1 => 1,
            Lane::P2 => 2,
        }
    }
}

/// Maximum scheduling cost admissible in one cycle, in nanoseconds.
#[derive(Clone, Copy, Debug, PartialEq, Eq, Structural)]
pub struct Budget {
    pub ns: u64,
}

/// A unit of scheduled internal work: lane, monotonic deadline, estimated
/// cost, and an identifier.
#[derive(Clone, Copy, Debug, PartialEq, Eq, Structural)]
pub struct Job {
    pub lane: Lane,
    pub deadline_ns: u64,
    pub cost_ns: u64,
    pub id: u64,
}

/// Admission order on jobs: a strictly higher-priority lane goes first; within
/// a lane, the earlier deadline goes first.
pub open spec fn job_le(a: Job, b: Job) -> bool {
    lane_rank(a.lane) < lane_rank(b.lane)
    || (lane_rank(a.lane) == lane_rank(b.lane) && a.deadline_ns <= b.deadline_ns)
}

/// The sequence is ordered by admission order.
pub open spec fn sorted_by_admission(s: Seq<Job>) -> bool {
    forall|i: int, j: int| 0 <= i < j < s.len() ==> job_le(s[i], s[j])
}

/// Total estimated cost of a sequence of jobs.
pub open spec fn sum_cost(s: Seq<Job>) -> int
    decreases s.len(),
{
    if s.len() == 0 {
        0
    } else {
        sum_cost(s.drop_last()) + s.last().cost_ns
    }
}

/// Total estimated cost of the jobs in `s` that precede or tie with `j` in
/// admission order.
pub open spec fn sum_cost_le(s: Seq<Job>, j: Job) -> int
    decreases s.len(),
{
    if s.len() == 0 {
        0
    } else {
        sum_cost_le(s.drop_last(), j) + if job_le(s.last(), j) {
            s.last().cost_ns as int
        } else {
            0
        }
    }
}

proof fn lemma_sum_cost_push(s: Seq<Job>, e: Job)
    ensures
        sum_cost(s.push(e)) == sum_cost(s) + e.cost_ns,
{
    assert(s.push(e).drop_last() =~= s);
}

proof fn lemma_sum_cost_le_push(s: Seq<Job>, e: Job, j: Job)
    ensures
        sum_cost_le(s.push(e), j) == sum_cost_le(s, j) + if job_le(e, j) {
            e.cost_ns as int
        } else {
            0
        },
{
    assert(s.push(e).drop_last() =~= s);
}

/// When every job of `s` precedes or ties with `j`, the cost of that part of
/// `s` is the whole cost of `s`.
proof fn lemma_sum_cost_le_all(s: Seq<Job>, j: Job)
    requires
        forall|i: int| 0 <= i < s.len() ==> job_le(s[i], j),
    ensures
        sum_cost_le(s, j) == sum_cost(s),
    decreases s.len(),
{
    if s.len() > 0 {
        lemma_sum_cost_le_all(s.drop_last(), j);
    }
}

/// Executable admission-order test.
pub fn admission_le(a: &Job, b: &Job) -> (r: bool)
    ensures
        r == job_le(*a, *b),
{
    let ra = a.lane.rank();
    let rb = b.lane.rank();
    ra < rb || (ra == rb && a.deadline_ns <= b.deadline_ns)
}

/// Selection sort into admission order; keeps exactly the given jobs.
fn sort_jobs(v: Vec<Job>) -> (out: Vec<Job>)
    ensures
        sorted_by_admission(out@),
        out@.to_multiset() == v@.to_multiset(),
        out@.len() == v@.len(),
{
    let mut rest = v;
    let mut out: Vec<Job> = Vec::new();
    let ghost orig: Seq<Job> = rest@;
    proof {
        assert(out@.to_multiset().add(rest@.to_multiset()) =~= orig.to_multiset());
    }
    while rest.len() > 0
        invariant
            out@.to_multiset().add(rest@.to_multiset()) == orig.to_multiset(),
            out@.len() + rest@.len() == orig.len(),
            sorted_by_admission(out@),
            forall|a: int, b: int|
                0 <= a < out@.len() && 0 <= b < rest@.len() ==> job_le(out@[a], rest@[b]),
        decreases rest.len(),
    {
        // find the admission-minimal job among the remaining ones
        let mut mi: usize = 0;
        let mut k: usize = 1;
        while k < rest.len()
            invariant
                0 <= mi < k <= rest@.len(),
                forall|t: int| 0 <= t < k ==> job_le(rest@[mi as int], rest@[t]),
            decreases rest@.len() - k,
        {
            if !admission_le(&rest[mi], &rest[k]) {
                mi = k;
            }
            k = k + 1;
        }
        let j = rest.remove(mi);
        proof {
            assert(out@.push(j).to_multiset().add(rest@.to_multiset()) =~= orig.to_multiset());
            assert forall|a: int, b: int|
                0 <= a < out@.push(j).len() && 0 <= b < rest@.len() implies job_le(
                out@.push(j)[a],
                rest@[b],
            ) by {
                if a < out@.len() {
                    assert(job_le(out@[a], rest@[b]));
                }
            }
        }
        out.push(j);
    }
    proof {
        assert(rest@.to_multiset() =~= Multiset::<Job>::empty());
        assert(out@.to_multiset() =~= orig.to_multiset());
    }
    out
}

/// What one poll released and what it dropped as expired.
pub struct PollOutcome {
    pub released: Vec<Job>,
    pub expired: Vec<Job>,
}

/// The pending-job set, owned by the control loop.
pub struct PriQueue {
    jobs: Vec<Job>,
}

impl View for PriQueue {
    type V = Seq<Job>;

    closed spec fn view(&self) -> Seq<Job> {
        self.jobs@
    }
}

impl Default for PriQueue {
    fn default() -> (q: PriQueue)
        ensures
            q@ == Seq::<Job>::empty(),
    {
        let q = PriQueue { jobs: Vec::new() };
        proof {
            assert(q@ =~= Seq::<Job>::empty());
        }
        q
    }
}

impl PriQueue {
    /// Number of pending jobs.
    pub fn len(&self) -> (n: usize)
        ensures
            n == self@.len(),
    {
        self.jobs.len()
    }

    /// Enqueues a job; it stays pending until released or expired.
    pub fn schedule(&mut self, job: Job)
        ensures
            final(self)@ == old(self)@.push(job),
    {
        self.jobs.push(job);
    }

    /// Releases the pending jobs admissible under `budget` at time `now_ns`.
    ///
    /// Jobs whose deadline has passed are removed and reported as expired,
    /// never released.  Live jobs are admitted greedily in admission order
    /// (lane, then deadline) while the running cost stays within the budget;
    /// one that does not fit is skipped and the rest are still tried.  Never
    /// blocks; with nothing admissible both sequences come back empty.
    pub fn poll_ready(&mut self, budget: Budget, now_ns: u64) -> (out: PollOutcome)
        ensures
            // every pending job is accounted for: it stays pending, is
            // released, or is reported expired
            final(self)@.to_multiset().add(out.released@.to_multiset()).add(
                out.expired@.to_multiset(),
            ) == old(self)@.to_multiset(),
            // a job is expired exactly when its deadline lies before the poll
            forall|i: int| 0 <= i < out.expired@.len() ==> out.expired@[i].deadline_ns < now_ns,
            forall|i: int| 0 <= i < out.released@.len() ==> out.released@[i].deadline_ns >= now_ns,
            forall|i: int| 0 <= i < final(self)@.len() ==> final(self)@[i].deadline_ns >= now_ns,
            // the released jobs fit the budget and come out in admission order
            sum_cost(out.released@) <= budget.ns,
            sorted_by_admission(out.released@),
            // greedy maximality: a live job stays pending only because
            // admitting it beside the released jobs at or before its place
            // would exceed the budget
            forall|i: int|
                0 <= i < final(self)@.len() ==> sum_cost_le(out.released@, final(self)@[i])
                    + final(self)@[i].cost_ns > budget.ns,
    {
        let ghost pending0: Seq<Job> = self.jobs@;
        // partition into live and expired
        let mut live: Vec<Job> = Vec::new();
        let mut expired: Vec<Job> = Vec::new();
        let n = self.jobs.len();
        let mut i: usize = 0;
        proof {
            assert(live@.to_multiset().add(expired@.to_multiset()) =~= pending0.take(0).to_multiset());
        }
        while i < n
            invariant
                n == pending0.len(),
                self.jobs@ == pending0,
                0 <= i <= n,
                live@.to_multiset().add(expired@.to_multiset()) == pending0.take(i as int).to_multiset(),
                forall|t: int| 0 <= t < live@.len() ==> live@[t].deadline_ns >= now_ns,
                forall|t: int| 0 <= t < expired@.len() ==> expired@[t].deadline_ns < now_ns,
            decreases n - i,
        {
            let j = self.jobs[i];
            proof {
                assert(pending0.take(i as int + 1) =~= pending0.take(i as int).push(pending0[i as int]));
            }
            if j.deadline_ns < now_ns {
                expired.push(j);
                proof {
                    assert(live@.to_multiset().add(expired@.to_multiset()) =~= pending0.take(
                        i as int + 1,
                    ).to_multiset());
                }
            } else {
                live.push(j);
                proof {
                    assert(live@.to_multiset().add(expired@.to_multiset()) =~= pending0.take(
                        i as int + 1,
                    ).to_multiset());
                }
            }
            i = i + 1;
        }
        proof {
            assert(pending0.take(n as int) =~= pending0);
        }
        let ghost live_view = live@;
        let ghost live_ms = live@.to_multiset();
        let sorted = sort_jobs(live);
        proof {
            assert forall|t: int| 0 <= t < sorted@.len() implies sorted@[t].deadline_ns >= now_ns by {
                assert(sorted@.contains(sorted@[t]));
                assert(sorted@.to_multiset().count(sorted@[t]) > 0);
                assert(live_view.to_multiset().count(sorted@[t]) > 0);
                assert(live_view.contains(sorted@[t]));
                let w = choose|w: int| 0 <= w < live_view.len() && live_view[w] == sorted@[t];
                assert(live_view[w].deadline_ns >= now_ns);
            }
        }
        // greedy admission under the budget
        let mut released: Vec<Job> = Vec::new();
        let mut leftover: Vec<Job> = Vec::new();
        let mut used: u64 = 0;
        let mut k: usize = 0;
        let m = sorted.len();
        proof {
            assert(released@.to_multiset().add(leftover@.to_multiset()) =~= sorted@.take(
                0,
            ).to_multiset());
        }
        while k < m
            invariant
                m == sorted@.len(),
                sorted@.to_multiset() == live_ms,
                sorted_by_admission(sorted@),
                forall|t: int| 0 <= t < sorted@.len() ==> sorted@[t].deadline_ns >= now_ns,
                0 <= k <= m,
                used == sum_cost(released@),
                used <= budget.ns,
                released@.to_multiset().add(leftover@.to_multiset()) == sorted@.take(
                    k as int,
                ).to_multiset(),
                sorted_by_admission(released@),
                forall|a: int, b: int|
                    0 <= a < released@.len() && k <= b < m ==> job_le(released@[a], sorted@[b]),
                forall|t: int| 0 <= t < released@.len() ==> released@[t].deadline_ns >= now_ns,
                forall|t: int| 0 <= t < leftover@.len() ==> leftover@[t].deadline_ns >= now_ns,
                forall|t: int|
                    0 <= t < leftover@.len() ==> sum_cost_le(released@, leftover@[t])
                        + leftover@[t].cost_ns > budget.ns,
            decreases m - k,
        {
            let j = sorted[k];
            proof {
                assert(sorted@.take(k as int + 1) =~= sorted@.take(k as int).push(sorted@[k as int]));
            }
            if j.cost_ns <= budget.ns - used {
                proof {
                    lemma_sum_cost_push(released@, j);
                    assert(released@.push(j).to_multiset().add(leftover@.to_multiset()) =~= sorted@
                        .take(k as int + 1).to_multiset());
                    assert forall|t: int| 0 <= t < leftover@.len() implies sum_cost_le(
                        released@.push(j),
                        leftover@[t],
                    ) + leftover@[t].cost_ns > budget.ns by {
                        lemma_sum_cost_le_push(released@, j, leftover@[t]);
                    }
                }
                used = used + j.cost_ns;
                released.push(j);
            } else {
                proof {
                    lemma_sum_cost_le_all(released@, j);
                    assert(released@.to_multiset().add(leftover@.push(j).to_multiset()) =~= sorted@
                        .take(k as int + 1).to_multiset());
                }
                leftover.push(j);
            }
            k = k + 1;
        }
        proof {
            assert(sorted@.take(m as int) =~= sorted@);
        }
        self.jobs = leftover;
        proof {
            assert(self.jobs@.to_multiset().add(released@.to_multiset()).add(
                expired@.to_multiset(),
            ) =~= pending0.to_multiset());
        }
        PollOutcome { released, expired }
    }
}

/// Per-mode compute budgets for the scheduler.
#[derive(Clone, Copy, Debug, PartialEq, Eq, Structural)]
pub struct Budgets {
    pub idle: Budget,
    pub observe: Budget,
    pub focus: Budget,
    pub react: Budget,
}

impl Budgets {
    /// The budget the table assigns to a mode.
    pub open spec fn spec_for_mode(&self, m: Mode) -> Budget {
        match m {
            Mode::Idle => self.idle,
            Mode::Observe => self.observe,
            Mode::Focus => self.focus,
            Mode::React => self.react,
        }
    }

    /// Looks up the compute budget for a mode.
    pub fn for_mode(&self, m: Mode) -> (b: Budget)
        ensures
            b == self.spec_for_mode(m),
    {
        match m {
            Mode::Idle => self.idle,
            Mode::Observe => self.observe,
            Mode::Focus => self.focus,
            Mode::React => self.react,
        }
    }
}

impl Default for Budgets {
    fn default() -> (b: Budgets)
        ensures
            b.idle == (Budget { ns: 1_000_000 }),
            b.observe == (Budget { ns: 5_000_000 }),
            b.focus == (Budget { ns: 5_000_000 }),
            b.react == (Budget { ns: 2_000_000 }),
    {
        Budgets {
            idle: Budget { ns: 1_000_000 },
            observe: Budget { ns: 5_000_000 },
            focus: Budget { ns: 5_000_000 },
            react: Budget { ns: 2_000_000 },
        }
    }
}

} // verus!
