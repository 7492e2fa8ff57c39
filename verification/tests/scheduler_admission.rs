use im_core::model::Mode;
use im_core::scheduler::{Budget, Budgets, Job, Lane, PriQueue};

fn job(lane: Lane, deadline_ns: u64, cost_ns: u64, id: u64) -> Job {
    Job { lane, deadline_ns, cost_ns, id }
}

#[test]
fn poll_ready_admits_higher_lane_first_and_edf_within_lane() {
    let mut q = PriQueue::default();
    q.schedule(job(Lane::P0, 100, 10, 1));
    q.schedule(job(Lane::P1, 50, 10, 2));
    q.schedule(job(Lane::P0, 10, 10, 3));
    // the budget fits at most two jobs
    let out = q.poll_ready(Budget { ns: 20 }, 0);
    assert_eq!(out.expired.len(), 0);
    assert_eq!(out.released.len(), 2);
    // both P0 jobs go before the P1 job; deadline 10 before deadline 100
    assert_eq!(out.released[0].id, 3);
    assert_eq!(out.released[1].id, 1);
    // the P1 job stays pending
    assert_eq!(q.len(), 1);
}

#[test]
fn poll_ready_skips_oversized_job_but_fills_with_lower_lane() {
    let mut q = PriQueue::default();
    q.schedule(job(Lane::P0, 10, 10, 1));
    q.schedule(job(Lane::P0, 20, 12, 2));
    q.schedule(job(Lane::P1, 5, 5, 3));
    let out = q.poll_ready(Budget { ns: 15 }, 0);
    // the second P0 job does not fit; the scheduler does not stall and still
    // admits the admissible P1 job
    assert_eq!(out.released.len(), 2);
    assert_eq!(out.released[0].id, 1);
    assert_eq!(out.released[1].id, 3);
    assert_eq!(q.len(), 1);
}

#[test]
fn poll_ready_never_returns_expired_jobs() {
    let mut q = PriQueue::default();
    q.schedule(job(Lane::P0, 5, 1, 1));
    q.schedule(job(Lane::P2, 100, 1, 2));
    let out = q.poll_ready(Budget { ns: 10 }, 10);
    assert_eq!(out.expired.len(), 1);
    assert_eq!(out.expired[0].id, 1);
    assert_eq!(out.released.len(), 1);
    assert_eq!(out.released[0].id, 2);
    // the expired job is gone for good
    let again = q.poll_ready(Budget { ns: 10 }, 10);
    assert_eq!(again.released.len(), 0);
    assert_eq!(again.expired.len(), 0);
    assert_eq!(q.len(), 0);
}

#[test]
fn poll_ready_with_nothing_pending_returns_empty() {
    let mut q = PriQueue::default();
    let out = q.poll_ready(Budget { ns: 100 }, 0);
    assert_eq!(out.released.len(), 0);
    assert_eq!(out.expired.len(), 0);
}

#[test]
fn zero_budget_releases_nothing_but_keeps_jobs() {
    let mut q = PriQueue::default();
    q.schedule(job(Lane::P0, 100, 1, 1));
    let out = q.poll_ready(Budget { ns: 0 }, 0);
    assert_eq!(out.released.len(), 0);
    assert_eq!(q.len(), 1);
}

#[test]
fn jobs_with_equal_lane_and_deadline_are_both_admitted() {
    let mut q = PriQueue::default();
    q.schedule(job(Lane::P1, 50, 5, 1));
    q.schedule(job(Lane::P1, 50, 5, 2));
    let out = q.poll_ready(Budget { ns: 10 }, 0);
    assert_eq!(out.released.len(), 2);
    let mut ids: Vec<u64> = out.released.iter().map(|j| j.id).collect();
    ids.sort();
    assert_eq!(ids, vec![1, 2]);
    assert_eq!(q.len(), 0);
}

#[test]
fn skipped_job_stays_pending_and_fits_a_later_budget() {
    let mut q = PriQueue::default();
    q.schedule(job(Lane::P0, 100, 50, 1));
    let tight = q.poll_ready(Budget { ns: 10 }, 0);
    assert_eq!(tight.released.len(), 0);
    assert_eq!(q.len(), 1);
    let roomy = q.poll_ready(Budget { ns: 50 }, 0);
    assert_eq!(roomy.released.len(), 1);
    assert_eq!(roomy.released[0].id, 1);
    assert_eq!(q.len(), 0);
}

#[test]
fn budgets_table_matches_defaults() {
    let b = Budgets::default();
    assert_eq!(b.for_mode(Mode::Idle).ns, 1_000_000);
    assert_eq!(b.for_mode(Mode::Observe).ns, 5_000_000);
    assert_eq!(b.for_mode(Mode::Focus).ns, 5_000_000);
    assert_eq!(b.for_mode(Mode::React).ns, 2_000_000);
}
