use im_core::base::{compute_checksum, Envelope};
use im_core::controller::{EventOutcome, ImController, SeqStatus, SeqTracker};
use im_core::health::HealthStatus;
use im_core::interfaces::{ingest_envelope, AEIUpdate, IMHealth, Inbound, IngestError, Outbound};
use im_core::model::{Event, Mode};
use im_core::storage::kv::KvStore;
use im_core::storage::{Snapshot, WAL};

fn fresh() -> ImController {
    ImController::new(WAL::default(), Snapshot::default())
}

fn event(src: u32, seq_no: u64, crc: u32) -> Event {
    Event {
        ts_mono_ns: 1,
        wall_ts_ms: 2,
        src,
        schema_ver: 1,
        seq_no,
        payload_ptr: 0,
        payload_crc: crc,
    }
}

fn count_health_reports(out: &[Outbound]) -> usize {
    out.iter().filter(|m| matches!(m, Outbound::Health(_))).count()
}

#[test]
fn checksum_has_expected_value() {
    assert_eq!(compute_checksum(&vec![]), 0);
    assert_eq!(compute_checksum(&vec![1, 2]), 33);
}

#[test]
fn envelope_verify_accepts_matching_checksum() {
    let env = Envelope::new(5, 10, 1, 1, vec![1, 2], 33);
    assert!(env.verify());
    let bad = Envelope::new(5, 10, 1, 1, vec![1, 2], 34);
    assert!(!bad.verify());
}

#[test]
fn ingest_stores_payload_and_builds_event() {
    let mut kv = KvStore::new();
    let env = Envelope::new(5, 10, 1, 7, vec![1, 2], 33);
    let ev = ingest_envelope(&env, 99, 42, &mut kv).unwrap();
    assert_eq!(ev.seq_no, 5);
    assert_eq!(ev.src, 7);
    assert_eq!(ev.wall_ts_ms, 99);
    assert_eq!(ev.payload_ptr, 42);
    assert_eq!(ev.payload_crc, 33);
    assert_eq!(*kv.get_blob(42).unwrap(), vec![1, 2]);
}

#[test]
fn ingest_rejects_corrupt_envelope_and_stores_nothing() {
    let mut kv = KvStore::new();
    let env = Envelope::new(5, 10, 1, 7, vec![1, 2], 99);
    assert_eq!(ingest_envelope(&env, 0, 42, &mut kv), Err(IngestError::ChecksumMismatch));
    assert!(kv.get_blob(42).is_none());
}

#[test]
fn ingest_rejects_schema_version_out_of_range() {
    let mut kv = KvStore::new();
    let env = Envelope::new(5, 10, 70_000, 7, vec![1, 2], 33);
    assert_eq!(ingest_envelope(&env, 0, 42, &mut kv), Err(IngestError::SchemaOutOfRange));
}

#[test]
fn seq_tracker_classifies_first_inorder_gap_and_stale() {
    let mut t = SeqTracker::new();
    assert_eq!(t.note(1, 5), SeqStatus::FirstSeen);
    assert_eq!(t.note(1, 6), SeqStatus::InOrder);
    assert_eq!(t.note(1, 9), SeqStatus::Gap);
    assert_eq!(t.note(1, 9), SeqStatus::Stale);
    assert_eq!(t.note(1, 4), SeqStatus::Stale);
    // an independent source starts fresh
    assert_eq!(t.note(2, 1), SeqStatus::FirstSeen);
    assert_eq!(t.note(1, 10), SeqStatus::InOrder);
}

#[test]
fn health_emitted_every_cycle_with_no_inbound_events() {
    let mut ctl = fresh();
    let n: u64 = 5;
    let mut total: u64 = 0;
    for k in 0..n {
        let rep = ctl.cycle(k * 1_000_000, Vec::new()).unwrap();
        assert_eq!(count_health_reports(&rep.outbound), 1);
        match &rep.outbound[rep.outbound.len() - 1] {
            Outbound::Health(h) => {
                assert_eq!(h.salience, ctl.ctx.salience);
                assert_eq!(h.mode, ctl.ctx.mode);
            },
            _ => panic!("the heartbeat must be emitted"),
        }
        total += count_health_reports(&rep.outbound) as u64;
    }
    assert_eq!(total, n);
}

#[test]
fn cycle_applies_injected_event_and_emits_health() {
    let mut ctl = fresh();
    let ev = event(1, 5, 7);
    let inbound = vec![Inbound::AEIUpdate(AEIUpdate { event: ev })];
    let rep = ctl.cycle(0, inbound).unwrap();
    // the scene reflects the update: hash mixes seq_no, src, and crc
    assert_eq!(ctl.ctx.scene.hash, 5 + 1 + 7);
    // exactly one health report, with the newly computed mode
    assert_eq!(count_health_reports(&rep.outbound), 1);
    match &rep.outbound[rep.outbound.len() - 1] {
        Outbound::Health(IMHealth { salience, mode }) => {
            assert_eq!(*salience, 0);
            assert_eq!(*mode, Mode::Idle);
        },
        _ => panic!("the heartbeat must be emitted"),
    }
    // idle is not snapshot-eligible in the default table, so no snapshot
    assert!(!rep.snapshot_written);
    assert_eq!(rep.sleep_ms, 1000);
}

#[test]
fn cycle_writes_snapshot_when_mode_is_eligible() {
    let mut ctl = fresh();
    // make the quiescent mode snapshot-eligible for this run
    ctl.cadence.idle.snapshot_eligible = true;
    let rep = ctl.cycle(0, Vec::new()).unwrap();
    assert!(rep.snapshot_written);
    let (loaded, tag) = ctl.snapshot.load_latest().unwrap();
    assert_eq!(tag, 1); // one WAL record: this cycle's salience delta
    assert_eq!(loaded.salience, ctl.ctx.salience);
    assert_eq!(loaded.mode, ctl.ctx.mode);
}

#[test]
fn stale_event_is_dropped_and_degrades_health() {
    let mut ctl = fresh();
    assert_eq!(ctl.health_checks(), HealthStatus::Healthy);
    let first = ctl.on_event(Inbound::AEIUpdate(AEIUpdate { event: event(1, 5, 0) }));
    assert_eq!(first, EventOutcome::Applied(SeqStatus::FirstSeen));
    let scene_after_first = ctl.ctx.scene.hash;
    let stale = ctl.on_event(Inbound::AEIUpdate(AEIUpdate { event: event(1, 5, 0) }));
    assert_eq!(stale, EventOutcome::DroppedStale);
    assert_eq!(ctl.ctx.scene.hash, scene_after_first);
    assert_eq!(ctl.stale_count, 1);
    assert_eq!(ctl.health_checks(), HealthStatus::Degraded);
}

#[test]
fn gap_is_reported_but_update_proceeds() {
    let mut ctl = fresh();
    ctl.on_event(Inbound::AEIUpdate(AEIUpdate { event: event(1, 1, 0) }));
    let scene_before = ctl.ctx.scene.hash;
    let st = ctl.on_event(Inbound::AEIUpdate(AEIUpdate { event: event(1, 7, 0) }));
    assert_eq!(st, EventOutcome::Applied(SeqStatus::Gap));
    assert_ne!(ctl.ctx.scene.hash, scene_before);
    assert_eq!(ctl.gap_count, 1);
}

#[test]
fn recovery_after_cycles_restores_live_context() {
    let mut ctl = fresh();
    ctl.cadence.idle.snapshot_eligible = true;
    let inbound = vec![Inbound::AEIUpdate(AEIUpdate { event: event(1, 1, 3) })];
    ctl.cycle(0, inbound).unwrap();
    ctl.cycle(1_000_000, Vec::new()).unwrap();
    let live_scene = ctl.ctx.scene.hash;
    let live_salience = ctl.ctx.salience;
    let live_mode = ctl.ctx.mode;
    // hand the stores to a fresh controller, as a restart would
    let restored = ImController::from_recovery(ctl.wal, ctl.snapshot).unwrap();
    assert_eq!(restored.ctx.scene.hash, live_scene);
    assert_eq!(restored.ctx.salience, live_salience);
    assert_eq!(restored.ctx.mode, live_mode);
}

#[test]
fn mode_change_is_announced_once() {
    let mut ctl = fresh();
    // force a non-idle starting mode so the first cycle's recomputation
    // (quiescent salience) changes it back and must announce the change
    ctl.ctx.mode = Mode::Focus;
    let rep = ctl.cycle(0, Vec::new()).unwrap();
    assert_eq!(rep.outbound.len(), 2);
    match &rep.outbound[0] {
        Outbound::IMModeChange(mc) => assert_eq!(mc.to, Mode::Idle),
        _ => panic!("the mode change must be announced first"),
    }
}

#[test]
fn apply_backpressure_is_a_noop_for_unbounded_queues() {
    let mut ctl = fresh();
    assert!(ctl.apply_backpressure().is_ok());
}
