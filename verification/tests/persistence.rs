use im_core::model::{Goal, Mode, WorkingContext};
use im_core::storage::codec::{decode_log, decode_rec, encode_log, encode_rec, FRAME_LEN};
use im_core::storage::wal::{apply_delta, replay, WalOp, WalRec, WalWriter,
    DEFAULT_FSYNC_DEADLINE_NS};
use im_core::storage::{import_frames, recover, PersistError, Snapshot, WAL};

#[test]
fn wal_append_numbers_records_from_one() {
    let mut w = WalWriter::new(DEFAULT_FSYNC_DEADLINE_NS);
    let batch = vec![
        WalOp::SetScene { hash: 7 },
        WalOp::SetSalience { salience: 3, mode: Mode::Idle },
    ];
    let seq = w.append(&batch);
    assert_eq!(seq, 2);
    assert_eq!(w.recs[0].seq_no, 1);
    assert_eq!(w.recs[1].seq_no, 2);
    let seq2 = w.append_one(WalOp::SetScene { hash: 9 });
    assert_eq!(seq2, 3);
}

#[test]
fn fsync_deadline_flushes_only_after_staleness_window() {
    let mut w = WalWriter::new(100);
    w.append_one(WalOp::SetScene { hash: 1 });
    w.fsync_deadline(50);
    assert_eq!(w.durable_len, 0);
    w.fsync_deadline(100);
    assert_eq!(w.durable_len, 1);
    assert_eq!(w.last_flush_ns, 100);
}

#[test]
fn snapshot_roundtrip_returns_written_context_and_tag() {
    let mut snap = Snapshot::default();
    let mut ctx = WorkingContext::default();
    ctx.scene.hash = 99;
    ctx.salience = 123;
    ctx.goals.push(Goal { priority: 4, deadline_ms: 1000 });
    snap.write_snapshot(&ctx, 17).unwrap();
    let (loaded, tag) = snap.load_latest().unwrap();
    assert_eq!(tag, 17);
    assert_eq!(loaded.scene.hash, 99);
    assert_eq!(loaded.salience, 123);
    assert_eq!(loaded.goals.len(), 1);
    assert_eq!(loaded.goals[0].priority, 4);
}

#[test]
fn load_latest_without_snapshot_gives_initial_context_and_tag_zero() {
    let snap = Snapshot::default();
    let (loaded, tag) = snap.load_latest().unwrap();
    assert_eq!(tag, 0);
    assert_eq!(loaded.scene.hash, 0);
    assert_eq!(loaded.salience, 0);
    assert_eq!(loaded.mode, Mode::Idle);
    assert_eq!(loaded.goals.len(), 0);
}

#[test]
fn recovery_replays_wal_tail_after_snapshot_tag() {
    // apply three deltas directly in sequence
    let ops = vec![
        WalOp::SetSalience { salience: 300_000, mode: Mode::Observe },
        WalOp::SetScene { hash: 5 },
        WalOp::PushGoal { goal: Goal { priority: -2, deadline_ms: 7 } },
    ];
    let mut direct = WorkingContext::default();
    for op in &ops {
        apply_delta(&mut direct, op);
    }
    // the same deltas through the log, with a snapshot after the first two
    let mut wal = WAL::default();
    wal.writer.append_one(ops[0]);
    wal.writer.append_one(ops[1]);
    let mut partial = WorkingContext::default();
    apply_delta(&mut partial, &ops[0]);
    apply_delta(&mut partial, &ops[1]);
    let mut snap = Snapshot::default();
    snap.write_snapshot(&partial, 2).unwrap();
    wal.writer.append_one(ops[2]);
    // recovery = snapshot at tag 2 plus replay of record 3
    let (recovered, tag) = recover(&snap, &wal).unwrap();
    assert_eq!(tag, 2);
    assert_eq!(recovered.salience, direct.salience);
    assert_eq!(recovered.mode, direct.mode);
    assert_eq!(recovered.scene.hash, direct.scene.hash);
    assert_eq!(recovered.goals.len(), direct.goals.len());
    assert_eq!(recovered.goals[0].priority, -2);
}

#[test]
fn recovery_without_snapshot_replays_from_sequence_zero() {
    let mut wal = WAL::default();
    wal.writer.append_one(WalOp::SetScene { hash: 21 });
    let snap = Snapshot::default();
    let (recovered, tag) = recover(&snap, &wal).unwrap();
    assert_eq!(tag, 0);
    assert_eq!(recovered.scene.hash, 21);
}

#[test]
fn replay_applies_records_in_order() {
    let mut wal = WalWriter::new(DEFAULT_FSYNC_DEADLINE_NS);
    wal.append_one(WalOp::SetScene { hash: 1 });
    wal.append_one(WalOp::SetScene { hash: 2 });
    let mut ctx = WorkingContext::default();
    let recs = wal.records_after(0);
    replay(&mut ctx, &recs);
    assert_eq!(ctx.scene.hash, 2);
}

#[test]
fn frame_roundtrip_reproduces_every_variant() {
    let recs = vec![
        WalRec { seq_no: 1, op: WalOp::SetSalience { salience: 900_000, mode: Mode::React } },
        WalRec { seq_no: 2, op: WalOp::SetScene { hash: 0xdead_beef_dead_beef } },
        WalRec {
            seq_no: 3,
            op: WalOp::PushGoal { goal: Goal { priority: -5, deadline_ms: 123_456 } },
        },
    ];
    for rec in &recs {
        let bytes = encode_rec(rec);
        assert_eq!(bytes.len(), FRAME_LEN);
        let back = decode_rec(&bytes).expect("a frame must decode");
        assert_eq!(back, *rec);
    }
}

#[test]
fn frame_with_flipped_byte_is_rejected() {
    let rec = WalRec { seq_no: 9, op: WalOp::SetScene { hash: 77 } };
    let mut bytes = encode_rec(&rec);
    bytes[0] ^= 0xff;
    assert!(decode_rec(&bytes).is_none());
}

#[test]
fn truncated_frame_is_rejected() {
    let rec = WalRec { seq_no: 9, op: WalOp::SetScene { hash: 77 } };
    let mut bytes = encode_rec(&rec);
    bytes.pop();
    assert!(decode_rec(&bytes).is_none());
}

#[test]
fn log_roundtrip_through_exported_frames() {
    let mut w = WalWriter::new(DEFAULT_FSYNC_DEADLINE_NS);
    w.append_one(WalOp::SetSalience { salience: 1, mode: Mode::Observe });
    w.append_one(WalOp::SetScene { hash: 2 });
    w.append_one(WalOp::PushGoal { goal: Goal { priority: 3, deadline_ms: 4 } });
    let bytes = w.export_frames();
    assert_eq!(bytes.len(), 3 * FRAME_LEN);
    let recs = decode_log(&bytes).expect("an exported log must decode");
    assert_eq!(recs, w.recs);
}

#[test]
fn log_with_ragged_length_is_rejected() {
    let recs = vec![WalRec { seq_no: 1, op: WalOp::SetScene { hash: 1 } }];
    let mut bytes = encode_log(&recs);
    bytes.push(0);
    assert!(decode_log(&bytes).is_none());
}

#[test]
fn import_reports_a_corrupt_frame_as_persistence_failure() {
    let mut w = WalWriter::new(DEFAULT_FSYNC_DEADLINE_NS);
    w.append_one(WalOp::SetScene { hash: 11 });
    let mut bytes = w.export_frames();
    bytes[10] ^= 0x01;
    assert_eq!(import_frames(&bytes), Err(PersistError::CorruptRecord));
    bytes[10] ^= 0x01;
    assert_eq!(import_frames(&bytes).unwrap(), w.recs);
}

#[test]
fn empty_log_decodes_to_no_records() {
    let bytes: Vec<u8> = Vec::new();
    assert_eq!(decode_log(&bytes).unwrap().len(), 0);
}

#[test]
fn frame_with_unknown_tag_is_rejected() {
    let rec = WalRec { seq_no: 1, op: WalOp::SetScene { hash: 0 } };
    let mut bytes = encode_rec(&rec);
    // rewrite the tag and leave the checksum stale: rejected either way
    bytes[8] = 9;
    assert!(decode_rec(&bytes).is_none());
}
