//! Message gateway: inbound and outbound message variants, envelope ingestion
//! with checksum verification, and per-source sequence tracking.

use vstd::prelude::*;
use crate::base::{checksum32, copy_bytes, Envelope};
use crate::model::{Event, Mode, WorkingContext};
use crate::storage::kv::KvStore;

verus! {

/// Payload of a message slot that is reserved for forward compatibility.
/// Nothing constructs it: the field is private and no constructor exists, so
/// the variants that carry it cannot be built yet.
#[derive(Clone, Copy, Debug)]
pub struct Reserved {
    not_yet: (),
}

/// Inbound messages consumed by the control loop.
#[derive(Clone, Copy, Debug)]
pub enum Inbound {
    /// An update from an external perception source carrying one event.
    AEIUpdate(AEIUpdate),
    /// An internally generated scene-change signal.
    SAEvent(SAEvent),
    /// Reserved: query results from sibling subsystems.
    MMQueryResult(Reserved),
    /// Reserved: plan updates from sibling subsystems.
    TAPlanUpdate(Reserved),
    /// Reserved: outcome reports from sibling subsystems.
    DECOutcome(Reserved),
}

/// Outbound messages emitted by the control loop.
#[derive(Clone, Copy, Debug)]
pub enum Outbound {
    /// A decision record with an opaque rationale reference.
    IMDecision(IMDecision),
    /// Reserved: requests to sibling subsystems.
    IMRequest(Reserved),
    /// The loop changed mode.
    IMModeChange(IMModeChange),
    /// Reserved: snapshot hints.
    IMSnapshotHint(Reserved),
    /// Per-cycle heartbeat: salience and mode.
    Health(IMHealth),
    /// Sentinel for a cycle with no meaningful output.
    Nop,
}

/// An update from an external perception source carrying one event.
#[derive(Clone, Copy, Debug, PartialEq, Eq, Structural)]
pub struct AEIUpdate {
    pub event: Event,
}

impl AEIUpdate {
    /// Unwraps the carried event.
    pub fn into_event(self) -> (e: Event)
        ensures
            e == self.event,
    {
        self.event
    }
}

/// An internally generated scene-change signal.
#[derive(Clone, Copy, Debug, PartialEq, Eq, Structural)]
pub struct SAEvent {}

/// A decision record; the rationale lives in blob storage.
#[derive(Clone, Copy, Debug, PartialEq, Eq, Structural)]
pub struct IMDecision {
    pub rationale_ptr: u64,
}

/// Notification that the loop changed mode.
#[derive(Clone, Copy, Debug, PartialEq, Eq, Structural)]
pub struct IMModeChange {
    pub to: Mode,
}

/// Per-cycle health report: the salience computed this cycle (fixed-point
/// millionths) and the mode it selected.
#[derive(Clone, Copy, Debug, PartialEq, Eq, Structural)]
pub struct IMHealth {
    pub salience: u32,
    pub mode: Mode,
}

impl IMHealth {
    /// The health report describing a working context.
    pub fn from_context(ctx: &WorkingContext) -> (h: IMHealth)
        ensures
            h.salience == ctx.salience,
            h.mode == ctx.mode,
    {
        IMHealth { salience: ctx.salience, mode: ctx.mode }
    }
}

/// How many health reports a batch of outbound messages holds.
pub open spec fn count_health(s: Seq<Outbound>) -> int
    decreases s.len(),
{
    if s.len() == 0 {
        0
    } else {
        count_health(s.drop_last()) + if s.last() is Health {
            1int
        } else {
            0int
        }
    }
}

/// Law: when every cycle of a run emits exactly one health report, a run of
/// `n` cycles emits exactly `n` of them.
pub proof fn lemma_health_reports_count(batches: Seq<Seq<Outbound>>)
    requires
        forall|i: int| 0 <= i < batches.len() ==> count_health(#[trigger] batches[i]) == 1,
    ensures
        count_health(batches.flatten()) == batches.len(),
    decreases batches.len(),
{
    if batches.len() == 0 {
        assert(batches.flatten() =~= Seq::<Outbound>::empty());
    } else {
        lemma_count_health_concat(batches.first(), batches.drop_first().flatten());
        lemma_health_reports_count(batches.drop_first());
    }
}

/// Emitting one more message adds one health report exactly when it is one.
pub proof fn lemma_count_health_push(s: Seq<Outbound>, x: Outbound)
    ensures
        count_health(s.push(x)) == count_health(s) + if x is Health {
            1int
        } else {
            0int
        },
{
    assert(s.push(x).drop_last() =~= s);
}

/// Health reports in a concatenation add up.
proof fn lemma_count_health_concat(a: Seq<Outbound>, b: Seq<Outbound>)
    ensures
        count_health(a + b) == count_health(a) + count_health(b),
    decreases b.len(),
{
    if b.len() == 0 {
        assert(a + b =~= a);
    } else {
        assert((a + b).drop_last() =~= a + b.drop_last());
        assert((a + b).last() == b.last());
        lemma_count_health_concat(a, b.drop_last());
    }
}

/// Why an envelope was rejected at the gateway.
#[derive(Clone, Copy, Debug, PartialEq, Eq, Structural)]
pub enum IngestError {
    /// The carried checksum does not match the payload bytes; the event is
    /// dropped, never applied.
    ChecksumMismatch,
    /// The schema version does not fit the event's schema field.
    SchemaOutOfRange,
}

/// Verifies an envelope's checksum, stores its payload under `ptr`, and
/// builds the event the control loop consumes.  A corrupt envelope is
/// rejected and leaves the store untouched.
pub fn ingest_envelope(env: &Envelope, wall_ts_ms: u64, ptr: u64, kv: &mut KvStore) -> (r: Result<
    Event,
    IngestError,
>)
    ensures
        env.checksum != checksum32(env.payload@) ==> r == Err::<Event, IngestError>(
            IngestError::ChecksumMismatch,
        ) && final(kv).blobs_view() == old(kv).blobs_view(),
        env.checksum == checksum32(env.payload@) && env.schema_ver > u16::MAX ==> r == Err::<
            Event,
            IngestError,
        >(IngestError::SchemaOutOfRange) && final(kv).blobs_view() == old(kv).blobs_view(),
        env.checksum == checksum32(env.payload@) && env.schema_ver <= u16::MAX ==> r == Ok::<
            Event,
            IngestError,
        >(
            Event {
                ts_mono_ns: env.ts_mono_ns,
                wall_ts_ms,
                src: env.source_id,
                schema_ver: env.schema_ver as u16,
                seq_no: env.seq_no,
                payload_ptr: ptr,
                payload_crc: env.checksum,
            },
        ) && final(kv).blobs_view() == old(kv).blobs_view().push((ptr, env.payload@)),
{
    if !env.verify() {
        return Err(IngestError::ChecksumMismatch);
    }
    if env.schema_ver > u16::MAX as u32 {
        return Err(IngestError::SchemaOutOfRange);
    }
    let data = copy_bytes(&env.payload);
    kv.put_blob(ptr, data);
    Ok(
        Event {
            ts_mono_ns: env.ts_mono_ns,
            wall_ts_ms,
            src: env.source_id,
            schema_ver: env.schema_ver as u16,
            seq_no: env.seq_no,
            payload_ptr: ptr,
            payload_crc: env.checksum,
        },
    )
}

} // verus!
