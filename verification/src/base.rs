//! Shared base types: timestamps, the cross-process event envelope, and the
//! payload integrity checksum.

use vstd::prelude::*;

verus! {

/// Monotonic nanoseconds since boot.
pub type MonoNs = u64;

/// Milliseconds since UNIX epoch (wall clock; for metadata only).
pub type WallMs = u64;

/// Payload integrity checksum: a 31-ary polynomial hash over the bytes,
/// truncated to 32 bits.
pub open spec fn checksum32(s: Seq<u8>) -> u32
    decreases s.len(),
{
    if s.len() == 0 {
        0
    } else {
        (((checksum32(s.drop_last()) as u64) * 31 + s.last() as u64) % 0x1_0000_0000) as u32
    }
}

/// Computes the payload integrity checksum of `data`.
pub fn compute_checksum(data: &Vec<u8>) -> (c: u32)
    ensures
        c == checksum32(data@),
{
    let n = data.len();
    let mut c: u32 = 0;
    let mut i: usize = 0;
    proof {
        assert(data@.take(0) =~= Seq::<u8>::empty());
    }
    while i < n
        invariant
            n == data@.len(),
            0 <= i <= n,
            c == checksum32(data@.take(i as int)),
        decreases n - i,
    {
        let wide: u64 = (c as u64) * 31 + (data[i] as u64);
        proof {
            assert(data@.take(i as int + 1).drop_last() =~= data@.take(i as int));
            assert(data@.take(i as int + 1).last() == data@[i as int]);
        }
        c = (wide % 0x1_0000_0000) as u32;
        i = i + 1;
    }
    proof {
        assert(data@.take(n as int) =~= data@);
    }
    c
}

/// Copies a byte vector.
pub fn copy_bytes(src: &Vec<u8>) -> (out: Vec<u8>)
    ensures
        out@ == src@,
{
    let n = src.len();
    let mut out: Vec<u8> = Vec::new();
    let mut i: usize = 0;
    while i < n
        invariant
            n == src@.len(),
            0 <= i <= n,
            out@ == src@.take(i as int),
        decreases n - i,
    {
        out.push(src[i]);
        proof {
            assert(src@.take(i as int + 1) =~= src@.take(i as int).push(src@[i as int]));
        }
        i = i + 1;
    }
    proof {
        assert(src@.take(n as int) =~= src@);
    }
    out
}

/// Cross-process wire wrapper for one event: sequence number, monotonic
/// timestamp, schema version, source, opaque payload bytes, and a checksum
/// that the receiver must verify before trusting the payload.
#[derive(Clone, Debug, PartialEq, Eq)]
pub struct Envelope {
    pub seq_no: u64,
    pub ts_mono_ns: MonoNs,
    pub schema_ver: u32,
    pub source_id: u32,
    pub payload: Vec<u8>,
    pub checksum: u32,
}

impl Envelope {
    /// Assembles an envelope from its parts.
    pub fn new(
        seq_no: u64,
        ts_mono_ns: MonoNs,
        schema_ver: u32,
        source_id: u32,
        payload: Vec<u8>,
        checksum: u32,
    ) -> (e: Envelope)
        ensures
            e.seq_no == seq_no,
            e.ts_mono_ns == ts_mono_ns,
            e.schema_ver == schema_ver,
            e.source_id == source_id,
            e.payload@ == payload@,
            e.checksum == checksum,
    {
        Envelope { seq_no, ts_mono_ns, schema_ver, source_id, payload, checksum }
    }

    /// Whether the carried checksum matches the payload bytes.
    pub fn verify(&self) -> (ok: bool)
        ensures
            ok == (self.checksum == checksum32(self.payload@)),
    {
        let c = compute_checksum(&self.payload);
        self.checksum == c
    }
}

} // verus!
