//! WAL record framing: the byte layout of one log record.
//!
//! A frame is fixed-size: the record's sequence number (8 bytes,
//! little-endian), a tag byte naming the delta variant, two 8-byte
//! little-endian fields, and a 4-byte checksum over everything before it.
//! Decoding accepts a byte string exactly when it is the encoding of some
//! record; anything else — wrong length, unknown tag, out-of-range field, or
//! checksum mismatch — is rejected.

use vstd::prelude::*;
use crate::base::{checksum32, compute_checksum};
use crate::model::{mode_rank, Goal, Mode};
use crate::storage::wal::{WalOp, WalRec};

verus! {

/// Size of one frame in bytes.
pub const FRAME_LEN: usize = 29;

/// Little-endian bytes of a 64-bit value.
pub open spec fn u64_le(x: u64) -> Seq<u8> {
    seq![
        (x & 0xff) as u8,
        ((x >> 8) & 0xff) as u8,
        ((x >> 16) & 0xff) as u8,
        ((x >> 24) & 0xff) as u8,
        ((x >> 32) & 0xff) as u8,
        ((x >> 40) & 0xff) as u8,
        ((x >> 48) & 0xff) as u8,
        ((x >> 56) & 0xff) as u8,
    ]
}

/// The 64-bit value eight little-endian bytes stand for.
pub open spec fn u64_of(s: Seq<u8>) -> u64 {
    (s[0] as u64) | (s[1] as u64) << 8 | (s[2] as u64) << 16 | (s[3] as u64) << 24 | (
    s[4] as u64) << 32 | (s[5] as u64) << 40 | (s[6] as u64) << 48 | (s[7] as u64) << 56
}

/// Little-endian bytes of a 32-bit value.
pub open spec fn u32_le(x: u32) -> Seq<u8> {
    seq![
        (x & 0xff) as u8,
        ((x >> 8) & 0xff) as u8,
        ((x >> 16) & 0xff) as u8,
        ((x >> 24) & 0xff) as u8,
    ]
}

/// The 32-bit value four little-endian bytes stand for.
pub open spec fn u32_of(s: Seq<u8>) -> u32 {
    (s[0] as u32) | (s[1] as u32) << 8 | (s[2] as u32) << 16 | (s[3] as u32) << 24
}

proof fn lemma_u64_le_of(x: u64)
    ensures
        u64_of(u64_le(x)) == x,
{
    assert((((x & 0xff) as u8) as u64) | ((((x >> 8) & 0xff) as u8) as u64) << 8 | ((((x >> 16)
        & 0xff) as u8) as u64) << 16 | ((((x >> 24) & 0xff) as u8) as u64) << 24 | ((((x >> 32)
        & 0xff) as u8) as u64) << 32 | ((((x >> 40) & 0xff) as u8) as u64) << 40 | ((((x >> 48)
        & 0xff) as u8) as u64) << 48 | ((((x >> 56) & 0xff) as u8) as u64) << 56 == x)
        by (bit_vector);
}

proof fn lemma_u64_of_le(s: Seq<u8>)
    requires
        s.len() == 8,
    ensures
        u64_le(u64_of(s)) =~= s,
{
    let b0 = s[0];
    let b1 = s[1];
    let b2 = s[2];
    let b3 = s[3];
    let b4 = s[4];
    let b5 = s[5];
    let b6 = s[6];
    let b7 = s[7];
    let x = u64_of(s);
    assert({
        let y = (b0 as u64) | (b1 as u64) << 8 | (b2 as u64) << 16 | (b3 as u64) << 24 | (
        b4 as u64) << 32 | (b5 as u64) << 40 | (b6 as u64) << 48 | (b7 as u64) << 56;
        (y & 0xff) as u8 == b0 && ((y >> 8) & 0xff) as u8 == b1 && ((y >> 16) & 0xff) as u8 == b2
            && ((y >> 24) & 0xff) as u8 == b3 && ((y >> 32) & 0xff) as u8 == b4 && ((y >> 40)
            & 0xff) as u8 == b5 && ((y >> 48) & 0xff) as u8 == b6 && ((y >> 56) & 0xff) as u8 == b7
    }) by (bit_vector);
}

proof fn lemma_u32_le_of(x: u32)
    ensures
        u32_of(u32_le(x)) == x,
{
    assert((((x & 0xff) as u8) as u32) | ((((x >> 8) & 0xff) as u8) as u32) << 8 | ((((x >> 16)
        & 0xff) as u8) as u32) << 16 | ((((x >> 24) & 0xff) as u8) as u32) << 24 == x)
        by (bit_vector);
}

proof fn lemma_u32_of_le(s: Seq<u8>)
    requires
        s.len() == 4,
    ensures
        u32_le(u32_of(s)) =~= s,
{
    let b0 = s[0];
    let b1 = s[1];
    let b2 = s[2];
    let b3 = s[3];
    assert({
        let y = (b0 as u32) | (b1 as u32) << 8 | (b2 as u32) << 16 | (b3 as u32) << 24;
        (y & 0xff) as u8 == b0 && ((y >> 8) & 0xff) as u8 == b1 && ((y >> 16) & 0xff) as u8 == b2
            && ((y >> 24) & 0xff) as u8 == b3
    }) by (bit_vector);
}

/// Tag byte naming a delta variant.
pub open spec fn op_tag(op: WalOp) -> u8 {
    match op {
        WalOp::SetSalience { .. } => 0,
        WalOp::SetScene { .. } => 1,
        WalOp::PushGoal { .. } => 2,
    }
}

/// First field of a delta: salience, scene hash, or goal priority bits.
pub open spec fn op_f1(op: WalOp) -> u64 {
    match op {
        WalOp::SetSalience { salience, .. } => salience as u64,
        WalOp::SetScene { hash } => hash,
        WalOp::PushGoal { goal } => (goal.priority as u32) as u64,
    }
}

/// Second field of a delta: mode rank, zero, or goal deadline.
pub open spec fn op_f2(op: WalOp) -> u64 {
    match op {
        WalOp::SetSalience { mode, .. } => mode_rank(mode) as u64,
        WalOp::SetScene { .. } => 0,
        WalOp::PushGoal { goal } => goal.deadline_ms,
    }
}

/// The frame before its checksum: sequence number, tag, and the two fields.
pub open spec fn frame_body(r: WalRec) -> Seq<u8> {
    u64_le(r.seq_no) + seq![op_tag(r.op)] + u64_le(op_f1(r.op)) + u64_le(op_f2(r.op))
}

/// The encoding of one WAL record: its frame body followed by the checksum
/// of that body.
pub open spec fn spec_encode_rec(r: WalRec) -> Seq<u8> {
    frame_body(r) + u32_le(checksum32(frame_body(r)))
}

/// Every frame has the same fixed length.
pub proof fn lemma_encode_len(r: WalRec)
    ensures
        frame_body(r).len() == 25,
        spec_encode_rec(r).len() == FRAME_LEN,
{
}

fn push_u64(out: &mut Vec<u8>, x: u64)
    ensures
        final(out)@ == old(out)@ + u64_le(x),
{
    out.push((x & 0xff) as u8);
    out.push(((x >> 8) & 0xff) as u8);
    out.push(((x >> 16) & 0xff) as u8);
    out.push(((x >> 24) & 0xff) as u8);
    out.push(((x >> 32) & 0xff) as u8);
    out.push(((x >> 40) & 0xff) as u8);
    out.push(((x >> 48) & 0xff) as u8);
    out.push(((x >> 56) & 0xff) as u8);
    proof {
        assert(out@ =~= old(out)@ + u64_le(x));
    }
}

fn push_u32(out: &mut Vec<u8>, x: u32)
    ensures
        final(out)@ == old(out)@ + u32_le(x),
{
    out.push((x & 0xff) as u8);
    out.push(((x >> 8) & 0xff) as u8);
    out.push(((x >> 16) & 0xff) as u8);
    out.push(((x >> 24) & 0xff) as u8);
    proof {
        assert(out@ =~= old(out)@ + u32_le(x));
    }
}

fn read_u64(b: &Vec<u8>, off: usize) -> (x: u64)
    requires
        off + 8 <= b@.len(),
    ensures
        x == u64_of(b@.subrange(off as int, off as int + 8)),
{
    let _n = b.len();
    let x = (b[off] as u64) | (b[off + 1] as u64) << 8 | (b[off + 2] as u64) << 16 | (b[off
        + 3] as u64) << 24 | (b[off + 4] as u64) << 32 | (b[off + 5] as u64) << 40 | (b[off
        + 6] as u64) << 48 | (b[off + 7] as u64) << 56;
    proof {
        let s = b@.subrange(off as int, off as int + 8);
        assert(s[0] == b@[off as int]);
        assert(s[1] == b@[off as int + 1]);
        assert(s[2] == b@[off as int + 2]);
        assert(s[3] == b@[off as int + 3]);
        assert(s[4] == b@[off as int + 4]);
        assert(s[5] == b@[off as int + 5]);
        assert(s[6] == b@[off as int + 6]);
        assert(s[7] == b@[off as int + 7]);
    }
    x
}

fn read_u32(b: &Vec<u8>, off: usize) -> (x: u32)
    requires
        off + 4 <= b@.len(),
    ensures
        x == u32_of(b@.subrange(off as int, off as int + 4)),
{
    let _n = b.len();
    let x = (b[off] as u32) | (b[off + 1] as u32) << 8 | (b[off + 2] as u32) << 16 | (b[off
        + 3] as u32) << 24;
    proof {
        let s = b@.subrange(off as int, off as int + 4);
        assert(s[0] == b@[off as int]);
        assert(s[1] == b@[off as int + 1]);
        assert(s[2] == b@[off as int + 2]);
        assert(s[3] == b@[off as int + 3]);
    }
    x
}

/// Checksum of the first `end` bytes of `data`.
fn checksum_prefix(data: &Vec<u8>, end: usize) -> (c: u32)
    requires
        end <= data@.len(),
    ensures
        c == checksum32(data@.take(end as int)),
{
    let mut c: u32 = 0;
    let mut i: usize = 0;
    proof {
        assert(data@.take(0) =~= Seq::<u8>::empty());
    }
    while i < end
        invariant
            end <= data@.len(),
            0 <= i <= end,
            c == checksum32(data@.take(i as int)),
        decreases end - i,
    {
        let wide: u64 = (c as u64) * 31 + (data[i] as u64);
        proof {
            assert(data@.take(i as int + 1).drop_last() =~= data@.take(i as int));
            assert(data@.take(i as int + 1).last() == data@[i as int]);
        }
        c = (wide % 0x1_0000_0000) as u32;
        i = i + 1;
    }
    c
}

/// Frames one WAL record.
pub fn encode_rec(r: &WalRec) -> (out: Vec<u8>)
    ensures
        out@ == spec_encode_rec(*r),
        out@.len() == FRAME_LEN,
{
    let mut out: Vec<u8> = Vec::new();
    push_u64(&mut out, r.seq_no);
    let tag: u8 = match r.op {
        WalOp::SetSalience { .. } => 0,
        WalOp::SetScene { .. } => 1,
        WalOp::PushGoal { .. } => 2,
    };
    out.push(tag);
    let f1: u64 = match r.op {
        WalOp::SetSalience { salience, .. } => salience as u64,
        WalOp::SetScene { hash } => hash,
        WalOp::PushGoal { goal } => (goal.priority as u32) as u64,
    };
    push_u64(&mut out, f1);
    let f2: u64 = match r.op {
        WalOp::SetSalience { mode, .. } => mode.rank() as u64,
        WalOp::SetScene { .. } => 0,
        WalOp::PushGoal { goal } => goal.deadline_ms,
    };
    push_u64(&mut out, f2);
    proof {
        assert(out@ =~= frame_body(*r));
    }
    let crc = compute_checksum(&out);
    push_u32(&mut out, crc);
    proof {
        assert(out@ =~= spec_encode_rec(*r));
    }
    out
}

/// Unframes one WAL record.  Returns the record exactly when the bytes are
/// the encoding of one; any other byte string — wrong length, unknown tag,
/// out-of-range field, or checksum mismatch — yields nothing.
pub fn decode_rec(bytes: &Vec<u8>) -> (r: Option<WalRec>)
    ensures
        r matches Some(rec) ==> bytes@ == spec_encode_rec(rec),
        r is None ==> forall|rec: WalRec| bytes@ != spec_encode_rec(rec),
{
    if bytes.len() != FRAME_LEN {
        proof {
            assert forall|rec: WalRec| bytes@ != spec_encode_rec(rec) by {
                lemma_encode_len(rec);
            }
        }
        return None;
    }
    let crc_stored = read_u32(bytes, 25);
    let crc = checksum_prefix(bytes, 25);
    if crc != crc_stored {
        proof {
            assert forall|rec: WalRec| bytes@ != spec_encode_rec(rec) by {
                lemma_encode_len(rec);
                if bytes@ == spec_encode_rec(rec) {
                    assert(bytes@.take(25) =~= frame_body(rec));
                    assert(bytes@.subrange(25, 29) =~= u32_le(checksum32(frame_body(rec))));
                    lemma_u32_le_of(checksum32(frame_body(rec)));
                }
            }
        }
        return None;
    }
    let seq_no = read_u64(bytes, 0);
    let tag = bytes[8];
    let f1 = read_u64(bytes, 9);
    let f2 = read_u64(bytes, 17);
    if tag == 0 && f1 <= 0xffff_ffff && f2 <= 3 {
        let mode = if f2 == 0 {
            Mode::Idle
        } else if f2 == 1 {
            Mode::Observe
        } else if f2 == 2 {
            Mode::Focus
        } else {
            Mode::React
        };
        let rec = WalRec { seq_no, op: WalOp::SetSalience { salience: f1 as u32, mode } };
        proof {
            assert(op_f1(rec.op) == f1);
            assert(op_f2(rec.op) == f2);
            lemma_sound_assemble(bytes@, rec, f1, f2);
        }
        return Some(rec);
    }
    if tag == 1 && f2 == 0 {
        let rec = WalRec { seq_no, op: WalOp::SetScene { hash: f1 } };
        proof {
            lemma_sound_assemble(bytes@, rec, f1, f2);
        }
        return Some(rec);
    }
    if tag == 2 && f1 <= 0xffff_ffff {
        let rec = WalRec {
            seq_no,
            op: WalOp::PushGoal { goal: Goal { priority: (f1 as u32) as i32, deadline_ms: f2 } },
        };
        proof {
            lemma_i32_u32_roundtrip(f1 as u32);
            assert(op_f1(rec.op) == f1);
            lemma_sound_assemble(bytes@, rec, f1, f2);
        }
        return Some(rec);
    }
    proof {
        assert forall|rec: WalRec| bytes@ != spec_encode_rec(rec) by {
            lemma_encode_len(rec);
            if bytes@ == spec_encode_rec(rec) {
                lemma_fields_of_encoding(bytes@, rec);
                match rec.op {
                    WalOp::SetSalience { salience, mode } => {
                        assert((salience as u64) <= 0xffff_ffff);
                        assert(mode_rank(mode) as u64 <= 3);
                    },
                    WalOp::SetScene { hash } => {
                        assert(op_f2(rec.op) == 0);
                    },
                    WalOp::PushGoal { goal } => {
                        assert(((goal.priority as u32) as u64) <= 0xffff_ffff);
                    },
                }
            }
        }
    }
    None
}

proof fn lemma_i32_u32_roundtrip(v: u32)
    ensures
        ((v as i32) as u32) == v,
{
    assert((v as i32) as u32 == v) by (bit_vector);
}

/// The encoding of a whole log: the frames of its records, in order.
pub open spec fn spec_encode_log(recs: Seq<WalRec>) -> Seq<u8>
    decreases recs.len(),
{
    if recs.len() == 0 {
        Seq::empty()
    } else {
        spec_encode_log(recs.drop_last()) + spec_encode_rec(recs.last())
    }
}

/// A log encoding is as long as its frames together.
pub proof fn lemma_log_len(recs: Seq<WalRec>)
    ensures
        spec_encode_log(recs).len() == FRAME_LEN * recs.len(),
    decreases recs.len(),
{
    if recs.len() > 0 {
        lemma_log_len(recs.drop_last());
        lemma_encode_len(recs.last());
    }
}

/// The bytes of the `i`-th frame within a log encoding are the encoding of
/// the `i`-th record.
proof fn lemma_log_chunk(recs: Seq<WalRec>, i: int)
    requires
        0 <= i < recs.len(),
    ensures
        spec_encode_log(recs).subrange(29 * i, 29 * i + 29) =~= spec_encode_rec(recs[i]),
    decreases recs.len(),
{
    lemma_log_len(recs);
    lemma_log_len(recs.drop_last());
    lemma_encode_len(recs.last());
    if i == recs.len() - 1 {
        assert(spec_encode_log(recs).subrange(29 * i, 29 * i + 29) =~= spec_encode_rec(
            recs.last(),
        ));
    } else {
        lemma_log_chunk(recs.drop_last(), i);
        assert(spec_encode_log(recs).subrange(29 * i, 29 * i + 29) =~= spec_encode_log(
            recs.drop_last(),
        ).subrange(29 * i, 29 * i + 29));
    }
}

/// A copy of the bytes in `[start, end)`.
fn copy_range(b: &Vec<u8>, start: usize, end: usize) -> (out: Vec<u8>)
    requires
        start <= end <= b@.len(),
    ensures
        out@ == b@.subrange(start as int, end as int),
{
    let mut out: Vec<u8> = Vec::new();
    let mut i: usize = start;
    proof {
        assert(out@ =~= b@.subrange(start as int, start as int));
    }
    while i < end
        invariant
            start <= i <= end <= b@.len(),
            out@ == b@.subrange(start as int, i as int),
        decreases end - i,
    {
        out.push(b[i]);
        proof {
            assert(b@.subrange(start as int, i as int + 1) =~= b@.subrange(
                start as int,
                i as int,
            ).push(b@[i as int]));
        }
        i = i + 1;
    }
    out
}

/// Frames a whole log, one fixed-size frame per record, in order.
pub fn encode_log(recs: &Vec<WalRec>) -> (out: Vec<u8>)
    ensures
        out@ == spec_encode_log(recs@),
{
    let n = recs.len();
    let mut out: Vec<u8> = Vec::new();
    let mut i: usize = 0;
    proof {
        assert(out@ =~= spec_encode_log(recs@.take(0)));
    }
    while i < n
        invariant
            n == recs@.len(),
            0 <= i <= n,
            out@ == spec_encode_log(recs@.take(i as int)),
        decreases n - i,
    {
        let frame = encode_rec(&recs[i]);
        let mut k: usize = 0;
        let flen = frame.len();
        while k < flen
            invariant
                flen == frame@.len(),
                0 <= k <= flen,
                out@ == spec_encode_log(recs@.take(i as int)) + frame@.take(k as int),
            decreases flen - k,
        {
            out.push(frame[k]);
            proof {
                assert(frame@.take(k as int + 1) =~= frame@.take(k as int).push(frame@[k as int]));
                assert(out@ =~= spec_encode_log(recs@.take(i as int)) + frame@.take(k as int + 1));
            }
            k = k + 1;
        }
        proof {
            assert(frame@.take(flen as int) =~= frame@);
            assert(recs@.take(i as int + 1).drop_last() =~= recs@.take(i as int));
            assert(recs@.take(i as int + 1).last() == recs@[i as int]);
            assert(out@ =~= spec_encode_log(recs@.take(i as int + 1)));
        }
        i = i + 1;
    }
    proof {
        assert(recs@.take(n as int) =~= recs@);
    }
    out
}

/// Unframes a whole log.  Returns the records exactly when the bytes are the
/// encoding of some log; a byte string of the wrong length, or with any frame
/// that does not decode, yields nothing.
pub fn decode_log(bytes: &Vec<u8>) -> (r: Option<Vec<WalRec>>)
    ensures
        r matches Some(recs) ==> bytes@ == spec_encode_log(recs@),
        r is None ==> forall|recs: Seq<WalRec>| bytes@ != spec_encode_log(recs),
{
    let total = bytes.len();
    if total % FRAME_LEN != 0 {
        proof {
            assert forall|recs: Seq<WalRec>| bytes@ != spec_encode_log(recs) by {
                lemma_log_len(recs);
            }
        }
        return None;
    }
    let m = total / FRAME_LEN;
    let mut out: Vec<WalRec> = Vec::new();
    let mut i: usize = 0;
    proof {
        assert(spec_encode_log(out@) =~= bytes@.take(0));
    }
    while i < m
        invariant
            m == bytes@.len() / 29,
            bytes@.len() == 29 * m,
            bytes@.len() <= usize::MAX,
            0 <= i <= m,
            out@.len() == i,
            spec_encode_log(out@) == bytes@.take(29 * i as int),
        decreases m - i,
    {
        let chunk = copy_range(bytes, i * FRAME_LEN, i * FRAME_LEN + FRAME_LEN);
        let rec = match decode_rec(&chunk) {
            Some(rec) => rec,
            None => {
                proof {
                    assert forall|recs: Seq<WalRec>| bytes@ != spec_encode_log(recs) by {
                        lemma_log_len(recs);
                        if bytes@ == spec_encode_log(recs) {
                            lemma_log_chunk(recs, i as int);
                            assert(chunk@ == spec_encode_rec(recs[i as int]));
                        }
                    }
                }
                return None;
            },
        };
        proof {
            assert(out@.push(rec).drop_last() =~= out@);
            assert(spec_encode_log(out@.push(rec)) == spec_encode_log(out@) + chunk@);
            assert(bytes@.take(29 * (i as int + 1)) =~= bytes@.take(29 * i as int) + bytes@
                .subrange(29 * i as int, 29 * i as int + 29));
        }
        out.push(rec);
        i = i + 1;
    }
    proof {
        assert(bytes@.take(29 * m as int) =~= bytes@);
    }
    Some(out)
}

/// The values the reader extracts from a 29-byte string.
proof fn lemma_decode_fields(b: Seq<u8>, seq_no: u64, f1: u64, f2: u64)
    requires
        b.len() == 29,
        seq_no == u64_of(b.subrange(0, 8)),
        f1 == u64_of(b.subrange(9, 17)),
        f2 == u64_of(b.subrange(17, 25)),
    ensures
        u64_le(seq_no) =~= b.subrange(0, 8),
        u64_le(f1) =~= b.subrange(9, 17),
        u64_le(f2) =~= b.subrange(17, 25),
{
    lemma_u64_of_le(b.subrange(0, 8));
    lemma_u64_of_le(b.subrange(9, 17));
    lemma_u64_of_le(b.subrange(17, 25));
}

/// When `b` is the encoding of `rec`, the extracted fields are the record's.
proof fn lemma_fields_of_encoding(b: Seq<u8>, rec: WalRec)
    requires
        b == spec_encode_rec(rec),
    ensures
        b.len() == 29,
        u64_of(b.subrange(0, 8)) == rec.seq_no,
        b[8] == op_tag(rec.op),
        u64_of(b.subrange(9, 17)) == op_f1(rec.op),
        u64_of(b.subrange(17, 25)) == op_f2(rec.op),
{
    lemma_encode_len(rec);
    assert(b.subrange(0, 8) =~= u64_le(rec.seq_no));
    assert(b.subrange(9, 17) =~= u64_le(op_f1(rec.op)));
    assert(b.subrange(17, 25) =~= u64_le(op_f2(rec.op)));
    lemma_u64_le_of(rec.seq_no);
    lemma_u64_le_of(op_f1(rec.op));
    lemma_u64_le_of(op_f2(rec.op));
}

/// Soundness of assembly: a record built from validated fields read out of a
/// checksum-clean 29-byte string is the record that string encodes.
proof fn lemma_sound_assemble(b: Seq<u8>, rec: WalRec, f1: u64, f2: u64)
    requires
        b.len() == 29,
        rec.seq_no == u64_of(b.subrange(0, 8)),
        f1 == u64_of(b.subrange(9, 17)),
        f2 == u64_of(b.subrange(17, 25)),
        op_tag(rec.op) == b[8],
        op_f1(rec.op) == f1,
        op_f2(rec.op) == f2,
        u32_of(b.subrange(25, 29)) == checksum32(b.take(25)),
    ensures
        b == spec_encode_rec(rec),
{
    lemma_decode_fields(b, rec.seq_no, f1, f2);
    assert(frame_body(rec) =~= b.take(25));
    lemma_u32_of_le(b.subrange(25, 29));
    assert(u32_le(checksum32(frame_body(rec))) =~= b.subrange(25, 29));
    assert(spec_encode_rec(rec) =~= b);
}

} // verus!
