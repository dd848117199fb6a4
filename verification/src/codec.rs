//! Wire codec: fixed-layout event records inside self-synchronizing frames.
//!
//! One record is the fixed 8-byte little-endian image of an event: two
//! bytes for the type, two for the code, four for the value in two's
//! complement. A frame is the record passed through a byte-stuffing
//! transform that eliminates the reserved delimiter byte `0xC0` from the
//! payload (`0xC0` becomes `0xDB 0xDC`, `0xDB` becomes `0xDB 0xDD`),
//! followed by one `0xC0` terminator. A receiver that scans for `0xC0`
//! therefore always finds a true frame boundary, whatever bytes were lost
//! or mangled before it.

use vstd::prelude::*;

use crate::events::InputEvent;
use crate::events::syn_report;
use crate::events::syn_report_spec;

verus! {

/// Frame terminator byte; never occurs inside a stuffed payload.
pub const FRAME_DELIM: u8 = 0xC0;

/// Escape byte introducing a two-byte substitution.
pub const FRAME_ESC: u8 = 0xDB;

/// Second byte of the substitution for a literal `FRAME_DELIM`.
pub const FRAME_ESC_DELIM: u8 = 0xDC;

/// Second byte of the substitution for a literal `FRAME_ESC`.
pub const FRAME_ESC_ESC: u8 = 0xDD;

/// Length in bytes of one unstuffed event record.
pub const RECORD_LEN: usize = 8;

/// Why a received frame was rejected.
#[derive(Copy, Clone, Debug, PartialEq, Eq, Structural)]
pub enum DecodeError {
    /// The payload ends in a dangling escape byte, or an escape byte is
    /// followed by anything but the two defined substitution codes.
    BadEscape,
    /// The unstuffed payload is not exactly one record long.
    WrongLength,
}

/// The two little-endian bytes of a 16-bit field.
pub open spec fn le16(x: u16) -> Seq<u8> {
    seq![(x & 0xff) as u8, ((x >> 8) & 0xff) as u8]
}

/// The four little-endian bytes of a 32-bit field.
pub open spec fn le32(x: u32) -> Seq<u8> {
    seq![
        (x & 0xff) as u8,
        ((x >> 8) & 0xff) as u8,
        ((x >> 16) & 0xff) as u8,
        ((x >> 24) & 0xff) as u8,
    ]
}

/// A 16-bit field read back from its two little-endian bytes.
pub open spec fn u16_of(lo: u8, hi: u8) -> u16 {
    (lo as u16) | ((hi as u16) << 8)
}

/// A 32-bit field read back from its four little-endian bytes.
pub open spec fn u32_of(b0: u8, b1: u8, b2: u8, b3: u8) -> u32 {
    (b0 as u32) | ((b1 as u32) << 8) | ((b2 as u32) << 16) | ((b3 as u32) << 24)
}

/// The event value as its unsigned 32-bit two's-complement image.
pub open spec fn value_bits(v: i32) -> u32 {
    if v >= 0 {
        v as u32
    } else {
        (v + 0x1_0000_0000) as u32
    }
}

/// The event value recovered from its unsigned 32-bit image.
pub open spec fn value_of_bits(u: u32) -> i32 {
    if u < 0x8000_0000 {
        u as i32
    } else {
        (u - 0x1_0000_0000) as i32
    }
}

/// The fixed 8-byte record image of an event.
pub open spec fn record_bytes(e: InputEvent) -> Seq<u8> {
    le16(e.type_) + le16(e.code) + le32(value_bits(e.value))
}

/// The event read back from an 8-byte record image.
pub open spec fn record_of_bytes(p: Seq<u8>) -> InputEvent {
    InputEvent {
        type_: u16_of(p[0], p[1]),
        code: u16_of(p[2], p[3]),
        value: value_of_bits(u32_of(p[4], p[5], p[6], p[7])),
    }
}

/// What the stuffing transform makes of one payload byte.
pub open spec fn stuff_byte(b: u8) -> Seq<u8> {
    if b == FRAME_DELIM {
        seq![FRAME_ESC, FRAME_ESC_DELIM]
    } else if b == FRAME_ESC {
        seq![FRAME_ESC, FRAME_ESC_ESC]
    } else {
        seq![b]
    }
}

/// A payload passed through the stuffing transform, byte by byte.
pub open spec fn stuffed(p: Seq<u8>) -> Seq<u8>
    decreases p.len(),
{
    if p.len() == 0 {
        Seq::empty()
    } else {
        stuff_byte(p[0]) + stuffed(p.subrange(1, p.len() as int))
    }
}

/// The inverse of the stuffing transform; `None` on a dangling or
/// undefined escape.
pub open spec fn unstuffed(s: Seq<u8>) -> Option<Seq<u8>>
    decreases s.len(),
{
    if s.len() == 0 {
        Some(Seq::empty())
    } else if s[0] == FRAME_ESC {
        if s.len() >= 2 && s[1] == FRAME_ESC_DELIM {
            match unstuffed(s.subrange(2, s.len() as int)) {
                Some(rest) => Some(seq![FRAME_DELIM] + rest),
                None => None,
            }
        } else if s.len() >= 2 && s[1] == FRAME_ESC_ESC {
            match unstuffed(s.subrange(2, s.len() as int)) {
                Some(rest) => Some(seq![FRAME_ESC] + rest),
                None => None,
            }
        } else {
            None
        }
    } else {
        match unstuffed(s.subrange(1, s.len() as int)) {
            Some(rest) => Some(seq![s[0]] + rest),
            None => None,
        }
    }
}

/// One complete frame: the stuffed record image plus the terminator.
pub open spec fn frame_bytes(e: InputEvent) -> Seq<u8> {
    stuffed(record_bytes(e)) + seq![FRAME_DELIM]
}

/// What decoding one delimiter-free segment yields.
pub open spec fn decode_segment_spec(s: Seq<u8>) -> Result<InputEvent, DecodeError> {
    match unstuffed(s) {
        Some(p) => if p.len() == RECORD_LEN {
            Ok(record_of_bytes(p))
        } else {
            Err(DecodeError::WrongLength)
        },
        None => Err(DecodeError::BadEscape),
    }
}

/// What decoding one frame yields: a single trailing delimiter, if
/// present, is stripped and the rest is decoded as a segment.
pub open spec fn decode_frame_spec(s: Seq<u8>) -> Result<InputEvent, DecodeError> {
    if s.len() > 0 && s[s.len() - 1] == FRAME_DELIM {
        decode_segment_spec(s.subrange(0, s.len() - 1))
    } else {
        decode_segment_spec(s)
    }
}

/// A 16-bit field survives the trip through its two bytes.
pub proof fn lemma_le16_round_trip(x: u16)
    ensures
        u16_of(le16(x)[0], le16(x)[1]) == x,
{
    assert((((x & 0xff) as u8) as u16) | (((((x >> 8) & 0xff) as u8) as u16) << 8) == x)
        by (bit_vector);
}

/// A 32-bit field survives the trip through its four bytes.
pub proof fn lemma_le32_round_trip(x: u32)
    ensures
        u32_of(le32(x)[0], le32(x)[1], le32(x)[2], le32(x)[3]) == x,
{
    assert((((x & 0xff) as u8) as u32) | (((((x >> 8) & 0xff) as u8) as u32) << 8) | (((((x
        >> 16) & 0xff) as u8) as u32) << 16) | (((((x >> 24) & 0xff) as u8) as u32) << 24) == x)
        by (bit_vector);
}

/// The signed value survives the trip through its unsigned image.
pub proof fn lemma_value_round_trip(v: i32)
    ensures
        value_of_bits(value_bits(v)) == v,
{
}

/// A record image is exactly one record long and reads back as the event
/// it was made from.
pub proof fn lemma_record_round_trip(e: InputEvent)
    ensures
        record_bytes(e).len() == RECORD_LEN,
        record_of_bytes(record_bytes(e)) == e,
{
    lemma_le16_round_trip(e.type_);
    lemma_le16_round_trip(e.code);
    lemma_le32_round_trip(value_bits(e.value));
    lemma_value_round_trip(e.value);
}

/// Stuffing one more byte appends that byte's substitution.
pub proof fn lemma_stuffed_push(p: Seq<u8>, b: u8)
    ensures
        stuffed(p.push(b)) == stuffed(p) + stuff_byte(b),
    decreases p.len(),
{
    if p.len() == 0 {
        reveal_with_fuel(stuffed, 2);
        assert(p.push(b)[0] == b);
        assert(p.push(b).subrange(1, p.push(b).len() as int) =~= Seq::<u8>::empty());
        assert(stuffed(p.push(b)) =~= stuffed(p) + stuff_byte(b));
    } else {
        let q = p.subrange(1, p.len() as int);
        lemma_stuffed_push(q, b);
        assert(p.push(b)[0] == p[0]);
        assert(p.push(b).subrange(1, p.push(b).len() as int) =~= q.push(b));
        assert(stuffed(p.push(b)) == stuff_byte(p[0]) + (stuffed(q) + stuff_byte(b)));
        assert(stuff_byte(p[0]) + (stuffed(q) + stuff_byte(b)) =~= (stuff_byte(p[0]) + stuffed(q))
            + stuff_byte(b));
    }
}

/// A stuffed payload never contains the frame delimiter.
pub proof fn lemma_stuffed_no_delim(p: Seq<u8>)
    ensures
        forall|i: int| 0 <= i < stuffed(p).len() ==> stuffed(p)[i] != FRAME_DELIM,
    decreases p.len(),
{
    if p.len() > 0 {
        let q = p.subrange(1, p.len() as int);
        lemma_stuffed_no_delim(q);
        let head = stuff_byte(p[0]);
        assert forall|i: int| 0 <= i < stuffed(p).len() implies stuffed(p)[i] != FRAME_DELIM by {
            if i < head.len() {
                assert(stuffed(p)[i] == head[i]);
            } else {
                assert(stuffed(p)[i] == stuffed(q)[i - head.len()]);
            }
        }
    }
}

/// Unstuffing inverts stuffing on every payload.
pub proof fn lemma_unstuffed_stuffed(p: Seq<u8>)
    ensures
        unstuffed(stuffed(p)) == Some(p),
    decreases p.len(),
{
    if p.len() == 0 {
    } else {
        let q = p.subrange(1, p.len() as int);
        lemma_unstuffed_stuffed(q);
        let s = stuffed(p);
        if p[0] == FRAME_DELIM || p[0] == FRAME_ESC {
            assert(s.subrange(2, s.len() as int) =~= stuffed(q));
            assert(seq![p[0]] + q =~= p);
        } else {
            assert(s.subrange(1, s.len() as int) =~= stuffed(q));
            assert(seq![p[0]] + q =~= p);
        }
    }
}

/// Codec round trip at the level of byte sequences: the frame written for
/// an event decodes back to exactly that event.
pub proof fn lemma_codec_round_trip(e: InputEvent)
    ensures
        decode_frame_spec(frame_bytes(e)) == Ok::<InputEvent, DecodeError>(e),
        decode_segment_spec(stuffed(record_bytes(e))) == Ok::<InputEvent, DecodeError>(e),
{
    lemma_record_round_trip(e);
    lemma_unstuffed_stuffed(record_bytes(e));
    let f = frame_bytes(e);
    assert(f[f.len() - 1] == FRAME_DELIM);
    assert(f.subrange(0, f.len() - 1) =~= stuffed(record_bytes(e)));
}

/// The byte stream carrying a sequence of events, one frame each.
pub open spec fn wire_bytes(events: Seq<InputEvent>) -> Seq<u8>
    decreases events.len(),
{
    if events.len() == 0 {
        Seq::empty()
    } else {
        frame_bytes(events[0]) + wire_bytes(events.subrange(1, events.len() as int))
    }
}

/// The bytes the serial transport carries for one batch: a frame per
/// event, then one frame holding the synchronization marker record.
pub open spec fn batch_bytes(batch: Seq<InputEvent>) -> Seq<u8> {
    wire_bytes(batch) + frame_bytes(syn_report_spec())
}

/// One more event on the wire appends exactly its frame.
pub proof fn lemma_wire_push(events: Seq<InputEvent>, e: InputEvent)
    ensures
        wire_bytes(events.push(e)) == wire_bytes(events) + frame_bytes(e),
    decreases events.len(),
{
    if events.len() == 0 {
        reveal_with_fuel(wire_bytes, 2);
        assert(events.push(e)[0] == e);
        assert(events.push(e).subrange(1, events.push(e).len() as int)
            =~= Seq::<InputEvent>::empty());
        assert(wire_bytes(events.push(e)) =~= wire_bytes(events) + frame_bytes(e));
    } else {
        let rest = events.subrange(1, events.len() as int);
        lemma_wire_push(rest, e);
        assert(events.push(e)[0] == events[0]);
        assert(events.push(e).subrange(1, events.push(e).len() as int) =~= rest.push(e));
        assert(wire_bytes(events.push(e)) == frame_bytes(events[0]) + (wire_bytes(rest)
            + frame_bytes(e)));
        assert(frame_bytes(events[0]) + (wire_bytes(rest) + frame_bytes(e))
            =~= (frame_bytes(events[0]) + wire_bytes(rest)) + frame_bytes(e));
    }
}

/// Write the 8-byte record image of an event.
fn record_to_bytes(e: InputEvent) -> (r: Vec<u8>)
    ensures
        r@ == record_bytes(e),
{
    let t = e.type_;
    let c = e.code;
    assert(t & 0xff < 256 && (t >> 8) & 0xff < 256) by (bit_vector);
    assert(c & 0xff < 256 && (c >> 8) & 0xff < 256) by (bit_vector);
    let w: i64 = e.value as i64;
    let u: u32 = if w >= 0 {
        w as u32
    } else {
        (w + 0x1_0000_0000i64) as u32
    };
    assert(u == value_bits(e.value));
    assert(u & 0xff < 256 && (u >> 8) & 0xff < 256 && (u >> 16) & 0xff < 256 && (u >> 24) & 0xff
        < 256) by (bit_vector);
    let mut r: Vec<u8> = Vec::new();
    r.push((t & 0xff) as u8);
    r.push(((t >> 8) & 0xff) as u8);
    r.push((c & 0xff) as u8);
    r.push(((c >> 8) & 0xff) as u8);
    r.push((u & 0xff) as u8);
    r.push(((u >> 8) & 0xff) as u8);
    r.push(((u >> 16) & 0xff) as u8);
    r.push(((u >> 24) & 0xff) as u8);
    assert(r@ =~= record_bytes(e));
    r
}

/// Read an event back from an 8-byte record image.
fn record_from_bytes(p: &Vec<u8>) -> (r: InputEvent)
    requires
        p@.len() == RECORD_LEN,
    ensures
        r == record_of_bytes(p@),
{
    let type_: u16 = (p[0] as u16) | ((p[1] as u16) << 8);
    let code: u16 = (p[2] as u16) | ((p[3] as u16) << 8);
    let u: u32 = (p[4] as u32) | ((p[5] as u32) << 8) | ((p[6] as u32) << 16) | ((p[7] as u32)
        << 24);
    let w: i64 = u as i64;
    let value: i32 = if w < 0x8000_0000i64 {
        w as i32
    } else {
        (w - 0x1_0000_0000i64) as i32
    };
    assert(value == value_of_bits(u));
    InputEvent { type_, code, value }
}

/// Append the stuffing of one payload byte.
fn push_stuffed(out: &mut Vec<u8>, b: u8)
    ensures
        final(out)@ == old(out)@ + stuff_byte(b),
{
    if b == FRAME_DELIM {
        out.push(FRAME_ESC);
        out.push(FRAME_ESC_DELIM);
    } else if b == FRAME_ESC {
        out.push(FRAME_ESC);
        out.push(FRAME_ESC_ESC);
    } else {
        out.push(b);
    }
    assert(out@ =~= old(out)@ + stuff_byte(b));
}

/// Encode one event as a complete frame: its stuffed 8-byte record image
/// followed by the frame delimiter.
pub fn encode(e: InputEvent) -> (r: Vec<u8>)
    ensures
        r@ == frame_bytes(e),
{
    let rec = record_to_bytes(e);
    let mut out: Vec<u8> = Vec::new();
    let mut i: usize = 0;
    while i < rec.len()
        invariant
            i <= rec@.len(),
            rec@ == record_bytes(e),
            out@ == stuffed(rec@.subrange(0, i as int)),
        decreases rec@.len() - i,
    {
        proof {
            lemma_stuffed_push(rec@.subrange(0, i as int), rec@[i as int]);
            assert(rec@.subrange(0, i as int).push(rec@[i as int]) =~= rec@.subrange(
                0,
                i as int + 1,
            ));
        }
        push_stuffed(&mut out, rec[i]);
        i = i + 1;
    }
    proof {
        assert(rec@.subrange(0, rec@.len() as int) =~= rec@);
    }
    out.push(FRAME_DELIM);
    assert(out@ =~= frame_bytes(e));
    out
}

/// Decode the first `end` bytes of `bytes` as one delimiter-free segment.
fn decode_upto(bytes: &Vec<u8>, end: usize) -> (r: Result<InputEvent, DecodeError>)
    requires
        end <= bytes@.len(),
    ensures
        r == decode_segment_spec(bytes@.subrange(0, end as int)),
{
    let ghost seg = bytes@.subrange(0, end as int);
    let mut out: Vec<u8> = Vec::new();
    let mut i: usize = 0;
    proof {
        assert(seg.subrange(0, seg.len() as int) =~= seg);
        if let Some(rest) = unstuffed(seg) {
            assert(Seq::<u8>::empty() + rest =~= rest);
        }
    }
    while i < end
        invariant
            i <= end,
            end <= bytes@.len(),
            seg == bytes@.subrange(0, end as int),
            match unstuffed(seg.subrange(i as int, seg.len() as int)) {
                Some(rest) => unstuffed(seg) == Some(out@ + rest),
                None => unstuffed(seg) is None,
            },
        decreases end - i,
    {
        let ghost su = seg.subrange(i as int, seg.len() as int);
        let ghost prev = out@;
        let b = bytes[i];
        assert(su[0] == b);
        if b == FRAME_ESC {
            if i + 1 < end {
                let b2 = bytes[i + 1];
                assert(su[1] == b2);
                proof {
                    assert(su.subrange(2, su.len() as int) =~= seg.subrange(
                        i as int + 2,
                        seg.len() as int,
                    ));
                }
                if b2 == FRAME_ESC_DELIM {
                    out.push(FRAME_DELIM);
                    proof {
                        assert(out@ =~= prev + seq![FRAME_DELIM]);
                        if let Some(rest) = unstuffed(seg.subrange(i as int + 2, seg.len() as int)) {
                            assert(prev + (seq![FRAME_DELIM] + rest) =~= out@ + rest);
                        }
                    }
                } else if b2 == FRAME_ESC_ESC {
                    out.push(FRAME_ESC);
                    proof {
                        assert(out@ =~= prev + seq![FRAME_ESC]);
                        if let Some(rest) = unstuffed(seg.subrange(i as int + 2, seg.len() as int)) {
                            assert(prev + (seq![FRAME_ESC] + rest) =~= out@ + rest);
                        }
                    }
                } else {
                    return Err(DecodeError::BadEscape);
                }
                i = i + 2;
            } else {
                assert(su.len() == 1);
                return Err(DecodeError::BadEscape);
            }
        } else {
            proof {
                assert(su.subrange(1, su.len() as int) =~= seg.subrange(
                    i as int + 1,
                    seg.len() as int,
                ));
            }
            out.push(b);
            proof {
                assert(out@ =~= prev + seq![b]);
                if let Some(rest) = unstuffed(seg.subrange(i as int + 1, seg.len() as int)) {
                    assert(prev + (seq![b] + rest) =~= out@ + rest);
                }
            }
            i = i + 1;
        }
    }
    proof {
        assert(seg.subrange(end as int, seg.len() as int) =~= Seq::<u8>::empty());
        assert(out@ + Seq::<u8>::empty() =~= out@);
    }
    if out.len() == RECORD_LEN {
        Ok(record_from_bytes(&out))
    } else {
        Err(DecodeError::WrongLength)
    }
}

/// Decode one received frame. A single trailing delimiter is accepted and
/// stripped; the rest must unstuff cleanly to exactly one record.
///
/// Returns `Ok` exactly when the remaining bytes unstuff cleanly to one
/// 8-byte record — so on every frame [`encode`] produces, with or without
/// its trailing delimiter. Every other input yields the [`DecodeError`]
/// that names what is wrong with it, never a panic.
pub fn decode(frame: &Vec<u8>) -> (r: Result<InputEvent, DecodeError>)
    ensures
        r == decode_frame_spec(frame@),
{
    let n = frame.len();
    let end = if n > 0 && frame[n - 1] == FRAME_DELIM {
        n - 1
    } else {
        n
    };
    let r = decode_upto(frame, end);
    proof {
        if end == n {
            assert(frame@.subrange(0, n as int) =~= frame@);
        }
    }
    r
}

/// Encode one batch for the serial transport: every event's frame in
/// order, then one frame holding the synchronization marker record.
pub fn encode_batch(events: &Vec<InputEvent>) -> (r: Vec<u8>)
    ensures
        r@ == batch_bytes(events@),
{
    let mut out: Vec<u8> = Vec::new();
    let mut i: usize = 0;
    proof {
        assert(events@.subrange(0, 0) =~= Seq::<InputEvent>::empty());
    }
    while i < events.len()
        invariant
            i <= events@.len(),
            out@ == wire_bytes(events@.subrange(0, i as int)),
        decreases events@.len() - i,
    {
        let mut f = encode(events[i]);
        proof {
            lemma_wire_push(events@.subrange(0, i as int), events@[i as int]);
            assert(events@.subrange(0, i as int).push(events@[i as int]) =~= events@.subrange(
                0,
                i as int + 1,
            ));
        }
        out.append(&mut f);
        i = i + 1;
    }
    proof {
        assert(events@.subrange(0, events@.len() as int) =~= events@);
    }
    let mut syn = encode(syn_report());
    out.append(&mut syn);
    out
}

} // verus!
