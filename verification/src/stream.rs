//! Receiving side of the wire protocol: cutting a byte stream into
//! frames and bounding the damage a corrupted byte can do.
//!
//! The receiver scans for the frame delimiter; each delimiter-terminated
//! segment is decoded on its own, and bytes after the last delimiter wait
//! for more input. Because a stuffed payload never contains the delimiter,
//! a corrupted byte can spoil only the frame it lands in (plus, when the
//! corrupted byte is a delimiter itself, the frame that follows): every
//! other frame still decodes to its original record, in order.

use vstd::prelude::*;

use crate::codec::DecodeError;
use crate::codec::FRAME_DELIM;
use crate::codec::batch_bytes;
use crate::codec::decode;
use crate::codec::decode_segment_spec;
use crate::codec::frame_bytes;
use crate::codec::lemma_codec_round_trip;
use crate::codec::lemma_stuffed_no_delim;
use crate::codec::lemma_wire_push;
use crate::codec::record_bytes;
use crate::codec::stuffed;
use crate::codec::wire_bytes;
use crate::events::InputEvent;
use crate::events::syn_report_spec;

verus! {

/// True of a byte sequence without any frame delimiter.
pub open spec fn delim_free(s: Seq<u8>) -> bool {
    forall|i: int| 0 <= i < s.len() ==> s[i] != FRAME_DELIM
}

/// The results of decoding every complete (delimiter-terminated) segment
/// of `s`, with `cur` the partial segment already read.
pub open spec fn results_acc(s: Seq<u8>, cur: Seq<u8>) -> Seq<Result<InputEvent, DecodeError>>
    decreases s.len(),
{
    if s.len() == 0 {
        Seq::empty()
    } else if s[0] == FRAME_DELIM {
        seq![decode_segment_spec(cur)] + results_acc(s.subrange(1, s.len() as int), Seq::empty())
    } else {
        results_acc(s.subrange(1, s.len() as int), cur.push(s[0]))
    }
}

/// The results of decoding every complete segment of a received stream.
pub open spec fn stream_results(s: Seq<u8>) -> Seq<Result<InputEvent, DecodeError>> {
    results_acc(s, Seq::empty())
}

/// The results an intact stream owes: every record, decoded.
pub open spec fn ok_results(events: Seq<InputEvent>) -> Seq<Result<InputEvent, DecodeError>> {
    events.map_values(|e: InputEvent| Result::<InputEvent, DecodeError>::Ok(e))
}

/// A stream without a delimiter holds no complete segment.
proof fn lemma_acc_no_delim(s: Seq<u8>, cur: Seq<u8>)
    requires
        delim_free(s),
    ensures
        results_acc(s, cur) == Seq::<Result<InputEvent, DecodeError>>::empty(),
    decreases s.len(),
{
    if s.len() > 0 {
        lemma_acc_no_delim(s.subrange(1, s.len() as int), cur.push(s[0]));
    }
}

/// Splitting at the first delimiter: one decoded segment, then the rest.
proof fn lemma_acc_split(x: Seq<u8>, y: Seq<u8>, cur: Seq<u8>)
    requires
        delim_free(x),
    ensures
        results_acc(x + seq![FRAME_DELIM] + y, cur) == seq![decode_segment_spec(cur + x)]
            + results_acc(y, Seq::empty()),
    decreases x.len(),
{
    let s = x + seq![FRAME_DELIM] + y;
    if x.len() == 0 {
        assert(s[0] == FRAME_DELIM);
        assert(s.subrange(1, s.len() as int) =~= y);
        assert(cur + x =~= cur);
    } else {
        assert(s[0] == x[0]);
        let xr = x.subrange(1, x.len() as int);
        assert(s.subrange(1, s.len() as int) =~= xr + seq![FRAME_DELIM] + y);
        lemma_acc_split(xr, y, cur.push(x[0]));
        assert(cur.push(x[0]) + xr =~= cur + x);
    }
}

/// An intact wire stream decodes to exactly its records, in order.
pub proof fn lemma_stream_decodes(events: Seq<InputEvent>)
    ensures
        stream_results(wire_bytes(events)) == ok_results(events),
    decreases events.len(),
{
    if events.len() == 0 {
        assert(ok_results(events) =~= Seq::<Result<InputEvent, DecodeError>>::empty());
    } else {
        let e0 = events[0];
        let rest = events.subrange(1, events.len() as int);
        let payload = stuffed(record_bytes(e0));
        lemma_stuffed_no_delim(record_bytes(e0));
        assert(wire_bytes(events) =~= payload + seq![FRAME_DELIM] + wire_bytes(rest));
        lemma_acc_split(payload, wire_bytes(rest), Seq::empty());
        assert(Seq::<u8>::empty() + payload =~= payload);
        lemma_codec_round_trip(e0);
        lemma_stream_decodes(rest);
        assert(ok_results(events) =~= seq![Result::<InputEvent, DecodeError>::Ok(e0)]
            + ok_results(rest));
    }
}

/// What the serial sink queues for one batch decodes, on the receiving
/// side, to exactly the batch's records followed by the synchronization
/// marker record — nothing dropped, nothing reordered.
pub proof fn lemma_batch_stream_decodes(batch: Seq<InputEvent>)
    ensures
        stream_results(batch_bytes(batch)) == ok_results(batch.push(syn_report_spec())),
{
    lemma_wire_push(batch, syn_report_spec());
    lemma_stream_decodes(batch.push(syn_report_spec()));
}

/// Resynchronization after corruption: change any single byte of the wire
/// stream for `events` to any value, and decoding still yields the
/// original records in order, except for at most two lost records around
/// the corrupted byte and at most two spurious results in their place.
/// Damage never cascades past the next frame boundary.
///
/// The returned triple `(i, j, mid)` names the split: records before `i`
/// and from `j` on decode exactly as sent, and `mid` is whatever the
/// corrupted region yields.
pub proof fn lemma_resynchronization(events: Seq<InputEvent>, p: int, b: u8) -> (r: (
    int,
    int,
    Seq<Result<InputEvent, DecodeError>>,
))
    requires
        0 <= p < wire_bytes(events).len(),
    ensures
        0 <= r.0 <= r.1 <= events.len(),
        r.1 <= r.0 + 2,
        r.2.len() <= 2,
        stream_results(wire_bytes(events).update(p, b)) == ok_results(events.subrange(0, r.0))
            + r.2 + ok_results(events.subrange(r.1, events.len() as int)),
    decreases events.len(),
{
    let w = wire_bytes(events);
    let empty_mid = Seq::<Result<InputEvent, DecodeError>>::empty();
    if events.len() == 0 {
        assert(false);
        (0, 0, empty_mid)
    } else {
        let e0 = events[0];
        let rest = events.subrange(1, events.len() as int);
        let payload = stuffed(record_bytes(e0));
        let n0 = payload.len() + 1;
        lemma_stuffed_no_delim(record_bytes(e0));
        assert(w == frame_bytes(e0) + wire_bytes(rest));
        assert(ok_results(events.subrange(0, 0)) =~= empty_mid);
        let w2 = w.update(p, b);
        if p < payload.len() {
            let pl2 = payload.update(p, b);
            assert(w2 =~= pl2 + seq![FRAME_DELIM] + wire_bytes(rest));
            lemma_stream_decodes(rest);
            assert(events.subrange(1, events.len() as int) == rest);
            if b == FRAME_DELIM {
                let a = pl2.subrange(0, p);
                let c = pl2.subrange(p + 1, pl2.len() as int);
                assert(delim_free(a));
                assert(delim_free(c));
                assert(w2 =~= a + seq![FRAME_DELIM] + (c + seq![FRAME_DELIM] + wire_bytes(rest)));
                lemma_acc_split(a, c + seq![FRAME_DELIM] + wire_bytes(rest), Seq::empty());
                lemma_acc_split(c, wire_bytes(rest), Seq::empty());
                assert(Seq::<u8>::empty() + a =~= a);
                assert(Seq::<u8>::empty() + c =~= c);
                let mid = seq![decode_segment_spec(a), decode_segment_spec(c)];
                assert(stream_results(w2) =~= empty_mid + mid + ok_results(rest));
                (0, 1, mid)
            } else {
                assert(delim_free(pl2));
                lemma_acc_split(pl2, wire_bytes(rest), Seq::empty());
                assert(Seq::<u8>::empty() + pl2 =~= pl2);
                let mid = seq![decode_segment_spec(pl2)];
                assert(stream_results(w2) =~= empty_mid + mid + ok_results(rest));
                (0, 1, mid)
            }
        } else if p == payload.len() {
            if b == FRAME_DELIM {
                assert(w[p] == FRAME_DELIM);
                assert(w2 =~= w);
                lemma_stream_decodes(events);
                assert(events.subrange(0, events.len() as int) =~= events);
                assert(stream_results(w2) =~= empty_mid + empty_mid + ok_results(events));
                (0, 0, empty_mid)
            } else if rest.len() == 0 {
                assert(wire_bytes(rest) == Seq::<u8>::empty());
                assert(w2 =~= payload + seq![b]);
                assert(delim_free(payload + seq![b]));
                lemma_acc_no_delim(payload + seq![b], Seq::empty());
                assert(ok_results(events.subrange(1, events.len() as int)) =~= empty_mid);
                assert(stream_results(w2) =~= empty_mid + empty_mid + empty_mid);
                (0, 1, empty_mid)
            } else {
                let e1 = rest[0];
                let rest2 = rest.subrange(1, rest.len() as int);
                let payload1 = stuffed(record_bytes(e1));
                lemma_stuffed_no_delim(record_bytes(e1));
                assert(wire_bytes(rest) == frame_bytes(e1) + wire_bytes(rest2));
                let merged = payload + seq![b] + payload1;
                assert(delim_free(merged));
                assert(w2 =~= merged + seq![FRAME_DELIM] + wire_bytes(rest2));
                lemma_acc_split(merged, wire_bytes(rest2), Seq::empty());
                assert(Seq::<u8>::empty() + merged =~= merged);
                lemma_stream_decodes(rest2);
                assert(events.subrange(2, events.len() as int) =~= rest2);
                let mid = seq![decode_segment_spec(merged)];
                assert(stream_results(w2) =~= empty_mid + mid + ok_results(rest2));
                (0, 2, mid)
            }
        } else {
            let pr = p - n0;
            assert(wire_bytes(rest).len() == w.len() - n0);
            let sub = lemma_resynchronization(rest, pr, b);
            let i2 = sub.0;
            let j2 = sub.1;
            let mid = sub.2;
            assert(w2 =~= payload + seq![FRAME_DELIM] + wire_bytes(rest).update(pr, b));
            lemma_acc_split(payload, wire_bytes(rest).update(pr, b), Seq::empty());
            assert(Seq::<u8>::empty() + payload =~= payload);
            lemma_codec_round_trip(e0);
            assert(ok_results(events.subrange(0, i2 + 1)) =~= seq![
                Result::<InputEvent, DecodeError>::Ok(e0),
            ] + ok_results(rest.subrange(0, i2)));
            assert(events.subrange(j2 + 1, events.len() as int) =~= rest.subrange(
                j2,
                rest.len() as int,
            ));
            assert(stream_results(w2) =~= ok_results(events.subrange(0, i2 + 1)) + mid
                + ok_results(events.subrange(j2 + 1, events.len() as int)));
            (i2 + 1, j2 + 1, mid)
        }
    }
}

/// Decode a received byte stream: every delimiter-terminated segment
/// yields one result, in stream order; bytes after the last delimiter are
/// an incomplete frame and yield nothing.
pub fn decode_stream(bytes: &Vec<u8>) -> (r: Vec<Result<InputEvent, DecodeError>>)
    ensures
        r@ == stream_results(bytes@),
{
    let mut res: Vec<Result<InputEvent, DecodeError>> = Vec::new();
    let mut cur: Vec<u8> = Vec::new();
    let mut i: usize = 0;
    proof {
        assert(bytes@.subrange(0, bytes@.len() as int) =~= bytes@);
        assert(Seq::<Result<InputEvent, DecodeError>>::empty() + results_acc(bytes@, Seq::empty())
            =~= results_acc(bytes@, Seq::empty()));
    }
    while i < bytes.len()
        invariant
            i <= bytes@.len(),
            delim_free(cur@),
            stream_results(bytes@) == res@ + results_acc(
                bytes@.subrange(i as int, bytes@.len() as int),
                cur@,
            ),
        decreases bytes@.len() - i,
    {
        let ghost su = bytes@.subrange(i as int, bytes@.len() as int);
        let b = bytes[i];
        assert(su[0] == b);
        proof {
            assert(su.subrange(1, su.len() as int) =~= bytes@.subrange(
                i as int + 1,
                bytes@.len() as int,
            ));
        }
        if b == FRAME_DELIM {
            let ghost prev_res = res@;
            let ghost prev_cur = cur@;
            let dr = decode(&cur);
            proof {
                if prev_cur.len() > 0 {
                    assert(prev_cur[prev_cur.len() - 1] != FRAME_DELIM);
                }
                assert(dr == decode_segment_spec(prev_cur));
            }
            res.push(dr);
            cur = Vec::new();
            proof {
                assert(prev_res + (seq![decode_segment_spec(prev_cur)] + results_acc(
                    su.subrange(1, su.len() as int),
                    Seq::empty(),
                )) =~= res@ + results_acc(
                    bytes@.subrange(i as int + 1, bytes@.len() as int),
                    cur@,
                ));
            }
        } else {
            cur.push(b);
        }
        i = i + 1;
    }
    proof {
        assert(bytes@.subrange(bytes@.len() as int, bytes@.len() as int) =~= Seq::<u8>::empty());
        assert(res@ + Seq::<Result<InputEvent, DecodeError>>::empty() =~= res@);
    }
    res
}

} // verus!
