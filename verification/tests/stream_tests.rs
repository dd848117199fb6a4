use hands_hub::codec::DecodeError;
use hands_hub::codec::encode;
use hands_hub::codec::encode_batch;
use hands_hub::events::InputEvent;
use hands_hub::events::syn_report;
use hands_hub::stream::decode_stream;

fn ev(type_: u16, code: u16, value: i32) -> InputEvent {
    InputEvent { type_, code, value }
}

/// Three events whose frames contain no escape sequences: each frame is
/// exactly 8 payload bytes plus its delimiter.
fn three_plain_events() -> Vec<InputEvent> {
    vec![ev(1, 30, 1), ev(1, 30, 0), ev(2, 1, -3)]
}

fn wire_of(events: &[InputEvent]) -> Vec<u8> {
    let mut wire = Vec::new();
    for e in events {
        wire.extend(encode(*e));
    }
    wire
}

#[test]
fn intact_stream_decodes_every_record_in_order() {
    let events = three_plain_events();
    let results = decode_stream(&wire_of(&events));
    assert_eq!(results.len(), 3);
    for (r, e) in results.iter().zip(events.iter()) {
        assert_eq!(*r, Ok(*e));
    }
}

#[test]
fn corrupted_payload_byte_spoils_only_its_frame() {
    let events = three_plain_events();
    let mut wire = wire_of(&events);
    // A payload byte of the middle frame becomes the delimiter: the
    // middle frame splits into two malformed segments, but the frames
    // around it still decode, in order.
    wire[11] = 0xC0;
    let results = decode_stream(&wire);
    assert_eq!(results.len(), 4);
    assert_eq!(results[0], Ok(events[0]));
    assert_eq!(results[1], Err(DecodeError::WrongLength));
    assert_eq!(results[2], Err(DecodeError::WrongLength));
    assert_eq!(results[3], Ok(events[2]));
}

#[test]
fn corrupted_delimiter_merges_exactly_two_frames() {
    let events = three_plain_events();
    let mut wire = wire_of(&events);
    // The delimiter after the first frame disappears: the first two
    // frames merge into one malformed segment; the third is untouched.
    wire[8] = 0x00;
    let results = decode_stream(&wire);
    assert_eq!(results.len(), 2);
    assert_eq!(results[0], Err(DecodeError::WrongLength));
    assert_eq!(results[1], Ok(events[2]));
}

#[test]
fn corrupted_byte_may_still_yield_a_record() {
    let events = three_plain_events();
    let mut wire = wire_of(&events);
    // The middle frame's value byte changes to another plain value: the
    // stream still carries three well-formed frames, and only the middle
    // record differs from what was sent.
    wire[13] = 0x2A;
    let results = decode_stream(&wire);
    assert_eq!(results.len(), 3);
    assert_eq!(results[0], Ok(events[0]));
    assert_eq!(results[1], Ok(ev(1, 30, 0x2A)));
    assert_eq!(results[2], Ok(events[2]));
}

#[test]
fn bytes_after_last_delimiter_yield_nothing() {
    let events = three_plain_events();
    let mut wire = wire_of(&events);
    wire.extend([0x01, 0x02, 0x03]);
    let results = decode_stream(&wire);
    assert_eq!(results.len(), 3);
    assert_eq!(results[2], Ok(events[2]));
}

#[test]
fn encoded_batch_decodes_to_records_then_marker() {
    let batch = vec![ev(1, 30, 1), ev(1, 30, 0)];
    let results = decode_stream(&encode_batch(&batch));
    assert_eq!(
        results,
        vec![Ok(batch[0]), Ok(batch[1]), Ok(syn_report())]
    );
}

#[test]
fn empty_stream_yields_nothing() {
    assert_eq!(decode_stream(&Vec::new()).len(), 0);
}

#[test]
fn garbage_before_first_frame_is_one_bad_record() {
    let events = three_plain_events();
    let mut wire = vec![0x55, 0xAA, 0xC0];
    wire.extend(wire_of(&events));
    let results = decode_stream(&wire);
    assert_eq!(results.len(), 4);
    assert_eq!(results[0], Err(DecodeError::WrongLength));
    assert_eq!(results[1], Ok(events[0]));
    assert_eq!(results[2], Ok(events[1]));
    assert_eq!(results[3], Ok(events[2]));
}
