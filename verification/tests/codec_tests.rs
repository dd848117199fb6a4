use hands_hub::codec::DecodeError;
use hands_hub::codec::decode;
use hands_hub::codec::encode;
use hands_hub::codec::encode_batch;
use hands_hub::events::InputEvent;
use hands_hub::events::syn_report;

fn ev(type_: u16, code: u16, value: i32) -> InputEvent {
    InputEvent { type_, code, value }
}

#[test]
fn round_trip_simple_key_event() {
    let e = ev(1, 30, 1);
    assert_eq!(decode(&encode(e)), Ok(e));
}

#[test]
fn round_trip_negative_value() {
    let e = ev(2, 0, -123456);
    assert_eq!(decode(&encode(e)), Ok(e));
}

#[test]
fn round_trip_extreme_values() {
    for value in [i32::MIN, -1, 0, 1, i32::MAX] {
        for code in [0u16, 1, 0xC0, 0xDB, u16::MAX] {
            let e = ev(0xFFFF, code, value);
            assert_eq!(decode(&encode(e)), Ok(e));
        }
    }
}

#[test]
fn exact_frame_layout_little_endian() {
    // type 1, code 30, value 1: fixed 8-byte record, nothing to escape.
    let e = ev(1, 30, 1);
    assert_eq!(
        encode(e),
        vec![0x01, 0x00, 0x1E, 0x00, 0x01, 0x00, 0x00, 0x00, 0xC0]
    );
}

#[test]
fn exact_frame_layout_with_escapes() {
    // The record bytes C0 00 DB DB 00 00 00 00 must be stuffed so that
    // no delimiter byte remains in the payload.
    let e = ev(0x00C0, 0xDBDB, 0);
    assert_eq!(
        encode(e),
        vec![0xDB, 0xDC, 0x00, 0xDB, 0xDD, 0xDB, 0xDD, 0x00, 0x00, 0x00, 0x00, 0xC0]
    );
    assert_eq!(decode(&encode(e)), Ok(e));
}

#[test]
fn exact_frame_layout_negative_value() {
    // value -1 is all-ones in two's complement.
    let e = ev(0, 0, -1);
    assert_eq!(
        encode(e),
        vec![0x00, 0x00, 0x00, 0x00, 0xFF, 0xFF, 0xFF, 0xFF, 0xC0]
    );
}

#[test]
fn decode_accepts_frame_without_terminator() {
    let e = ev(1, 48, 0);
    let mut frame = encode(e);
    frame.pop();
    assert_eq!(decode(&frame), Ok(e));
}

#[test]
fn decode_short_frame_is_wrong_length() {
    assert_eq!(decode(&vec![0x01, 0x02, 0x03, 0xC0]), Err(DecodeError::WrongLength));
}

#[test]
fn decode_long_frame_is_wrong_length() {
    let mut frame = encode(ev(1, 30, 1));
    frame.insert(0, 0x07);
    assert_eq!(decode(&frame), Err(DecodeError::WrongLength));
}

#[test]
fn decode_empty_frame_is_wrong_length() {
    assert_eq!(decode(&vec![0xC0]), Err(DecodeError::WrongLength));
    assert_eq!(decode(&vec![]), Err(DecodeError::WrongLength));
}

#[test]
fn decode_undefined_escape_is_bad_escape() {
    assert_eq!(decode(&vec![0xDB, 0x05, 0xC0]), Err(DecodeError::BadEscape));
}

#[test]
fn decode_dangling_escape_is_bad_escape() {
    assert_eq!(decode(&vec![0x01, 0xDB]), Err(DecodeError::BadEscape));
}

#[test]
fn batch_is_frames_then_syn_marker_frame() {
    let a = ev(1, 30, 1);
    let b = ev(1, 30, 0);
    let mut expected = encode(a);
    expected.extend(encode(b));
    expected.extend(encode(syn_report()));
    assert_eq!(encode_batch(&vec![a, b]), expected);
}

#[test]
fn empty_batch_is_one_syn_marker_frame() {
    assert_eq!(encode_batch(&vec![]), encode(syn_report()));
}

#[test]
fn syn_marker_is_all_zero_record() {
    let s = syn_report();
    assert_eq!(s, ev(0, 0, 0));
}
