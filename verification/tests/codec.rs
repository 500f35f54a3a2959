//! Tests of the line codec: framing on decode, appending on encode, and the
//! round trip between them over a real `bytes::BytesMut` buffer.

use bytes::BytesMut;
use schellen_bridge_rs::BridgeError;
use schellen_bridge_rs::LineCodec;
use schellen_bridge_rs::shutter_frame;

#[test]
fn decode_returns_the_first_frame_and_empties_the_buffer() {
    let mut codec = LineCodec;
    let mut buf = BytesMut::from(&b"abc\n"[..]);
    let r = codec.decode(&mut buf);
    assert_eq!(r, Ok(Some(String::from("abc\n"))));
    assert_eq!(buf.as_ref(), b"");
}

#[test]
fn decode_without_terminator_retains_all_bytes() {
    let mut codec = LineCodec;
    let mut buf = BytesMut::from(&b"abc"[..]);
    let r = codec.decode(&mut buf);
    assert_eq!(r, Ok(None));
    assert_eq!(buf.as_ref(), b"abc");
}

#[test]
fn decode_joins_retained_bytes_with_later_arrivals() {
    let mut codec = LineCodec;
    let mut buf = BytesMut::from(&b"abc"[..]);
    assert_eq!(codec.decode(&mut buf), Ok(None));
    buf.extend_from_slice(b"d\n");
    assert_eq!(codec.decode(&mut buf), Ok(Some(String::from("abcd\n"))));
    assert_eq!(buf.as_ref(), b"");
}

#[test]
fn decode_returns_queued_frames_one_at_a_time_in_order() {
    let mut codec = LineCodec;
    let mut buf = BytesMut::from(&b"a\nb\n"[..]);
    assert_eq!(codec.decode(&mut buf), Ok(Some(String::from("a\n"))));
    assert_eq!(buf.as_ref(), b"b\n");
    assert_eq!(codec.decode(&mut buf), Ok(Some(String::from("b\n"))));
    assert_eq!(buf.as_ref(), b"");
}

#[test]
fn decode_rejects_a_frame_that_is_not_valid_text() {
    let mut codec = LineCodec;
    let mut buf = BytesMut::from(&[0xff, 0xfe, b'\n', b'o', b'k', b'\n'][..]);
    assert_eq!(codec.decode(&mut buf), Err(BridgeError::InvalidEncoding));
    // the malformed frame is consumed; the next frame is intact
    assert_eq!(codec.decode(&mut buf), Ok(Some(String::from("ok\n"))));
}

#[test]
fn decode_handles_text_beyond_ascii() {
    let mut codec = LineCodec;
    let mut buf = BytesMut::from("héllo\n".as_bytes());
    assert_eq!(codec.decode(&mut buf), Ok(Some(String::from("héllo\n"))));
    assert_eq!(buf.as_ref(), b"");
}

#[test]
fn encode_appends_the_opcode_and_one_terminator() {
    let mut codec = LineCodec;
    let mut buf = BytesMut::new();
    codec.encode("ss119010000", &mut buf);
    assert_eq!(buf.as_ref(), b"ss119010000\n");
    assert_eq!(buf.len(), 12);
}

#[test]
fn encode_appends_the_init_opcode() {
    let mut codec = LineCodec;
    let mut buf = BytesMut::new();
    codec.encode("init", &mut buf);
    assert_eq!(buf.as_ref(), b"init\n");
}

#[test]
fn encode_leaves_earlier_bytes_in_place() {
    let mut codec = LineCodec;
    let mut buf = BytesMut::from(&b"queued\n"[..]);
    codec.encode("next", &mut buf);
    assert_eq!(buf.as_ref(), b"queued\nnext\n");
}

#[test]
fn sequential_sends_never_interleave_frames() {
    let mut codec = LineCodec;
    let mut buf = BytesMut::new();
    codec.encode("ss119010000", &mut buf);
    codec.encode("ss119020000", &mut buf);
    // the wire holds frame A whole, then frame B whole
    assert_eq!(buf.as_ref(), b"ss119010000\nss119020000\n");
    assert_eq!(codec.decode(&mut buf), Ok(Some(String::from("ss119010000\n"))));
    assert_eq!(codec.decode(&mut buf), Ok(Some(String::from("ss119020000\n"))));
    assert_eq!(buf.as_ref(), b"");
}

#[test]
fn encode_decode_round_trip_returns_the_message_line() {
    let mut codec = LineCodec;
    let mut buf = BytesMut::new();
    codec.encode("hello stick", &mut buf);
    assert_eq!(codec.decode(&mut buf), Ok(Some(String::from("hello stick\n"))));
    assert_eq!(buf.as_ref(), b"");
}

#[test]
fn a_parsed_command_travels_end_to_end() {
    // name -> command -> opcode -> encoded device write
    let payload = shutter_frame("down").unwrap();
    assert_eq!(payload, "ss119020000");
    let mut codec = LineCodec;
    let mut buf = BytesMut::new();
    codec.encode(&payload, &mut buf);
    assert_eq!(buf.as_ref(), b"ss119020000\n");
}

#[test]
fn an_unrecognized_name_stages_no_device_write() {
    let mut buf = BytesMut::new();
    if let Some(payload) = shutter_frame("left") {
        let mut codec = LineCodec;
        codec.encode(&payload, &mut buf);
    }
    assert_eq!(buf.as_ref(), b"");
}
