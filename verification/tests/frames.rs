use websockets::close::close_payload;
use websockets::frame::{
    decode_frame_header_payload_lengths, encode_frame, MaskDirection, SetFin, OPCODE_BINARY,
    OPCODE_TEXT,
};
use websockets::headers::eq_ignore_ascii_case;
use websockets::reader::{scan_frame, FrameScan};
use websockets::vec_ext::VecExt;

#[test]
fn push_word() {
    let mut buf = Vec::new();
    buf.push_word(0x1234, 16);
    buf.push_word(0x56, 8);
    buf.push_word(0xbaad_f00d, 0);
    buf.push_word(0xab_cd_ef, 24);
    assert_eq!(6, buf.len());
    assert_eq!(0x12, buf[0]);
    assert_eq!(0x34, buf[1]);
    assert_eq!(0x56, buf[2]);
    assert_eq!(0xab, buf[3]);
    assert_eq!(0xcd, buf[4]);
    assert_eq!(0xef, buf[5]);
}

#[test]
fn push_word_ignores_partial_bytes() {
    let mut buf = vec![9u8];
    buf.push_word(0x0102, 15);
    assert_eq!(vec![9u8, 0x02], buf);
}

#[test]
fn decode_short_length() {
    assert_eq!(Some((2, 6)), decode_frame_header_payload_lengths(b"\x81\x06"));
    assert_eq!(Some((2, 125)), decode_frame_header_payload_lengths(b"\x81\xFD"));
}

#[test]
fn decode_two_octet_length() {
    assert_eq!(None, decode_frame_header_payload_lengths(b"\x81\x7E\x01"));
    assert_eq!(Some((4, 0x0102)), decode_frame_header_payload_lengths(b"\x81\x7E\x01\x02"));
    assert_eq!(Some((4, 0x0102)), decode_frame_header_payload_lengths(b"\x81\xFE\x01\x02"));
}

#[test]
fn decode_eight_octet_length() {
    assert_eq!(None, decode_frame_header_payload_lengths(b"\x82\x7F\x00\x00\x00\x00\x00\x01\x00"));
    assert_eq!(
        Some((10, 0x0001_0000)),
        decode_frame_header_payload_lengths(b"\x82\x7F\x00\x00\x00\x00\x00\x01\x00\x00")
    );
}

#[test]
fn encode_unmasked_lengths() {
    let frame = encode_frame(SetFin::Yes, OPCODE_TEXT, b"abc", MaskDirection::Receive, [1, 2, 3, 4]);
    assert_eq!(&b"\x81\x03abc"[..], &frame[..]);
    let payload = vec![0u8; 300];
    let frame = encode_frame(SetFin::No, OPCODE_BINARY, &payload, MaskDirection::Receive, [0; 4]);
    assert_eq!(&[0x02, 0x7E, 0x01, 0x2C][..], &frame[0..4]);
    assert_eq!(304, frame.len());
    let payload = vec![0u8; 70000];
    let frame = encode_frame(SetFin::Yes, OPCODE_BINARY, &payload, MaskDirection::Receive, [0; 4]);
    assert_eq!(&[0x82, 0x7F, 0, 0, 0, 0, 0, 0x01, 0x11, 0x70][..], &frame[0..10]);
    assert_eq!(70010, frame.len());
}

#[test]
fn encode_masked_with_given_key() {
    let frame =
        encode_frame(SetFin::Yes, OPCODE_TEXT, b"Hello", MaskDirection::Transmit, [0x37, 0xfa, 0x21, 0x3d]);
    assert_eq!(&b"\x81\x85\x37\xfa\x21\x3d\x7f\x9f\x4d\x51\x58"[..], &frame[..]);
}

#[test]
fn encoded_frames_scan_back_whole() {
    let frame =
        encode_frame(SetFin::Yes, OPCODE_TEXT, b"Hello", MaskDirection::Transmit, [9, 8, 7, 6]);
    let mut input = frame.clone();
    input.extend_from_slice(b"\x81");
    assert!(matches!(
        scan_frame(&input, None),
        FrameScan::Complete { header_length: 6, payload_length: 5 }
    ));
    assert!(matches!(scan_frame(&frame[..4], None), FrameScan::Incomplete));
    assert!(matches!(scan_frame(&frame, Some(10)), FrameScan::TooLarge));
    assert!(matches!(scan_frame(&frame, Some(11)), FrameScan::Complete { .. }));
}

#[test]
fn scan_refuses_growing_header_past_limit() {
    assert!(matches!(scan_frame(b"\x81\x7E\x01", Some(3)), FrameScan::TooLarge));
    assert!(matches!(scan_frame(b"\x81\x7E\x01", Some(4)), FrameScan::Incomplete));
}

#[test]
fn close_payload_is_code_then_reason() {
    assert_eq!(&b"\x03\xe8bye"[..], &close_payload(1000, "bye")[..]);
    assert_eq!(&b"\x03\xed"[..], &close_payload(1005, "")[..]);
}

#[test]
fn ascii_case_is_ignored_in_names() {
    assert!(eq_ignore_ascii_case("Sec-WebSocket-Key", "sec-websocket-key"));
    assert!(!eq_ignore_ascii_case("Upgrade", "Upgrades"));
    assert!(!eq_ignore_ascii_case("é", "É"));
}
