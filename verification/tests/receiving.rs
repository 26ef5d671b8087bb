use websockets::close::close_code_and_reason_from_error;
use websockets::error::Error;
use websockets::frame::{MaskDirection, SetFin, OPCODE_PONG};
use websockets::message::StreamMessage;
use websockets::reader::FrameReader;
use websockets::receiver::ReceivedFrame;
use websockets::receiving::{after_pong, receive_action, ReceiveAction};
use websockets::sender::FrameSender;

/// Hands `input` to the reader and takes in frames until more input is
/// needed or a frame is refused.
fn feed(reader: &mut FrameReader, input: &[u8]) -> Vec<Result<ReceivedFrame, Error>> {
    assert!(reader.bytes_received(input).is_ok());
    let mut outcomes = Vec::new();
    loop {
        match reader.receive_next() {
            Ok(Some(frame)) => outcomes.push(Ok(frame)),
            Ok(None) => break,
            Err(e) => {
                outcomes.push(Err(e));
                break;
            },
        }
    }
    outcomes
}

/// Masks `payload` with `mask` behind the two header octets `header`.
fn masked_frame(header: &[u8], mask: &[u8; 4], payload: &[u8]) -> Vec<u8> {
    header
        .iter()
        .copied()
        .chain(mask.iter().copied())
        .chain(payload.iter().zip(mask.iter().cycle()).map(|(&byte, &mask)| byte ^ mask))
        .collect()
}

/// Expects the last outcome to be a refusal, and returns the status code and
/// reason the connection is closed with, and the close frame a server sends.
fn closing_after(outcomes: Vec<Result<ReceivedFrame, Error>>) -> (usize, String, Vec<u8>) {
    let last = outcomes.into_iter().last();
    assert!(matches!(last, Some(Err(_))));
    let error = match last {
        Some(Err(error)) => error,
        _ => unreachable!(),
    };
    let (code, reason) = close_code_and_reason_from_error(error);
    let mut sender = FrameSender::new(MaskDirection::Receive);
    let frame = sender.send_close(code, &reason).unwrap();
    (code, reason, frame)
}

#[test]
fn receive_ping() {
    let mut reader = FrameReader::new(MaskDirection::Transmit, None);
    let mut outcomes = feed(&mut reader, b"\x89\x06Hello,");
    assert_eq!(1, outcomes.len());
    match outcomes.pop() {
        Some(Ok(ReceivedFrame::Ping(message))) => {
            assert_eq!("Hello,".as_bytes(), &message[..]);
            let mut sender = FrameSender::new(MaskDirection::Transmit);
            let output = sender.send_frame(SetFin::Yes, OPCODE_PONG, &message);
            assert!(output.is_ok());
            let output = output.unwrap();
            assert_eq!(12, output.len());
            assert_eq!(b"\x8A\x86", &output[0..2]);
            for i in 0..6 {
                assert_eq!(message[i] ^ output[2 + (i % 4)], output[6 + i]);
            }
        },
        _ => panic!("we got something that isn't a ping!"),
    }
}

#[test]
fn receive_pong() {
    let mut reader = FrameReader::new(MaskDirection::Transmit, None);
    let mut outcomes = feed(&mut reader, b"\x8A\x06World!");
    match outcomes.pop() {
        Some(Ok(ReceivedFrame::Message(StreamMessage::Pong(message)))) => {
            assert_eq!("World!".as_bytes(), &message[..]);
        },
        _ => panic!("we got something that isn't a pong!"),
    }
}

#[test]
fn receive_text() {
    let mut reader = FrameReader::new(MaskDirection::Transmit, None);
    let mut outcomes = feed(&mut reader, b"\x81\x06foobar");
    match outcomes.pop() {
        Some(Ok(ReceivedFrame::Message(StreamMessage::Text(message)))) => {
            assert_eq!("foobar", message);
        },
        _ => panic!("we got something that isn't a text!"),
    }
}

#[test]
fn receive_binary() {
    let mut reader = FrameReader::new(MaskDirection::Transmit, None);
    let mut outcomes = feed(&mut reader, b"\x82\x06foobar");
    match outcomes.pop() {
        Some(Ok(ReceivedFrame::Message(StreamMessage::Binary(message)))) => {
            assert_eq!("foobar".as_bytes(), &message[..]);
        },
        _ => panic!("we got something that isn't a binary!"),
    }
}

#[test]
fn receive_masked() {
    let mut reader = FrameReader::new(MaskDirection::Receive, None);
    let frame = masked_frame(&[0x81, 0x86], &[0x12, 0x34, 0x56, 0x78], b"foobar");
    let mut outcomes = feed(&mut reader, &frame);
    match outcomes.pop() {
        Some(Ok(ReceivedFrame::Message(StreamMessage::Text(message)))) => {
            assert_eq!("foobar", message);
        },
        _ => panic!("we got something that isn't a text!"),
    }
}

#[test]
fn receive_fragmented_text() {
    let mut reader = FrameReader::new(MaskDirection::Transmit, None);
    let mut outcomes = Vec::new();
    for &frame in [&b"\x01\x03foo"[..], &b"\x00\x01b"[..], &b"\x80\x02ar"[..]].iter() {
        outcomes.append(&mut feed(&mut reader, frame));
    }
    assert_eq!(3, outcomes.len());
    assert!(matches!(outcomes[0], Ok(ReceivedFrame::Fragment)));
    assert!(matches!(outcomes[1], Ok(ReceivedFrame::Fragment)));
    match outcomes.pop() {
        Some(Ok(ReceivedFrame::Message(StreamMessage::Text(message)))) => {
            assert_eq!("foobar", message);
        },
        _ => panic!("we got something that isn't a text!"),
    }
}

#[test]
fn receive_fragments_in_one_read() {
    let mut reader = FrameReader::new(MaskDirection::Transmit, None);
    let outcomes = feed(&mut reader, b"\x01\x03foo\x89\x00\x00\x01b\x80\x02ar");
    assert_eq!(4, outcomes.len());
    assert!(matches!(outcomes[1], Ok(ReceivedFrame::Ping(ref p)) if p.is_empty()));
    assert!(matches!(
        outcomes[3],
        Ok(ReceivedFrame::Message(StreamMessage::Text(ref t))) if t == "foobar"
    ));
}

#[test]
fn receive_frame_split_across_reads() {
    let mut reader = FrameReader::new(MaskDirection::Transmit, None);
    assert_eq!(Some(65536), reader.wanted_input());
    assert!(feed(&mut reader, b"\x81").is_empty());
    assert_eq!(Some(131072), reader.wanted_input());
    assert!(feed(&mut reader, b"\x06foo").is_empty());
    let mut outcomes = feed(&mut reader, b"bar");
    assert!(matches!(
        outcomes.pop(),
        Some(Ok(ReceivedFrame::Message(StreamMessage::Text(ref t)))) if t == "foobar"
    ));
    assert_eq!(Some(65536), reader.wanted_input());
}

#[test]
fn receive_two_octet_length() {
    let mut reader = FrameReader::new(MaskDirection::Transmit, None);
    let mut frame = vec![0x82, 126, 0x01, 0x00];
    frame.extend(std::iter::repeat(7u8).take(256));
    let mut outcomes = feed(&mut reader, &frame);
    match outcomes.pop() {
        Some(Ok(ReceivedFrame::Message(StreamMessage::Binary(message)))) => {
            assert_eq!(vec![7u8; 256], message);
        },
        _ => panic!("we got something that isn't a binary!"),
    }
}

#[test]
fn initiate_close_no_status_returned() {
    let mut reader = FrameReader::new(MaskDirection::Receive, None);
    let mut outcomes = feed(&mut reader, b"\x88\x80XXXX");
    match outcomes.pop() {
        Some(Ok(ReceivedFrame::Close { code, reason })) => {
            assert_eq!(1005, code);
            assert_eq!("", reason);
        },
        _ => panic!("we got something that isn't a text!"),
    }
}

#[test]
fn initiate_close_status_returned() {
    let mut reader = FrameReader::new(MaskDirection::Receive, None);
    let frame = masked_frame(b"\x88\x85", &[0x12, 0x34, 0x56, 0x78], b"\x03\xe8Bye");
    let mut outcomes = feed(&mut reader, &frame);
    match outcomes.pop() {
        Some(Ok(ReceivedFrame::Close { code, reason })) => {
            assert_eq!(1000, code);
            assert_eq!("Bye", reason);
        },
        _ => panic!("we got something that isn't a close!"),
    }
}

#[test]
fn receive_close() {
    let mut reader = FrameReader::new(MaskDirection::Receive, None);
    let mut outcomes = feed(&mut reader, b"\x88\x80XXXX");
    match outcomes.pop() {
        Some(Ok(ReceivedFrame::Close { code, reason })) => {
            assert_eq!(1005, code);
            assert_eq!("", reason);
        },
        _ => panic!("we got something that isn't a close!"),
    }
}

#[test]
fn violation_reserved_bits_set() {
    let mut reader = FrameReader::new(MaskDirection::Receive, None);
    let (code, reason, frame) = closing_after(feed(&mut reader, b"\x99\x80XXXX"));
    assert_eq!(1002, code);
    assert_eq!("reserved bits set", reason);
    assert_eq!(&b"\x88\x13\x03\xeareserved bits set"[..], &frame[..]);
}

#[test]
fn violation_unexpected_continuation() {
    let mut reader = FrameReader::new(MaskDirection::Receive, None);
    let (code, reason, frame) = closing_after(feed(&mut reader, b"\x80\x80XXXX"));
    assert_eq!(1002, code);
    assert_eq!("unexpected continuation frame", reason);
    assert_eq!(&b"\x88\x1F\x03\xeaunexpected continuation frame"[..], &frame[..]);
}

#[test]
fn violation_new_text_message_during_fragmented_message() {
    let mut reader = FrameReader::new(MaskDirection::Receive, None);
    let first = feed(&mut reader, b"\x01\x80XXXX");
    assert!(matches!(first[..], [Ok(ReceivedFrame::Fragment)]));
    let (code, reason, frame) = closing_after(feed(&mut reader, b"\x01\x80XXXX"));
    assert_eq!(1002, code);
    assert_eq!("last message incomplete", reason);
    assert_eq!(&b"\x88\x19\x03\xealast message incomplete"[..], &frame[..]);
}

#[test]
fn violation_new_binary_message_during_fragmented_message() {
    let mut reader = FrameReader::new(MaskDirection::Receive, None);
    let first = feed(&mut reader, b"\x01\x80XXXX");
    assert!(matches!(first[..], [Ok(ReceivedFrame::Fragment)]));
    let (code, reason, frame) = closing_after(feed(&mut reader, b"\x02\x80XXXX"));
    assert_eq!(1002, code);
    assert_eq!("last message incomplete", reason);
    assert_eq!(&b"\x88\x19\x03\xealast message incomplete"[..], &frame[..]);
}

#[test]
fn violation_unknown_opcode() {
    let mut reader = FrameReader::new(MaskDirection::Receive, None);
    let (code, reason, frame) = closing_after(feed(&mut reader, b"\x83\x80XXXX"));
    assert_eq!(1002, code);
    assert_eq!("unknown opcode", reason);
    assert_eq!(&b"\x88\x10\x03\xeaunknown opcode"[..], &frame[..]);
}

#[test]
fn violation_client_should_mask_frames() {
    let mut reader = FrameReader::new(MaskDirection::Receive, None);
    let (code, reason, frame) = closing_after(feed(&mut reader, b"\x89\x00"));
    assert_eq!(1002, code);
    assert_eq!("unmasked frame", reason);
    assert_eq!(&b"\x88\x10\x03\xeaunmasked frame"[..], &frame[..]);
}

#[test]
fn violation_server_should_not_mask_frames() {
    let mut reader = FrameReader::new(MaskDirection::Transmit, None);
    let outcomes = feed(&mut reader, b"\x89\x80XXXX");
    let error = match outcomes.into_iter().last() {
        Some(Err(error)) => error,
        _ => panic!("we got something that isn't a close!"),
    };
    let (code, reason) = close_code_and_reason_from_error(error);
    assert_eq!(1002, code);
    assert_eq!("masked frame", reason);
    let mut sender = FrameSender::new(MaskDirection::Transmit);
    let output = sender.send_close(code, &reason).ok();
    assert!(matches!(
        output.as_deref(),
        Some(frame) if
            frame.len() == 20
            && frame[0..2] == b"\x88\x8E"[..]
            && frame[6..].iter().zip(
                frame[2..6].iter().cycle()
            )
            .map(|(&byte, &mask)| byte ^ mask)
            .eq(b"\x03\xeamasked frame"[..].iter().copied())
    ));
}

#[test]
fn connection_unexpectedly_broken() {
    let mut reader = FrameReader::new(MaskDirection::Receive, None);
    let refused = reader.bytes_received(b"");
    assert!(matches!(refused, Err(Error::ConnectionClosed)));
    let (code, reason) = close_code_and_reason_from_error(refused.unwrap_err());
    assert_eq!(1006, code);
    assert_eq!("underlying connection closed gracefully", reason);
}

#[test]
fn bad_utf8_in_text() {
    let mut reader = FrameReader::new(MaskDirection::Receive, None);
    let frame = masked_frame(b"\x81\x82", b"\x12\x34\x56\x78", b"\xc0\xaf");
    let (code, reason, frame) = closing_after(feed(&mut reader, &frame));
    assert_eq!(1007, code);
    assert_eq!("invalid UTF-8 encoding in text message", reason);
    assert_eq!(
        &b"\x88\x28\x03\xefinvalid UTF-8 encoding in text message"[..],
        &frame[..]
    );
}

#[test]
fn good_utf8_in_text_split_into_fragments() {
    let mut reader = FrameReader::new(MaskDirection::Transmit, None);
    let first = feed(&mut reader, b"\x01\x02\xF0\xA3");
    assert!(matches!(first[..], [Ok(ReceivedFrame::Fragment)]));
    let mut outcomes = feed(&mut reader, b"\x80\x02\x8E\xB4");
    match outcomes.pop() {
        Some(Ok(ReceivedFrame::Message(StreamMessage::Text(message)))) => {
            assert_eq!("𣎴", message);
        },
        _ => panic!("we got something that isn't a text!"),
    }
}

#[test]
fn bad_utf8_truncated_in_text_split_into_fragments() {
    let mut reader = FrameReader::new(MaskDirection::Transmit, None);
    let first = feed(&mut reader, b"\x01\x02\xF0\xA3");
    assert!(matches!(first[..], [Ok(ReceivedFrame::Fragment)]));
    let (code, reason, _) = closing_after(feed(&mut reader, b"\x80\x01\x8E"));
    assert_eq!(1007, code);
    assert_eq!("invalid UTF-8 encoding in text message", reason);
}

#[test]
fn receive_close_invalid_utf8_in_reason() {
    let mut reader = FrameReader::new(MaskDirection::Receive, None);
    let frame = masked_frame(b"\x88\x84", b"\x12\x34\x56\x78", b"\x03\xe8\xc0\xaf");
    let (code, reason, _) = closing_after(feed(&mut reader, &frame));
    assert_eq!(1007, code);
    assert_eq!("invalid UTF-8 encoding in close reason", reason);
}

#[test]
fn drop_connection_if_frame_too_large() {
    let mut reader = FrameReader::new(MaskDirection::Transmit, Some(7));
    let (code, reason, _) = closing_after(feed(&mut reader, b"\x81\x06foobar"));
    assert_eq!(1009, code);
    assert_eq!("frame too large", reason);
}

#[test]
fn frame_exactly_at_size_limit_is_accepted() {
    let mut reader = FrameReader::new(MaskDirection::Transmit, Some(8));
    let mut outcomes = feed(&mut reader, b"\x81\x06foobar");
    assert!(matches!(
        outcomes.pop(),
        Some(Ok(ReceivedFrame::Message(StreamMessage::Text(ref t)))) if t == "foobar"
    ));
}

#[test]
fn close_frame_fin_clear() {
    let mut reader = FrameReader::new(MaskDirection::Transmit, Some(7));
    let (code, reason, _) = closing_after(feed(&mut reader, b"\x08\x03\x03\xe8bye"));
    assert_eq!(1002, code);
    assert_eq!("fragmented control frame", reason);
}

#[test]
fn ping_frame_fin_clear() {
    let mut reader = FrameReader::new(MaskDirection::Transmit, Some(7));
    let (code, reason, _) = closing_after(feed(&mut reader, b"\x09\x02hi"));
    assert_eq!(1002, code);
    assert_eq!("fragmented control frame", reason);
}

#[test]
fn pong_frame_fin_clear() {
    let mut reader = FrameReader::new(MaskDirection::Transmit, Some(7));
    let (code, reason, _) = closing_after(feed(&mut reader, b"\x0a\x02hi"));
    assert_eq!(1002, code);
    assert_eq!("fragmented control frame", reason);
}

#[test]
fn other_errors_close_without_status() {
    let (code, reason) = close_code_and_reason_from_error(Error::Closed);
    assert_eq!(1005, code);
    assert_eq!("", reason);
    let (code, reason) =
        close_code_and_reason_from_error(Error::ConnectionBroken("reset".to_string()));
    assert_eq!(1006, code);
    assert_eq!("error in underlying connection (reset)", reason);
}

#[test]
fn nothing_taken_in_after_close() {
    let mut reader = FrameReader::new(MaskDirection::Transmit, None);
    let outcomes = feed(&mut reader, b"\x88\x02\x03\xe8\x81\x03abc");
    assert_eq!(1, outcomes.len());
    assert!(matches!(outcomes[0], Ok(ReceivedFrame::Close { code: 1000, ref reason }) if reason.is_empty()));
    assert!(matches!(reader.receive_next(), Ok(None)));
}

#[test]
fn actions_follow_outcomes() {
    assert!(matches!(receive_action(Ok(None)), ReceiveAction::ReadOn));
    assert!(matches!(receive_action(Ok(Some(ReceivedFrame::Fragment))), ReceiveAction::ReadOn));
    assert!(matches!(
        receive_action(Ok(Some(ReceivedFrame::Ping(b"hi".to_vec())))),
        ReceiveAction::Pong(ref p) if p == b"hi"
    ));
    assert!(matches!(
        receive_action(Ok(Some(ReceivedFrame::Message(StreamMessage::Text("x".to_string()))))),
        ReceiveAction::Deliver(StreamMessage::Text(ref t)) if t == "x"
    ));
    assert!(matches!(
        receive_action(Ok(Some(ReceivedFrame::Close { code: 1000, reason: "bye".to_string() }))),
        ReceiveAction::CloseReceived { code: 1000, ref reason } if reason == "bye"
    ));
    assert!(matches!(
        receive_action(Err(Error::BadFrame("unknown opcode"))),
        ReceiveAction::Fail { code: 1002, ref reason } if reason == "unknown opcode"
    ));
}

#[test]
fn same_frames_whatever_the_reads() {
    let input: &[u8] = b"\x01\x03foo\x89\x00\x80\x03bar\x82\x01z";
    let mut whole = FrameReader::new(MaskDirection::Transmit, None);
    let all = feed(&mut whole, input);
    for split in 1..input.len() {
        let mut reader = FrameReader::new(MaskDirection::Transmit, None);
        let mut outcomes = feed(&mut reader, &input[..split]);
        outcomes.append(&mut feed(&mut reader, &input[split..]));
        assert_eq!(all.len(), outcomes.len());
        assert!(matches!(
            outcomes[2],
            Ok(ReceivedFrame::Message(StreamMessage::Text(ref t))) if t == "foobar"
        ));
    }
    assert_eq!(4, all.len());
}

#[test]
fn ping_delivered_only_after_its_pong_went_out() {
    assert!(matches!(
        after_pong(b"hi".to_vec(), Ok(())),
        ReceiveAction::Deliver(StreamMessage::Ping(ref p)) if p == b"hi"
    ));
    assert!(matches!(
        after_pong(b"hi".to_vec(), Err(Error::ConnectionBroken("reset".to_string()))),
        ReceiveAction::Fail { code: 1006, ref reason } if reason == "error in underlying connection (reset)"
    ));
    assert!(matches!(
        after_pong(b"hi".to_vec(), Err(Error::Closed)),
        ReceiveAction::Fail { code: 1005, ref reason } if reason.is_empty()
    ));
}
