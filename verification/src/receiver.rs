//! Interpreting received frames: unmasking, checking them against the
//! protocol, and reassembling fragmented messages.

use vstd::prelude::*;
use vstd::utf8::{valid_utf8, decode_utf8};
use crate::error::Error;
use crate::frame::{FIN, MASK, OPCODE_BINARY, OPCODE_CLOSE, OPCODE_CONTINUATION, OPCODE_PING, OPCODE_PONG, OPCODE_TEXT, MaskDirection, masked_payload};
use crate::message::{MessageInProgress, MessageView, StreamMessage};
use crate::utf8::str_from_utf8;

verus! {

/// What the receiver does after accepting one frame.
pub enum ReceivedFrame {
    /// The frame was a fragment of a message that is not complete yet.
    Fragment,
    /// A message is complete and is delivered to the user.
    Message(StreamMessage),
    /// A ping arrived: a pong with the same payload is sent back, and then
    /// the ping is delivered to the user.
    Ping(Vec<u8>),
    /// A close frame arrived: it is delivered to the user, and no further
    /// frames are read.
    Close { code: usize, reason: String },
}

/// The mathematical value of a [`ReceivedFrame`].
pub enum ReceivedFrameView {
    Fragment,
    Message(MessageView),
    Ping(Seq<u8>),
    Close { code: usize, reason: Seq<char> },
}

impl View for ReceivedFrame {
    type V = ReceivedFrameView;

    open spec fn view(&self) -> ReceivedFrameView {
        match self {
            ReceivedFrame::Fragment => ReceivedFrameView::Fragment,
            ReceivedFrame::Message(m) => ReceivedFrameView::Message(m@),
            ReceivedFrame::Ping(p) => ReceivedFrameView::Ping(p@),
            ReceivedFrame::Close { code, reason } => ReceivedFrameView::Close {
                code: *code,
                reason: reason@,
            },
        }
    }
}

/// The ways in which a received frame violates the protocol.
pub enum FrameFault {
    ReservedBitsSet,
    MaskedFrame,
    UnmaskedFrame,
    LastMessageIncomplete,
    FragmentedControlFrame,
    UnknownOpcode,
    UnexpectedContinuation,
    InvalidTextUtf8,
    InvalidCloseReasonUtf8,
}

/// `error` is the error by which the receiver reports `fault`.
pub open spec fn reports(error: Error, fault: FrameFault) -> bool {
    match fault {
        FrameFault::ReservedBitsSet => error matches Error::BadFrame(r) && r@
            == "reserved bits set"@,
        FrameFault::MaskedFrame => error matches Error::BadFrame(r) && r@ == "masked frame"@,
        FrameFault::UnmaskedFrame => error matches Error::BadFrame(r) && r@ == "unmasked frame"@,
        FrameFault::LastMessageIncomplete => error matches Error::BadFrame(r) && r@
            == "last message incomplete"@,
        FrameFault::FragmentedControlFrame => error matches Error::BadFrame(r) && r@
            == "fragmented control frame"@,
        FrameFault::UnknownOpcode => error matches Error::BadFrame(r) && r@ == "unknown opcode"@,
        FrameFault::UnexpectedContinuation => error matches Error::BadFrame(r) && r@
            == "unexpected continuation frame"@,
        FrameFault::InvalidTextUtf8 => error matches Error::Utf8 { context, .. } && context@
            == "text message"@,
        FrameFault::InvalidCloseReasonUtf8 => error matches Error::Utf8 { context, .. }
            && context@ == "close reason"@,
    }
}

/// The state of message reassembly.
pub struct ReceiverState {
    pub mask_direction: MaskDirection,
    pub in_progress: MessageInProgress,
    pub buffer: Seq<u8>,
}

/// The octets of `frame` are laid out as a header of `header_length` octets
/// (including a masking key when the MASK bit is set) followed by a payload
/// of `payload_length` octets.
pub open spec fn frame_layout(frame: Seq<u8>, header_length: nat, payload_length: nat) -> bool {
    &&& 2 <= header_length
    &&& frame.len() == header_length + payload_length
    &&& (frame[1] & MASK) != 0 ==> 6 <= header_length
}

/// The FIN flag of a frame.
pub open spec fn frame_fin(frame: Seq<u8>) -> bool {
    (frame[0] & FIN) != 0
}

/// The opcode of a frame.
pub open spec fn frame_opcode(frame: Seq<u8>) -> u8 {
    frame[0] & 0x0f
}

/// The payload of a frame, unmasked with the key just before it when the
/// MASK bit is set.
pub open spec fn frame_payload(frame: Seq<u8>, header_length: nat, payload_length: nat) -> Seq<u8> {
    let raw = frame.subrange(header_length as int, (header_length + payload_length) as int);
    if (frame[1] & MASK) != 0 {
        masked_payload(raw, frame.subrange(header_length - 4, header_length as int))
    } else {
        raw
    }
}

/// Appending a data fragment of a text message.
pub open spec fn text_step(s: ReceiverState, payload: Seq<u8>, fin: bool) -> (
    Result<ReceivedFrameView, FrameFault>,
    ReceiverState,
) {
    let buffer = s.buffer + payload;
    if !fin {
        (
            Ok(ReceivedFrameView::Fragment),
            ReceiverState { in_progress: MessageInProgress::Text, buffer, ..s },
        )
    } else if valid_utf8(buffer) {
        (
            Ok(ReceivedFrameView::Message(MessageView::Text(decode_utf8(buffer)))),
            ReceiverState { in_progress: MessageInProgress::Idle, buffer: seq![], ..s },
        )
    } else {
        (Err(FrameFault::InvalidTextUtf8), ReceiverState { buffer, ..s })
    }
}

/// Appending a data fragment of a binary message.
pub open spec fn binary_step(s: ReceiverState, payload: Seq<u8>, fin: bool) -> (
    Result<ReceivedFrameView, FrameFault>,
    ReceiverState,
) {
    let buffer = s.buffer + payload;
    if !fin {
        (
            Ok(ReceivedFrameView::Fragment),
            ReceiverState { in_progress: MessageInProgress::Binary, buffer, ..s },
        )
    } else {
        (
            Ok(ReceivedFrameView::Message(MessageView::Binary(buffer))),
            ReceiverState { in_progress: MessageInProgress::Idle, buffer: seq![], ..s },
        )
    }
}

/// The status code and reason of a close frame's payload: 1005 (no status)
/// and no reason when it is shorter than two octets, else the big-endian
/// code and the UTF-8 reason that follows it.
pub open spec fn close_step(payload: Seq<u8>) -> Result<ReceivedFrameView, FrameFault> {
    if payload.len() < 2 {
        Ok(ReceivedFrameView::Close { code: 1005, reason: seq![] })
    } else if valid_utf8(payload.subrange(2, payload.len() as int)) {
        Ok(
            ReceivedFrameView::Close {
                code: ((payload[0] as nat) * 256 + (payload[1] as nat)) as usize,
                reason: decode_utf8(payload.subrange(2, payload.len() as int)),
            },
        )
    } else {
        Err(FrameFault::InvalidCloseReasonUtf8)
    }
}

/// What a frame that passed the header checks does, by its FIN flag, opcode
/// and (unmasked) payload: data frames start, continue or end a message;
/// control frames must not be fragmented.
pub open spec fn dispatch(s: ReceiverState, fin: bool, opcode: u8, payload: Seq<u8>) -> (
    Result<ReceivedFrameView, FrameFault>,
    ReceiverState,
) {
    if opcode == OPCODE_CONTINUATION {
        match s.in_progress {
            MessageInProgress::Idle => (Err(FrameFault::UnexpectedContinuation), s),
            MessageInProgress::Text => text_step(s, payload, fin),
            MessageInProgress::Binary => binary_step(s, payload, fin),
        }
    } else if opcode == OPCODE_TEXT || opcode == OPCODE_BINARY {
        if s.in_progress != MessageInProgress::Idle {
            (Err(FrameFault::LastMessageIncomplete), s)
        } else if opcode == OPCODE_TEXT {
            text_step(s, payload, fin)
        } else {
            binary_step(s, payload, fin)
        }
    } else if opcode == OPCODE_PING || opcode == OPCODE_PONG || opcode == OPCODE_CLOSE {
        if !fin {
            (Err(FrameFault::FragmentedControlFrame), s)
        } else if opcode == OPCODE_PING {
            (Ok(ReceivedFrameView::Ping(payload)), s)
        } else if opcode == OPCODE_PONG {
            (Ok(ReceivedFrameView::Message(MessageView::Pong(payload))), s)
        } else {
            (close_step(payload), s)
        }
    } else {
        (Err(FrameFault::UnknownOpcode), s)
    }
}

/// What receiving one frame does: the outcome or the protocol violation,
/// and the reassembly state afterwards.  Reserved bits must be clear, and a
/// frame must be masked exactly when the receiver expects masking.
pub open spec fn receive_step(
    s: ReceiverState,
    frame: Seq<u8>,
    header_length: nat,
    payload_length: nat,
) -> (Result<ReceivedFrameView, FrameFault>, ReceiverState) {
    let masked = (frame[1] & MASK) != 0;
    if ((frame[0] >> 4u8) & 0x07) != 0 {
        (Err(FrameFault::ReservedBitsSet), s)
    } else if masked && s.mask_direction == MaskDirection::Transmit {
        (Err(FrameFault::MaskedFrame), s)
    } else if !masked && s.mask_direction == MaskDirection::Receive {
        (Err(FrameFault::UnmaskedFrame), s)
    } else {
        dispatch(
            s,
            frame_fin(frame),
            frame_opcode(frame),
            frame_payload(frame, header_length, payload_length),
        )
    }
}

/// Reassembles messages from the frames received on one connection.
pub struct FrameReceiver {
    mask_direction: MaskDirection,
    message_in_progress: MessageInProgress,
    message_reassembly_buffer: Vec<u8>,
}

impl View for FrameReceiver {
    type V = ReceiverState;

    closed spec fn view(&self) -> ReceiverState {
        ReceiverState {
            mask_direction: self.mask_direction,
            in_progress: self.message_in_progress,
            buffer: self.message_reassembly_buffer@,
        }
    }
}

/// The state after a step, where the step succeeded.
pub open spec fn step_matches(
    step: (Result<ReceivedFrameView, FrameFault>, ReceiverState),
    result: Result<ReceivedFrame, Error>,
    after: ReceiverState,
) -> bool {
    &&& after == step.1
    &&& match result {
        Ok(outcome) => step.0 == Ok::<ReceivedFrameView, FrameFault>(outcome@),
        Err(e) => step.0 matches Err(fault) && reports(e, fault),
    }
}

impl FrameReceiver {
    /// A receiver with no message in progress.
    pub fn new(mask_direction: MaskDirection) -> (receiver: Self)
        ensures
            receiver@ == (ReceiverState {
                mask_direction,
                in_progress: MessageInProgress::Idle,
                buffer: seq![],
            }),
    {
        FrameReceiver {
            mask_direction,
            message_in_progress: MessageInProgress::Idle,
            message_reassembly_buffer: Vec::new(),
        }
    }

    /// Appends a fragment of a text message, completing the message when
    /// `fin` is set.
    fn receive_frame_text(&mut self, payload: Vec<u8>, fin: bool) -> (result: Result<
        ReceivedFrame,
        Error,
    >)
        ensures
            step_matches(text_step(old(self)@, payload@, fin), result, final(self)@),
    {
        let mut payload = payload;
        self.message_reassembly_buffer.append(&mut payload);
        if fin {
            match str_from_utf8(self.message_reassembly_buffer.as_slice()) {
                Ok(message) => {
                    let text = message.to_owned();
                    self.message_reassembly_buffer = Vec::new();
                    self.message_in_progress = MessageInProgress::Idle;
                    Ok(ReceivedFrame::Message(StreamMessage::Text(text)))
                },
                Err(source) => {
                    proof {
                        reveal_strlit("text message");
                    }
                    Err(Error::Utf8 { source, context: "text message" })
                },
            }
        } else {
            self.message_in_progress = MessageInProgress::Text;
            Ok(ReceivedFrame::Fragment)
        }
    }

    /// Appends a fragment of a binary message, completing the message when
    /// `fin` is set.
    fn receive_frame_binary(&mut self, payload: Vec<u8>, fin: bool) -> (result: Result<
        ReceivedFrame,
        Error,
    >)
        ensures
            step_matches(binary_step(old(self)@, payload@, fin), result, final(self)@),
    {
        let mut payload = payload;
        self.message_reassembly_buffer.append(&mut payload);
        if fin {
            let mut message = Vec::new();
            core::mem::swap(&mut message, &mut self.message_reassembly_buffer);
            self.message_in_progress = MessageInProgress::Idle;
            Ok(ReceivedFrame::Message(StreamMessage::Binary(message)))
        } else {
            self.message_in_progress = MessageInProgress::Binary;
            Ok(ReceivedFrame::Fragment)
        }
    }

    /// Interprets the payload of a close frame.
    fn receive_frame_close(payload: Vec<u8>) -> (result: Result<ReceivedFrame, Error>)
        ensures
            match result {
                Ok(outcome) => close_step(payload@) == Ok::<ReceivedFrameView, FrameFault>(
                    outcome@,
                ),
                Err(e) => close_step(payload@) matches Err(fault) && reports(e, fault),
            },
    {
        let mut code: usize = 1005;
        let mut reason = String::new();
        if payload.len() >= 2 {
            code = (payload[0] as usize) * 256 + (payload[1] as usize);
            let rest = &payload.as_slice()[2..payload.len()];
            match str_from_utf8(rest) {
                Ok(text) => {
                    reason = text.to_owned();
                },
                Err(source) => {
                    proof {
                        reveal_strlit("close reason");
                    }
                    return Err(Error::Utf8 { source, context: "close reason" });
                },
            }
        }
        Ok(ReceivedFrame::Close { code, reason })
    }

    /// Continues the fragmented message in progress.
    fn receive_frame_continuation(&mut self, payload: Vec<u8>, fin: bool) -> (result: Result<
        ReceivedFrame,
        Error,
    >)
        ensures
            step_matches(
                match old(self)@.in_progress {
                    MessageInProgress::Idle => (
                        Err(FrameFault::UnexpectedContinuation),
                        old(self)@,
                    ),
                    MessageInProgress::Text => text_step(old(self)@, payload@, fin),
                    MessageInProgress::Binary => binary_step(old(self)@, payload@, fin),
                },
                result,
                final(self)@,
            ),
    {
        match self.message_in_progress {
            MessageInProgress::Idle => {
                proof {
                    reveal_strlit("unexpected continuation frame");
                }
                Err(Error::BadFrame("unexpected continuation frame"))
            },
            MessageInProgress::Text => self.receive_frame_text(payload, fin),
            MessageInProgress::Binary => self.receive_frame_binary(payload, fin),
        }
    }

    /// Takes in one complete frame whose header is `header_length` octets
    /// long (masking key included) and whose payload is `payload_length`
    /// octets long, and reports what it amounts to.
    pub fn receive_frame(
        &mut self,
        frame: &[u8],
        header_length: usize,
        payload_length: usize,
    ) -> (result: Result<ReceivedFrame, Error>)
        requires
            frame_layout(frame@, header_length as nat, payload_length as nat),
        ensures
            step_matches(
                receive_step(old(self)@, frame@, header_length as nat, payload_length as nat),
                result,
                final(self)@,
            ),
    {
        let first = frame[0];
        let second = frame[1];
        let fin = (first & FIN) != 0;
        let reserved_bits = (first >> 4) & 0x07;
        if reserved_bits != 0 {
            proof {
                reveal_strlit("reserved bits set");
            }
            return Err(Error::BadFrame("reserved bits set"));
        }
        let mask = (second & MASK) != 0;
        match (mask, self.mask_direction) {
            (true, MaskDirection::Transmit) => {
                proof {
                    reveal_strlit("masked frame");
                }
                return Err(Error::BadFrame("masked frame"));
            },
            (false, MaskDirection::Receive) => {
                proof {
                    reveal_strlit("unmasked frame");
                }
                return Err(Error::BadFrame("unmasked frame"));
            },
            _ => {},
        }
        let opcode = first & 0x0F;
        let ghost expected = frame_payload(frame@, header_length as nat, payload_length as nat);
        let frame_length = frame.len();
        let mut payload: Vec<u8> = Vec::new();
        let mut i: usize = 0;
        while i < payload_length
            invariant
                frame_length == frame@.len(),
                frame_layout(frame@, header_length as nat, payload_length as nat),
                mask == ((frame@[1] & MASK) != 0),
                i <= payload_length,
                expected == frame_payload(frame@, header_length as nat, payload_length as nat),
                payload@ =~= expected.take(i as int),
            decreases payload_length - i,
        {
            let mut byte = frame[header_length + i];
            if mask {
                byte = byte ^ frame[header_length - 4 + i % 4];
            }
            payload.push(byte);
            i = i + 1;
        }
        assert(expected.take(payload_length as int) =~= expected);
        if opcode == OPCODE_CONTINUATION {
            self.receive_frame_continuation(payload, fin)
        } else if opcode == OPCODE_TEXT {
            match self.message_in_progress {
                MessageInProgress::Idle => self.receive_frame_text(payload, fin),
                _ => {
                    proof {
                        reveal_strlit("last message incomplete");
                    }
                    Err(Error::BadFrame("last message incomplete"))
                },
            }
        } else if opcode == OPCODE_BINARY {
            match self.message_in_progress {
                MessageInProgress::Idle => self.receive_frame_binary(payload, fin),
                _ => {
                    proof {
                        reveal_strlit("last message incomplete");
                    }
                    Err(Error::BadFrame("last message incomplete"))
                },
            }
        } else if opcode == OPCODE_PING || opcode == OPCODE_PONG || opcode == OPCODE_CLOSE {
            if !fin {
                proof {
                    reveal_strlit("fragmented control frame");
                }
                Err(Error::BadFrame("fragmented control frame"))
            } else if opcode == OPCODE_PING {
                Ok(ReceivedFrame::Ping(payload))
            } else if opcode == OPCODE_PONG {
                Ok(ReceivedFrame::Message(StreamMessage::Pong(payload)))
            } else {
                Self::receive_frame_close(payload)
            }
        } else {
            proof {
                reveal_strlit("unknown opcode");
            }
            Err(Error::BadFrame("unknown opcode"))
        }
    }
}

/// The reassembly state after continuation frames with FIN clear carrying
/// `parts` arrived one after another.
pub open spec fn continue_fragments(s: ReceiverState, parts: Seq<Seq<u8>>) -> ReceiverState
    decreases parts.len(),
{
    if parts.len() == 0 {
        s
    } else {
        continue_fragments(
            dispatch(s, false, OPCODE_CONTINUATION, parts[0]).1,
            parts.drop_first(),
        )
    }
}

/// While a message is in progress, continuation frames with FIN clear only
/// add their payloads to the reassembly buffer.
proof fn lemma_continue_fragments(s: ReceiverState, parts: Seq<Seq<u8>>)
    requires
        s.in_progress != MessageInProgress::Idle,
    ensures
        continue_fragments(s, parts) == (ReceiverState { buffer: s.buffer + parts.flatten(), ..s }),
    decreases parts.len(),
{
    if parts.len() == 0 {
        assert(s.buffer + parts.flatten() =~= s.buffer);
    } else {
        let next = dispatch(s, false, OPCODE_CONTINUATION, parts[0]).1;
        assert(next == ReceiverState { buffer: s.buffer + parts[0], ..s });
        lemma_continue_fragments(next, parts.drop_first());
        assert(s.buffer + parts[0] + parts.drop_first().flatten() =~= s.buffer + parts.flatten());
    }
}

/// A message fragmented in any number of frames is received exactly as the
/// same message in a single frame: every fragment but the last is held back,
/// and the last delivers (or refuses) all the payloads joined, leaving the
/// same state when it delivers.
pub proof fn theorem_fragments_reassembled(
    s: ReceiverState,
    opcode: u8,
    first: Seq<u8>,
    middle: Seq<Seq<u8>>,
    last: Seq<u8>,
)
    requires
        s.in_progress == MessageInProgress::Idle,
        opcode == OPCODE_TEXT || opcode == OPCODE_BINARY,
    ensures
        dispatch(s, false, opcode, first).0 == Ok::<ReceivedFrameView, FrameFault>(
            ReceivedFrameView::Fragment,
        ),
        forall|i: int|
            0 <= i < middle.len() ==> dispatch(
                continue_fragments(dispatch(s, false, opcode, first).1, middle.take(i)),
                false,
                OPCODE_CONTINUATION,
                #[trigger] middle[i],
            ).0 == Ok::<ReceivedFrameView, FrameFault>(ReceivedFrameView::Fragment),
        ({
            let joined = dispatch(
                continue_fragments(dispatch(s, false, opcode, first).1, middle),
                true,
                OPCODE_CONTINUATION,
                last,
            );
            let single = dispatch(s, true, opcode, first + middle.flatten() + last);
            &&& joined.0 == single.0
            &&& joined.0 is Ok ==> joined.1 == single.1
        }),
{
    let started = dispatch(s, false, opcode, first).1;
    assert forall|i: int| 0 <= i < middle.len() implies dispatch(
        continue_fragments(started, middle.take(i)),
        false,
        OPCODE_CONTINUATION,
        #[trigger] middle[i],
    ).0 == Ok::<ReceivedFrameView, FrameFault>(ReceivedFrameView::Fragment) by {
        lemma_continue_fragments(started, middle.take(i));
    }
    lemma_continue_fragments(started, middle);
    assert(s.buffer + first + middle.flatten() + last =~= s.buffer + (first + middle.flatten()
        + last));
}

/// What every accepted frame keeps and what it delivers: a receiver with no
/// message in progress holds nothing for reassembly, before and after; a
/// close is delivered exactly for a close frame; a text or binary message is
/// delivered only by a frame with FIN set, and then reassembly starts afresh.
pub proof fn theorem_receiver_step_invariants(
    s: ReceiverState,
    frame: Seq<u8>,
    header_length: nat,
    payload_length: nat,
)
    requires
        s.in_progress == MessageInProgress::Idle ==> s.buffer.len() == 0,
    ensures
        ({
            let step = receive_step(s, frame, header_length, payload_length);
            &&& step.1.mask_direction == s.mask_direction
            &&& step.0 is Ok ==> (step.1.in_progress == MessageInProgress::Idle
                ==> step.1.buffer.len() == 0)
            &&& step.0 matches Ok(outcome) ==> ((outcome is Close) <==> frame_opcode(frame)
                == OPCODE_CLOSE)
            &&& step.0 matches Ok(ReceivedFrameView::Message(m)) ==> ((m is Text || m is Binary)
                ==> {
                &&& frame_fin(frame)
                &&& step.1.in_progress == MessageInProgress::Idle
                &&& step.1.buffer.len() == 0
            })
        }),
{
}

/// A pong with FIN set is delivered as exactly a pong message carrying its
/// payload, whatever the payload (an empty one included), and leaves the
/// reassembly as it was.
pub proof fn theorem_pong_delivered(s: ReceiverState, payload: Seq<u8>)
    ensures
        dispatch(s, true, OPCODE_PONG, payload) == (
            Ok::<ReceivedFrameView, FrameFault>(ReceivedFrameView::Message(MessageView::Pong(payload))),
            s,
        ),
{
}

/// A ping with FIN set is reported as exactly that ping (to be answered and
/// delivered) whatever its payload, and a close with FIN set and a payload
/// shorter than two octets is delivered as status 1005 with no reason; both
/// leave the reassembly as it was.
pub proof fn theorem_ping_and_bare_close_received(s: ReceiverState, payload: Seq<u8>)
    ensures
        dispatch(s, true, OPCODE_PING, payload) == (
            Ok::<ReceivedFrameView, FrameFault>(ReceivedFrameView::Ping(payload)),
            s,
        ),
        payload.len() < 2 ==> dispatch(s, true, OPCODE_CLOSE, payload) == (
            Ok::<ReceivedFrameView, FrameFault>(
                ReceivedFrameView::Close { code: 1005, reason: Seq::empty() },
            ),
            s,
        ),
{
}

/// A control frame arriving between the fragments of a message leaves the
/// reassembly as it was.
pub proof fn theorem_control_frame_keeps_reassembly(
    s: ReceiverState,
    opcode: u8,
    payload: Seq<u8>,
)
    requires
        opcode == OPCODE_PING || opcode == OPCODE_PONG || opcode == OPCODE_CLOSE,
    ensures
        dispatch(s, true, opcode, payload).1 == s,
{
}

/// A text message is delivered as the text whose UTF-8 encoding its
/// payload is; a binary message as its payload.
pub proof fn theorem_complete_message_delivered(s: ReceiverState, text: Seq<char>, data: Seq<u8>)
    requires
        s.in_progress == MessageInProgress::Idle,
        s.buffer.len() == 0,
    ensures
        dispatch(s, true, OPCODE_TEXT, vstd::utf8::encode_utf8(text)) == (
            Ok::<ReceivedFrameView, FrameFault>(ReceivedFrameView::Message(MessageView::Text(text))),
            s,
        ),
        dispatch(s, true, OPCODE_BINARY, data) == (
            Ok::<ReceivedFrameView, FrameFault>(ReceivedFrameView::Message(MessageView::Binary(data))),
            s,
        ),
{
    broadcast use vstd::utf8::encode_utf8_valid_utf8, vstd::utf8::encode_utf8_decode_utf8;

    assert(s.buffer + vstd::utf8::encode_utf8(text) =~= vstd::utf8::encode_utf8(text));
    assert(s.buffer + data =~= data);
    assert(s.buffer =~= seq![]);
}

} // verus!
