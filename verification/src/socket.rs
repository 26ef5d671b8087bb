//! The sending side of a WebSocket as seen by its user: which messages and
//! fragments may be sent, and the frames they become.

use vstd::prelude::*;
use crate::close::{close_payload, close_payload_bytes};
use crate::error::Error;
use crate::frame::{
    LastFragment, MAX_CONTROL_FRAME_DATA_LENGTH, OPCODE_BINARY, OPCODE_CLOSE, OPCODE_CONTINUATION,
    OPCODE_PING, OPCODE_TEXT, SetFin,
};
use crate::frame::{
    MaskDirection, encodable_length, frame_bytes, header_length_for, key_for,
    lemma_two_octet_length,
};
use crate::message::{MessageInProgress, MessageView, SinkMessage, WorkerMessage};
use crate::reader::{FrameScanView, peer_direction, scan, theorem_sent_frame_received};
use crate::receiver::{ReceivedFrameView, ReceiverState, receive_step};
use crate::utf8::lemma_encode_utf8_concat;
use crate::vec_ext::be_word_bytes;

verus! {

/// The mathematical value of a [`SinkMessage`].
#[allow(inconsistent_fields)]
pub enum SinkView {
    Ping(Seq<u8>),
    Text { payload: Seq<char>, last: bool },
    Binary { payload: Seq<u8>, last: bool },
    Close { code: usize, reason: Seq<char> },
    CloseNoStatus,
}

impl View for SinkMessage {
    type V = SinkView;

    open spec fn view(&self) -> SinkView {
        match self {
            SinkMessage::Ping(p) => SinkView::Ping(p@),
            SinkMessage::Text { payload, last_fragment } => SinkView::Text {
                payload: payload@,
                last: *last_fragment == LastFragment::Yes,
            },
            SinkMessage::Binary { payload, last_fragment } => SinkView::Binary {
                payload: payload@,
                last: *last_fragment == LastFragment::Yes,
            },
            SinkMessage::Close { code, reason } => SinkView::Close { code: *code, reason: reason@ },
            SinkMessage::CloseNoStatus => SinkView::CloseNoStatus,
        }
    }
}

/// A frame to send: its FIN flag, opcode and payload.
pub struct OutgoingFrame {
    pub fin: bool,
    pub opcode: u8,
    pub data: Seq<u8>,
}

/// The mathematical value of a [`WorkerMessage`]: `None` for `Exit`.
pub open spec fn worker_frame(message: WorkerMessage) -> Option<OutgoingFrame> {
    match message {
        WorkerMessage::Exit => None,
        WorkerMessage::Send { set_fin, opcode, data } => Some(
            OutgoingFrame { fin: set_fin == SetFin::Yes, opcode, data: data@ },
        ),
    }
}

/// Why a message is refused.
pub enum SendFault {
    Closed,
    FramePayloadTooLarge,
    LastMessageUnfinished,
}

/// `error` is the error by which the WebSocket reports `fault`.
pub open spec fn reports_send(error: Error, fault: SendFault) -> bool {
    match fault {
        SendFault::Closed => error is Closed,
        SendFault::FramePayloadTooLarge => error is FramePayloadTooLarge,
        SendFault::LastMessageUnfinished => error is LastMessageUnfinished,
    }
}

/// The state of the sending side.
pub struct SendState {
    pub close_sent: bool,
    pub in_progress: MessageInProgress,
}

/// One data fragment of the kind `kind` (text or binary): refused while a
/// message of the other kind is in progress; otherwise it starts a message
/// (or continues the one in progress) and ends it when it is the last.
pub open spec fn data_step(
    s: SendState,
    kind: MessageInProgress,
    opcode: u8,
    data: Seq<u8>,
    last: bool,
) -> (Result<OutgoingFrame, SendFault>, SendState) {
    if s.in_progress != MessageInProgress::Idle && s.in_progress != kind {
        (Err(SendFault::LastMessageUnfinished), s)
    } else {
        (
            Ok(
                OutgoingFrame {
                    fin: last,
                    opcode: if s.in_progress == MessageInProgress::Idle {
                        opcode
                    } else {
                        OPCODE_CONTINUATION
                    },
                    data,
                },
            ),
            SendState {
                in_progress: if last {
                    MessageInProgress::Idle
                } else {
                    kind
                },
                ..s
            },
        )
    }
}

/// What handing `item` to the WebSocket does: the frame to send or why it is
/// refused, and the state afterwards.  Nothing is sent after a close; a ping
/// or a close whose payload would exceed 125 octets is refused; a close ends
/// the sending side.
pub open spec fn send_step(s: SendState, item: SinkView) -> (
    Result<OutgoingFrame, SendFault>,
    SendState,
) {
    if s.close_sent {
        (Err(SendFault::Closed), s)
    } else {
        match item {
            SinkView::Ping(payload) => if payload.len() > 125 {
                (Err(SendFault::FramePayloadTooLarge), s)
            } else {
                (Ok(OutgoingFrame { fin: true, opcode: OPCODE_PING, data: payload }), s)
            },
            SinkView::Text { payload, last } => data_step(
                s,
                MessageInProgress::Text,
                OPCODE_TEXT,
                vstd::utf8::encode_utf8(payload),
                last,
            ),
            SinkView::Binary { payload, last } => data_step(
                s,
                MessageInProgress::Binary,
                OPCODE_BINARY,
                payload,
                last,
            ),
            SinkView::Close { code, reason } => if vstd::utf8::encode_utf8(reason).len() + 2
                > 125 {
                (Err(SendFault::FramePayloadTooLarge), s)
            } else {
                (
                    Ok(
                        OutgoingFrame {
                            fin: true,
                            opcode: OPCODE_CLOSE,
                            data: close_payload_bytes(code, reason),
                        },
                    ),
                    SendState { close_sent: true, ..s },
                )
            },
            SinkView::CloseNoStatus => (
                Ok(OutgoingFrame { fin: true, opcode: OPCODE_CLOSE, data: seq![] }),
                SendState { close_sent: true, ..s },
            ),
        }
    }
}

/// `result` and `after` are what `step` prescribes.
pub open spec fn send_matches(
    step: (Result<OutgoingFrame, SendFault>, SendState),
    result: Result<WorkerMessage, Error>,
    after: SendState,
) -> bool {
    &&& after == step.1
    &&& match result {
        Ok(message) => step.0 matches Ok(frame) && worker_frame(message) == Some(frame),
        Err(e) => step.0 matches Err(fault) && reports_send(e, fault),
    }
}

/// The sending side of a WebSocket: it decides, for each message or
/// fragment the user hands over, which frame is sent, or refuses it.
pub struct WebSocket {
    close_sent: bool,
    message_in_progress: MessageInProgress,
}

impl View for WebSocket {
    type V = SendState;

    closed spec fn view(&self) -> SendState {
        SendState { close_sent: self.close_sent, in_progress: self.message_in_progress }
    }
}

/// Copies the UTF-8 encoding of `text`.
fn text_bytes(text: &str) -> (bytes: Vec<u8>)
    ensures
        bytes@ == vstd::utf8::encode_utf8(text@),
{
    vstd::slice::slice_to_vec(text.as_bytes())
}

impl WebSocket {
    /// A WebSocket that has not sent a close and has no message in progress.
    pub fn new() -> (ws: Self)
        ensures
            ws@ == (SendState { close_sent: false, in_progress: MessageInProgress::Idle }),
    {
        WebSocket { close_sent: false, message_in_progress: MessageInProgress::Idle }
    }

    /// Decides what to send for `item`.
    pub fn start_send(&mut self, item: SinkMessage) -> (result: Result<WorkerMessage, Error>)
        ensures
            send_matches(send_step(old(self)@, item@), result, final(self)@),
    {
        if self.close_sent {
            return Err(Error::Closed);
        }
        match item {
            SinkMessage::Ping(payload) => {
                if payload.len() > MAX_CONTROL_FRAME_DATA_LENGTH {
                    Err(Error::FramePayloadTooLarge)
                } else {
                    Ok(WorkerMessage::Send { set_fin: SetFin::Yes, opcode: OPCODE_PING, data: payload })
                }
            },
            SinkMessage::Text { payload, last_fragment } => {
                let opcode = match self.message_in_progress {
                    MessageInProgress::Binary => {
                        return Err(Error::LastMessageUnfinished);
                    },
                    MessageInProgress::Idle => OPCODE_TEXT,
                    MessageInProgress::Text => OPCODE_CONTINUATION,
                };
                let set_fin = match last_fragment {
                    LastFragment::Yes => SetFin::Yes,
                    LastFragment::No => SetFin::No,
                };
                self.message_in_progress = match last_fragment {
                    LastFragment::No => MessageInProgress::Text,
                    LastFragment::Yes => MessageInProgress::Idle,
                };
                Ok(WorkerMessage::Send { set_fin, opcode, data: text_bytes(payload.as_str()) })
            },
            SinkMessage::Binary { payload, last_fragment } => {
                let opcode = match self.message_in_progress {
                    MessageInProgress::Text => {
                        return Err(Error::LastMessageUnfinished);
                    },
                    MessageInProgress::Idle => OPCODE_BINARY,
                    MessageInProgress::Binary => OPCODE_CONTINUATION,
                };
                let set_fin = match last_fragment {
                    LastFragment::Yes => SetFin::Yes,
                    LastFragment::No => SetFin::No,
                };
                self.message_in_progress = match last_fragment {
                    LastFragment::No => MessageInProgress::Binary,
                    LastFragment::Yes => MessageInProgress::Idle,
                };
                Ok(WorkerMessage::Send { set_fin, opcode, data: payload })
            },
            SinkMessage::Close { code, reason } => {
                let reason_length = reason.as_str().as_bytes().len();
                if reason_length > MAX_CONTROL_FRAME_DATA_LENGTH - 2 {
                    Err(Error::FramePayloadTooLarge)
                } else {
                    self.close_sent = true;
                    Ok(
                        WorkerMessage::Send {
                            set_fin: SetFin::Yes,
                            opcode: OPCODE_CLOSE,
                            data: close_payload(code, reason.as_str()),
                        },
                    )
                }
            },
            SinkMessage::CloseNoStatus => {
                self.close_sent = true;
                Ok(WorkerMessage::Send { set_fin: SetFin::Yes, opcode: OPCODE_CLOSE, data: Vec::new() })
            },
        }
    }

    /// Sends a ping with `data` as its payload.
    pub fn ping(&mut self, data: Vec<u8>) -> (result: Result<WorkerMessage, Error>)
        ensures
            send_matches(send_step(old(self)@, SinkView::Ping(data@)), result, final(self)@),
    {
        self.start_send(SinkMessage::Ping(data))
    }

    /// Sends a text message, or a fragment of one.
    pub fn text(&mut self, data: String, last_fragment: LastFragment) -> (result: Result<
        WorkerMessage,
        Error,
    >)
        ensures
            send_matches(
                send_step(
                    old(self)@,
                    SinkView::Text { payload: data@, last: last_fragment == LastFragment::Yes },
                ),
                result,
                final(self)@,
            ),
    {
        self.start_send(SinkMessage::Text { payload: data, last_fragment })
    }

    /// Sends a binary message, or a fragment of one.
    pub fn binary(&mut self, data: Vec<u8>, last_fragment: LastFragment) -> (result: Result<
        WorkerMessage,
        Error,
    >)
        ensures
            send_matches(
                send_step(
                    old(self)@,
                    SinkView::Binary { payload: data@, last: last_fragment == LastFragment::Yes },
                ),
                result,
                final(self)@,
            ),
    {
        self.start_send(SinkMessage::Binary { payload: data, last_fragment })
    }

    /// Starts the closing handshake with a status code and reason.
    pub fn close(&mut self, code: usize, reason: String) -> (result: Result<WorkerMessage, Error>)
        ensures
            send_matches(
                send_step(old(self)@, SinkView::Close { code, reason: reason@ }),
                result,
                final(self)@,
            ),
    {
        self.start_send(SinkMessage::Close { code, reason })
    }
}

/// Once a close has been sent, everything handed to the WebSocket is
/// refused with [`Error::Closed`] and changes nothing.
pub proof fn theorem_nothing_sent_after_close(s: SendState, item: SinkView, later: SinkView)
    requires
        send_step(s, item).0 matches Ok(frame) && frame.opcode == OPCODE_CLOSE,
    ensures
        send_step(s, item).1.close_sent,
        send_step(send_step(s, item).1, later) == (
            Err::<OutgoingFrame, SendFault>(SendFault::Closed),
            send_step(s, item).1,
        ),
{
}

/// While a message of one kind is being sent in fragments, a fragment of
/// the other kind is refused and changes nothing.
pub proof fn theorem_one_message_at_a_time(s: SendState, text: Seq<char>, data: Seq<u8>, last: bool)
    requires
        !s.close_sent,
    ensures
        s.in_progress == MessageInProgress::Text ==> send_step(
            s,
            SinkView::Binary { payload: data, last },
        ) == (Err::<OutgoingFrame, SendFault>(SendFault::LastMessageUnfinished), s),
        s.in_progress == MessageInProgress::Binary ==> send_step(
            s,
            SinkView::Text { payload: text, last },
        ) == (Err::<OutgoingFrame, SendFault>(SendFault::LastMessageUnfinished), s),
{
}

/// A final fragment ends its message: once the last fragment of a text or
/// binary message is accepted, no message is in progress, so the next
/// message of either kind is accepted and starts with its own opcode (never
/// a continuation), with the FIN flag its own last-fragment flag gives.
pub proof fn theorem_final_fragment_ends_message(
    s: SendState,
    first: SinkView,
    text: Seq<char>,
    data: Seq<u8>,
    last: bool,
)
    requires
        !s.close_sent,
        first matches SinkView::Text { last: true, .. } || first matches SinkView::Binary {
            last: true,
            ..
        },
        send_step(s, first).0 is Ok,
    ensures
        send_step(s, first).1 == (SendState { close_sent: false, in_progress: MessageInProgress::Idle }),
        send_step(send_step(s, first).1, SinkView::Text { payload: text, last }).0 == Ok::<
            OutgoingFrame,
            SendFault,
        >(OutgoingFrame { fin: last, opcode: OPCODE_TEXT, data: vstd::utf8::encode_utf8(text) }),
        send_step(send_step(s, first).1, SinkView::Binary { payload: data, last }).0 == Ok::<
            OutgoingFrame,
            SendFault,
        >(OutgoingFrame { fin: last, opcode: OPCODE_BINARY, data }),
{
}

/// While a message is in progress, a further fragment of the same kind is
/// sent as a continuation frame with the FIN flag its last-fragment flag
/// gives; the message stays in progress until its last fragment, and then
/// none is.
pub proof fn theorem_fragments_continue(s: SendState, text: Seq<char>, data: Seq<u8>, last: bool)
    requires
        !s.close_sent,
    ensures
        s.in_progress == MessageInProgress::Text ==> send_step(
            s,
            SinkView::Text { payload: text, last },
        ) == (
            Ok::<OutgoingFrame, SendFault>(
                OutgoingFrame {
                    fin: last,
                    opcode: OPCODE_CONTINUATION,
                    data: vstd::utf8::encode_utf8(text),
                },
            ),
            SendState {
                in_progress: if last {
                    MessageInProgress::Idle
                } else {
                    MessageInProgress::Text
                },
                ..s
            },
        ),
        s.in_progress == MessageInProgress::Binary ==> send_step(
            s,
            SinkView::Binary { payload: data, last },
        ) == (
            Ok::<OutgoingFrame, SendFault>(
                OutgoingFrame { fin: last, opcode: OPCODE_CONTINUATION, data },
            ),
            SendState {
                in_progress: if last {
                    MessageInProgress::Idle
                } else {
                    MessageInProgress::Binary
                },
                ..s
            },
        ),
{
}

/// A ping may be sent between the fragments of a message, and leaves the
/// message in progress as it was.
pub proof fn theorem_ping_between_fragments(s: SendState, payload: Seq<u8>)
    requires
        !s.close_sent,
        payload.len() <= 125,
    ensures
        send_step(s, SinkView::Ping(payload)) == (
            Ok::<OutgoingFrame, SendFault>(
                OutgoingFrame { fin: true, opcode: OPCODE_PING, data: payload },
            ),
            s,
        ),
{
}

/// What the other end delivers for a complete message handed to the
/// WebSocket: the same ping, text or binary data, or close status and
/// reason (1005 and no reason for a close without status).
pub open spec fn delivered(item: SinkView) -> ReceivedFrameView {
    match item {
        SinkView::Ping(payload) => ReceivedFrameView::Ping(payload),
        SinkView::Text { payload, .. } => ReceivedFrameView::Message(MessageView::Text(payload)),
        SinkView::Binary { payload, .. } => ReceivedFrameView::Message(MessageView::Binary(payload)),
        SinkView::Close { code, reason } => ReceivedFrameView::Close { code, reason },
        SinkView::CloseNoStatus => ReceivedFrameView::Close { code: 1005, reason: seq![] },
    }
}

/// `item` is a whole message that the WebSocket accepts from state `s`: a
/// ping or close that fits in a control frame (with a 16-bit close code), or
/// a final text or binary fragment with no message in progress.
pub open spec fn whole_message(s: SendState, item: SinkView) -> bool {
    &&& !s.close_sent
    &&& s.in_progress == MessageInProgress::Idle
    &&& match item {
        SinkView::Ping(payload) => payload.len() <= 125,
        SinkView::Text { last, .. } => last,
        SinkView::Binary { last, .. } => last,
        SinkView::Close { code, reason } => code <= 65535 && vstd::utf8::encode_utf8(reason).len()
            + 2 <= 125,
        SinkView::CloseNoStatus => true,
    }
}

/// A whole message handed to the WebSocket at one end becomes a frame
/// which, built with any masking key and followed by anything, the reader
/// at the other end finds whole and delivers as the same message.
pub proof fn theorem_message_round_trip(
    s: SendState,
    item: SinkView,
    receiver: ReceiverState,
    sender: MaskDirection,
    key: Seq<u8>,
    rest: Seq<u8>,
    max_frame_size: Option<usize>,
)
    requires
        whole_message(s, item),
        receiver.in_progress == MessageInProgress::Idle,
        receiver.buffer.len() == 0,
        receiver.mask_direction == peer_direction(sender),
        key.len() == 4,
        send_step(s, item).0 matches Ok(frame) && {
            let h = header_length_for(frame.data.len(), sender == MaskDirection::Transmit);
            &&& encodable_length(frame.data.len())
            &&& h + frame.data.len() <= usize::MAX
            &&& max_frame_size matches Some(max) ==> h + frame.data.len() <= max
        },
    ensures
        send_step(s, item).0 matches Ok(frame) && {
            let buffer = frame_bytes(frame.fin, frame.opcode, frame.data, key_for(sender, key))
                + rest;
            let h = header_length_for(frame.data.len(), sender == MaskDirection::Transmit);
            let frame_length = h + frame.data.len();
            &&& scan(buffer, max_frame_size) == FrameScanView::Complete {
                header_length: h,
                payload_length: frame.data.len(),
            }
            &&& receive_step(receiver, buffer.take(frame_length as int), h, frame.data.len()).0
                == Ok::<ReceivedFrameView, crate::receiver::FrameFault>(delivered(item))
            &&& buffer.skip(frame_length as int) == rest
        },
{
    broadcast use vstd::utf8::encode_utf8_valid_utf8, vstd::utf8::encode_utf8_decode_utf8;

    let frame = send_step(s, item).0->Ok_0;
    theorem_sent_frame_received(
        receiver,
        sender,
        frame.fin,
        frame.opcode,
        frame.data,
        key,
        rest,
        max_frame_size,
    );
    assert(receiver.buffer + frame.data =~= frame.data);
    if let SinkView::Close { code, reason } = item {
        let payload = frame.data;
        lemma_two_octet_length(code);
        assert(payload[0] == be_word_bytes(code, 2)[0]);
        assert(payload[1] == be_word_bytes(code, 2)[1]);
        assert(payload.subrange(2, payload.len() as int) =~= vstd::utf8::encode_utf8(reason));
    }
}

/// The sending state after text fragments `parts`, none of them the last,
/// were handed to the WebSocket one after another.
pub open spec fn send_text_fragments(s: SendState, parts: Seq<Seq<char>>) -> SendState
    decreases parts.len(),
{
    if parts.len() == 0 {
        s
    } else {
        send_text_fragments(
            send_step(s, SinkView::Text { payload: parts[0], last: false }).1,
            parts.drop_first(),
        )
    }
}

/// While a text message is in progress, further fragments that are not the
/// last are sent as continuation frames and change nothing.
proof fn lemma_send_text_fragments(s: SendState, parts: Seq<Seq<char>>)
    requires
        !s.close_sent,
        s.in_progress == MessageInProgress::Text,
    ensures
        send_text_fragments(s, parts) == s,
    decreases parts.len(),
{
    if parts.len() > 0 {
        lemma_send_text_fragments(
            send_step(s, SinkView::Text { payload: parts[0], last: false }).1,
            parts.drop_first(),
        );
    }
}

/// The UTF-8 encoding of texts one after the other is their encodings one
/// after the other.
proof fn lemma_encode_utf8_flatten(parts: Seq<Seq<char>>)
    ensures
        vstd::utf8::encode_utf8(parts.flatten()) == parts.map_values(
            |p: Seq<char>| vstd::utf8::encode_utf8(p),
        ).flatten(),
    decreases parts.len(),
{
    let encoded = parts.map_values(|p: Seq<char>| vstd::utf8::encode_utf8(p));
    if parts.len() == 0 {
        assert(vstd::utf8::encode_utf8(parts.flatten()) =~= seq![]);
        assert(encoded.flatten() =~= seq![]);
    } else {
        lemma_encode_utf8_flatten(parts.drop_first());
        lemma_encode_utf8_concat(parts[0], parts.drop_first().flatten());
        assert(encoded.drop_first() =~= parts.drop_first().map_values(
            |p: Seq<char>| vstd::utf8::encode_utf8(p),
        ));
        assert(encoded.first() == vstd::utf8::encode_utf8(parts[0]));
    }
}

/// A text message handed to the WebSocket in any number of fragments is sent
/// as a text frame followed by continuation frames, the last with FIN set,
/// and the receiver at the other end holds back every fragment but the last,
/// then delivers the whole text and is left as it was.
pub proof fn theorem_fragmented_text_round_trip(
    s: SendState,
    receiver: ReceiverState,
    first: Seq<char>,
    middle: Seq<Seq<char>>,
    last: Seq<char>,
)
    requires
        !s.close_sent,
        s.in_progress == MessageInProgress::Idle,
        receiver.in_progress == MessageInProgress::Idle,
        receiver.buffer.len() == 0,
    ensures
        ({
            let (sent1, s1) = send_step(s, SinkView::Text { payload: first, last: false });
            let encoded = middle.map_values(|p: Seq<char>| vstd::utf8::encode_utf8(p));
            let r1 = crate::receiver::dispatch(
                receiver,
                false,
                OPCODE_TEXT,
                vstd::utf8::encode_utf8(first),
            );
            &&& sent1 == Ok::<OutgoingFrame, SendFault>(
                OutgoingFrame {
                    fin: false,
                    opcode: OPCODE_TEXT,
                    data: vstd::utf8::encode_utf8(first),
                },
            )
            &&& forall|i: int|
                0 <= i < middle.len() ==> send_step(
                    send_text_fragments(s1, middle.take(i)),
                    SinkView::Text { payload: #[trigger] middle[i], last: false },
                ) == (
                    Ok::<OutgoingFrame, SendFault>(
                        OutgoingFrame {
                            fin: false,
                            opcode: OPCODE_CONTINUATION,
                            data: vstd::utf8::encode_utf8(middle[i]),
                        },
                    ),
                    s1,
                )
            &&& send_step(
                send_text_fragments(s1, middle),
                SinkView::Text { payload: last, last: true },
            ) == (
                Ok::<OutgoingFrame, SendFault>(
                    OutgoingFrame {
                        fin: true,
                        opcode: OPCODE_CONTINUATION,
                        data: vstd::utf8::encode_utf8(last),
                    },
                ),
                s,
            )
            &&& r1.0 == Ok::<ReceivedFrameView, crate::receiver::FrameFault>(
                ReceivedFrameView::Fragment,
            )
            &&& forall|i: int|
                0 <= i < middle.len() ==> crate::receiver::dispatch(
                    crate::receiver::continue_fragments(r1.1, encoded.take(i)),
                    false,
                    OPCODE_CONTINUATION,
                    #[trigger] encoded[i],
                ).0 == Ok::<ReceivedFrameView, crate::receiver::FrameFault>(
                    ReceivedFrameView::Fragment,
                )
            &&& crate::receiver::dispatch(
                crate::receiver::continue_fragments(r1.1, encoded),
                true,
                OPCODE_CONTINUATION,
                vstd::utf8::encode_utf8(last),
            ) == (
                Ok::<ReceivedFrameView, crate::receiver::FrameFault>(
                    ReceivedFrameView::Message(MessageView::Text(first + middle.flatten() + last)),
                ),
                receiver,
            )
        }),
{
    broadcast use vstd::utf8::encode_utf8_valid_utf8, vstd::utf8::encode_utf8_decode_utf8;

    let s1 = send_step(s, SinkView::Text { payload: first, last: false }).1;
    let encoded = middle.map_values(|p: Seq<char>| vstd::utf8::encode_utf8(p));
    assert forall|i: int| 0 <= i < middle.len() implies send_step(
        send_text_fragments(s1, middle.take(i)),
        SinkView::Text { payload: #[trigger] middle[i], last: false },
    ) == (
        Ok::<OutgoingFrame, SendFault>(
            OutgoingFrame {
                fin: false,
                opcode: OPCODE_CONTINUATION,
                data: vstd::utf8::encode_utf8(middle[i]),
            },
        ),
        s1,
    ) by {
        lemma_send_text_fragments(s1, middle.take(i));
    }
    lemma_send_text_fragments(s1, middle);
    crate::receiver::theorem_fragments_reassembled(
        receiver,
        OPCODE_TEXT,
        vstd::utf8::encode_utf8(first),
        encoded,
        vstd::utf8::encode_utf8(last),
    );
    let whole = first + middle.flatten() + last;
    lemma_encode_utf8_flatten(middle);
    lemma_encode_utf8_concat(first, middle.flatten());
    lemma_encode_utf8_concat(first + middle.flatten(), last);
    let all = vstd::utf8::encode_utf8(whole);
    assert(receiver.buffer + all =~= all);
    assert(receiver.buffer =~= seq![]);
}

} // verus!
