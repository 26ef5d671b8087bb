//! The messages exchanged between the user of a WebSocket and the engine.

use vstd::prelude::*;
use crate::frame::{LastFragment, SetFin};

verus! {

/// A message received from the peer and delivered to the user.
#[derive(Debug)]
pub enum StreamMessage {
    Ping(Vec<u8>),
    Pong(Vec<u8>),
    Text(String),
    Binary(Vec<u8>),
    Close { code: usize, reason: String },
}

/// The mathematical value of a [`StreamMessage`].
pub enum MessageView {
    Ping(Seq<u8>),
    Pong(Seq<u8>),
    Text(Seq<char>),
    Binary(Seq<u8>),
    Close { code: usize, reason: Seq<char> },
}

impl View for StreamMessage {
    type V = MessageView;

    open spec fn view(&self) -> MessageView {
        match self {
            StreamMessage::Ping(p) => MessageView::Ping(p@),
            StreamMessage::Pong(p) => MessageView::Pong(p@),
            StreamMessage::Text(t) => MessageView::Text(t@),
            StreamMessage::Binary(b) => MessageView::Binary(b@),
            StreamMessage::Close { code, reason } => MessageView::Close {
                code: *code,
                reason: reason@,
            },
        }
    }
}

/// A message (or message fragment) the user hands to the WebSocket to send.
#[allow(inconsistent_fields)]
pub enum SinkMessage {
    Ping(Vec<u8>),
    Text { payload: String, last_fragment: LastFragment },
    Binary { payload: Vec<u8>, last_fragment: LastFragment },
    Close { code: usize, reason: String },
    CloseNoStatus,
}

/// Which kind of fragmented message is in progress; `Idle` when none is.
#[derive(Clone, Copy, Debug, PartialEq, Eq)]
pub enum MessageInProgress {
    Idle,
    Text,
    Binary,
}

/// Work for the task that owns the connection's sending half.
pub enum WorkerMessage {
    /// Stop working.
    Exit,
    /// Send one frame with the given FIN flag, opcode and payload.
    Send { set_fin: SetFin, opcode: u8, data: Vec<u8> },
}

} // verus!
