//! What the task that reads from the connection does with each result of
//! taking in a frame: read on, deliver a message, answer a ping, stop after
//! a close, or fail the connection.

use vstd::prelude::*;
use crate::close::{close_code_and_reason, close_code_and_reason_from_error};
use crate::error::Error;
use crate::message::{MessageView, StreamMessage};
use crate::receiver::{ReceivedFrame, ReceivedFrameView};

verus! {

/// The next thing to do after taking in (or failing to take in) a frame.
pub enum ReceiveAction {
    /// Nothing to deliver yet: read on.
    ReadOn,
    /// Queue this message for the user, then read on.
    Deliver(StreamMessage),
    /// Send a pong carrying this payload; once it has gone out, queue the
    /// ping with the same payload for the user and read on.  A pong that
    /// cannot be sent fails the connection with that error.
    Pong(Vec<u8>),
    /// Queue this close for the user, wait until our own close has gone
    /// out, then stop reading and end the queue: nothing after the close
    /// frame is looked at.
    CloseReceived { code: usize, reason: String },
    /// Queue a close with this status code and reason for the user, send a
    /// close frame with them, then stop reading and end the queue.
    Fail { code: usize, reason: String },
}

/// The mathematical value of a [`ReceiveAction`].
pub enum ReceiveActionView {
    ReadOn,
    Deliver(MessageView),
    Pong(Seq<u8>),
    CloseReceived { code: usize, reason: Seq<char> },
    Fail { code: usize, reason: Seq<char> },
}

impl View for ReceiveAction {
    type V = ReceiveActionView;

    open spec fn view(&self) -> ReceiveActionView {
        match self {
            ReceiveAction::ReadOn => ReceiveActionView::ReadOn,
            ReceiveAction::Deliver(m) => ReceiveActionView::Deliver(m@),
            ReceiveAction::Pong(p) => ReceiveActionView::Pong(p@),
            ReceiveAction::CloseReceived { code, reason } => ReceiveActionView::CloseReceived {
                code: *code,
                reason: reason@,
            },
            ReceiveAction::Fail { code, reason } => ReceiveActionView::Fail {
                code: *code,
                reason: reason@,
            },
        }
    }
}

/// The action for an outcome of reading: more input or a fragment reads on;
/// a complete message is delivered; a ping is answered with a pong of the
/// same payload before it is delivered; a close stops reading; an error
/// fails the connection with the status code and reason chosen for it.
pub open spec fn action_for(outcome: Result<Option<ReceivedFrame>, Error>) -> ReceiveActionView {
    match outcome {
        Ok(None) => ReceiveActionView::ReadOn,
        Ok(Some(frame)) => match frame@ {
            ReceivedFrameView::Fragment => ReceiveActionView::ReadOn,
            ReceivedFrameView::Message(m) => ReceiveActionView::Deliver(m),
            ReceivedFrameView::Ping(p) => ReceiveActionView::Pong(p),
            ReceivedFrameView::Close { code, reason } => ReceiveActionView::CloseReceived {
                code,
                reason,
            },
        },
        Err(e) => ReceiveActionView::Fail {
            code: close_code_and_reason(e).0,
            reason: close_code_and_reason(e).1,
        },
    }
}

/// Decides what to do with an outcome of reading.
pub fn receive_action(outcome: Result<Option<ReceivedFrame>, Error>) -> (action: ReceiveAction)
    ensures
        action@ == action_for(outcome),
{
    match outcome {
        Ok(None) => ReceiveAction::ReadOn,
        Ok(Some(ReceivedFrame::Fragment)) => ReceiveAction::ReadOn,
        Ok(Some(ReceivedFrame::Message(m))) => ReceiveAction::Deliver(m),
        Ok(Some(ReceivedFrame::Ping(p))) => ReceiveAction::Pong(p),
        Ok(Some(ReceivedFrame::Close { code, reason })) => ReceiveAction::CloseReceived {
            code,
            reason,
        },
        Err(e) => {
            let (code, reason) = close_code_and_reason_from_error(e);
            ReceiveAction::Fail { code, reason }
        },
    }
}

/// The action after the pong answering a ping with `payload` was sent: the
/// ping is delivered when the pong went out, and otherwise the connection
/// fails with the error of the send.
pub open spec fn action_after_pong(payload: Seq<u8>, sent: Result<(), Error>) -> ReceiveActionView {
    match sent {
        Ok(_) => ReceiveActionView::Deliver(MessageView::Ping(payload)),
        Err(e) => ReceiveActionView::Fail {
            code: close_code_and_reason(e).0,
            reason: close_code_and_reason(e).1,
        },
    }
}

/// Decides what to do once the pong for a ping with `payload` was sent, or
/// failed to be.
pub fn after_pong(payload: Vec<u8>, sent: Result<(), Error>) -> (action: ReceiveAction)
    ensures
        action@ == action_after_pong(payload@, sent),
{
    match sent {
        Ok(()) => ReceiveAction::Deliver(StreamMessage::Ping(payload)),
        Err(e) => {
            let (code, reason) = close_code_and_reason_from_error(e);
            ReceiveAction::Fail { code, reason }
        },
    }
}

/// Every complete message taken in is delivered to the user unchanged,
/// whatever its kind (text, binary or pong); a ping is answered with a pong
/// of its payload; a close stops reading with its code and reason; a
/// fragment, or a need for more input, reads on; and an error fails the
/// connection with the status code and reason chosen for that error.
pub proof fn theorem_every_message_delivered(frame: ReceivedFrame, error: Error)
    ensures
        frame@ matches ReceivedFrameView::Message(m) ==> action_for(Ok(Some(frame)))
            == ReceiveActionView::Deliver(m),
        frame@ matches ReceivedFrameView::Ping(p) ==> action_for(Ok(Some(frame)))
            == ReceiveActionView::Pong(p),
        frame@ matches ReceivedFrameView::Close { code, reason } ==> action_for(Ok(Some(frame)))
            == (ReceiveActionView::CloseReceived { code, reason }),
        frame@ is Fragment ==> action_for(Ok(Some(frame))) == ReceiveActionView::ReadOn,
        action_for(Ok(None)) == ReceiveActionView::ReadOn,
        action_for(Err(error)) == (ReceiveActionView::Fail {
            code: close_code_and_reason(error).0,
            reason: close_code_and_reason(error).1,
        }),
{
}

} // verus!
