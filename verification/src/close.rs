//! The closing handshake: the payload of a close frame, and the status code
//! and reason with which a failed connection is closed.

use vstd::prelude::*;
use vstd::string::StringExecFns;
use crate::error::Error;
use crate::vec_ext::{VecExt, be_word_bytes};

verus! {

/// The close status code meaning that no status code was present.
pub const NO_STATUS_CODE: usize = 1005;

/// The status code and reason sent and delivered when the connection fails
/// with `error`: 1002 for a protocol violation (with its reason), 1009 for a
/// frame that is too large, 1007 for invalid UTF-8, 1006 for a connection that
/// broke or closed, and 1005 (no status) with no reason otherwise.
pub open spec fn close_code_and_reason(error: Error) -> (usize, Seq<char>) {
    match error {
        Error::BadFrame(reason) => (1002, reason@),
        Error::FramePayloadTooLarge => (1009, "frame too large"@),
        Error::Utf8 { context, .. } => (1007, "invalid UTF-8 encoding in "@ + context@),
        Error::ConnectionBroken(description) => (
            1006,
            "error in underlying connection ("@ + description@ + ")"@,
        ),
        Error::ConnectionClosed => (1006, "underlying connection closed gracefully"@),
        _ => (1005, seq![]),
    }
}

/// Chooses the status code and reason for closing after `error`.
pub fn close_code_and_reason_from_error(error: Error) -> (closing: (usize, String))
    ensures
        (closing.0, closing.1@) == close_code_and_reason(error),
{
    match error {
        Error::BadFrame(reason) => (1002, reason.to_owned()),
        Error::FramePayloadTooLarge => (1009, String::from_str("frame too large")),
        Error::Utf8 { context, .. } => {
            let mut reason = String::from_str("invalid UTF-8 encoding in ");
            reason.append(context);
            (1007, reason)
        },
        Error::ConnectionBroken(description) => {
            let mut reason = String::from_str("error in underlying connection (");
            reason.append(description.as_str());
            reason.append(")");
            (1006, reason)
        },
        Error::ConnectionClosed => (
            1006,
            String::from_str("underlying connection closed gracefully"),
        ),
        _ => (1005, String::new()),
    }
}

/// The payload of a close frame: the status code in two octets, most
/// significant first, followed by the UTF-8 encoding of the reason.
pub open spec fn close_payload_bytes(code: usize, reason: Seq<char>) -> Seq<u8> {
    be_word_bytes(code, 2) + vstd::utf8::encode_utf8(reason)
}

/// Builds the payload of a close frame.
pub fn close_payload(code: usize, reason: &str) -> (payload: Vec<u8>)
    ensures
        payload@ == close_payload_bytes(code, reason@),
{
    let mut payload: Vec<u8> = Vec::new();
    payload.push_word(code, 16);
    let bytes = reason.as_bytes();
    let mut i: usize = 0;
    while i < bytes.len()
        invariant
            i <= bytes@.len(),
            bytes@ == vstd::utf8::encode_utf8(reason@),
            payload@ =~= be_word_bytes(code, 2) + bytes@.take(i as int),
        decreases bytes@.len() - i,
    {
        payload.push(bytes[i]);
        i = i + 1;
    }
    assert(bytes@.take(bytes@.len() as int) =~= bytes@);
    payload
}

} // verus!
