//! The errors that the WebSocket engine reports.

use vstd::prelude::*;

verus! {

/// The error of the `base64` crate's decoder, carried inside
/// [`Error::HandshakeKey`].
#[verifier::external_type_specification]
#[verifier::external_body]
pub struct ExDecodeError(base64::DecodeError);

/// The error of `std::str::from_utf8`, carried inside [`Error::Utf8`].
#[verifier::external_type_specification]
#[verifier::external_body]
pub struct ExUtf8Error(core::str::Utf8Error);

/// This is the enumeration of all the different kinds of errors which this
/// crate generates.
#[derive(Debug)]
pub enum Error {
    /// The WebSocket could not be opened because the status code in the HTTP
    /// response in the opening handshake was not 101 (Switching Protocols).
    ProtocolNotSwitched,
    /// The HTTP response in the opening handshake did not indicate that the
    /// connection was upgraded at all.
    ConnectionNotUpgraded,
    /// The HTTP response in the opening handshake did not indicate that the
    /// connection was upgraded to a WebSocket.
    ProtocolNotUpgradedToWebSocket,
    /// The HTTP response in the opening handshake did not contain the correct
    /// value for the `Sec-WebSocket-Accept` header.
    InvalidHandshakeResponse,
    /// The HTTP response in the opening handshake indicated an extension we
    /// did not request.
    ExtensionNotRequested,
    /// The HTTP response in the opening handshake indicated a subprotocol we
    /// did not request.
    SubprotocolNotRequested,
    /// For a client, the handshake was finished without being started; for a
    /// server, the client provided no `Sec-WebSocket-Key` header.
    HandshakeNotProperlyStarted,
    /// The HTTP request in the opening handshake did not use `GET`.
    WrongHttpMethod,
    /// The HTTP request in the opening handshake did not request upgrading
    /// the connection.
    UpgradeNotRequested,
    /// The HTTP request in the opening handshake did not ask for an upgrade to
    /// a WebSocket.
    ProtocolUpgradeRequstNotAWebSocket,
    /// The HTTP request in the opening handshake requested an unsupported
    /// version of the WebSocket protocol.
    UnsupportedProtocolVersion,
    /// The HTTP request in the opening handshake did not contain a proper
    /// `Sec-WebSocket-Key` header.
    InvalidHandshakeRequest,
    /// The `Sec-WebSocket-Key` header could not be Base64-decoded.
    HandshakeKey(base64::DecodeError),
    /// The underlying network connection was broken; the text describes the
    /// failure reported by the connection.
    ConnectionBroken(String),
    /// The underlying network connection was gracefully closed.
    ConnectionClosed,
    /// The last frame reconstructed from the receiver was bad, for the
    /// human-readable reason given.
    BadFrame(&'static str),
    /// A payload is too large to fit into a frame, or an incoming frame is
    /// larger than allowed.
    FramePayloadTooLarge,
    /// The previous message was not finished.
    LastMessageUnfinished,
    /// A text message or close reason was received that is not valid UTF-8.
    Utf8 { source: core::str::Utf8Error, context: &'static str },
    /// A continuation frame arrived when no message was being reassembled.
    UnexpectedContinuationFrame,
    /// The WebSocket is already closed.
    Closed,
}

} // verus!
