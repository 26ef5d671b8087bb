//! A WebSocket (RFC 6455) protocol engine with verified framing, message
//! reassembly, send-side sequencing and opening-handshake logic.

pub mod vec_ext;
pub mod error;
pub mod headers;
pub mod key;
pub mod handshake;
mod entropy;
pub mod frame;
pub mod message;
mod utf8;
pub mod receiver;
pub mod reader;
pub mod receiving;
pub mod close;
pub mod queue;
pub mod sender;
pub mod socket;
