//! The `Sec-WebSocket-Key` / `Sec-WebSocket-Accept` exchange of the opening
//! handshake, computed with the `base64` and `sha1` crates.

use vstd::prelude::*;
use vstd::string::StringExecFns;
use vstd::utf8::encode_utf8;
use crate::error::Error;
use crate::headers::all_ascii;
use crate::utf8::lemma_encode_utf8_concat;

verus! {

/// The required length of the Base64 decoding of the `Sec-WebSocket-Key`
/// header.
pub const REQUIRED_WEBSOCKET_KEY_LENGTH: usize = 16;

/// The text appended to the `Sec-WebSocket-Key` value before hashing it to
/// form the `Sec-WebSocket-Accept` value.
pub const WEBSOCKET_KEY_SALT: &'static str = "258EAFA5-E914-47DA-95CA-C5AB0DC85B11";

/// What `base64::decode` gives for `input`: the decoded octets, or `None`
/// when it reports an error.
pub uninterp spec fn base64_decoded(input: Seq<u8>) -> Option<Seq<u8>>;

/// What `base64::encode` gives for `input`.
pub uninterp spec fn base64_encoded(input: Seq<u8>) -> Seq<char>;

/// The SHA-1 digest of `input`, as the `sha1` crate computes it.
pub uninterp spec fn sha1_digest(input: Seq<u8>) -> Seq<u8>;

/// Calls `base64::decode` (standard alphabet, with padding).  Its result is
/// named by [`base64_decoded`]; nothing is claimed of the error value.  The
/// input is kept three octets short of `usize::MAX`, where the crate's
/// length estimate overflows.
#[verifier::external_body]
pub(crate) fn base64_decode(input: &[u8]) -> (decoded: Result<Vec<u8>, base64::DecodeError>)
    requires
        input@.len() <= usize::MAX - 3,
    ensures
        match decoded {
            Ok(bytes) => base64_decoded(input@) == Some(bytes@),
            Err(_) => base64_decoded(input@) is None,
        },
{
    base64::decode(input)
}

/// Calls `base64::encode` (standard alphabet, with padding).  Its result is
/// named by [`base64_encoded`].  Beside the name stand the facts that the
/// crate's source and documentation show: the text has four ASCII
/// characters for every three input octets or part of three, and
/// `base64::decode` gives the input back from it.  The input is kept well
/// below the size at which the crate's length computation overflows.
#[verifier::external_body]
pub(crate) fn base64_encode(input: &[u8]) -> (encoded: String)
    requires
        input@.len() <= usize::MAX / 2,
    ensures
        encoded@ == base64_encoded(input@),
        encoded@.len() == 4 * ((input@.len() + 2) / 3),
        all_ascii(encoded@),
        base64_decoded(encode_utf8(encoded@)) == Some(input@),
{
    base64::encode(input)
}

/// Calls `sha1::Sha1::from(..).digest().bytes()`.  Its result is named by
/// [`sha1_digest`].  The input is kept below 2^61 octets, beyond which the
/// crate's bit count overflows.
#[verifier::external_body]
pub(crate) fn sha1(input: &[u8]) -> (digest: [u8; 20])
    requires
        input@.len() < 0x2000_0000_0000_0000,
    ensures
        digest@ == sha1_digest(input@),
{
    sha1::Sha1::from(input).digest().bytes()
}

/// The `Sec-WebSocket-Accept` value answering the key `key`: the Base64
/// encoding of the SHA-1 digest of the key followed by the salt.
pub open spec fn key_answer(key: Seq<char>) -> Seq<char> {
    base64_encoded(sha1_digest(encode_utf8(key + WEBSOCKET_KEY_SALT@)))
}

/// A key of `length` octets can be decoded and hashed: keys longer than
/// this (which no valid key is) are refused without decoding.
pub open spec fn key_length_ok(length: nat) -> bool {
    length <= usize::MAX - 64 && length < 0x1FFF_FFFF_FFFF_FF00
}

/// Why a key is refused.
pub enum KeyFault {
    Missing,
    NotBase64,
    WrongLength,
}

/// The answer to `key`, or why it is refused: a missing key, a key that is
/// not Base64, or one whose decoding is not 16 octets long.
pub open spec fn key_check(key: Option<Seq<char>>) -> Result<Seq<char>, KeyFault> {
    match key {
        None => Err(KeyFault::Missing),
        Some(k) => if !key_length_ok(encode_utf8(k).len()) {
            Err(KeyFault::WrongLength)
        } else {
            match base64_decoded(encode_utf8(k)) {
            None => Err(KeyFault::NotBase64),
            Some(decoded) => if decoded.len() == REQUIRED_WEBSOCKET_KEY_LENGTH {
                Ok(key_answer(k))
            } else {
                Err(KeyFault::WrongLength)
            },
        }
        },
    }
}

/// The text of an optional key.
pub open spec fn key_text(key: Option<&str>) -> Option<Seq<char>> {
    match key {
        Some(k) => Some(k@),
        None => None,
    }
}

/// `error` is the error by which a refused key is reported.
pub open spec fn reports_key(error: Error, fault: KeyFault) -> bool {
    match fault {
        KeyFault::Missing => error is HandshakeNotProperlyStarted,
        KeyFault::NotBase64 => error is HandshakeKey,
        KeyFault::WrongLength => error is InvalidHandshakeRequest,
    }
}

/// A UTF-8 encoding takes at most four octets per character.
proof fn lemma_encode_utf8_len_bound(a: Seq<char>)
    ensures
        encode_utf8(a).len() <= 4 * a.len(),
    decreases a.len(),
{
    if a.len() > 0 {
        lemma_encode_utf8_len_bound(a.drop_first());
    }
}

/// Computes the `Sec-WebSocket-Accept` value answering `key`.
pub fn compute_key_answer(key: Option<&str>) -> (answer: Result<String, Error>)
    ensures
        match answer {
            Ok(a) => {
                &&& key_check(key_text(key)) == Ok::<Seq<char>, KeyFault>(a@)
                &&& a@.len() == 28
                &&& all_ascii(a@)
            },
            Err(e) => key_check(key_text(key)) matches Err(fault) && reports_key(e, fault),
        },
{
    match key {
        None => Err(Error::HandshakeNotProperlyStarted),
        Some(key) => {
            let key_bytes = key.as_bytes();
            if key_bytes.len() > usize::MAX - 64 || key_bytes.len() as u64
                >= 0x1FFF_FFFF_FFFF_FF00u64 {
                return Err(Error::InvalidHandshakeRequest);
            }
            match base64_decode(key_bytes) {
                Err(e) => Err(Error::HandshakeKey(e)),
                Ok(decoded) => {
                    if decoded.len() != REQUIRED_WEBSOCKET_KEY_LENGTH {
                        return Err(Error::InvalidHandshakeRequest);
                    }
                    let mut salted = String::from_str(key);
                    salted.append(WEBSOCKET_KEY_SALT);
                    let input = salted.as_str().as_bytes();
                    proof {
                        lemma_encode_utf8_concat(key@, WEBSOCKET_KEY_SALT@);
                        lemma_encode_utf8_len_bound(WEBSOCKET_KEY_SALT@);
                        reveal_strlit("258EAFA5-E914-47DA-95CA-C5AB0DC85B11");
                    }
                    let digest = sha1(input);
                    Ok(base64_encode(&digest))
                },
            }
        },
    }
}

} // verus!
