//! The WebSocket frame format (RFC 6455, section 5.2): building frames and
//! decoding the lengths in their headers.

use vstd::prelude::*;
use crate::vec_ext::{VecExt, be_word_bytes, word_byte};

verus! {

/// The bit set in the first octet of a frame that is the final fragment of a
/// message.
pub const FIN: u8 = 0x80;

/// The bit set in the second octet of a frame whose payload is masked, which
/// means a masking key is included.
pub const MASK: u8 = 0x80;

/// The opcode of a continuation frame.
pub const OPCODE_CONTINUATION: u8 = 0x00;

/// The opcode of a text frame.
pub const OPCODE_TEXT: u8 = 0x01;

/// The opcode of a binary frame.
pub const OPCODE_BINARY: u8 = 0x02;

/// The opcode of a close frame.
pub const OPCODE_CLOSE: u8 = 0x08;

/// The opcode of a ping frame.
pub const OPCODE_PING: u8 = 0x09;

/// The opcode of a pong frame.
pub const OPCODE_PONG: u8 = 0x0A;

/// The maximum length of a control frame payload.
pub const MAX_CONTROL_FRAME_DATA_LENGTH: usize = 125;

/// In which direction frame payloads are masked: a client masks what it
/// transmits, a server expects what it receives to be masked.
#[derive(Clone, Copy, Debug, PartialEq, Eq)]
pub enum MaskDirection {
    Transmit,
    Receive,
}

/// Whether the FIN bit is set in a frame being sent.
#[derive(Clone, Copy, Debug, PartialEq, Eq)]
pub enum SetFin {
    Yes,
    No,
}

/// Whether a fragment handed to the WebSocket is the last one of its message.
#[derive(Clone, Copy, Debug, PartialEq, Eq)]
pub enum LastFragment {
    Yes,
    No,
}

/// The first octet of a frame: the FIN flag and the opcode.
pub open spec fn first_octet(fin: bool, opcode: u8) -> u8 {
    (if fin { FIN } else { 0u8 }) | opcode
}

/// The length octets of a frame with a payload of `len` bytes, the first of
/// which also carries `mask_bit`: one octet up to 125, the marker 126 and two
/// octets up to 65535, else the marker 127 and eight octets.
pub open spec fn length_field(len: usize, mask_bit: u8) -> Seq<u8> {
    if len <= 125 {
        seq![(len as u8) | mask_bit]
    } else if len <= 65535 {
        seq![126u8 | mask_bit] + be_word_bytes(len, 2)
    } else {
        seq![127u8 | mask_bit] + be_word_bytes(len, 8)
    }
}

/// `payload` with each byte XORed with the masking key byte at its position
/// modulo four.
pub open spec fn masked_payload(payload: Seq<u8>, key: Seq<u8>) -> Seq<u8> {
    Seq::new(payload.len(), |i: int| payload[i] ^ key[i % 4])
}

/// The complete frame carrying `payload` with the given FIN flag and opcode,
/// masked with `key` when a key is given.
pub open spec fn frame_bytes(fin: bool, opcode: u8, payload: Seq<u8>, key: Option<Seq<u8>>) -> Seq<
    u8,
> {
    match key {
        None => seq![first_octet(fin, opcode)] + length_field(payload.len() as usize, 0) + payload,
        Some(k) => seq![first_octet(fin, opcode)] + length_field(payload.len() as usize, MASK) + k
            + masked_payload(payload, k),
    }
}

/// The key a frame is masked with, for the given direction and candidate key.
pub open spec fn key_for(mask_direction: MaskDirection, key: Seq<u8>) -> Option<Seq<u8>> {
    match mask_direction {
        MaskDirection::Transmit => Some(key),
        MaskDirection::Receive => None,
    }
}

/// A payload length can be written in a length field on this machine: the
/// eight-octet form needs a 64-bit `usize`.
pub open spec fn encodable_length(len: nat) -> bool {
    len <= 65535 || usize::BITS == 64
}

/// Builds the frame for `payload`.  The payload is masked with
/// `masking_key` when the direction is [`MaskDirection::Transmit`]; the key
/// is ignored otherwise.
pub fn encode_frame(
    set_fin: SetFin,
    opcode: u8,
    payload: &[u8],
    mask_direction: MaskDirection,
    masking_key: [u8; 4],
) -> (frame: Vec<u8>)
    requires
        encodable_length(payload@.len()),
    ensures
        frame@ == frame_bytes(
            set_fin == SetFin::Yes,
            opcode,
            payload@,
            key_for(mask_direction, masking_key@),
        ),
{
    let num_payload_bytes = payload.len();
    let mut frame: Vec<u8> = Vec::new();
    let fin_bit = match set_fin {
        SetFin::Yes => FIN,
        SetFin::No => 0,
    };
    frame.push(fin_bit | opcode);
    let mask = match mask_direction {
        MaskDirection::Receive => 0,
        MaskDirection::Transmit => MASK,
    };
    if num_payload_bytes <= 125 {
        frame.push((num_payload_bytes as u8) | mask);
    } else if num_payload_bytes <= 65535 {
        frame.push(126 | mask);
        frame.push_word(num_payload_bytes, 16);
    } else {
        frame.push(127 | mask);
        frame.push_word(num_payload_bytes, 64);
    }
    let ghost header = frame@;
    assert(header =~= seq![first_octet(set_fin == SetFin::Yes, opcode)] + length_field(
        num_payload_bytes,
        mask,
    ));
    if mask == 0 {
        let mut i: usize = 0;
        while i < num_payload_bytes
            invariant
                i <= num_payload_bytes == payload@.len(),
                frame@ =~= header + payload@.take(i as int),
            decreases num_payload_bytes - i,
        {
            frame.push(payload[i]);
            i = i + 1;
        }
        assert(payload@.take(num_payload_bytes as int) =~= payload@);
    } else {
        frame.push(masking_key[0]);
        frame.push(masking_key[1]);
        frame.push(masking_key[2]);
        frame.push(masking_key[3]);
        let ghost keyed = frame@;
        assert(keyed =~= header + masking_key@);
        let mut i: usize = 0;
        while i < num_payload_bytes
            invariant
                i <= num_payload_bytes == payload@.len(),
                frame@ =~= keyed + masked_payload(payload@, masking_key@).take(i as int),
            decreases num_payload_bytes - i,
        {
            frame.push(payload[i] ^ masking_key[i % 4]);
            i = i + 1;
        }
        assert(masked_payload(payload@, masking_key@).take(num_payload_bytes as int)
            =~= masked_payload(payload@, masking_key@));
    }
    frame
}

/// The value of the eight octets `b[0..8]` read as a big-endian number.
pub open spec fn be_u64_value(b: Seq<u8>) -> nat {
    (b[0] as nat) * 0x0100_0000_0000_0000 + (b[1] as nat) * 0x0001_0000_0000_0000 + (b[2] as nat)
        * 0x0000_0100_0000_0000 + (b[3] as nat) * 0x0000_0001_0000_0000 + (b[4] as nat)
        * 0x0000_0000_0100_0000 + (b[5] as nat) * 0x0000_0000_0001_0000 + (b[6] as nat) * 0x0100
        + (b[7] as nat)
}

/// The header length (without a masking key) and the payload length that
/// the start of `frame` announces, or `None` when too few octets have
/// arrived to tell.  `frame` has at least two octets.
pub open spec fn header_payload_lengths(frame: Seq<u8>) -> Option<(nat, nat)> {
    let first = frame[1] & 0x7f;
    if first == 126 {
        if frame.len() < 4 {
            None
        } else {
            Some((4, (frame[2] as nat) * 256 + (frame[3] as nat)))
        }
    } else if first == 127 {
        if frame.len() < 10 {
            None
        } else {
            Some((10, be_u64_value(frame.subrange(2, 10))))
        }
    } else {
        Some((2, first as nat))
    }
}

/// Decodes the header length (not counting a masking key) and the payload
/// length from the start of a frame, or `None` when more octets are needed.
/// An eight-octet payload length is only decoded with a 64-bit `usize`.
pub fn decode_frame_header_payload_lengths(frame: &[u8]) -> (lengths: Option<(usize, usize)>)
    requires
        frame@.len() >= 2,
        (frame@[1] & 0x7f) == 127 && frame@.len() >= 10 ==> usize::BITS == 64,
    ensures
        lengths is None <==> header_payload_lengths(frame@) is None,
        lengths matches Some((h, p)) ==> header_payload_lengths(frame@) == Some(
            (h as nat, p as nat),
        ),
{
    let second = frame[1];
    let first = second & !MASK;
    assert(first == second & 0x7f) by (bit_vector)
        requires
            first == second & !0x80u8,
    ;
    if first == 126 {
        let header_length: usize = 4;
        if frame.len() < header_length {
            None
        } else {
            let payload_length = (frame[2] as usize) * 256 + frame[3] as usize;
            Some((header_length, payload_length))
        }
    } else if first == 127 {
        let header_length: usize = 10;
        if frame.len() < header_length {
            None
        } else {
            let value: u64 = (frame[2] as u64) * 0x0100_0000_0000_0000 + (frame[3] as u64)
                * 0x0001_0000_0000_0000 + (frame[4] as u64) * 0x0000_0100_0000_0000
                + (frame[5] as u64) * 0x0000_0001_0000_0000 + (frame[6] as u64)
                * 0x0000_0000_0100_0000 + (frame[7] as u64) * 0x0000_0000_0001_0000
                + (frame[8] as u64) * 0x0100 + frame[9] as u64;
            assert(value == be_u64_value(frame@.subrange(2, 10)));
            Some((header_length, value as usize))
        }
    } else {
        let header_length: usize = 2;
        let payload_length = first as usize;
        Some((header_length, payload_length))
    }
}

/// The lengths decoded from the start of a frame depend only on the length
/// bits of its second octet and on the length octets that follow, up to the
/// tenth octet: not on the first octet, the MASK bit, or anything after.
pub proof fn theorem_lengths_read_only_length_octets(f: Seq<u8>, g: Seq<u8>)
    requires
        f.len() == g.len(),
        f.len() >= 2,
        f[1] & 0x7f == g[1] & 0x7f,
        f.subrange(2, if f.len() < 10 { f.len() as int } else { 10 }) == g.subrange(
            2,
            if g.len() < 10 { g.len() as int } else { 10 },
        ),
    ensures
        header_payload_lengths(f) == header_payload_lengths(g),
{
    let end: int = if f.len() < 10 { f.len() as int } else { 10 };
    if f.len() >= 4 {
        assert(f[2] == f.subrange(2, end)[0]);
        assert(f[3] == f.subrange(2, end)[1]);
        assert(g[2] == g.subrange(2, end)[0]);
        assert(g[3] == g.subrange(2, end)[1]);
    }
    if f.len() >= 10 {
        assert(f.subrange(2, 10) == g.subrange(2, 10));
    }
}

/// The two octets of a 16-bit length field read back give the length.
pub proof fn lemma_two_octet_length(len: usize)
    requires
        len <= 65535,
    ensures
        (be_word_bytes(len, 2)[0] as nat) * 256 + (be_word_bytes(len, 2)[1] as nat) == len,
{
    let a = word_byte(len, 1);
    let b = word_byte(len, 0);
    assert(be_word_bytes(len, 2)[0] == a);
    assert(be_word_bytes(len, 2)[1] == b);
    assert(a == ((len >> 8usize) & 0xff) as u8);
    assert(b == ((len >> 0usize) & 0xff) as u8);
    assert((a as usize) * 256 + (b as usize) == len) by (bit_vector)
        requires
            a == ((len >> 8usize) & 0xff) as u8,
            b == ((len >> 0usize) & 0xff) as u8,
            len <= 65535,
    ;
}

/// The eight octets of a 64-bit length field read back give the length.
pub proof fn lemma_eight_octet_length(len: usize)
    requires
        usize::BITS == 64,
    ensures
        be_u64_value(be_word_bytes(len, 8)) == len,
{
    let b = be_word_bytes(len, 8);
    assert(b[0] == ((len >> 56usize) & 0xff) as u8);
    assert(b[1] == ((len >> 48usize) & 0xff) as u8);
    assert(b[2] == ((len >> 40usize) & 0xff) as u8);
    assert(b[3] == ((len >> 32usize) & 0xff) as u8);
    assert(b[4] == ((len >> 24usize) & 0xff) as u8);
    assert(b[5] == ((len >> 16usize) & 0xff) as u8);
    assert(b[6] == ((len >> 8usize) & 0xff) as u8);
    assert(b[7] == ((len >> 0usize) & 0xff) as u8);
    assert((((len >> 56usize) & 0xff) as u8) as u64 * 0x0100_0000_0000_0000 + (((len >> 48usize)
        & 0xff) as u8) as u64 * 0x0001_0000_0000_0000 + (((len >> 40usize) & 0xff) as u8) as u64
        * 0x0000_0100_0000_0000 + (((len >> 32usize) & 0xff) as u8) as u64 * 0x0000_0001_0000_0000
        + (((len >> 24usize) & 0xff) as u8) as u64 * 0x0000_0000_0100_0000 + (((len >> 16usize)
        & 0xff) as u8) as u64 * 0x0000_0000_0001_0000 + (((len >> 8usize) & 0xff) as u8) as u64
        * 0x0100 + (((len >> 0usize) & 0xff) as u8) as u64 == len as u64) by (bit_vector)
        requires
            usize::BITS == 64,
    ;
}

/// The length of a frame header without its masking key, for a payload of
/// `len` octets.
pub open spec fn base_header_length(len: nat) -> nat {
    if len <= 125 {
        2
    } else if len <= 65535 {
        4
    } else {
        10
    }
}

/// The length of a frame header, masking key included when `masked`.
pub open spec fn header_length_for(len: nat, masked: bool) -> nat {
    base_header_length(len) + if masked {
        4nat
    } else {
        0nat
    }
}

/// The first octet of a frame carries its FIN flag and opcode, with the
/// reserved bits clear.
pub proof fn lemma_first_octet(fin: bool, opcode: u8)
    requires
        opcode <= 0x0f,
    ensures
        ((first_octet(fin, opcode) & FIN) != 0) == fin,
        first_octet(fin, opcode) & 0x0f == opcode,
        (first_octet(fin, opcode) >> 4u8) & 0x07 == 0,
{
    let f: u8 = if fin {
        0x80
    } else {
        0
    };
    assert(first_octet(fin, opcode) == f | opcode);
    assert((((f | opcode) & 0x80u8) != 0) == (f == 0x80u8) && (f | opcode) & 0x0f == opcode && ((f
        | opcode) >> 4u8) & 0x07 == 0) by (bit_vector)
        requires
            opcode <= 0x0f,
            f == 0x80u8 || f == 0u8,
    ;
}

/// A frame built by [`frame_bytes`], followed by anything, announces its
/// lengths and masking correctly and carries the payload (masked with the
/// key, when there is one) right after its header.
pub proof fn lemma_frame_layout(
    fin: bool,
    opcode: u8,
    payload: Seq<u8>,
    key: Option<Seq<u8>>,
    rest: Seq<u8>,
)
    requires
        opcode <= 0x0f,
        key matches Some(k) ==> k.len() == 4,
        encodable_length(payload.len()),
        payload.len() <= usize::MAX,
    ensures
        ({
            let frame = frame_bytes(fin, opcode, payload, key);
            let buffer = frame + rest;
            let h = header_length_for(payload.len(), key is Some);
            &&& frame.len() == h + payload.len()
            &&& buffer[0] == first_octet(fin, opcode)
            &&& ((buffer[1] & MASK) != 0) == (key is Some)
            &&& header_payload_lengths(buffer) == Some(
                (base_header_length(payload.len()), payload.len()),
            )
            &&& match key {
                None => buffer.subrange(h as int, (h + payload.len()) as int) == payload,
                Some(k) => {
                    &&& buffer.subrange(h - 4, h as int) == k
                    &&& buffer.subrange(h as int, (h + payload.len()) as int) == masked_payload(payload, k)
                },
            }
        }),
{
    let len = payload.len() as usize;
    let mask_bit: u8 = if key is Some {
        MASK
    } else {
        0
    };
    let frame = frame_bytes(fin, opcode, payload, key);
    let buffer = frame + rest;
    let field = length_field(len, mask_bit);
    let h = header_length_for(payload.len(), key is Some);
    let body = match key {
        None => payload,
        Some(k) => k + masked_payload(payload, k),
    };
    assert(frame =~= seq![first_octet(fin, opcode)] + field + body);
    if len <= 125 {
        let lb = len as u8;
        assert(((lb | mask_bit) & 0x7f) == lb && (((lb | mask_bit) & 0x80) != 0) == (mask_bit
            == 0x80u8)) by (bit_vector)
            requires
                lb <= 125,
                mask_bit == 0x80u8 || mask_bit == 0u8,
        ;
        assert(buffer[1] == lb | mask_bit);
    } else {
        let marker: u8 = if len <= 65535 {
            126
        } else {
            127
        };
        assert(((marker | mask_bit) & 0x7f) == marker && (((marker | mask_bit) & 0x80) != 0) == (
        mask_bit == 0x80u8)) by (bit_vector)
            requires
                marker == 126u8 || marker == 127u8,
                mask_bit == 0x80u8 || mask_bit == 0u8,
        ;
        assert(buffer[1] == marker | mask_bit);
        if len <= 65535 {
            lemma_two_octet_length(len);
            assert(buffer[2] == be_word_bytes(len, 2)[0]);
            assert(buffer[3] == be_word_bytes(len, 2)[1]);
        } else {
            lemma_eight_octet_length(len);
            assert(buffer.subrange(2, 10) =~= be_word_bytes(len, 8));
        }
    }
    match key {
        None => {
            assert(buffer.subrange(h as int, (h + payload.len()) as int) =~= payload);
        },
        Some(k) => {
            assert(buffer.subrange(h - 4, h as int) =~= k);
            assert(buffer.subrange(h as int, (h + payload.len()) as int) =~= masked_payload(payload, k));
        },
    }
}

/// Masking twice with the same key gives back the payload.
pub proof fn lemma_unmask(payload: Seq<u8>, key: Seq<u8>)
    requires
        key.len() == 4,
    ensures
        masked_payload(masked_payload(payload, key), key) == payload,
{
    assert forall|i: int| 0 <= i < payload.len() implies #[trigger] masked_payload(
        masked_payload(payload, key),
        key,
    )[i] == payload[i] by {
        let x = payload[i];
        let k = key[i % 4];
        assert((x ^ k) ^ k == x) by (bit_vector);
    }
    assert(masked_payload(masked_payload(payload, key), key) =~= payload);
}

} // verus!
