//! Finding complete frames in the octets received so far, and handing them
//! to the [`FrameReceiver`].

use vstd::prelude::*;
use crate::error::Error;
use crate::frame::{MASK, decode_frame_header_payload_lengths, header_payload_lengths};
use crate::frame::{
    MaskDirection, base_header_length, encodable_length, frame_bytes, header_length_for,
    key_for, lemma_first_octet, lemma_frame_layout, lemma_unmask,
};
use crate::receiver::{
    FrameFault, FrameReceiver, ReceivedFrame, ReceivedFrameView, ReceiverState, dispatch, frame_payload, receive_step, reports,
};

verus! {

/// The initial number of octets to ask the connection for when more input
/// is needed.
pub const INITIAL_READ_CHUNK_SIZE: usize = 65536;

/// Where the first frame of the received octets stands.
pub enum FrameScan {
    /// More octets must arrive before the frame is complete.
    Incomplete,
    /// The frame is larger than allowed (or than this machine can address).
    TooLarge,
    /// A complete frame with a header of `header_length` octets (masking key
    /// included) and a payload of `payload_length` octets starts the input.
    Complete { header_length: usize, payload_length: usize },
}

/// The mathematical value of a [`FrameScan`].
pub enum FrameScanView {
    Incomplete,
    TooLarge,
    Complete { header_length: nat, payload_length: nat },
}

impl View for FrameScan {
    type V = FrameScanView;

    open spec fn view(&self) -> FrameScanView {
        match self {
            FrameScan::Incomplete => FrameScanView::Incomplete,
            FrameScan::TooLarge => FrameScanView::TooLarge,
            FrameScan::Complete { header_length, payload_length } => FrameScanView::Complete {
                header_length: *header_length as nat,
                payload_length: *payload_length as nat,
            },
        }
    }
}

/// Where the first frame of `buffer` stands, given the largest frame size
/// allowed, if any.  A frame is too large when it exceeds that size, when its
/// length cannot be addressed, or, on machines whose `usize` is narrower than
/// 64 bits, when its length needs the eight-octet form.  While the length is
/// not known yet, the input is too large once it reaches the allowed size.
pub open spec fn scan(buffer: Seq<u8>, max_frame_size: Option<usize>) -> FrameScanView {
    if buffer.len() < 2 {
        FrameScanView::Incomplete
    } else {
        match header_payload_lengths(buffer) {
            Some((base_length, payload_length)) => {
                let header_length = if (buffer[1] & MASK) != 0 {
                    base_length + 4
                } else {
                    base_length
                };
                let frame_length = header_length + payload_length;
                if base_length == 10 && usize::BITS != 64 {
                    FrameScanView::TooLarge
                } else if frame_length > usize::MAX {
                    FrameScanView::TooLarge
                } else if max_frame_size matches Some(max) && frame_length > max {
                    FrameScanView::TooLarge
                } else if buffer.len() < frame_length {
                    FrameScanView::Incomplete
                } else {
                    FrameScanView::Complete {
                        header_length: header_length as nat,
                        payload_length: payload_length,
                    }
                }
            },
            None => {
                if max_frame_size matches Some(max) && buffer.len() >= max {
                    FrameScanView::TooLarge
                } else {
                    FrameScanView::Incomplete
                }
            },
        }
    }
}

/// Finds where the first frame of `buffer` stands.
pub fn scan_frame(buffer: &[u8], max_frame_size: Option<usize>) -> (found: FrameScan)
    ensures
        found@ == scan(buffer@, max_frame_size),
{
    if buffer.len() < 2 {
        return FrameScan::Incomplete;
    }
    let second = buffer[1];
    if (second & 0x7f) == 127 && buffer.len() >= 10 && usize::BITS != 64 {
        return FrameScan::TooLarge;
    }
    match decode_frame_header_payload_lengths(buffer) {
        Some((base_length, payload_length)) => {
            let header_length = if (second & MASK) != 0 {
                base_length + 4
            } else {
                base_length
            };
            match header_length.checked_add(payload_length) {
                None => FrameScan::TooLarge,
                Some(frame_length) => {
                    if let Some(max) = max_frame_size {
                        if frame_length > max {
                            return FrameScan::TooLarge;
                        }
                    }
                    if buffer.len() < frame_length {
                        FrameScan::Incomplete
                    } else {
                        FrameScan::Complete { header_length, payload_length }
                    }
                },
            }
        },
        None => {
            if let Some(max) = max_frame_size {
                if buffer.len() >= max {
                    return FrameScan::TooLarge;
                }
            }
            FrameScan::Incomplete
        },
    }
}

/// The state of a [`FrameReader`].
pub struct ReaderState {
    pub receiver: ReceiverState,
    pub buffer: Seq<u8>,
    pub need_more_input: bool,
    pub read_chunk_size: usize,
    pub max_frame_size: Option<usize>,
    pub close_received: bool,
}

/// Collects the octets received on a connection and turns them into frames,
/// one at a time.  Reading from the connection is left to the caller, who
/// asks [`FrameReader::wanted_input`] whether to read and hands what arrives
/// to [`FrameReader::bytes_received`].
pub struct FrameReader {
    receiver: FrameReceiver,
    frame_reassembly_buffer: Vec<u8>,
    need_more_input: bool,
    read_chunk_size: usize,
    max_frame_size: Option<usize>,
    close_received: bool,
}

impl View for FrameReader {
    type V = ReaderState;

    closed spec fn view(&self) -> ReaderState {
        ReaderState {
            receiver: self.receiver@,
            buffer: self.frame_reassembly_buffer@,
            need_more_input: self.need_more_input,
            read_chunk_size: self.read_chunk_size,
            max_frame_size: self.max_frame_size,
            close_received: self.close_received,
        }
    }
}

impl FrameReader {
    /// A reader with nothing received yet, which wants input first.
    pub fn new(mask_direction: MaskDirection, max_frame_size: Option<usize>) -> (reader: Self)
        ensures
            reader@ == (ReaderState {
                receiver: ReceiverState {
                    mask_direction,
                    in_progress: crate::message::MessageInProgress::Idle,
                    buffer: seq![],
                },
                buffer: seq![],
                need_more_input: true,
                read_chunk_size: INITIAL_READ_CHUNK_SIZE,
                max_frame_size,
                close_received: false,
            }),
    {
        FrameReader {
            receiver: FrameReceiver::new(mask_direction),
            frame_reassembly_buffer: Vec::new(),
            need_more_input: true,
            read_chunk_size: INITIAL_READ_CHUNK_SIZE,
            max_frame_size,
            close_received: false,
        }
    }

    /// How many octets to try to read from the connection before the next
    /// call of [`FrameReader::receive_next`], or `None` when the octets
    /// already received should be looked at first.
    pub fn wanted_input(&self) -> (wanted: Option<usize>)
        ensures
            wanted == (if self@.need_more_input {
                Some(self@.read_chunk_size)
            } else {
                None::<usize>
            }),
    {
        if self.need_more_input {
            Some(self.read_chunk_size)
        } else {
            None
        }
    }

    /// Takes in octets read from the connection.  Until a frame completes,
    /// each read asks for twice as many octets as the one before.  A read
    /// that delivered nothing means that the peer closed the connection:
    /// it is refused with [`Error::ConnectionClosed`] and changes nothing.
    pub fn bytes_received(&mut self, data: &[u8]) -> (result: Result<(), Error>)
        ensures
            data@.len() == 0 ==> (result matches Err(Error::ConnectionClosed) && final(self)@
                == old(self)@),
            data@.len() > 0 ==> result is Ok && final(self)@ == (ReaderState {
                buffer: old(self)@.buffer + data@,
                read_chunk_size: if old(self)@.read_chunk_size <= usize::MAX / 2 {
                    (old(self)@.read_chunk_size * 2) as usize
                } else {
                    usize::MAX
                },
                ..old(self)@
            }),
    {
        if data.len() == 0 {
            return Err(Error::ConnectionClosed);
        }
        let mut i: usize = 0;
        let ghost start = self.frame_reassembly_buffer@;
        while i < data.len()
            invariant
                i <= data@.len(),
                self.frame_reassembly_buffer@ =~= start + data@.take(i as int),
                self.receiver == old(self).receiver,
                self.need_more_input == old(self).need_more_input,
                self.read_chunk_size == old(self).read_chunk_size,
                self.max_frame_size == old(self).max_frame_size,
                self.close_received == old(self).close_received,
            decreases data@.len() - i,
        {
            self.frame_reassembly_buffer.push(data[i]);
            i = i + 1;
        }
        assert(data@.take(data@.len() as int) =~= data@);
        self.read_chunk_size = if self.read_chunk_size <= usize::MAX / 2 {
            self.read_chunk_size * 2
        } else {
            usize::MAX
        };
        Ok(())
    }

    /// Looks for one complete frame in the octets received so far and takes
    /// it in.  Returns `Ok(None)` when more input is needed first.  A frame
    /// that is taken in is removed from the octets received, after which the
    /// next call looks at the rest before wanting more input.  Once a close
    /// frame has been taken in, nothing more is: every later call returns
    /// `Ok(None)` and changes nothing.
    pub fn receive_next(&mut self) -> (result: Result<Option<ReceivedFrame>, Error>)
        ensures
            ({
                let before = old(self)@;
                let after = final(self)@;
                if before.close_received {
                    result matches Ok(None) && after == before
                } else {
                match scan(before.buffer, before.max_frame_size) {
                    FrameScanView::Incomplete => result matches Ok(None) && after == ReaderState {
                        need_more_input: true,
                        ..before
                    },
                    FrameScanView::TooLarge => result matches Err(Error::FramePayloadTooLarge)
                        && after == ReaderState { need_more_input: true, ..before },
                    FrameScanView::Complete { header_length, payload_length } => {
                        let frame_length = header_length + payload_length;
                        let step = receive_step(
                            before.receiver,
                            before.buffer.take(frame_length as int),
                            header_length,
                            payload_length,
                        );
                        &&& after.receiver == step.1
                        &&& after.max_frame_size == before.max_frame_size
                        &&& match result {
                            Ok(Some(outcome)) => {
                                &&& step.0 == Ok::<_, crate::receiver::FrameFault>(outcome@)
                                &&& after.close_received == (outcome is Close)
                                &&& after.buffer == before.buffer.skip(frame_length as int)
                                &&& !after.need_more_input
                                &&& after.read_chunk_size == INITIAL_READ_CHUNK_SIZE
                            },
                            Ok(None) => false,
                            Err(e) => {
                                &&& step.0 matches Err(fault) && reports(e, fault)
                                &&& after.buffer == before.buffer
                                &&& after.need_more_input
                                &&& after.read_chunk_size == before.read_chunk_size
                                &&& after.close_received == before.close_received
                            },
                        }
                    },
                }
                }
            }),
    {
        if self.close_received {
            return Ok(None);
        }
        self.need_more_input = true;
        match scan_frame(self.frame_reassembly_buffer.as_slice(), self.max_frame_size) {
            FrameScan::Incomplete => Ok(None),
            FrameScan::TooLarge => Err(Error::FramePayloadTooLarge),
            FrameScan::Complete { header_length, payload_length } => {
                let frame_length = header_length + payload_length;
                let received = self.receiver.receive_frame(
                    &self.frame_reassembly_buffer.as_slice()[0..frame_length],
                    header_length,
                    payload_length,
                );
                match received {
                    Ok(outcome) => {
                        let rest = self.frame_reassembly_buffer.split_off(frame_length);
                        self.frame_reassembly_buffer = rest;
                        self.need_more_input = false;
                        self.read_chunk_size = INITIAL_READ_CHUNK_SIZE;
                        self.close_received = match outcome {
                            ReceivedFrame::Close { .. } => true,
                            _ => false,
                        };
                        Ok(Some(outcome))
                    },
                    Err(e) => Err(e),
                }
            },
        }
    }
}

/// The direction in which the other end of a connection masks: a client
/// masks what it transmits, so its server expects what it receives to be
/// masked, and the other way around.
pub open spec fn peer_direction(mask_direction: MaskDirection) -> MaskDirection {
    match mask_direction {
        MaskDirection::Transmit => MaskDirection::Receive,
        MaskDirection::Receive => MaskDirection::Transmit,
    }
}

/// A frame built by one end of a connection, however it is masked and
/// whatever follows it, is found whole by the reader at the other end, is
/// received as exactly the FIN flag, opcode and payload that were sent, and
/// leaves what follows it for the next frame.
pub proof fn theorem_sent_frame_received(
    receiver: ReceiverState,
    sender: MaskDirection,
    fin: bool,
    opcode: u8,
    payload: Seq<u8>,
    key: Seq<u8>,
    rest: Seq<u8>,
    max_frame_size: Option<usize>,
)
    requires
        opcode <= 0x0f,
        key.len() == 4,
        encodable_length(payload.len()),
        header_length_for(payload.len(), sender == MaskDirection::Transmit) + payload.len()
            <= usize::MAX,
        max_frame_size matches Some(max) ==> header_length_for(
            payload.len(),
            sender == MaskDirection::Transmit,
        ) + payload.len() <= max,
        receiver.mask_direction == peer_direction(sender),
    ensures
        ({
            let buffer = frame_bytes(fin, opcode, payload, key_for(sender, key)) + rest;
            let h = header_length_for(payload.len(), sender == MaskDirection::Transmit);
            let frame_length = h + payload.len();
            &&& scan(buffer, max_frame_size) == FrameScanView::Complete {
                header_length: h,
                payload_length: payload.len(),
            }
            &&& receive_step(receiver, buffer.take(frame_length as int), h, payload.len())
                == dispatch(receiver, fin, opcode, payload)
            &&& buffer.skip(frame_length as int) == rest
        }),
{
    let masked = sender == MaskDirection::Transmit;
    let k = key_for(sender, key);
    let frame = frame_bytes(fin, opcode, payload, k);
    let buffer = frame + rest;
    let h = header_length_for(payload.len(), masked);
    let frame_length = h + payload.len();
    lemma_frame_layout(fin, opcode, payload, k, rest);
    lemma_first_octet(fin, opcode);
    if base_header_length(payload.len()) == 10 {
        assert(payload.len() > 65535);
    }
    let taken = buffer.take(frame_length as int);
    assert(taken[0] == buffer[0]);
    assert(taken[1] == buffer[1]);
    assert(taken.subrange(h as int, frame_length as int) =~= buffer.subrange(
        h as int,
        frame_length as int,
    ));
    if masked {
        assert(taken.subrange(h - 4, h as int) =~= buffer.subrange(h - 4, h as int));
        lemma_unmask(payload, key);
    }
    assert(frame_payload(taken, h, payload.len()) == payload);
    assert(buffer.skip(frame_length as int) =~= rest);
}


/// How a run of taking in frames stops.
pub enum ReadStop {
    /// More octets must arrive.
    NeedInput,
    /// The next frame is larger than allowed.
    TooLarge,
    /// The next frame violates the protocol.
    Fault(FrameFault),
    /// A close frame was taken in; nothing after it is looked at.
    CloseReceived,
}

/// A complete frame at the start of `buffer` has a header of at least two
/// octets and lies within `buffer`.
pub proof fn lemma_complete_within(buffer: Seq<u8>, max_frame_size: Option<usize>)
    ensures
        scan(buffer, max_frame_size) matches FrameScanView::Complete {
            header_length,
            payload_length,
        } ==> 2 <= header_length && header_length + payload_length <= buffer.len(),
{
}

/// What [`FrameReader::receive_next`], called again and again on the octets
/// `buffer`, takes in: the outcomes of the frames taken in, in order, how
/// the run stops, and the reassembly state and the octets left afterwards.
pub open spec fn drain(receiver: ReceiverState, buffer: Seq<u8>, max_frame_size: Option<usize>) -> (
    Seq<ReceivedFrameView>,
    ReadStop,
    ReceiverState,
    Seq<u8>,
)
    decreases buffer.len(),
{
    match scan(buffer, max_frame_size) {
        FrameScanView::Incomplete => (seq![], ReadStop::NeedInput, receiver, buffer),
        FrameScanView::TooLarge => (seq![], ReadStop::TooLarge, receiver, buffer),
        FrameScanView::Complete { header_length, payload_length } => {
            let n = header_length + payload_length;
            let step = receive_step(receiver, buffer.take(n as int), header_length, payload_length);
            match step.0 {
                Err(fault) => (seq![], ReadStop::Fault(fault), step.1, buffer),
                Ok(outcome) => if outcome is Close {
                    (seq![outcome], ReadStop::CloseReceived, step.1, buffer.skip(n as int))
                } else {
                    proof {
                        lemma_complete_within(buffer, max_frame_size);
                    }
                    let rest = drain(step.1, buffer.skip(n as int), max_frame_size);
                    (seq![outcome] + rest.0, rest.1, rest.2, rest.3)
                },
            }
        },
    }
}

/// Where the first frame of some octets stands is settled once it is known:
/// more octets after them change nothing, and a complete frame stays the
/// same frame, followed by the rest and the new octets.
proof fn lemma_scan_extend(x: Seq<u8>, y: Seq<u8>, max_frame_size: Option<usize>)
    requires
        !(scan(x, max_frame_size) is Incomplete),
    ensures
        scan(x + y, max_frame_size) == scan(x, max_frame_size),
        scan(x, max_frame_size) matches FrameScanView::Complete { header_length, payload_length }
            ==> {
            let n = header_length + payload_length;
            &&& (x + y).take(n as int) == x.take(n as int)
            &&& (x + y).skip(n as int) == x.skip(n as int) + y
        },
{
    let xy = x + y;
    assert(xy[1] == x[1]);
    if x.len() >= 4 {
        assert(xy[2] == x[2]);
        assert(xy[3] == x[3]);
    }
    if x.len() >= 10 {
        assert(xy.subrange(2, 10) =~= x.subrange(2, 10));
    }
    if let FrameScanView::Complete { header_length, payload_length } = scan(x, max_frame_size) {
        let n = header_length + payload_length;
        assert(xy.take(n as int) =~= x.take(n as int));
        assert(xy.skip(n as int) =~= x.skip(n as int) + y);
    }
}

/// The frames taken in do not depend on how the octets were split into
/// reads: reading `a` and taking in frames until more input is needed, then
/// reading `b` and going on, takes in exactly what reading `a` and `b`
/// together does, and stops in the same way.  A run that stops before
/// needing more input (too large a frame, a violation, a close) stops at
/// the same point whatever arrives after.
pub proof fn theorem_reads_split_anywhere(
    receiver: ReceiverState,
    a: Seq<u8>,
    b: Seq<u8>,
    max_frame_size: Option<usize>,
)
    ensures
        ({
            let first = drain(receiver, a, max_frame_size);
            let whole = drain(receiver, a + b, max_frame_size);
            &&& first.1 is NeedInput ==> {
                let second = drain(first.2, first.3 + b, max_frame_size);
                whole == (first.0 + second.0, second.1, second.2, second.3)
            }
            &&& !(first.1 is NeedInput) ==> whole == (first.0, first.1, first.2, first.3 + b)
        }),
    decreases a.len(),
{
    let first = drain(receiver, a, max_frame_size);
    let whole = drain(receiver, a + b, max_frame_size);
    match scan(a, max_frame_size) {
        FrameScanView::Incomplete => {
            assert(first.0 =~= seq![]);
            assert(first.0 + whole.0 =~= whole.0);
        },
        FrameScanView::TooLarge => {
            lemma_scan_extend(a, b, max_frame_size);
        },
        FrameScanView::Complete { header_length, payload_length } => {
            lemma_scan_extend(a, b, max_frame_size);
            lemma_complete_within(a, max_frame_size);
            let n = header_length + payload_length;
            let step = receive_step(receiver, a.take(n as int), header_length, payload_length);
            match step.0 {
                Err(fault) => {},
                Ok(outcome) => {
                    if !(outcome is Close) {
                        let rest = a.skip(n as int);
                        theorem_reads_split_anywhere(step.1, rest, b, max_frame_size);
                        let r1 = drain(step.1, rest, max_frame_size);
                        let r2 = drain(step.1, rest + b, max_frame_size);
                        assert(whole.0 == seq![outcome] + r2.0);
                        assert(first.0 == seq![outcome] + r1.0);
                        if r1.1 is NeedInput {
                            let second = drain(r1.2, r1.3 + b, max_frame_size);
                            assert(seq![outcome] + (r1.0 + second.0) =~= (seq![outcome] + r1.0)
                                + second.0);
                        }
                    }
                },
            }
        },
    }
}


/// A pong frame that the other end builds, masked as its direction calls
/// for with any key, is received as exactly a pong message carrying the
/// payload sent, whatever the payload (an empty one included), and leaves
/// the reassembly as it was.
pub proof fn theorem_pong_frame_received(
    receiver: ReceiverState,
    sender: MaskDirection,
    payload: Seq<u8>,
    key: Seq<u8>,
)
    requires
        payload.len() <= 125,
        key.len() == 4,
        receiver.mask_direction == peer_direction(sender),
    ensures
        ({
            let frame = frame_bytes(true, crate::frame::OPCODE_PONG, payload, key_for(sender, key));
            let h = header_length_for(payload.len(), sender == MaskDirection::Transmit);
            &&& frame.len() == h + payload.len()
            &&& receive_step(receiver, frame, h, payload.len()) == (
                Ok::<ReceivedFrameView, FrameFault>(
                    ReceivedFrameView::Message(crate::message::MessageView::Pong(payload)),
                ),
                receiver,
            )
        }),
{
    let frame = frame_bytes(true, crate::frame::OPCODE_PONG, payload, key_for(sender, key));
    let h = header_length_for(payload.len(), sender == MaskDirection::Transmit);
    let empty = Seq::<u8>::empty();
    lemma_frame_layout(true, crate::frame::OPCODE_PONG, payload, key_for(sender, key), empty);
    theorem_sent_frame_received(
        receiver,
        sender,
        true,
        crate::frame::OPCODE_PONG,
        payload,
        key,
        empty,
        None,
    );
    assert((frame + empty).take((h + payload.len()) as int) =~= frame);
    crate::receiver::theorem_pong_delivered(receiver, payload);
}

} // verus!
