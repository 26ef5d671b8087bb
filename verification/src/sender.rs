//! Turning payloads into frames on the sending side, masking them with
//! fresh random keys where the direction calls for it, and refusing to send
//! anything after a close frame.

use vstd::prelude::*;
use rand::rngs::StdRng;
use crate::close::{NO_STATUS_CODE, close_payload, close_payload_bytes};
use crate::entropy::{fill_random, seeded_rng};
use crate::error::Error;
use crate::frame::{
    MaskDirection, OPCODE_CLOSE, SetFin, encode_frame, encodable_length, frame_bytes, key_for,
};

verus! {

/// A masking key drawn from `rng`.
fn random_masking_key(rng: &mut StdRng) -> (key: [u8; 4]) {
    let mut masking_key = [0u8; 4];
    fill_random(rng, &mut masking_key);
    masking_key
}

/// The state of a [`FrameSender`].
pub struct SenderState {
    pub mask_direction: MaskDirection,
    pub closed: bool,
}

/// Builds the frames sent on one connection.  Once a close frame has been
/// written, or a write has failed, nothing more is sent.
pub struct FrameSender {
    closed: bool,
    mask_direction: MaskDirection,
    rng: StdRng,
}

impl View for FrameSender {
    type V = SenderState;

    closed spec fn view(&self) -> SenderState {
        SenderState { mask_direction: self.mask_direction, closed: self.closed }
    }
}

/// `frame` is the frame for `payload`, masked with some key when the
/// direction calls for masking.
pub open spec fn is_frame_for(
    frame: Seq<u8>,
    mask_direction: MaskDirection,
    fin: bool,
    opcode: u8,
    payload: Seq<u8>,
) -> bool {
    exists|key: Seq<u8>|
        key.len() == 4 && frame == frame_bytes(fin, opcode, payload, key_for(mask_direction, key))
}

impl FrameSender {
    /// A sender that has not closed, with a freshly seeded generator.
    pub fn new(mask_direction: MaskDirection) -> (sender: Self)
        ensures
            sender@ == (SenderState { mask_direction, closed: false }),
    {
        FrameSender { closed: false, mask_direction, rng: seeded_rng() }
    }

    /// Builds the frame to write for `payload`, or refuses with
    /// [`Error::Closed`] when the sender has closed.  When masking, the key
    /// is drawn at random.
    pub fn send_frame(&mut self, set_fin: SetFin, opcode: u8, payload: &[u8]) -> (result: Result<
        Vec<u8>,
        Error,
    >)
        requires
            !old(self)@.closed ==> encodable_length(payload@.len()),
        ensures
            final(self)@ == old(self)@,
            old(self)@.closed ==> result matches Err(Error::Closed),
            !old(self)@.closed ==> (result matches Ok(frame) && is_frame_for(
                frame@,
                old(self)@.mask_direction,
                set_fin == SetFin::Yes,
                opcode,
                payload@,
            )),
    {
        if self.closed {
            return Err(Error::Closed);
        }
        let masking_key = match self.mask_direction {
            MaskDirection::Transmit => random_masking_key(&mut self.rng),
            MaskDirection::Receive => [0u8; 4],
        };
        let frame = encode_frame(set_fin, opcode, payload, self.mask_direction, masking_key);
        assert(masking_key@.len() == 4);
        Ok(frame)
    }

    /// Records the outcome of writing a frame with `opcode`: after a close
    /// frame, or after a failed write, the sender is closed.  Returns whether
    /// it closed just now.
    pub fn frame_written(&mut self, opcode: u8, written: bool) -> (closed_now: bool)
        requires
            !old(self)@.closed,
        ensures
            closed_now == (opcode == OPCODE_CLOSE || !written),
            final(self)@ == (SenderState { closed: closed_now, ..old(self)@ }),
    {
        if opcode == OPCODE_CLOSE || !written {
            self.closed = true;
        }
        self.closed
    }

    /// Builds the close frame for `code` and `reason`; with the code 1005
    /// (no status) the frame has no payload.
    pub fn send_close(&mut self, code: usize, reason: &str) -> (result: Result<Vec<u8>, Error>)
        requires
            !old(self)@.closed && code != NO_STATUS_CODE ==> encodable_length(
                close_payload_bytes(code, reason@).len(),
            ),
        ensures
            final(self)@ == old(self)@,
            old(self)@.closed ==> result matches Err(Error::Closed),
            !old(self)@.closed ==> (result matches Ok(frame) && is_frame_for(
                frame@,
                old(self)@.mask_direction,
                true,
                OPCODE_CLOSE,
                if code == NO_STATUS_CODE {
                    seq![]
                } else {
                    close_payload_bytes(code, reason@)
                },
            )),
    {
        let payload = if code == NO_STATUS_CODE {
            Vec::new()
        } else {
            close_payload(code, reason)
        };
        self.send_frame(SetFin::Yes, OPCODE_CLOSE, payload.as_slice())
    }
}

} // verus!
