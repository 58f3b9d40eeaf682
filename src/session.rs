//! What a client session decides around its transport: where outgoing frames
//! are encoded, which targets a send names, and what a receive yields.
use vstd::prelude::*;
use vstd::slice::slice_subrange;

use crate::codec::{build_ovp_frame_optimized, parse_ovp_frame_fast};
use crate::error::OvpError;
use crate::frame::{decoded_payload, encode_outcome, MAX_FRAME_SIZE};

verus! {

/// The reusable buffer that outgoing frames are encoded into: one link frame
/// long, allocated once and never resized.
pub struct SendBuffer {
    bytes: Vec<u8>,
}

impl View for SendBuffer {
    type V = Seq<u8>;

    closed spec fn view(&self) -> Seq<u8> {
        self.bytes@
    }
}

impl SendBuffer {
    /// A zeroed buffer of one link frame.
    pub fn new() -> (r: SendBuffer)
        ensures
            r@ == Seq::new(MAX_FRAME_SIZE as nat, |_i: int| 0u8),
    {
        let mut bytes: Vec<u8> = Vec::with_capacity(MAX_FRAME_SIZE);
        let mut i: usize = 0;
        while i < MAX_FRAME_SIZE
            invariant
                i <= MAX_FRAME_SIZE,
                bytes@ == Seq::new(i as nat, |_i: int| 0u8),
            decreases MAX_FRAME_SIZE - i,
        {
            bytes.push(0u8);
            assert(bytes@ =~= Seq::new((i + 1) as nat, |_i: int| 0u8));
            i = i + 1;
        }
        SendBuffer { bytes }
    }

    /// Number of bytes the buffer holds.
    pub fn capacity(&self) -> (r: usize)
        ensures
            r == self@.len(),
    {
        self.bytes.len()
    }

    /// Encodes the frame that carries `payload` to `targets` at the front of
    /// the buffer and returns its size; `FrameTooLarge`, with the buffer
    /// untouched, when it does not fit.
    pub fn stage(&mut self, targets: &[u64], payload: &[u8]) -> (r: Result<usize, OvpError>)
        ensures
            encode_outcome(old(self)@, targets@, payload@, final(self)@, r),
    {
        build_ovp_frame_optimized(self.bytes.as_mut_slice(), targets, payload)
    }

    /// The first `len` bytes: the frame last staged, when `len` is its size.
    pub fn frame(&self, len: usize) -> (r: &[u8])
        requires
            len <= self@.len(),
        ensures
            r@ == self@.subrange(0, len as int),
    {
        slice_subrange(self.bytes.as_slice(), 0, len)
    }
}

/// The targets a send names: none, a broadcast, when no list is given.
pub fn emit_targets<'a>(neighbours: Option<&'a [u64]>) -> (r: &'a [u64])
    ensures
        r@ == match neighbours {
            Some(t) => t@,
            None => Seq::<u64>::empty(),
        },
{
    match neighbours {
        Some(t) => t,
        None => &[],
    }
}

/// What one receive yields to a session with identity `my_id`: the payload
/// of a received frame addressed to it. A failed receive and a rejected frame
/// both yield nothing, as most traffic on a shared medium is not for us.
pub fn accept_received<'a>(received: Result<&'a [u8], OvpError>, my_id: u64) -> (r: Option<
    &'a [u8],
>)
    ensures
        match received {
            Err(_) => r is None,
            Ok(frame) => match r {
                Some(p) => decoded_payload(frame@, my_id) == Some(p@),
                None => decoded_payload(frame@, my_id) is None,
            },
        },
{
    match received {
        Ok(frame) => parse_ovp_frame_fast(frame, my_id),
        Err(_) => None,
    }
}

} // verus!
