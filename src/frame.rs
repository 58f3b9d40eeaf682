//! The wire format of one frame, its encoder and its decoder.
//!
//! ```text
//! offset 0      magic           u32 little-endian
//! offset 4      target_count    u32 little-endian (N)
//! offset 8      payload_len     u32 little-endian (L)
//! offset 12     targets         N x u64 little-endian
//! offset 12+8N  payload         L bytes
//! ```
use vstd::prelude::*;

use crate::bytes::{lemma_u64_round_trip, read_u32_le, u32_at, u32_le, u64_at, u64_le, write_u32_le};
use crate::error::OvpError;

verus! {

/// Identifier of one participant. Any value is valid.
pub type DroneId = u64;

/// First four bytes of every frame.
pub const OVP_MAGIC: u32 = 0xDEADBEEF;

/// Size of the fixed header: magic, target count and payload length.
pub const HEADER_SIZE: usize = 12;

/// Size of one encoded target.
pub const TARGET_SIZE: usize = 8;

/// Largest frame the link carries (the Ethernet MTU).
pub const MAX_FRAME_SIZE: usize = 1500;

/// Size of a transport's receive buffer, generous to absorb bursts.
pub const RECV_BUFFER_SIZE: usize = 65536;

/// Total encoded size of a frame with `n_targets` targets and `n_payload`
/// payload bytes.
pub open spec fn frame_size(n_targets: int, n_payload: int) -> int {
    12 + 8 * n_targets + n_payload
}

/// Whether such a frame fits a buffer of `capacity` bytes and one link frame.
pub open spec fn frame_fits(n_targets: int, n_payload: int, capacity: int) -> bool {
    frame_size(n_targets, n_payload) <= capacity && frame_size(n_targets, n_payload)
        <= MAX_FRAME_SIZE
}

/// The targets laid out one after the other, eight bytes each.
pub open spec fn targets_le(targets: Seq<u64>) -> Seq<u8>
    decreases targets.len(),
{
    if targets.len() == 0 {
        Seq::empty()
    } else {
        targets_le(targets.drop_last()) + u64_le(targets.last())
    }
}

/// The bytes of the frame that carries `payload` to `targets`.
pub open spec fn encoded_frame(targets: Seq<u64>, payload: Seq<u8>) -> Seq<u8> {
    u32_le(OVP_MAGIC) + u32_le(targets.len() as u32) + u32_le(payload.len() as u32) + targets_le(
        targets,
    ) + payload
}

/// The first `count` targets stored in `frame`.
pub open spec fn frame_targets(frame: Seq<u8>, count: nat) -> Seq<u64> {
    Seq::new(count, |i: int| u64_at(frame, 12 + 8 * i))
}

/// A frame with no targets is a broadcast and reaches everyone; otherwise
/// `id` must be listed.
pub open spec fn addressed_to(targets: Seq<u64>, id: u64) -> bool {
    targets.len() == 0 || targets.contains(id)
}

/// What a receiver with identity `my_id` takes from `frame`: the payload of a
/// well-formed frame addressed to it, or nothing.
pub open spec fn decoded_payload(frame: Seq<u8>, my_id: u64) -> Option<Seq<u8>> {
    if frame.len() < 12 || u32_at(frame, 0) != OVP_MAGIC {
        None
    } else {
        let count = u32_at(frame, 4) as nat;
        let start = 12 + 8 * (count as int);
        let end = start + u32_at(frame, 8) as int;
        if frame.len() < end {
            None
        } else if addressed_to(frame_targets(frame, count), my_id) {
            Some(frame.subrange(start, end))
        } else {
            None
        }
    }
}

/// The state of a buffer before and after an encode of `payload` for
/// `targets`, with its result: on success the frame fills the front of the
/// buffer and the rest is untouched; on failure nothing is written.
pub open spec fn encode_outcome(
    before: Seq<u8>,
    targets: Seq<u64>,
    payload: Seq<u8>,
    after: Seq<u8>,
    r: Result<usize, OvpError>,
) -> bool {
    &&& after.len() == before.len()
    &&& match r {
        Ok(n) => {
            &&& frame_fits(targets.len() as int, payload.len() as int, before.len() as int)
            &&& n == frame_size(targets.len() as int, payload.len() as int)
            &&& after.subrange(0, n as int) == encoded_frame(targets, payload)
            &&& after.subrange(n as int, after.len() as int) == before.subrange(
                n as int,
                before.len() as int,
            )
        },
        Err(e) => {
            &&& e == OvpError::FrameTooLarge
            &&& !frame_fits(targets.len() as int, payload.len() as int, before.len() as int)
            &&& after == before
        },
    }
}

/// The laid-out targets take eight bytes each, in order.
pub proof fn lemma_targets_le(targets: Seq<u64>)
    ensures
        targets_le(targets).len() == 8 * targets.len(),
        forall|i: int|
            0 <= i < targets.len() ==> #[trigger] targets_le(targets).subrange(8 * i, 8 * i + 8)
                == u64_le(targets[i]),
    decreases targets.len(),
{
    if targets.len() > 0 {
        let init = targets.drop_last();
        lemma_targets_le(init);
        lemma_u64_round_trip(targets.last());
        let all = targets_le(targets);
        assert forall|i: int| 0 <= i < targets.len() implies #[trigger] all.subrange(
            8 * i,
            8 * i + 8,
        ) == u64_le(targets[i]) by {
            if i < init.len() {
                assert(all.subrange(8 * i, 8 * i + 8) =~= targets_le(init).subrange(8 * i, 8 * i + 8));
            } else {
                assert(all.subrange(8 * i, 8 * i + 8) =~= u64_le(targets.last()));
            }
        }
    }
}

/// The fixed header of a frame.
#[derive(Clone, Copy, Debug, PartialEq, Eq, Structural)]
pub struct OmegaFrame {
    /// Protocol magic number; `OVP_MAGIC` in a valid frame.
    pub magic: u32,
    /// Number of targets; zero for a broadcast.
    pub target_count: u32,
    /// Number of payload bytes.
    pub payload_len: u32,
}

/// The twelve bytes of a header.
pub open spec fn header_bytes(h: OmegaFrame) -> Seq<u8> {
    u32_le(h.magic) + u32_le(h.target_count) + u32_le(h.payload_len)
}

impl OmegaFrame {
    /// The header of a frame with the given counts.
    pub fn for_message(target_count: u32, payload_len: u32) -> (r: OmegaFrame)
        ensures
            r == (OmegaFrame { magic: OVP_MAGIC, target_count, payload_len }),
    {
        OmegaFrame { magic: OVP_MAGIC, target_count, payload_len }
    }

    /// Reads the header at the front of `frame`; `None` when fewer than
    /// twelve bytes are there.
    pub fn read(frame: &[u8]) -> (r: Option<OmegaFrame>)
        ensures
            r == (if frame@.len() < 12 {
                None
            } else {
                Some(
                    OmegaFrame {
                        magic: u32_at(frame@, 0),
                        target_count: u32_at(frame@, 4),
                        payload_len: u32_at(frame@, 8),
                    },
                )
            }),
    {
        if frame.len() < HEADER_SIZE {
            return None;
        }
        Some(
            OmegaFrame {
                magic: read_u32_le(frame, 0),
                target_count: read_u32_le(frame, 4),
                payload_len: read_u32_le(frame, 8),
            },
        )
    }

    /// Whether the header carries the protocol magic.
    pub fn has_magic(&self) -> (r: bool)
        ensures
            r == (self.magic == OVP_MAGIC),
    {
        self.magic == OVP_MAGIC
    }

    /// Offset where the payload starts: just after the targets.
    pub fn payload_start(&self) -> (r: u64)
        ensures
            r == 12 + 8 * self.target_count,
    {
        12 + 8 * (self.target_count as u64)
    }

    /// Total size of the frame that the header announces.
    pub fn frame_size(&self) -> (r: u64)
        ensures
            r == frame_size(self.target_count as int, self.payload_len as int),
    {
        12 + 8 * (self.target_count as u64) + self.payload_len as u64
    }

    /// Writes the header at the front of `buffer`.
    pub fn write(&self, buffer: &mut [u8])
        requires
            old(buffer)@.len() >= 12,
        ensures
            final(buffer)@.len() == old(buffer)@.len(),
            final(buffer)@.subrange(0, 12) == header_bytes(*self),
            final(buffer)@.subrange(12, final(buffer)@.len() as int) == old(buffer)@.subrange(
                12,
                old(buffer)@.len() as int,
            ),
    {
        write_u32_le(buffer, 0, self.magic);
        write_u32_le(buffer, 4, self.target_count);
        write_u32_le(buffer, 8, self.payload_len);
        assert(buffer@.subrange(0, 12) =~= header_bytes(*self));
        assert(buffer@.subrange(12, buffer@.len() as int) =~= old(buffer)@.subrange(
            12,
            old(buffer)@.len() as int,
        ));
    }
}

} // verus!
