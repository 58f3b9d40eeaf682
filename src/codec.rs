//! Encoding into a caller-owned buffer and decoding in place, with no
//! allocation on either path.
use vstd::prelude::*;
use vstd::slice::slice_subrange;

use crate::bytes::{read_u64_le, u32_at, u64_le, write_u64_le};
use crate::error::OvpError;
use crate::frame::{
    decoded_payload, encode_outcome, encoded_frame, frame_size, frame_targets, header_bytes,
    targets_le, OmegaFrame, HEADER_SIZE, MAX_FRAME_SIZE, OVP_MAGIC, TARGET_SIZE,
};

verus! {

/// Encodes the frame that carries `payload` to `targets` (none: broadcast)
/// at the front of `buffer` and returns its size. Fails with `FrameTooLarge`,
/// writing nothing, when the frame would exceed the buffer or one link frame.
pub fn build_ovp_frame_optimized(buffer: &mut [u8], targets: &[u64], payload: &[u8]) -> (r: Result<
    usize,
    OvpError,
>)
    ensures
        encode_outcome(old(buffer)@, targets@, payload@, final(buffer)@, r),
{
    if targets.len() > MAX_FRAME_SIZE || payload.len() > MAX_FRAME_SIZE {
        return Err(OvpError::FrameTooLarge);
    }
    let total: usize = HEADER_SIZE + TARGET_SIZE * targets.len() + payload.len();
    if total > buffer.len() || total > MAX_FRAME_SIZE {
        return Err(OvpError::FrameTooLarge);
    }
    let header = OmegaFrame::for_message(targets.len() as u32, payload.len() as u32);
    header.write(buffer);
    let ghost head = header_bytes(header);
    assert(buffer@.subrange(total as int, buffer@.len() as int) =~= old(buffer)@.subrange(
        total as int,
        old(buffer)@.len() as int,
    )) by {
        assert forall|k: int| total <= k < buffer@.len() implies buffer@[k] == old(buffer)@[k] by {
            assert(buffer@[k] == buffer@.subrange(12, buffer@.len() as int)[k - 12]);
        }
    }
    let mut offset: usize = HEADER_SIZE;
    let mut i: usize = 0;
    while i < targets.len()
        invariant
            i <= targets@.len(),
            offset == 12 + 8 * i,
            total == frame_size(targets@.len() as int, payload@.len() as int),
            total <= buffer@.len(),
            buffer@.len() == old(buffer)@.len(),
            buffer@.subrange(0, offset as int) == head + targets_le(targets@.take(i as int)),
            buffer@.subrange(total as int, buffer@.len() as int) == old(buffer)@.subrange(
                total as int,
                old(buffer)@.len() as int,
            ),
        decreases targets@.len() - i,
    {
        let ghost before = buffer@;
        write_u64_le(buffer, offset, targets[i]);
        proof {
            assert(targets@.take(i + 1).drop_last() =~= targets@.take(i as int));
            assert(buffer@.subrange(0, offset + 8) =~= before.subrange(0, offset as int)
                + u64_le(targets@[i as int]));
            assert(buffer@.subrange(total as int, buffer@.len() as int) =~= before.subrange(
                total as int,
                before.len() as int,
            ));
        }
        i = i + 1;
        offset = offset + TARGET_SIZE;
    }
    assert(targets@.take(targets@.len() as int) =~= targets@);
    let mut j: usize = 0;
    while j < payload.len()
        invariant
            j <= payload@.len(),
            offset == 12 + 8 * targets@.len(),
            total == offset + payload@.len(),
            total <= buffer@.len(),
            buffer@.len() == old(buffer)@.len(),
            buffer@.subrange(0, offset + j) == head + targets_le(targets@) + payload@.take(
                j as int,
            ),
            buffer@.subrange(total as int, buffer@.len() as int) == old(buffer)@.subrange(
                total as int,
                old(buffer)@.len() as int,
            ),
        decreases payload@.len() - j,
    {
        let ghost before = buffer@;
        buffer[offset + j] = payload[j];
        proof {
            assert(buffer@.subrange(0, offset + j + 1) =~= before.subrange(0, offset + j).push(
                payload@[j as int],
            ));
            assert(payload@.take(j + 1) =~= payload@.take(j as int).push(payload@[j as int]));
            assert(buffer@.subrange(total as int, buffer@.len() as int) =~= before.subrange(
                total as int,
                before.len() as int,
            ));
        }
        j = j + 1;
    }
    assert(payload@.take(payload@.len() as int) =~= payload@);
    assert(buffer@.subrange(0, total as int) =~= encoded_frame(targets@, payload@));
    Ok(total)
}

/// Decodes `frame` in place for the receiver `my_id`: the payload slice of a
/// well-formed frame that is a broadcast or lists `my_id`, else `None`.
/// Every length field is checked against the buffer before any other read.
pub fn parse_ovp_frame_fast<'a>(frame: &'a [u8], my_id: u64) -> (r: Option<&'a [u8]>)
    ensures
        match r {
            Some(p) => decoded_payload(frame@, my_id) == Some(p@),
            None => decoded_payload(frame@, my_id) is None,
        },
{
    let header = match OmegaFrame::read(frame) {
        Some(h) => h,
        None => return None,
    };
    if !header.has_magic() {
        return None;
    }
    let end = header.frame_size();
    if (frame.len() as u64) < end {
        return None;
    }
    let count = header.target_count as usize;
    let start = header.payload_start() as usize;
    let end = end as usize;
    let ghost targets = frame_targets(frame@, count as nat);
    if count == 0 {
        return Some(slice_subrange(frame, start, end));
    }
    let mut i: usize = 0;
    while i < count
        invariant
            i <= count,
            count == targets.len(),
            frame@.len() >= 12,
            u32_at(frame@, 0) == OVP_MAGIC,
            count == u32_at(frame@, 4),
            start == 12 + 8 * count,
            end == start + u32_at(frame@, 8),
            end <= frame@.len(),
            targets == frame_targets(frame@, count as nat),
            forall|k: int| 0 <= k < i ==> targets[k] != my_id,
        decreases count - i,
    {
        if read_u64_le(frame, HEADER_SIZE + TARGET_SIZE * i) == my_id {
            assert(targets[i as int] == my_id);
            assert(targets.contains(my_id));
            return Some(slice_subrange(frame, start, end));
        }
        i = i + 1;
    }
    assert(!targets.contains(my_id));
    None
}

} // verus!
