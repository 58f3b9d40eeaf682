//! Encoding to, and decoding into, freshly allocated vectors. Same wire format
//! as the in-place codec, for callers that want to own the bytes.
use vstd::prelude::*;
use vstd::slice::{slice_subrange, slice_to_vec};

use crate::bytes::{read_u32_le, read_u64_le, u32_at, u32_le, u64_le};
use crate::frame::{
    decoded_payload, encoded_frame, frame_targets, targets_le, HEADER_SIZE, OVP_MAGIC, TARGET_SIZE,
};

verus! {

/// Appends the four little-endian bytes of `x`.
fn push_u32_le(v: &mut Vec<u8>, x: u32)
    ensures
        final(v)@ == old(v)@ + u32_le(x),
{
    v.push((x & 0xff) as u8);
    v.push(((x >> 8) & 0xff) as u8);
    v.push(((x >> 16) & 0xff) as u8);
    v.push(((x >> 24) & 0xff) as u8);
    assert(v@ =~= old(v)@ + u32_le(x));
}

/// Appends the eight little-endian bytes of `x`.
fn push_u64_le(v: &mut Vec<u8>, x: u64)
    ensures
        final(v)@ == old(v)@ + u64_le(x),
{
    v.push((x & 0xff) as u8);
    v.push(((x >> 8) & 0xff) as u8);
    v.push(((x >> 16) & 0xff) as u8);
    v.push(((x >> 24) & 0xff) as u8);
    v.push(((x >> 32) & 0xff) as u8);
    v.push(((x >> 40) & 0xff) as u8);
    v.push(((x >> 48) & 0xff) as u8);
    v.push(((x >> 56) & 0xff) as u8);
    assert(v@ =~= old(v)@ + u64_le(x));
}

/// The frame that carries `payload` to `targets` (none: broadcast), in a new
/// vector. The counts must fit the header's 32-bit fields.
pub fn build_ovp_frame(targets: &[u64], payload: &[u8]) -> (r: Vec<u8>)
    requires
        targets@.len() <= u32::MAX,
        payload@.len() <= u32::MAX,
    ensures
        r@ == encoded_frame(targets@, payload@),
{
    let mut frame: Vec<u8> = Vec::new();
    push_u32_le(&mut frame, OVP_MAGIC);
    push_u32_le(&mut frame, targets.len() as u32);
    push_u32_le(&mut frame, payload.len() as u32);
    let ghost head = frame@;
    let mut i: usize = 0;
    while i < targets.len()
        invariant
            i <= targets@.len(),
            frame@ == head + targets_le(targets@.take(i as int)),
        decreases targets@.len() - i,
    {
        push_u64_le(&mut frame, targets[i]);
        assert(targets@.take(i + 1).drop_last() =~= targets@.take(i as int));
        assert(frame@ =~= head + targets_le(targets@.take(i + 1)));
        i = i + 1;
    }
    assert(targets@.take(targets@.len() as int) =~= targets@);
    let ghost mid = frame@;
    let mut j: usize = 0;
    while j < payload.len()
        invariant
            j <= payload@.len(),
            frame@ == mid + payload@.take(j as int),
        decreases payload@.len() - j,
    {
        frame.push(payload[j]);
        assert(payload@.take(j + 1) =~= payload@.take(j as int).push(payload@[j as int]));
        assert(frame@ =~= mid + payload@.take(j + 1));
        j = j + 1;
    }
    assert(payload@.take(payload@.len() as int) =~= payload@);
    assert(frame@ =~= encoded_frame(targets@, payload@));
    frame
}

/// The same frame as `build_ovp_frame`, under the name older callers use.
pub fn build_ovp_frame_old(targets: &[u64], payload: &[u8]) -> (r: Vec<u8>)
    requires
        targets@.len() <= u32::MAX,
        payload@.len() <= u32::MAX,
    ensures
        r@ == encoded_frame(targets@, payload@),
{
    build_ovp_frame(targets, payload)
}

/// Decodes `frame` for the receiver `my_id` and copies the payload out: the
/// payload of a well-formed frame that is a broadcast or lists `my_id`, else
/// `None`. The whole target list is scanned before deciding.
pub fn parse_ovp_frame(frame: &[u8], my_id: u64) -> (r: Option<Vec<u8>>)
    ensures
        match r {
            Some(p) => decoded_payload(frame@, my_id) == Some(p@),
            None => decoded_payload(frame@, my_id) is None,
        },
{
    if frame.len() < HEADER_SIZE {
        return None;
    }
    let magic = read_u32_le(frame, 0);
    if magic != OVP_MAGIC {
        return None;
    }
    let target_count = read_u32_le(frame, 4) as usize;
    let payload_len = read_u32_le(frame, 8) as usize;
    if ((frame.len() - HEADER_SIZE) / TARGET_SIZE) < target_count {
        return None;
    }
    let payload_start = HEADER_SIZE + TARGET_SIZE * target_count;
    if frame.len() - payload_start < payload_len {
        return None;
    }
    let payload_end = payload_start + payload_len;
    let ghost targets = frame_targets(frame@, target_count as nat);
    if target_count > 0 {
        let mut found = false;
        let mut i: usize = 0;
        while i < target_count
            invariant
                i <= target_count,
                target_count == targets.len(),
                payload_start == 12 + 8 * target_count,
                payload_start <= frame@.len(),
                targets == frame_targets(frame@, target_count as nat),
                found ==> targets.contains(my_id),
                !found ==> forall|k: int| 0 <= k < i ==> targets[k] != my_id,
            ensures
                found ==> targets.contains(my_id),
                !found ==> forall|k: int| 0 <= k < target_count ==> targets[k] != my_id,
            decreases target_count - i,
        {
            let offset = HEADER_SIZE + TARGET_SIZE * i;
            let target_id = read_u64_le(frame, offset);
            if target_id == my_id {
                assert(targets[i as int] == my_id);
                found = true;
                break;
            }
            i = i + 1;
        }
        if !found {
            assert(!targets.contains(my_id));
            return None;
        }
    }
    assert(u32_at(frame@, 4) == target_count && u32_at(frame@, 8) == payload_len);
    Some(slice_to_vec(slice_subrange(frame, payload_start, payload_end)))
}

/// The same decoding as `parse_ovp_frame`, under the name older callers use.
pub fn parse_ovp_frame_old(frame: &[u8], my_id: u64) -> (r: Option<Vec<u8>>)
    ensures
        match r {
            Some(p) => decoded_payload(frame@, my_id) == Some(p@),
            None => decoded_payload(frame@, my_id) is None,
        },
{
    parse_ovp_frame(frame, my_id)
}

} // verus!
