//! What holds of the encoder and decoder together, over every input.
use vstd::prelude::*;

use crate::bytes::{
    lemma_u32_at_window, lemma_u32_round_trip, lemma_u64_at_window, lemma_u64_round_trip, u32_at,
    u32_le, u64_le,
};
use crate::error::OvpError;
use crate::frame::{
    decoded_payload, encode_outcome, encoded_frame, frame_size, frame_targets, lemma_targets_le,
    targets_le, MAX_FRAME_SIZE, OVP_MAGIC,
};

verus! {

/// Layout facts of an encoded frame: its length, its three header fields
/// and the targets as a decoder reads them back.
pub proof fn lemma_encoded_layout(targets: Seq<u64>, payload: Seq<u8>)
    requires
        targets.len() <= u32::MAX,
        payload.len() <= u32::MAX,
    ensures
        encoded_frame(targets, payload).len() == frame_size(
            targets.len() as int,
            payload.len() as int,
        ),
        u32_at(encoded_frame(targets, payload), 0) == OVP_MAGIC,
        u32_at(encoded_frame(targets, payload), 4) == targets.len(),
        u32_at(encoded_frame(targets, payload), 8) == payload.len(),
        frame_targets(encoded_frame(targets, payload), targets.len()) == targets,
        encoded_frame(targets, payload).subrange(
            12 + 8 * (targets.len() as int),
            frame_size(targets.len() as int, payload.len() as int),
        ) == payload,
{
    let f = encoded_frame(targets, payload);
    let nt = targets.len() as u32;
    let np = payload.len() as u32;
    lemma_targets_le(targets);
    lemma_u32_round_trip(OVP_MAGIC);
    lemma_u32_round_trip(nt);
    lemma_u32_round_trip(np);
    let n = 8 * (targets.len() as int);
    assert(f.subrange(0, 4) =~= u32_le(OVP_MAGIC));
    assert(f.subrange(4, 8) =~= u32_le(nt));
    assert(f.subrange(8, 12) =~= u32_le(np));
    assert(u32_le(OVP_MAGIC).subrange(0, 4) =~= u32_le(OVP_MAGIC));
    assert(u32_le(nt).subrange(0, 4) =~= u32_le(nt));
    assert(u32_le(np).subrange(0, 4) =~= u32_le(np));
    lemma_u32_at_window(f, u32_le(OVP_MAGIC), 0, 0);
    lemma_u32_at_window(f, u32_le(nt), 4, 0);
    lemma_u32_at_window(f, u32_le(np), 8, 0);
    assert(f.subrange(12, 12 + n) =~= targets_le(targets));
    assert(f.subrange(12 + n, f.len() as int) =~= payload);
    let read = frame_targets(f, targets.len());
    assert forall|i: int| 0 <= i < targets.len() implies read[i] == targets[i] by {
        let t = targets_le(targets);
        assert(t.subrange(8 * i, 8 * i + 8) == u64_le(targets[i]));
        assert(f.subrange(12 + 8 * i, 12 + 8 * i + 8) =~= t.subrange(8 * i, 8 * i + 8));
        lemma_u64_round_trip(targets[i]);
        assert(u64_le(targets[i]).subrange(0, 8) =~= u64_le(targets[i]));
        lemma_u64_at_window(f, u64_le(targets[i]), 12 + 8 * i, 0);
    }
    assert(read =~= targets);
}

/// Round trip: decoding an encoded frame gives back its payload exactly when
/// the frame is a broadcast or lists the receiver, and nothing otherwise.
pub proof fn lemma_round_trip(targets: Seq<u64>, payload: Seq<u8>, id: u64)
    requires
        frame_size(targets.len() as int, payload.len() as int) <= MAX_FRAME_SIZE,
    ensures
        decoded_payload(encoded_frame(targets, payload), id) == (if targets.len() == 0
            || targets.contains(id) {
            Some(payload)
        } else {
            None
        }),
{
    lemma_encoded_layout(targets, payload);
}

/// Rejection: a buffer shorter than a header, one without the magic, and one
/// shorter than the size its header declares all decode to nothing.
pub proof fn lemma_rejects_malformed(frame: Seq<u8>, id: u64)
    ensures
        frame.len() < 12 ==> decoded_payload(frame, id) is None,
        frame.len() >= 12 && u32_at(frame, 0) != OVP_MAGIC ==> decoded_payload(frame, id) is None,
        frame.len() >= 12 && frame.len() < frame_size(u32_at(frame, 4) as int, u32_at(frame, 8) as int)
            ==> decoded_payload(frame, id) is None,
{
}

/// Boundary: with a buffer of one link frame, a frame of exactly that size
/// is encoded and one a byte larger is refused.
pub proof fn lemma_size_boundary(before: Seq<u8>, targets: Seq<u64>, payload: Seq<u8>, after: Seq<
    u8,
>, r: Result<usize, OvpError>)
    requires
        before.len() == MAX_FRAME_SIZE,
        encode_outcome(before, targets, payload, after, r),
    ensures
        frame_size(targets.len() as int, payload.len() as int) == MAX_FRAME_SIZE ==> r == Ok::<
            usize,
            OvpError,
        >(MAX_FRAME_SIZE),
        frame_size(targets.len() as int, payload.len() as int) == MAX_FRAME_SIZE + 1 ==> r
            == Err::<usize, OvpError>(OvpError::FrameTooLarge),
{
}

/// Determinism: two encodes of the same targets and payload into buffers of
/// the same length give the same result and byte-identical frames.
pub proof fn lemma_encode_deterministic(
    targets: Seq<u64>,
    payload: Seq<u8>,
    before1: Seq<u8>,
    after1: Seq<u8>,
    r1: Result<usize, OvpError>,
    before2: Seq<u8>,
    after2: Seq<u8>,
    r2: Result<usize, OvpError>,
)
    requires
        before1.len() == before2.len(),
        encode_outcome(before1, targets, payload, after1, r1),
        encode_outcome(before2, targets, payload, after2, r2),
    ensures
        r1 == r2,
        r1 matches Ok(n) ==> after1.subrange(0, n as int) == after2.subrange(0, n as int),
{
}

} // verus!
