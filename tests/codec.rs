use ovp::{
    build_ovp_frame, build_ovp_frame_old, build_ovp_frame_optimized, parse_ovp_frame,
    parse_ovp_frame_fast, parse_ovp_frame_old, OmegaFrame, OvpError, MAX_FRAME_SIZE, OVP_MAGIC,
};

fn encode(targets: &[u64], payload: &[u8]) -> Vec<u8> {
    let mut buffer = vec![0u8; MAX_FRAME_SIZE];
    let size = build_ovp_frame_optimized(&mut buffer, targets, payload).unwrap();
    buffer.truncate(size);
    buffer
}

#[test]
fn test_frame_parsing() {
    // Broadcast frame
    let mut frame = Vec::new();
    frame.extend_from_slice(&OVP_MAGIC.to_le_bytes());
    frame.extend_from_slice(&0u32.to_le_bytes());
    frame.extend_from_slice(&5u32.to_le_bytes());
    frame.extend_from_slice(b"hello");

    let result = parse_ovp_frame_fast(&frame, 123);
    assert_eq!(result, Some(b"hello".as_slice()));

    // Targeted frame
    let mut frame = Vec::new();
    frame.extend_from_slice(&OVP_MAGIC.to_le_bytes());
    frame.extend_from_slice(&1u32.to_le_bytes());
    frame.extend_from_slice(&5u32.to_le_bytes());
    frame.extend_from_slice(&123u64.to_le_bytes());
    frame.extend_from_slice(b"world");

    let result = parse_ovp_frame_fast(&frame, 123);
    assert_eq!(result, Some(b"world".as_slice()));

    // Non-matching target
    let result = parse_ovp_frame_fast(&frame, 456);
    assert_eq!(result, None);
}

#[test]
fn encoded_bytes_are_exact() {
    let frame = encode(&[0x0102030405060708], b"ab");
    let mut expected = vec![0xEF, 0xBE, 0xAD, 0xDE, 1, 0, 0, 0, 2, 0, 0, 0];
    expected.extend_from_slice(&[8, 7, 6, 5, 4, 3, 2, 1]);
    expected.extend_from_slice(b"ab");
    assert_eq!(frame, expected);
    assert_eq!(frame.len(), 12 + 8 + 2);
}

#[test]
fn encode_leaves_rest_of_buffer() {
    let mut buffer = vec![0xAAu8; 40];
    let size = build_ovp_frame_optimized(&mut buffer, &[], b"x").unwrap();
    assert_eq!(size, 13);
    assert_eq!(buffer[12], b'x');
    assert!(buffer[13..].iter().all(|&b| b == 0xAA));
}

#[test]
fn scenario_broadcast() {
    let frame = encode(&[], b"hello");
    assert_eq!(parse_ovp_frame_fast(&frame, 999), Some(b"hello".as_slice()));
}

#[test]
fn scenario_direct() {
    let frame = encode(&[42], b"hi");
    assert_eq!(parse_ovp_frame_fast(&frame, 42), Some(b"hi".as_slice()));
    assert_eq!(parse_ovp_frame_fast(&frame, 43), None);
}

#[test]
fn scenario_multicast() {
    let frame = encode(&[1, 5, 10, 42], b"grp");
    for id in [1u64, 5, 10, 42] {
        assert_eq!(parse_ovp_frame_fast(&frame, id), Some(b"grp".as_slice()));
    }
    assert_eq!(parse_ovp_frame_fast(&frame, 999), None);
}

#[test]
fn scenario_empty_payload() {
    let frame = encode(&[1], b"");
    assert_eq!(parse_ovp_frame_fast(&frame, 1), Some(b"".as_slice()));
}

#[test]
fn scenario_malformed_length() {
    let mut frame = vec![0u8; 50];
    frame[0..4].copy_from_slice(&0xDEADBEEFu32.to_le_bytes());
    frame[4..8].copy_from_slice(&1u32.to_le_bytes());
    frame[8..12].copy_from_slice(&100u32.to_le_bytes());
    frame[12..20].copy_from_slice(&1u64.to_le_bytes());
    assert_eq!(parse_ovp_frame_fast(&frame, 1), None);
    assert_eq!(parse_ovp_frame(&frame, 1), None);
}

#[test]
fn rejects_short_frame() {
    assert_eq!(parse_ovp_frame_fast(&[0u8; 5], 1), None);
    assert_eq!(parse_ovp_frame_fast(&[], 1), None);
    let frame = encode(&[], b"");
    assert_eq!(parse_ovp_frame_fast(&frame[..11], 1), None);
}

#[test]
fn rejects_wrong_magic() {
    let mut frame = vec![0u8; 20];
    frame[0..4].copy_from_slice(&0x12345678u32.to_le_bytes());
    assert_eq!(parse_ovp_frame_fast(&frame, 1), None);
    let mut good = encode(&[], b"ok");
    good[3] ^= 1;
    assert_eq!(parse_ovp_frame_fast(&good, 1), None);
}

#[test]
fn rejects_huge_declared_counts() {
    let mut frame = vec![0u8; 64];
    frame[0..4].copy_from_slice(&OVP_MAGIC.to_le_bytes());
    frame[4..8].copy_from_slice(&u32::MAX.to_le_bytes());
    frame[8..12].copy_from_slice(&u32::MAX.to_le_bytes());
    assert_eq!(parse_ovp_frame_fast(&frame, 0), None);
    assert_eq!(parse_ovp_frame(&frame, 0), None);
}

#[test]
fn truncated_frame_is_rejected() {
    let frame = encode(&[7], b"payload");
    assert_eq!(parse_ovp_frame_fast(&frame[..frame.len() - 1], 7), None);
}

#[test]
fn trailing_bytes_are_ignored() {
    let mut frame = encode(&[7], b"payload");
    frame.extend_from_slice(b"junk");
    assert_eq!(parse_ovp_frame_fast(&frame, 7), Some(b"payload".as_slice()));
}

#[test]
fn boundary_exact_size_succeeds() {
    let payload = vec![0x42u8; MAX_FRAME_SIZE - 12 - 8];
    let mut buffer = vec![0u8; MAX_FRAME_SIZE];
    let size = build_ovp_frame_optimized(&mut buffer, &[1], &payload).unwrap();
    assert_eq!(size, 1500);
    assert_eq!(parse_ovp_frame_fast(&buffer[..size], 1), Some(payload.as_slice()));
}

#[test]
fn boundary_one_byte_over_fails() {
    let payload = vec![0x42u8; MAX_FRAME_SIZE - 12 - 8 + 1];
    let mut buffer = vec![0x11u8; MAX_FRAME_SIZE];
    let r = build_ovp_frame_optimized(&mut buffer, &[1], &payload);
    assert_eq!(r, Err(OvpError::FrameTooLarge));
    assert!(buffer.iter().all(|&b| b == 0x11));
}

#[test]
fn too_large_for_small_buffer() {
    let mut buffer = vec![0u8; 20];
    assert_eq!(
        build_ovp_frame_optimized(&mut buffer, &[1, 2], b""),
        Err(OvpError::FrameTooLarge)
    );
    assert_eq!(build_ovp_frame_optimized(&mut buffer, &[1], b""), Ok(20));
}

#[test]
fn too_large_beyond_link_frame_even_in_big_buffer() {
    let mut buffer = vec![0u8; 4000];
    let targets = vec![1u64; 100];
    let payload = vec![0x42u8; 1000];
    assert_eq!(
        build_ovp_frame_optimized(&mut buffer, &targets, &payload),
        Err(OvpError::FrameTooLarge)
    );
}

#[test]
fn encoding_is_deterministic() {
    let a = encode(&[3, 1, 2], b"same");
    let b = encode(&[3, 1, 2], b"same");
    assert_eq!(a, b);
    let mut dirty = vec![0xFFu8; MAX_FRAME_SIZE];
    let size = build_ovp_frame_optimized(&mut dirty, &[3, 1, 2], b"same").unwrap();
    assert_eq!(&dirty[..size], a.as_slice());
}

#[test]
fn max_drone_id() {
    let frame = encode(&[u64::MAX], b"Max drone ID test");
    assert!(parse_ovp_frame_fast(&frame, u64::MAX).is_some());
    assert_eq!(parse_ovp_frame_fast(&frame, u64::MAX - 1), None);
}

#[test]
fn owned_and_in_place_frames_agree() {
    let targets = vec![1u64, 2u64, 3u64];
    let payload = b"Test payload with special chars: \x00\xFF\x42";
    let old_frame = build_ovp_frame_old(&targets, payload);
    let new_frame = encode(&targets, payload);
    assert_eq!(old_frame, new_frame);
    assert_eq!(build_ovp_frame(&targets, payload), new_frame);
    let old_parsed = parse_ovp_frame_old(&old_frame, 2);
    let new_parsed = parse_ovp_frame_fast(&new_frame, 2);
    assert_eq!(old_parsed.as_deref(), new_parsed);
    assert_eq!(parse_ovp_frame(&old_frame, 4), None);
    assert_eq!(parse_ovp_frame(&old_frame, 3), Some(payload.to_vec()));
}

#[test]
fn owned_parse_broadcast() {
    let frame = build_ovp_frame(&[], b"all");
    assert_eq!(parse_ovp_frame(&frame, 77), Some(b"all".to_vec()));
}

#[test]
fn header_read_and_write() {
    let frame = encode(&[9, 8], b"xyz");
    let h = OmegaFrame::read(&frame).unwrap();
    assert_eq!(h, OmegaFrame::for_message(2, 3));
    assert!(h.has_magic());
    assert_eq!(h.payload_start(), 28);
    assert_eq!(h.frame_size(), 31);
    assert_eq!(OmegaFrame::read(&frame[..11]), None);
    let mut out = vec![0u8; 14];
    h.write(&mut out);
    assert_eq!(&out[..12], &frame[..12]);
    assert_eq!(&out[12..], &[0, 0]);
    let bad = OmegaFrame { magic: 1, target_count: 0, payload_len: 0 };
    assert!(!bad.has_magic());
}
