use ovp::bytes::{read_u32_le, read_u64_le, write_u32_le, write_u64_le};
use ovp::link::{
    open_start, open_step, receive_result, transmit_result, LinkAddress, OpenAction, OpenState,
    PacketMembership, AF_PACKET, ETH_P_ALL, PACKET_MR_PROMISC,
};
use ovp::session::{accept_received, emit_targets, SendBuffer};
use ovp::{parse_ovp_frame_fast, OvpError, MAX_FRAME_SIZE};

#[test]
fn unaligned_reads_and_writes() {
    let mut data = vec![0u8; 32];
    for offset in 0..8usize {
        write_u32_le(&mut data, offset, 0xDEADBEEF);
        assert_eq!(read_u32_le(&data, offset), 0xDEADBEEF);
        write_u64_le(&mut data, offset, 0xCAFEBABEDEADBEEF);
        assert_eq!(read_u64_le(&data, offset), 0xCAFEBABEDEADBEEF);
    }
    let mut b = vec![0u8; 6];
    write_u32_le(&mut b, 1, 0x01020304);
    assert_eq!(b, vec![0, 4, 3, 2, 1, 0]);
}

#[test]
fn open_success_path() {
    let (state, action) = open_start();
    assert_eq!(state, OpenState::Resolving);
    assert!(matches!(action, OpenAction::ResolveInterface));
    let (state, action) = open_step(state, 3);
    assert_eq!(state, OpenState::Creating { if_index: 3 });
    assert!(matches!(action, OpenAction::CreateSocket));
    let (state, action) = open_step(state, 7);
    assert_eq!(state, OpenState::Joining { fd: 7, if_index: 3 });
    match action {
        OpenAction::EnablePromiscuous { fd, membership } => {
            assert_eq!(fd, 7);
            assert_eq!(membership.if_index, 3);
            assert_eq!(membership.kind, PACKET_MR_PROMISC);
            assert_eq!(membership.alen, 0);
        }
        other => panic!("unexpected {:?}", other),
    }
    let (state, action) = open_step(state, 0);
    assert_eq!(state, OpenState::Binding { fd: 7, if_index: 3 });
    match action {
        OpenAction::Bind { fd, address } => {
            assert_eq!(fd, 7);
            assert_eq!(address.if_index, 3);
            assert_eq!(address.family, AF_PACKET);
            assert_eq!(address.protocol, ETH_P_ALL);
            assert_eq!(address.halen, 0);
        }
        other => panic!("unexpected {:?}", other),
    }
    let (state, action) = open_step(state, 0);
    assert_eq!(state, OpenState::Ready { fd: 7, if_index: 3 });
    match action {
        OpenAction::Finish { fd, if_index, destination } => {
            assert_eq!((fd, if_index), (7, 3));
            assert_eq!(destination.halen, 6);
            assert_eq!(destination.addr, [0xFF, 0xFF, 0xFF, 0xFF, 0xFF, 0xFF, 0, 0]);
        }
        other => panic!("unexpected {:?}", other),
    }
}

#[test]
fn open_interface_not_found() {
    let (state, action) = open_step(OpenState::Resolving, 0);
    assert_eq!(state, OpenState::Failed { error: OvpError::InterfaceNotFound });
    assert!(matches!(action, OpenAction::Fail { error: OvpError::InterfaceNotFound }));
}

#[test]
fn open_socket_creation_error() {
    let (state, action) = open_step(OpenState::Creating { if_index: 2 }, -1);
    assert_eq!(state, OpenState::Failed { error: OvpError::SocketCreationError });
    assert!(matches!(action, OpenAction::Fail { error: OvpError::SocketCreationError }));
}

#[test]
fn open_promiscuous_error_closes_socket() {
    let (state, action) = open_step(OpenState::Joining { fd: 5, if_index: 2 }, -1);
    assert_eq!(state, OpenState::Failed { error: OvpError::PromiscuousModeError });
    assert!(matches!(
        action,
        OpenAction::CloseAndFail { fd: 5, error: OvpError::PromiscuousModeError }
    ));
}

#[test]
fn open_bind_error_closes_socket() {
    let (state, action) = open_step(OpenState::Binding { fd: 9, if_index: 2 }, -1);
    assert_eq!(state, OpenState::Failed { error: OvpError::BindError });
    assert!(matches!(action, OpenAction::CloseAndFail { fd: 9, error: OvpError::BindError }));
}

#[test]
fn addresses() {
    let b = LinkAddress::broadcast(4);
    assert_eq!(b.addr, [0xFF, 0xFF, 0xFF, 0xFF, 0xFF, 0xFF, 0, 0]);
    assert_eq!(b.if_index, 4);
    let i = LinkAddress::interface(4);
    assert_eq!(i.addr, [0u8; 8]);
    assert_eq!(i.halen, 0);
    let m = PacketMembership::promiscuous(4);
    assert_eq!(m.address, [0u8; 8]);
    assert_eq!(m.kind, 1);
}

#[test]
fn transmit_and_receive_results() {
    assert_eq!(transmit_result(-1), Err(OvpError::TransmitError));
    assert_eq!(transmit_result(0), Ok(()));
    assert_eq!(transmit_result(64), Ok(()));
    assert_eq!(receive_result(-1, 100), Err(OvpError::ReceiveError));
    assert_eq!(receive_result(101, 100), Err(OvpError::ReceiveError));
    assert_eq!(receive_result(100, 100), Ok(100));
    assert_eq!(receive_result(0, 100), Ok(0));
}

#[test]
fn send_buffer_stages_frames() {
    let mut buf = SendBuffer::new();
    assert_eq!(buf.capacity(), MAX_FRAME_SIZE);
    assert_eq!(buf.frame(4), &[0, 0, 0, 0]);
    let size = buf.stage(&[42], b"hi").unwrap();
    assert_eq!(size, 22);
    assert_eq!(parse_ovp_frame_fast(buf.frame(size), 42), Some(b"hi".as_slice()));
    let too_big = vec![0u8; MAX_FRAME_SIZE];
    assert_eq!(buf.stage(&[], &too_big), Err(OvpError::FrameTooLarge));
    assert_eq!(parse_ovp_frame_fast(buf.frame(size), 42), Some(b"hi".as_slice()));
}

#[test]
fn emit_targets_defaults_to_broadcast() {
    assert!(emit_targets(None).is_empty());
    let list = [1u64, 2, 3];
    assert_eq!(emit_targets(Some(&list)), &[1, 2, 3]);
}

#[test]
fn accept_received_filters() {
    let mut buf = SendBuffer::new();
    let size = buf.stage(&[5], b"for five").unwrap();
    let frame = buf.frame(size);
    assert_eq!(accept_received(Ok(frame), 5), Some(b"for five".as_slice()));
    assert_eq!(accept_received(Ok(frame), 6), None);
    assert_eq!(accept_received(Err(OvpError::ReceiveError), 5), None);
    assert_eq!(accept_received(Ok(b"garbage".as_slice()), 5), None);
}

#[test]
fn error_messages() {
    assert_eq!(OvpError::FrameTooLarge.message(), "frame exceeds maximum size");
    assert_eq!(OvpError::InterfaceNotFound.message(), "interface not found");
}
