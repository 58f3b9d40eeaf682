//! The decisions of a raw link-layer transport, apart from the system calls
//! that carry them out: the addresses it is configured with, the order in
//! which it is opened and what each call's outcome means.
use vstd::prelude::*;

use crate::error::OvpError;

verus! {

/// Address family of packet sockets.
pub const AF_PACKET: u16 = 17;

/// Ethernet protocol number that captures every frame, in host order.
pub const ETH_P_ALL: u16 = 0x0003;

/// Membership kind that turns on promiscuous reception.
pub const PACKET_MR_PROMISC: u16 = 1;

/// Length of an Ethernet hardware address.
pub const ETH_ALEN: u8 = 6;

/// A link-layer socket address. The protocol is kept in host order; it is
/// put in network order where the address is handed to the kernel.
#[derive(Clone, Copy, Debug)]
pub struct LinkAddress {
    pub family: u16,
    pub protocol: u16,
    pub if_index: u32,
    pub hatype: u16,
    pub pkttype: u8,
    pub halen: u8,
    pub addr: [u8; 8],
}

impl LinkAddress {
    /// The address a socket is bound with: the interface, every protocol and
    /// no hardware address.
    pub fn interface(if_index: u32) -> (r: LinkAddress)
        ensures
            r.family == AF_PACKET,
            r.protocol == ETH_P_ALL,
            r.if_index == if_index,
            r.hatype == 0,
            r.pkttype == 0,
            r.halen == 0,
            r.addr@ == seq![0u8, 0u8, 0u8, 0u8, 0u8, 0u8, 0u8, 0u8],
    {
        let r = LinkAddress {
            family: AF_PACKET,
            protocol: ETH_P_ALL,
            if_index,
            hatype: 0,
            pkttype: 0,
            halen: 0,
            addr: [0u8; 8],
        };
        assert(r.addr@ =~= seq![0u8, 0u8, 0u8, 0u8, 0u8, 0u8, 0u8, 0u8]);
        r
    }

    /// The destination of every transmitted frame: the Ethernet broadcast
    /// address `FF:FF:FF:FF:FF:FF` on the interface.
    pub fn broadcast(if_index: u32) -> (r: LinkAddress)
        ensures
            r.family == AF_PACKET,
            r.protocol == ETH_P_ALL,
            r.if_index == if_index,
            r.hatype == 0,
            r.pkttype == 0,
            r.halen == ETH_ALEN,
            r.addr@ == seq![0xFFu8, 0xFFu8, 0xFFu8, 0xFFu8, 0xFFu8, 0xFFu8, 0u8, 0u8],
    {
        let r = LinkAddress {
            family: AF_PACKET,
            protocol: ETH_P_ALL,
            if_index,
            hatype: 0,
            pkttype: 0,
            halen: ETH_ALEN,
            addr: [0xFF, 0xFF, 0xFF, 0xFF, 0xFF, 0xFF, 0, 0],
        };
        assert(r.addr@ =~= seq![0xFFu8, 0xFFu8, 0xFFu8, 0xFFu8, 0xFFu8, 0xFFu8, 0u8, 0u8]);
        r
    }
}

/// A packet-membership request.
#[derive(Clone, Copy, Debug)]
pub struct PacketMembership {
    pub if_index: u32,
    pub kind: u16,
    pub alen: u16,
    pub address: [u8; 8],
}

impl PacketMembership {
    /// Promiscuous reception on the interface, with no address filter.
    pub fn promiscuous(if_index: u32) -> (r: PacketMembership)
        ensures
            r.if_index == if_index,
            r.kind == PACKET_MR_PROMISC,
            r.alen == 0,
            r.address@ == seq![0u8, 0u8, 0u8, 0u8, 0u8, 0u8, 0u8, 0u8],
    {
        let r = PacketMembership {
            if_index,
            kind: PACKET_MR_PROMISC,
            alen: 0,
            address: [0u8; 8],
        };
        assert(r.address@ =~= seq![0u8, 0u8, 0u8, 0u8, 0u8, 0u8, 0u8, 0u8]);
        r
    }
}

/// Where the opening of a transport stands.
#[derive(Clone, Copy, Debug, PartialEq, Eq, Structural)]
pub enum OpenState {
    /// Nothing done yet: the interface name is being resolved.
    Resolving,
    /// The interface is known; the socket is being created.
    Creating { if_index: u32 },
    /// The socket exists; promiscuous membership is being enabled.
    Joining { fd: i32, if_index: u32 },
    /// Promiscuous; the socket is being bound to the interface.
    Binding { fd: i32, if_index: u32 },
    /// Open and configured.
    Ready { fd: i32, if_index: u32 },
    /// Failed; any socket has been released.
    Failed { error: OvpError },
}

/// What the caller does next while opening a transport.
#[derive(Clone, Copy, Debug)]
pub enum OpenAction {
    /// Resolve the interface name to an index; report the index, 0 if unknown.
    ResolveInterface,
    /// Create a raw socket for every protocol; report the descriptor or a
    /// negative value.
    CreateSocket,
    /// Add promiscuous membership on the interface; report the call's result.
    EnablePromiscuous { fd: i32, membership: PacketMembership },
    /// Bind the socket to the interface; report the call's result.
    Bind { fd: i32, address: LinkAddress },
    /// Close the socket, then report the error.
    CloseAndFail { fd: i32, error: OvpError },
    /// Report the error; nothing is held.
    Fail { error: OvpError },
    /// Done: the transport uses this socket, sending to `destination`.
    Finish { fd: i32, if_index: u32, destination: LinkAddress },
}

impl OpenState {
    /// Whether opening is over, one way or the other.
    pub open spec fn is_final(self) -> bool {
        self is Ready || self is Failed
    }

    /// The socket that is held in this state, if any.
    pub open spec fn held_socket(self) -> Option<i32> {
        match self {
            OpenState::Joining { fd, .. } => Some(fd),
            OpenState::Binding { fd, .. } => Some(fd),
            OpenState::Ready { fd, .. } => Some(fd),
            _ => None,
        }
    }
}

/// The first step of opening a transport: resolve the interface name.
pub fn open_start() -> (r: (OpenState, OpenAction))
    ensures
        r.0 == OpenState::Resolving,
        r.1 is ResolveInterface,
{
    (OpenState::Resolving, OpenAction::ResolveInterface)
}

/// The step of opening that follows `state` once the last action reported
/// `outcome`: an interface index (0 when unknown) after resolving, a
/// descriptor (negative on failure) after creating the socket, a call's
/// result (negative on failure) after the two configuration calls. A
/// failure after the socket exists closes it before the error is reported.
pub fn open_step(state: OpenState, outcome: i64) -> (r: (OpenState, OpenAction))
    requires
        !state.is_final(),
        state is Resolving ==> 0 <= outcome <= u32::MAX,
        !(state is Resolving) ==> i32::MIN <= outcome <= i32::MAX,
    ensures
        match state {
            OpenState::Resolving => if outcome == 0 {
                r == (
                    OpenState::Failed { error: OvpError::InterfaceNotFound },
                    OpenAction::Fail { error: OvpError::InterfaceNotFound },
                )
            } else {
                r == (OpenState::Creating { if_index: outcome as u32 }, OpenAction::CreateSocket)
            },
            OpenState::Creating { if_index } => if outcome < 0 {
                r == (
                    OpenState::Failed { error: OvpError::SocketCreationError },
                    OpenAction::Fail { error: OvpError::SocketCreationError },
                )
            } else {
                &&& r.0 == (OpenState::Joining { fd: outcome as i32, if_index })
                &&& r.1 is EnablePromiscuous
                &&& r.1->EnablePromiscuous_fd == outcome as i32
                &&& r.1->membership.if_index == if_index
                &&& r.1->membership.kind == PACKET_MR_PROMISC
                &&& r.1->membership.alen == 0
                &&& r.1->membership.address@ == seq![0u8, 0u8, 0u8, 0u8, 0u8, 0u8, 0u8, 0u8]
            },
            OpenState::Joining { fd, if_index } => if outcome < 0 {
                r == (
                    OpenState::Failed { error: OvpError::PromiscuousModeError },
                    OpenAction::CloseAndFail { fd, error: OvpError::PromiscuousModeError },
                )
            } else {
                &&& r.0 == (OpenState::Binding { fd, if_index })
                &&& r.1 is Bind
                &&& r.1->Bind_fd == fd
                &&& r.1->address.if_index == if_index
                &&& r.1->address.family == AF_PACKET
                &&& r.1->address.protocol == ETH_P_ALL
                &&& r.1->address.halen == 0
            },
            OpenState::Binding { fd, if_index } => if outcome < 0 {
                r == (
                    OpenState::Failed { error: OvpError::BindError },
                    OpenAction::CloseAndFail { fd, error: OvpError::BindError },
                )
            } else {
                &&& r.0 == (OpenState::Ready { fd, if_index })
                &&& r.1 is Finish
                &&& r.1->Finish_fd == fd
                &&& r.1->Finish_if_index == if_index
                &&& r.1->destination.if_index == if_index
                &&& r.1->destination.halen == ETH_ALEN
                &&& r.1->destination.addr@ == seq![
                    0xFFu8,
                    0xFFu8,
                    0xFFu8,
                    0xFFu8,
                    0xFFu8,
                    0xFFu8,
                    0u8,
                    0u8,
                ]
            },
            _ => false,
        },
        // A socket that was held and is no longer is closed by the action.
        state.held_socket() is Some && r.0.held_socket() is None ==> r.1
            == (OpenAction::CloseAndFail { fd: state.held_socket()->0, error: r.0->error }),
{
    match state {
        OpenState::Resolving => {
            if outcome == 0 {
                (
                    OpenState::Failed { error: OvpError::InterfaceNotFound },
                    OpenAction::Fail { error: OvpError::InterfaceNotFound },
                )
            } else {
                (OpenState::Creating { if_index: outcome as u32 }, OpenAction::CreateSocket)
            }
        },
        OpenState::Creating { if_index } => {
            if outcome < 0 {
                (
                    OpenState::Failed { error: OvpError::SocketCreationError },
                    OpenAction::Fail { error: OvpError::SocketCreationError },
                )
            } else {
                let fd = outcome as i32;
                (
                    OpenState::Joining { fd, if_index },
                    OpenAction::EnablePromiscuous {
                        fd,
                        membership: PacketMembership::promiscuous(if_index),
                    },
                )
            }
        },
        OpenState::Joining { fd, if_index } => {
            if outcome < 0 {
                (
                    OpenState::Failed { error: OvpError::PromiscuousModeError },
                    OpenAction::CloseAndFail { fd, error: OvpError::PromiscuousModeError },
                )
            } else {
                (
                    OpenState::Binding { fd, if_index },
                    OpenAction::Bind { fd, address: LinkAddress::interface(if_index) },
                )
            }
        },
        OpenState::Binding { fd, if_index } => {
            if outcome < 0 {
                (
                    OpenState::Failed { error: OvpError::BindError },
                    OpenAction::CloseAndFail { fd, error: OvpError::BindError },
                )
            } else {
                (
                    OpenState::Ready { fd, if_index },
                    OpenAction::Finish { fd, if_index, destination: LinkAddress::broadcast(if_index) },
                )
            }
        },
        _ => (state, OpenAction::Fail { error: OvpError::SocketCreationError }),
    }
}

/// The result of a transmit call that returned `sent`: failure when negative.
pub fn transmit_result(sent: isize) -> (r: Result<(), OvpError>)
    ensures
        r == (if sent < 0 {
            Err::<(), OvpError>(OvpError::TransmitError)
        } else {
            Ok(())
        }),
{
    if sent < 0 {
        Err(OvpError::TransmitError)
    } else {
        Ok(())
    }
}

/// The number of bytes a receive call delivered into a buffer of `capacity`
/// bytes, or `ReceiveError` when it reported failure (a negative value) or a
/// count the buffer cannot hold.
pub fn receive_result(received: isize, capacity: usize) -> (r: Result<usize, OvpError>)
    ensures
        r == (if 0 <= received <= capacity {
            Ok::<usize, OvpError>(received as usize)
        } else {
            Err(OvpError::ReceiveError)
        }),
{
    if received < 0 || received as usize > capacity {
        Err(OvpError::ReceiveError)
    } else {
        Ok(received as usize)
    }
}

} // verus!
