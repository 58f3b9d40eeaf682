//! Errors of the framing layer and of the link it runs over.
use vstd::prelude::*;

verus! {

/// Every failure the library reports. Decode rejections are not errors:
/// they come back as `None`.
#[derive(Clone, Copy, Debug, PartialEq, Eq, Structural)]
pub enum OvpError {
    /// The interface name does not resolve to a kernel interface index.
    InterfaceNotFound,
    /// The raw link-layer socket could not be created.
    SocketCreationError,
    /// Promiscuous membership could not be enabled on the interface.
    PromiscuousModeError,
    /// The socket could not be bound to the interface.
    BindError,
    /// The transmit call reported failure.
    TransmitError,
    /// The receive call reported failure.
    ReceiveError,
    /// The encoded frame would not fit in the buffer or in one link frame.
    FrameTooLarge,
}

impl OvpError {
    /// A short human-readable description of the error.
    pub fn message(&self) -> (r: &'static str) {
        match self {
            OvpError::InterfaceNotFound => "interface not found",
            OvpError::SocketCreationError => "failed to create raw socket",
            OvpError::PromiscuousModeError => "failed to enable promiscuous mode",
            OvpError::BindError => "failed to bind socket to interface",
            OvpError::TransmitError => "frame transmission failed",
            OvpError::ReceiveError => "frame reception failed",
            OvpError::FrameTooLarge => "frame exceeds maximum size",
        }
    }
}

} // verus!
