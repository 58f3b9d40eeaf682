//! Fixed-layout binary framing for broadcast link-layer messaging.
//!
//! A frame carries a magic number, a target list of node identifiers and an
//! opaque payload. Encoding writes it into a caller-owned buffer; decoding
//! inspects a received buffer in place and hands back the payload when the
//! frame is well formed and addressed to the local node. The transport's
//! decisions (how it is opened, what its calls' outcomes mean) are here too;
//! the system calls themselves are left to the caller.
pub mod bytes;
pub mod codec;
pub mod error;
pub mod frame;
pub mod laws;
pub mod link;
pub mod message;
pub mod owned;
pub mod session;

pub use codec::{build_ovp_frame_optimized, parse_ovp_frame_fast};
pub use error::OvpError;
pub use frame::{DroneId, OmegaFrame, MAX_FRAME_SIZE, OVP_MAGIC, RECV_BUFFER_SIZE};
pub use message::{extract_sender_from_message, truncate_message};
pub use owned::{build_ovp_frame, build_ovp_frame_old, parse_ovp_frame, parse_ovp_frame_old};
