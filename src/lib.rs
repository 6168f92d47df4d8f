//! Sans-I/O core of an OpenSSH client: the control-socket multiplexing
//! protocol (mux) and the SSH connection-layer channel runtime (proxy).
//!
//! Everything here computes on plain values: wire encoders and parsers,
//! request/response correlation, channel state machines, flow-control
//! windows and the FIFO queues between the channel users and the
//! transport tasks. The code that owns sockets drives these types.
use vstd::prelude::*;

pub mod non_zero_bytes;
pub mod wire;
pub mod mux_request;
pub mod mux_response;
pub mod mux_connection;
pub mod proxy_packet;
pub mod proxy_response;
pub mod bytes_queue;
pub mod proxy_error;
pub mod window;
pub mod pending_requests;
pub mod channel_state;
pub mod channel_input;
pub mod registry;
pub mod channel_output;
pub mod proxy_core;

pub use non_zero_bytes::{NonZeroByteSlice, NonZeroByteVec, NullByteError};
pub use mux_request::{ForwardType, Fwd, Request, Session, Socket};
pub use mux_response::{Response, ResponseVisitor};
pub use mux_connection::{
    EstablishedSessionState, Error, FrameBuffer, MuxClient, MuxShutdown, SessionTracker,
};
pub use proxy_packet::IpAddr;
pub use proxy_response::{ErrMsg, ErrorCode, OpenFailure};
pub use channel_input::ChannelInput;
pub use channel_output::ChannelOutput;
pub use proxy_core::ProxyCore;

verus! {

} // verus!
