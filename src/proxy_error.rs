//! Errors of the proxy client (transport errors aside).
use vstd::prelude::*;

use crate::proxy_response::OpenFailure;
use crate::wire::FormatError;

verus! {

#[derive(Debug, Clone, PartialEq, Eq)]
pub enum Error {
    /// A packet could not be encoded or decoded.
    FormatError(FormatError),
    /// The peer refused to open the channel.
    ChannelOpenFailure(OpenFailure),
    /// A state change arrived in the wrong state.
    UnexpectedChannelState { expected_state: &'static str, actual_state: &'static str },
    /// No channel of ours has this id.
    InvalidRecipientChannel(u32),
    /// No open channel is known by this id.
    InvalidSenderChannel(u32),
    /// The peer gave the same id to two channels.
    DuplicateSenderChannel(u32),
    /// A reply to a channel request arrived while none was pending.
    UnexpectedRequestResponse,
    /// The peer granted more window than a `u64` counts.
    WindowOverflow(u32),
    /// Every channel slot is taken.
    NoFreeSlot,
}

} // verus!
