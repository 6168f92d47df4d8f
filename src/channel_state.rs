//! The life of a channel, as the read task reports it to the channel's
//! owner:
//!
//! OpenChannelRequested => OpenChannelRequestConfirmed => ProcessExited | ProcessKilled => Consumed
//!
//! or
//!
//! OpenChannelRequested => OpenChannelRequestFailed => Consumed
use vstd::prelude::*;

use crate::proxy_error::Error;
use crate::proxy_response::{ExitSignal, OpenFailure};

verus! {

/// What the read task needs once the channel is confirmed.
#[derive(Debug, Clone, Copy, PartialEq, Eq)]
pub struct OpenChannelRequestedInner {
    pub init_receiver_win_size: u32,
    /// A whole window-adjust packet, copied out each time the receive
    /// window is refilled.
    pub extend_window_size_packet: [u8; 14],
    /// How much `extend_window_size_packet` grants.
    pub extend_window_size: u32,
}

#[derive(Debug, Clone, PartialEq, Eq)]
pub enum OpenChannelRes {
    Confirmed { max_packet_size: u32 },
    Failed(OpenFailure),
}

#[derive(Debug, Clone, PartialEq, Eq)]
pub enum ProcessStatus {
    ProcessExited(u32),
    ProcessKilled(ExitSignal),
}

#[derive(Debug, Clone, PartialEq, Eq)]
pub enum State {
    /// The open request is sent.
    OpenChannelRequested(OpenChannelRequestedInner),
    OpenChannelRequestConfirmed { max_packet_size: u32 },
    OpenChannelRequestFailed(OpenFailure),
    ProcessExited(u32),
    ProcessKilled(ExitSignal),
    /// The owner has read the outcome.
    Consumed,
}

/// The name of a state, as errors report it.
pub open spec fn state_label(s: State) -> &'static str {
    match s {
        State::OpenChannelRequested(_) => "OpenChannelRequested",
        State::OpenChannelRequestConfirmed { .. } => "OpenChannelRequestConfirmed",
        State::OpenChannelRequestFailed(_) => "OpenChannelRequestFailed",
        State::ProcessExited(_) => "ProcessExited",
        State::ProcessKilled(_) => "ProcessKilled",
        State::Consumed => "Consumed",
    }
}

/// The name of a state, as errors report it.
pub fn state_name(s: &State) -> (r: &'static str)
    ensures
        r == state_label(*s),
{
    match s {
        State::OpenChannelRequested(_) => "OpenChannelRequested",
        State::OpenChannelRequestConfirmed { .. } => "OpenChannelRequestConfirmed",
        State::OpenChannelRequestFailed(_) => "OpenChannelRequestFailed",
        State::ProcessExited(_) => "ProcessExited",
        State::ProcessKilled(_) => "ProcessKilled",
        State::Consumed => "Consumed",
    }
}

/// The state a channel reaches when its open request is answered.
pub open spec fn state_after_open(res: OpenChannelRes) -> State {
    match res {
        OpenChannelRes::Confirmed { max_packet_size } => State::OpenChannelRequestConfirmed {
            max_packet_size,
        },
        OpenChannelRes::Failed(f) => State::OpenChannelRequestFailed(f),
    }
}

/// The state a channel reaches when its process ends.
pub open spec fn state_after_exit(status: ProcessStatus) -> State {
    match status {
        ProcessStatus::ProcessExited(c) => State::ProcessExited(c),
        ProcessStatus::ProcessKilled(s) => State::ProcessKilled(s),
    }
}

#[derive(Debug)]
pub struct ChannelState {
    state: State,
}

impl View for ChannelState {
    type V = State;

    closed spec fn view(&self) -> State {
        self.state
    }
}

impl ChannelState {
    /// A channel whose open request is sent.
    pub fn new(
        init_receiver_win_size: u32,
        extend_window_size_packet: [u8; 14],
        extend_window_size: u32,
    ) -> (r: ChannelState)
        ensures
            r@ == State::OpenChannelRequested(
                OpenChannelRequestedInner {
                    init_receiver_win_size,
                    extend_window_size_packet,
                    extend_window_size,
                },
            ),
    {
        ChannelState {
            state: State::OpenChannelRequested(
                OpenChannelRequestedInner {
                    init_receiver_win_size,
                    extend_window_size_packet,
                    extend_window_size,
                },
            ),
        }
    }

    /// The current state.
    pub fn state_ref(&self) -> (r: &State)
        ensures
            *r == self@,
    {
        &self.state
    }

    /// Records the answer to the open request. Only a channel whose
    /// request is pending takes it; it then hands back what the read task
    /// needs. Any other state is an error and stays as it was.
    pub fn set_channel_open_res(&mut self, res: OpenChannelRes) -> (r: Result<
        OpenChannelRequestedInner,
        Error,
    >)
        ensures
            match old(self)@ {
                State::OpenChannelRequested(inner) => r == Ok::<OpenChannelRequestedInner, Error>(
                    inner,
                ) && final(self)@ == state_after_open(res),
                _ => r == Err::<OpenChannelRequestedInner, Error>(
                    Error::UnexpectedChannelState {
                        expected_state: "OpenChannelRequested",
                        actual_state: state_label(old(self)@),
                    },
                ) && final(self)@ == old(self)@,
            },
    {
        match self.state {
            State::OpenChannelRequested(inner) => {
                self.state = match res {
                    OpenChannelRes::Confirmed { max_packet_size } =>
                        State::OpenChannelRequestConfirmed { max_packet_size },
                    OpenChannelRes::Failed(err) => State::OpenChannelRequestFailed(err),
                };
                Ok(inner)
            },
            _ => Err(
                Error::UnexpectedChannelState {
                    expected_state: "OpenChannelRequested",
                    actual_state: state_name(&self.state),
                },
            ),
        }
    }

    /// Records how the process ended. Only a confirmed channel takes it;
    /// any other state is an error and stays as it was.
    pub fn set_channel_process_status(&mut self, status: ProcessStatus) -> (r: Result<(), Error>)
        ensures
            match old(self)@ {
                State::OpenChannelRequestConfirmed { .. } => r is Ok && final(self)@
                    == state_after_exit(status),
                _ => r == Err::<(), Error>(
                    Error::UnexpectedChannelState {
                        expected_state: "OpenChannelRequestConfirmed",
                        actual_state: state_label(old(self)@),
                    },
                ) && final(self)@ == old(self)@,
            },
    {
        match self.state {
            State::OpenChannelRequestConfirmed { .. } => {
                self.state = match status {
                    ProcessStatus::ProcessExited(c) => State::ProcessExited(c),
                    ProcessStatus::ProcessKilled(s) => State::ProcessKilled(s),
                };
                Ok(())
            },
            _ => Err(
                Error::UnexpectedChannelState {
                    expected_state: "OpenChannelRequestConfirmed",
                    actual_state: state_name(&self.state),
                },
            ),
        }
    }

    /// The owner's wait for the answer to the open request: `None` while
    /// it is pending. A failure is handed over once, leaving `Consumed`.
    pub fn poll_confirmation(&mut self) -> (r: Option<OpenChannelRes>)
        requires
            old(self)@ is OpenChannelRequested || old(self)@ is OpenChannelRequestConfirmed
                || old(self)@ is OpenChannelRequestFailed,
        ensures
            match old(self)@ {
                State::OpenChannelRequested(_) => r is None && final(self)@ == old(self)@,
                State::OpenChannelRequestConfirmed { max_packet_size } => r == Some(
                    OpenChannelRes::Confirmed { max_packet_size },
                ) && final(self)@ == old(self)@,
                State::OpenChannelRequestFailed(f) => r == Some(OpenChannelRes::Failed(f))
                    && final(self)@ == State::Consumed,
                _ => false,
            },
    {
        match self.state {
            State::OpenChannelRequested(_) => None,
            State::OpenChannelRequestConfirmed { max_packet_size } => Some(
                OpenChannelRes::Confirmed { max_packet_size },
            ),
            _ => {
                let mut prev = State::Consumed;
                core::mem::swap(&mut self.state, &mut prev);
                match prev {
                    State::OpenChannelRequestFailed(f) => Some(OpenChannelRes::Failed(f)),
                    _ => None,
                }
            },
        }
    }

    /// The owner's wait for the end of the process: `None` while it runs.
    /// The status is handed over once, leaving `Consumed`.
    pub fn poll_process_exit(&mut self) -> (r: Option<ProcessStatus>)
        requires
            old(self)@ is OpenChannelRequestConfirmed || old(self)@ is ProcessExited
                || old(self)@ is ProcessKilled,
        ensures
            match old(self)@ {
                State::OpenChannelRequestConfirmed { .. } => r is None && final(self)@ == old(self)@,
                State::ProcessExited(c) => r == Some(ProcessStatus::ProcessExited(c)) && final(self)@ == State::Consumed,
                State::ProcessKilled(s) => r == Some(ProcessStatus::ProcessKilled(s)) && final(self)@ == State::Consumed,
                _ => false,
            },
    {
        match self.state {
            State::OpenChannelRequestConfirmed { .. } => None,
            _ => {
                let mut prev = State::Consumed;
                core::mem::swap(&mut self.state, &mut prev);
                match prev {
                    State::ProcessExited(c) => Some(ProcessStatus::ProcessExited(c)),
                    State::ProcessKilled(s) => Some(ProcessStatus::ProcessKilled(s)),
                    _ => None,
                }
            },
        }
    }
}

} // verus!
