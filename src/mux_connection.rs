//! The decisions of a mux client connection: request ids, framing of the
//! inbound byte stream, and how each response is judged against the
//! request it answers.
use vstd::prelude::*;

use crate::mux_request::{
    fwd_body, fwd_frame, frame_request, framed, new_session_body, new_session_frame, request_body,
    ForwardType, Fwd, Request, Session, Socket, SSHMUX_VER,
};
use crate::mux_response::{Response, ResponseView};
use crate::wire::{take_u32, FormatError};

verus! {

/// What went wrong in a mux exchange (transport errors aside).
#[derive(Debug, Clone, PartialEq, Eq)]
pub enum Error {
    /// The master speaks a protocol other than version 4.
    UnsupportedMuxProtocol,
    /// The master answered with an unexpected packet type.
    InvalidServerResponse(&'static str, Response),
    /// The master answered with port 0.
    InvalidPort,
    /// The master answered with pid 0.
    InvalidPid,
    /// The answer carries another id than the request.
    UnmatchedRequestId,
    /// The message carries another session id.
    UnmatchedSessionId,
    /// A packet could not be encoded or decoded.
    FormatError(FormatError),
    /// The master refused the request.
    RequestFailure(Vec<u8>),
    /// The master refused the request for want of permission.
    PermissionDenied(Vec<u8>),
}

/// An [`Error`] with its payloads as views.
pub enum ErrorView {
    UnsupportedMuxProtocol,
    InvalidServerResponse(ResponseView),
    InvalidPort,
    InvalidPid,
    UnmatchedRequestId,
    UnmatchedSessionId,
    FormatError(FormatError),
    RequestFailure(Seq<u8>),
    PermissionDenied(Seq<u8>),
}

impl View for Error {
    type V = ErrorView;

    open spec fn view(&self) -> ErrorView {
        match self {
            Error::UnsupportedMuxProtocol => ErrorView::UnsupportedMuxProtocol,
            Error::InvalidServerResponse(_, r) => ErrorView::InvalidServerResponse(r@),
            Error::InvalidPort => ErrorView::InvalidPort,
            Error::InvalidPid => ErrorView::InvalidPid,
            Error::UnmatchedRequestId => ErrorView::UnmatchedRequestId,
            Error::UnmatchedSessionId => ErrorView::UnmatchedSessionId,
            Error::FormatError(e) => ErrorView::FormatError(*e),
            Error::RequestFailure(m) => ErrorView::RequestFailure(m@),
            Error::PermissionDenied(m) => ErrorView::PermissionDenied(m@),
        }
    }
}

/// A result with its error as a view.
pub open spec fn res_view<T>(r: Result<T, Error>) -> Result<T, ErrorView> {
    match r {
        Ok(v) => Ok(v),
        Err(e) => Err(e@),
    }
}

/// Hands out request ids: 0, 1, 2, ... wrapping at 2^32.
#[derive(Debug)]
pub struct RequestIdCounter {
    next: u32,
}

impl RequestIdCounter {
    pub closed spec fn next_id(&self) -> u32 {
        self.next
    }

    /// A counter whose first id is 0.
    pub fn new() -> (r: RequestIdCounter)
        ensures
            r.next_id() == 0,
    {
        RequestIdCounter { next: 0 }
    }

    /// The id for the next request.
    pub fn get_request_id(&mut self) -> (r: u32)
        ensures
            r == old(self).next_id(),
            final(self).next_id() == (if r == u32::MAX {
                0
            } else {
                (r + 1) as u32
            }),
    {
        let r = self.next;
        self.next = if r == u32::MAX {
            0
        } else {
            r + 1
        };
        r
    }
}

/// `Ok` exactly when the ids agree.
pub fn check_response_id(request_id: u32, response_id: u32) -> (r: Result<(), Error>)
    ensures
        res_view(r) == (if request_id == response_id {
            Ok(())
        } else {
            Err(ErrorView::UnmatchedRequestId)
        }),
{
    if request_id != response_id {
        Err(Error::UnmatchedRequestId)
    } else {
        Ok(())
    }
}

/// How the hello exchange ends, given the master's answer.
pub open spec fn hello_outcome(resp: ResponseView) -> Result<(), ErrorView> {
    match resp {
        ResponseView::Hello { version } => if version == SSHMUX_VER {
            Ok(())
        } else {
            Err(ErrorView::UnsupportedMuxProtocol)
        },
        _ => Err(ErrorView::InvalidServerResponse(resp)),
    }
}

pub fn check_hello(resp: Response) -> (r: Result<(), Error>)
    ensures
        res_view(r) == hello_outcome(resp@),
{
    match resp {
        Response::Hello { version } => if version != SSHMUX_VER {
            Err(Error::UnsupportedMuxProtocol)
        } else {
            Ok(())
        },
        _ => Err(Error::InvalidServerResponse("Hello message", resp)),
    }
}

/// The outcome of a response that is not the success answer: a refusal
/// reported by the master (after its id is checked), or else an
/// unexpected response.
pub open spec fn refusal_outcome<T>(request_id: u32, resp: ResponseView) -> Result<T, ErrorView> {
    match resp {
        ResponseView::PermissionDenied { response_id, reason } => if response_id != request_id {
            Err(ErrorView::UnmatchedRequestId)
        } else {
            Err(ErrorView::PermissionDenied(reason))
        },
        ResponseView::Failure { response_id, reason } => if response_id != request_id {
            Err(ErrorView::UnmatchedRequestId)
        } else {
            Err(ErrorView::RequestFailure(reason))
        },
        _ => Err(ErrorView::InvalidServerResponse(resp)),
    }
}

/// The outcome of an alive check: the master's pid.
pub open spec fn alive_outcome(request_id: u32, resp: ResponseView) -> Result<u32, ErrorView> {
    match resp {
        ResponseView::Alive { response_id, server_pid } => if response_id != request_id {
            Err(ErrorView::UnmatchedRequestId)
        } else if server_pid == 0 {
            Err(ErrorView::InvalidPid)
        } else {
            Ok(server_pid)
        },
        _ => Err(ErrorView::InvalidServerResponse(resp)),
    }
}

/// Judges the answer to `AliveCheck { request_id }`.
pub fn alive_check_result(request_id: u32, resp: Response) -> (r: Result<u32, Error>)
    ensures
        res_view(r) == alive_outcome(request_id, resp@),
        r matches Ok(pid) ==> pid != 0,
{
    match resp {
        Response::Alive { response_id, server_pid } => {
            check_response_id(request_id, response_id)?;
            if server_pid == 0 {
                Err(Error::InvalidPid)
            } else {
                Ok(server_pid)
            }
        },
        _ => Err(Error::InvalidServerResponse("Response::Alive", resp)),
    }
}

/// The outcome of a session request: the session id.
pub open spec fn session_opened_outcome(request_id: u32, resp: ResponseView) -> Result<
    u32,
    ErrorView,
> {
    match resp {
        ResponseView::SessionOpened { response_id, session_id } => if response_id != request_id {
            Err(ErrorView::UnmatchedRequestId)
        } else {
            Ok(session_id)
        },
        _ => refusal_outcome(request_id, resp),
    }
}

/// Turns `PermissionDenied` and `Failure` into errors, after checking ids;
/// any other response is unexpected.
fn refusal_result<T>(request_id: u32, resp: Response, expected: &'static str) -> (r: Result<
    T,
    Error,
>)
    ensures
        res_view(r) == refusal_outcome::<T>(request_id, resp@),
{
    match resp {
        Response::PermissionDenied { response_id, reason } => {
            check_response_id(request_id, response_id)?;
            Err(Error::PermissionDenied(reason))
        },
        Response::Failure { response_id, reason } => {
            check_response_id(request_id, response_id)?;
            Err(Error::RequestFailure(reason))
        },
        _ => Err(Error::InvalidServerResponse(expected, resp)),
    }
}

/// Judges the answer to `NewSession { request_id, .. }`.
pub fn open_session_result(request_id: u32, resp: Response) -> (r: Result<u32, Error>)
    ensures
        res_view(r) == session_opened_outcome(request_id, resp@),
{
    match resp {
        Response::SessionOpened { response_id, session_id } => {
            check_response_id(request_id, response_id)?;
            Ok(session_id)
        },
        _ => refusal_result(request_id, resp, "SessionOpened, PermissionDenied or Failure"),
    }
}

/// The outcome of a request answered with `Ok` on success.
pub open spec fn ack_outcome(request_id: u32, resp: ResponseView) -> Result<(), ErrorView> {
    match resp {
        ResponseView::Success { response_id } => if response_id != request_id {
            Err(ErrorView::UnmatchedRequestId)
        } else {
            Ok(())
        },
        _ => refusal_outcome(request_id, resp),
    }
}

/// Judges the answer to a port forwarding, its closing, or a request to
/// stop listening.
pub fn ack_result(request_id: u32, resp: Response) -> (r: Result<(), Error>)
    ensures
        res_view(r) == ack_outcome(request_id, resp@),
{
    match resp {
        Response::Success { response_id } => check_response_id(request_id, response_id),
        _ => refusal_result(request_id, resp, "Ok, PermissionDenied or Failure"),
    }
}

/// The outcome of a dynamic forwarding: the remote port.
pub open spec fn remote_port_outcome(request_id: u32, resp: ResponseView) -> Result<
    u32,
    ErrorView,
> {
    match resp {
        ResponseView::RemotePort { response_id, remote_port } => if response_id != request_id {
            Err(ErrorView::UnmatchedRequestId)
        } else if remote_port == 0 {
            Err(ErrorView::InvalidPort)
        } else {
            Ok(remote_port)
        },
        _ => refusal_outcome(request_id, resp),
    }
}

/// Judges the answer to a dynamic forwarding request.
pub fn dynamic_forward_result(request_id: u32, resp: Response) -> (r: Result<u32, Error>)
    ensures
        res_view(r) == remote_port_outcome(request_id, resp@),
        r matches Ok(port) ==> port != 0,
{
    match resp {
        Response::RemotePort { response_id, remote_port } => {
            check_response_id(request_id, response_id)?;
            if remote_port == 0 {
                Err(Error::InvalidPort)
            } else {
                Ok(remote_port)
            }
        },
        _ => refusal_result(request_id, resp, "RemotePort, PermissionDenied or Failure"),
    }
}

/// The id of the request that a response answers, for the responses keyed
/// by request (all but `Hello`, `ExitMessage` and `TtyAllocFail`).
pub open spec fn answered_id(resp: ResponseView) -> Option<u32> {
    match resp {
        ResponseView::Alive { response_id, .. } => Some(response_id),
        ResponseView::Success { response_id } => Some(response_id),
        ResponseView::Failure { response_id, .. } => Some(response_id),
        ResponseView::PermissionDenied { response_id, .. } => Some(response_id),
        ResponseView::SessionOpened { response_id, .. } => Some(response_id),
        ResponseView::RemotePort { response_id, .. } => Some(response_id),
        _ => None,
    }
}

/// No answer is accepted unless it carries the id of the request it
/// answers: whenever a judged exchange succeeds, or ends in a refusal
/// reported by the master, the response's id is the request's id.
pub proof fn lemma_correlation(request_id: u32, resp: ResponseView)
    ensures
        alive_outcome(request_id, resp) is Ok ==> answered_id(resp) == Some(request_id),
        session_opened_outcome(request_id, resp) is Ok ==> answered_id(resp) == Some(request_id),
        ack_outcome(request_id, resp) is Ok ==> answered_id(resp) == Some(request_id),
        remote_port_outcome(request_id, resp) is Ok ==> answered_id(resp) == Some(request_id),
        (ack_outcome(request_id, resp) matches Err(ErrorView::PermissionDenied(_))
            || ack_outcome(request_id, resp) matches Err(ErrorView::RequestFailure(_)))
            ==> answered_id(resp) == Some(request_id),
{
}

/// What a running session reports.
#[derive(Debug, Clone, Copy, PartialEq, Eq)]
pub enum EstablishedSessionState {
    /// The process exited; `None` when the master hung up without saying.
    Exited(Option<u32>),
    /// The remote side could not allocate a tty; the session goes on.
    TtyAllocFail,
}

/// The outcome of waiting on session `session_id`, given the next
/// message, or `None` when the stream ended.
pub open spec fn session_event_outcome(session_id: u32, resp: Option<ResponseView>) -> Result<
    EstablishedSessionState,
    ErrorView,
> {
    match resp {
        None => Ok(EstablishedSessionState::Exited(None)),
        Some(ResponseView::TtyAllocFail { session_id: sid }) => if sid != session_id {
            Err(ErrorView::UnmatchedSessionId)
        } else {
            Ok(EstablishedSessionState::TtyAllocFail)
        },
        Some(ResponseView::ExitMessage { session_id: sid, exit_value }) => if sid != session_id {
            Err(ErrorView::UnmatchedSessionId)
        } else {
            Ok(EstablishedSessionState::Exited(Some(exit_value)))
        },
        Some(r) => Err(ErrorView::InvalidServerResponse(r)),
    }
}

/// An established session: the connection now only receives.
#[derive(Debug, Clone, Copy, PartialEq, Eq)]
pub struct SessionTracker {
    pub session_id: u32,
}

impl SessionTracker {
    /// `Ok` exactly when `session_id` is this session's.
    pub fn check_session_id(&self, session_id: u32) -> (r: Result<(), Error>)
        ensures
            res_view(r) == (if self.session_id == session_id {
                Ok(())
            } else {
                Err(ErrorView::UnmatchedSessionId)
            }),
    {
        if self.session_id != session_id {
            Err(Error::UnmatchedSessionId)
        } else {
            Ok(())
        }
    }

    /// Judges the next message of the session (`None`: the stream ended).
    pub fn on_message(&self, resp: Option<Response>) -> (r: Result<EstablishedSessionState, Error>)
        ensures
            res_view(r) == session_event_outcome(
                self.session_id,
                match resp {
                    Some(x) => Some(x@),
                    None => None,
                },
            ),
    {
        match resp {
            None => Ok(EstablishedSessionState::Exited(None)),
            Some(resp) => match resp {
                Response::TtyAllocFail { session_id } => {
                    self.check_session_id(session_id)?;
                    Ok(EstablishedSessionState::TtyAllocFail)
                },
                Response::ExitMessage { session_id, exit_value } => {
                    self.check_session_id(session_id)?;
                    Ok(EstablishedSessionState::Exited(Some(exit_value)))
                },
                _ => Err(Error::InvalidServerResponse("TtyAllocFail or ExitMessage", resp)),
            },
        }
    }
}

/// Length of the packet body announced by the first four bytes of `s`.
pub open spec fn announced_len(s: Seq<u8>) -> int {
    match take_u32(s, 0) {
        Some((n, _)) => n as int,
        None => 0,
    }
}

/// `s` starts with a whole packet.
pub open spec fn has_frame(s: Seq<u8>) -> bool {
    s.len() >= 4 && s.len() >= 4 + announced_len(s)
}

/// Bytes read from the stream and not yet consumed; whole packets are
/// cut from its front.
#[derive(Debug)]
pub struct FrameBuffer {
    buf: Vec<u8>,
}

impl View for FrameBuffer {
    type V = Seq<u8>;

    closed spec fn view(&self) -> Seq<u8> {
        self.buf@
    }
}

impl FrameBuffer {
    pub fn new() -> (r: FrameBuffer)
        ensures
            r@ == Seq::<u8>::empty(),
    {
        FrameBuffer { buf: Vec::new() }
    }

    /// Appends bytes read from the stream.
    pub fn extend(&mut self, data: &[u8])
        ensures
            final(self)@ == old(self)@ + data@,
    {
        crate::wire::push_raw(&mut self.buf, data);
    }

    /// How many more bytes must be read before a whole packet is here:
    /// first the four-byte length, then the rest of the body.
    pub fn bytes_needed(&self) -> (r: usize)
        ensures
            r == 0 <==> has_frame(self@),
            self@.len() < 4 ==> r == 4 - self@.len(),
            self@.len() >= 4 && !has_frame(self@) ==> r == 4 + announced_len(self@)
                - self@.len(),
    {
        let len = self.buf.len();
        if len < 4 {
            return 4 - len;
        }
        let (n, _) = crate::wire::read_u32(self.buf.as_slice(), 0).unwrap();
        let body = len - 4;
        if (n as usize) > body {
            n as usize - body
        } else {
            0
        }
    }

    /// Cuts the first packet off the front and returns its body, if a
    /// whole one is here.
    pub fn take_frame(&mut self) -> (r: Option<Vec<u8>>)
        ensures
            match r {
                Some(body) => has_frame(old(self)@) && body@ == old(self)@.subrange(
                    4,
                    4 + announced_len(old(self)@),
                ) && final(self)@ == old(self)@.subrange(
                    4 + announced_len(old(self)@),
                    old(self)@.len() as int,
                ),
                None => !has_frame(old(self)@) && final(self)@ == old(self)@,
            },
    {
        if self.bytes_needed() != 0 {
            return None;
        }
        let (n, _) = crate::wire::read_u32(self.buf.as_slice(), 0).unwrap();
        assert(n as int == announced_len(self.buf@));
        let len = self.buf.len();
        assert(4 + n <= len);
        let end = 4 + n as usize;
        let body = crate::wire::copy_range(self.buf.as_slice(), 4, end);
        let rest = self.buf.split_off(end);
        self.buf = rest;
        Some(body)
    }

    /// Parses the first packet, if a whole one is here, and drops it.
    pub fn read_response(&mut self) -> (r: Option<Result<Response, Error>>)
        ensures
            match r {
                Some(Ok(resp)) => has_frame(old(self)@) && crate::mux_response::parse_response(
                    old(self)@.subrange(4, 4 + announced_len(old(self)@)),
                ) == Some(resp@),
                Some(Err(e)) => has_frame(old(self)@) && crate::mux_response::parse_response(
                    old(self)@.subrange(4, 4 + announced_len(old(self)@)),
                ) is None && e matches Error::FormatError(_),
                None => !has_frame(old(self)@),
            },
            r is Some ==> final(self)@ == old(self)@.subrange(
                4 + announced_len(old(self)@),
                old(self)@.len() as int,
            ),
            r is None ==> final(self)@ == old(self)@,
    {
        match self.take_frame() {
            None => None,
            Some(body) => match Response::from_bytes(body.as_slice()) {
                Ok(resp) => Some(Ok(resp)),
                Err(e) => Some(Err(Error::FormatError(e))),
            },
        }
    }
}

/// The id after `id`, wrapping at 2^32.
pub open spec fn next_request_id(id: u32) -> u32 {
    if id == u32::MAX {
        0
    } else {
        (id + 1) as u32
    }
}

/// The sending side of a mux connection: each request gets the next id
/// and its exact packet. Exactly one request is in flight at a time: the
/// caller sends the packet, reads one response and judges it with the
/// matching `*_result` function and the id handed out here.
#[derive(Debug)]
pub struct MuxClient {
    ids: RequestIdCounter,
}

impl MuxClient {
    pub closed spec fn next_id(&self) -> u32 {
        self.ids.next_id()
    }

    /// A connection whose first request gets id 0.
    pub fn new() -> (r: MuxClient)
        ensures
            r.next_id() == 0,
    {
        MuxClient { ids: RequestIdCounter::new() }
    }

    /// The hello packet that opens every connection.
    pub fn hello_frame() -> (r: Vec<u8>)
        ensures
            r@ == framed(request_body(Request::Hello { version: SSHMUX_VER })),
    {
        frame_request(&Request::Hello { version: SSHMUX_VER })
    }

    /// An alive check: its id and packet.
    pub fn alive_check(&mut self) -> (r: (u32, Vec<u8>))
        ensures
            r.0 == old(self).next_id(),
            final(self).next_id() == next_request_id(r.0),
            r.1@ == framed(request_body(Request::AliveCheck { request_id: r.0 })),
    {
        let request_id = self.ids.get_request_id();
        (request_id, frame_request(&Request::AliveCheck { request_id }))
    }

    /// A request to stop listening: its id and packet.
    pub fn stop_listening(&mut self) -> (r: (u32, Vec<u8>))
        ensures
            r.0 == old(self).next_id(),
            final(self).next_id() == next_request_id(r.0),
            r.1@ == framed(request_body(Request::StopListening { request_id: r.0 })),
    {
        let request_id = self.ids.get_request_id();
        (request_id, frame_request(&Request::StopListening { request_id }))
    }

    /// A session request: its id and packet (the three file descriptors
    /// follow it). The id is used up even when the packet is too long.
    pub fn new_session(&mut self, session: &Session) -> (r: Result<(u32, Vec<u8>), Error>)
        ensures
            final(self).next_id() == next_request_id(old(self).next_id()),
            match r {
                Ok((id, v)) => id == old(self).next_id() && v@ == framed(
                    new_session_body(id, *session),
                ),
                Err(e) => e == Error::FormatError(FormatError::TooLong) && new_session_body(
                    old(self).next_id(),
                    *session,
                ).len() > u32::MAX,
            },
    {
        let request_id = self.ids.get_request_id();
        match new_session_frame(request_id, session) {
            Ok(v) => Ok((request_id, v)),
            Err(e) => Err(Error::FormatError(e)),
        }
    }

    /// A request to open (or, with `close`, to close) a forwarding: its id
    /// and packet. The id is used up even when the packet is too long.
    pub fn forward(&mut self, fwd: &Fwd, close: bool) -> (r: Result<(u32, Vec<u8>), Error>)
        ensures
            final(self).next_id() == next_request_id(old(self).next_id()),
            match r {
                Ok((id, v)) => id == old(self).next_id() && v@ == framed(fwd_body(id, *fwd, close)),
                Err(e) => e == Error::FormatError(FormatError::TooLong) && fwd_body(
                    old(self).next_id(),
                    *fwd,
                    close,
                ).len() > u32::MAX,
            },
    {
        let request_id = self.ids.get_request_id();
        match fwd_frame(request_id, fwd, close) {
            Ok(v) => Ok((request_id, v)),
            Err(e) => Err(Error::FormatError(e)),
        }
    }
}

/// The forwarding a [`ForwardType`] stands for.
pub fn make_fwd(forward_type: ForwardType, listen_socket: Socket, connect_socket: Socket) -> (r: Fwd)
    ensures
        r == (match forward_type {
            ForwardType::Local => Fwd::Local { listen_socket, connect_socket },
            ForwardType::Remote => Fwd::Remote { listen_socket, connect_socket },
        }),
{
    match forward_type {
        ForwardType::Local => Fwd::Local { listen_socket, connect_socket },
        ForwardType::Remote => Fwd::Remote { listen_socket, connect_socket },
    }
}

/// Where the synchronous shutdown exchange stands.
#[derive(Debug, Clone, Copy, PartialEq, Eq)]
pub enum ShutdownStep {
    AwaitHello,
    AwaitStopListening,
    Done,
}

/// The blocking exchange that asks a mux master to stop listening: hello,
/// then `StopListening` with id 0, judged like any such request.
#[derive(Debug)]
pub struct MuxShutdown {
    pub step: ShutdownStep,
}

impl MuxShutdown {
    /// Starts the exchange; the packet to send is the hello.
    pub fn start() -> (r: (MuxShutdown, Vec<u8>))
        ensures
            r.0.step == ShutdownStep::AwaitHello,
            r.1@ == framed(request_body(Request::Hello { version: SSHMUX_VER })),
    {
        (MuxShutdown { step: ShutdownStep::AwaitHello }, MuxClient::hello_frame())
    }

    /// Takes the master's next response. After the hello it gives the
    /// `StopListening` packet to send; after that the exchange is done.
    /// On an error the exchange is over.
    pub fn on_response(&mut self, resp: Response) -> (r: Result<Option<Vec<u8>>, Error>)
        requires
            old(self).step != ShutdownStep::Done,
        ensures
            final(self).step == ShutdownStep::Done <==> (r is Err || r == Ok::<Option<Vec<u8>>, Error>(None)),
            old(self).step == ShutdownStep::AwaitHello ==> match r {
                Ok(Some(v)) => hello_outcome(resp@) is Ok && v@ == framed(
                    request_body(Request::StopListening { request_id: 0 }),
                ) && final(self).step == ShutdownStep::AwaitStopListening,
                Ok(None) => false,
                Err(e) => hello_outcome(resp@) == Err::<(), ErrorView>(e@),
            },
            old(self).step == ShutdownStep::AwaitStopListening ==> r is Err || r == Ok::<Option<Vec<u8>>, Error>(None),
            old(self).step == ShutdownStep::AwaitStopListening ==> match r {
                Ok(_) => ack_outcome(0, resp@) is Ok,
                Err(e) => ack_outcome(0, resp@) == Err::<(), ErrorView>(e@),
            },
    {
        match self.step {
            ShutdownStep::AwaitHello => match check_hello(resp) {
                Ok(()) => {
                    self.step = ShutdownStep::AwaitStopListening;
                    Ok(Some(frame_request(&Request::StopListening { request_id: 0 })))
                },
                Err(e) => {
                    self.step = ShutdownStep::Done;
                    Err(e)
                },
            },
            _ => {
                self.step = ShutdownStep::Done;
                match ack_result(0, resp) {
                    Ok(()) => Ok(None),
                    Err(e) => Err(e),
                }
            },
        }
    }
}

} // verus!
