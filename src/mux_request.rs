//! Requests of the control-socket multiplexing protocol (version 4) and
//! their wire form.
use vstd::prelude::*;

use crate::non_zero_bytes::{remove_nul_bytes_len, strip_nul, NonZeroByteVec};
use crate::wire::{
    enc_bool, enc_bytes, push_bool, push_bytes, push_u32, u32_be,
    FormatError,
};

verus! {

pub const SSHMUX_VER: u32 = 4;

pub const MUX_MSG_HELLO: u32 = 0x00000001;
pub const MUX_C_NEW_SESSION: u32 = 0x10000002;
pub const MUX_C_ALIVE_CHECK: u32 = 0x10000004;
pub const MUX_C_OPEN_FWD: u32 = 0x10000006;
pub const MUX_C_CLOSE_FWD: u32 = 0x10000007;
pub const MUX_C_STOP_LISTENING: u32 = 0x10000009;

pub const MUX_FWD_LOCAL: u32 = 1;
pub const MUX_FWD_REMOTE: u32 = 2;
pub const MUX_FWD_DYNAMIC: u32 = 3;

/// The port written for a unix socket: -2 as a `u32`.
pub const UNIX_SOCKET_PORT: u32 = 0xFFFFFFFE;

/// The escape character that disables escaping (`char::MAX`).
pub const ESCAPE_DISABLED: char = '\u{10FFFF}';

/// The fixed-size part of a session request.
#[derive(Debug, Clone, Copy, PartialEq, Eq)]
pub struct SessionZeroCopy {
    pub tty: bool,
    pub x11_forwarding: bool,
    pub agent: bool,
    pub subsystem: bool,
    pub escape_ch: char,
}

/// A request sent to the mux master.
#[derive(Debug, Clone, Copy, PartialEq, Eq)]
pub enum Request {
    /// Answered with `Response::Hello`.
    Hello { version: u32 },
    /// Answered with `Response::Alive`.
    AliveCheck { request_id: u32 },
    /// Opens a session; `term` and `cmd` follow the fixed part on the
    /// wire, then three file descriptors are passed.
    NewSession { request_id: u32, session: SessionZeroCopy },
    /// Answered with `Ok`, `RemotePort`, `PermissionDenied` or `Failure`.
    OpenFwd { request_id: u32, fwd_mode: u32 },
    /// Same shape as `OpenFwd`.
    CloseFwd { request_id: u32, fwd_mode: u32 },
    /// Asks the master to stop listening for new mux clients.
    StopListening { request_id: u32 },
}

/// The body of `r` (the type code and its fields), without what follows
/// the fixed part and without the length prefix.
pub open spec fn request_body(r: Request) -> Seq<u8> {
    match r {
        Request::Hello { version } => u32_be(MUX_MSG_HELLO) + u32_be(version),
        Request::AliveCheck { request_id } => u32_be(MUX_C_ALIVE_CHECK) + u32_be(request_id),
        Request::NewSession { request_id, session } => u32_be(MUX_C_NEW_SESSION) + u32_be(
            request_id,
        ) + enc_bytes(Seq::empty()) + enc_bool(session.tty) + enc_bool(session.x11_forwarding)
            + enc_bool(session.agent) + enc_bool(session.subsystem) + u32_be(
            session.escape_ch as u32,
        ),
        Request::OpenFwd { request_id, fwd_mode } => u32_be(MUX_C_OPEN_FWD) + u32_be(request_id)
            + u32_be(fwd_mode),
        Request::CloseFwd { request_id, fwd_mode } => u32_be(MUX_C_CLOSE_FWD) + u32_be(
            request_id,
        ) + u32_be(fwd_mode),
        Request::StopListening { request_id } => u32_be(MUX_C_STOP_LISTENING) + u32_be(
            request_id,
        ),
    }
}

/// A packet on the wire: the body's length, then the body.
pub open spec fn framed(body: Seq<u8>) -> Seq<u8> {
    u32_be(body.len() as u32) + body
}

impl Request {
    /// Appends the body of the request to `out`.
    pub fn serialize(&self, out: &mut Vec<u8>)
        ensures
            final(out)@ == old(out)@ + request_body(*self),
    {
        let ghost start = out@;
        match *self {
            Request::Hello { version } => {
                push_u32(out, MUX_MSG_HELLO);
                push_u32(out, version);
            },
            Request::AliveCheck { request_id } => {
                push_u32(out, MUX_C_ALIVE_CHECK);
                push_u32(out, request_id);
            },
            Request::NewSession { request_id, session } => {
                push_u32(out, MUX_C_NEW_SESSION);
                push_u32(out, request_id);
                push_u32(out, 0);
                proof {
                    assert(enc_bytes(Seq::empty()) =~= u32_be(0));
                }
                push_bool(out, session.tty);
                push_bool(out, session.x11_forwarding);
                push_bool(out, session.agent);
                push_bool(out, session.subsystem);
                push_u32(out, session.escape_ch as u32);
            },
            Request::OpenFwd { request_id, fwd_mode } => {
                push_u32(out, MUX_C_OPEN_FWD);
                push_u32(out, request_id);
                push_u32(out, fwd_mode);
            },
            Request::CloseFwd { request_id, fwd_mode } => {
                push_u32(out, MUX_C_CLOSE_FWD);
                push_u32(out, request_id);
                push_u32(out, fwd_mode);
            },
            Request::StopListening { request_id } => {
                push_u32(out, MUX_C_STOP_LISTENING);
                push_u32(out, request_id);
            },
        }
        assert(out@ =~= start + request_body(*self));
    }
}

/// The framed packet of a request without trailing fields (every request
/// but `NewSession` and the forwarding ones).
pub fn frame_request(req: &Request) -> (r: Vec<u8>)
    ensures
        r@ == framed(request_body(*req)),
{
    let mut body: Vec<u8> = Vec::new();
    req.serialize(&mut body);
    let mut out: Vec<u8> = Vec::new();
    push_u32(&mut out, body.len() as u32);
    let mut body = body;
    let ghost b = body@;
    out.append(&mut body);
    assert(out@ =~= framed(b));
    out
}

/// Options of a new session.
#[derive(Debug, Clone, PartialEq, Eq)]
pub struct Session {
    pub tty: bool,
    pub x11_forwarding: bool,
    pub agent: bool,
    pub subsystem: bool,
    /// [`ESCAPE_DISABLED`] disables the escape character.
    pub escape_ch: char,
    /// Generally `$TERM`.
    pub term: NonZeroByteVec,
    pub cmd: NonZeroByteVec,
}

impl Session {
    /// A session that runs `cmd`, with every flag off and escaping disabled.
    pub fn new(term: NonZeroByteVec, cmd: NonZeroByteVec) -> (r: Session)
        ensures
            !r.tty && !r.x11_forwarding && !r.agent && !r.subsystem,
            r.escape_ch == ESCAPE_DISABLED,
            r.term == term,
            r.cmd == cmd,
    {
        Session {
            tty: false,
            x11_forwarding: false,
            agent: false,
            subsystem: false,
            escape_ch: ESCAPE_DISABLED,
            term,
            cmd,
        }
    }

    /// The fixed-size part of the request.
    pub fn zero_copy(&self) -> (r: SessionZeroCopy)
        ensures
            r == session_zero_copy(*self),
    {
        SessionZeroCopy {
            tty: self.tty,
            x11_forwarding: self.x11_forwarding,
            agent: self.agent,
            subsystem: self.subsystem,
            escape_ch: self.escape_ch,
        }
    }
}

pub open spec fn session_zero_copy(s: Session) -> SessionZeroCopy {
    SessionZeroCopy {
        tty: s.tty,
        x11_forwarding: s.x11_forwarding,
        agent: s.agent,
        subsystem: s.subsystem,
        escape_ch: s.escape_ch,
    }
}

/// The body of a session request: the fixed part, then `term` and `cmd`.
pub open spec fn new_session_body(request_id: u32, s: Session) -> Seq<u8> {
    request_body(Request::NewSession { request_id, session: session_zero_copy(s) }) + enc_bytes(
        s.term@,
    ) + enc_bytes(s.cmd@)
}

/// The framed session request, or `TooLong` exactly when its body does not
/// fit a `u32` length.
pub fn new_session_frame(request_id: u32, session: &Session) -> (r: Result<Vec<u8>, FormatError>)
    ensures
        match r {
            Ok(v) => new_session_body(request_id, *session).len() <= u32::MAX && v@ == framed(
                new_session_body(request_id, *session),
            ),
            Err(e) => e == FormatError::TooLong && new_session_body(request_id, *session).len()
                > u32::MAX,
        },
{
    let term = session.term.as_bytes();
    let cmd = session.cmd.as_bytes();
    let ghost body = new_session_body(request_id, *session);
    if term.len() > 0xFFFF_FFFF - 40 || cmd.len() > 0xFFFF_FFFF - 40 - term.len() {
        assert(body.len() == 40 + term@.len() + cmd@.len());
        return Err(FormatError::TooLong);
    }
    let total: u32 = (40 + term.len() + cmd.len()) as u32;
    let mut out: Vec<u8> = Vec::new();
    push_u32(&mut out, total);
    let req = Request::NewSession { request_id, session: session.zero_copy() };
    req.serialize(&mut out);
    push_bytes(&mut out, term);
    push_bytes(&mut out, cmd);
    assert(body.len() == 40 + term@.len() + cmd@.len());
    assert(out@ =~= framed(body));
    Ok(out)
}

/// Which way a port is forwarded.
#[derive(Debug, Clone, Copy, PartialEq, Eq, Hash)]
pub enum ForwardType {
    Local,
    Remote,
}

/// An address the master listens on or connects to.
#[derive(Debug, Clone, PartialEq, Eq, Hash)]
pub enum Socket {
    /// A unix socket, by the bytes of its path.
    UnixSocket { path: Vec<u8> },
    /// A TCP endpoint.
    TcpSocket { port: u32, host: Vec<u8> },
}

/// The address bytes written for a socket (NUL bytes dropped).
pub open spec fn socket_addr(s: Socket) -> Seq<u8> {
    match s {
        Socket::UnixSocket { path } => strip_nul(path@),
        Socket::TcpSocket { host, .. } => strip_nul(host@),
    }
}

/// The port written for a socket.
pub open spec fn socket_port(s: Socket) -> u32 {
    match s {
        Socket::UnixSocket { .. } => UNIX_SOCKET_PORT,
        Socket::TcpSocket { port, .. } => port,
    }
}

impl Socket {
    /// The address and port as they go on the wire.
    pub fn as_serializable(&self) -> (r: (Vec<u8>, u32))
        ensures
            r.0@ == socket_addr(*self),
            r.1 == socket_port(*self),
            r.0@.len() <= match *self {
                Socket::UnixSocket { path } => path@.len(),
                Socket::TcpSocket { host, .. } => host@.len(),
            },
    {
        match self {
            Socket::UnixSocket { path } => (remove_nul_bytes_len(path.as_slice()), UNIX_SOCKET_PORT),
            Socket::TcpSocket { port, host } => (remove_nul_bytes_len(host.as_slice()), *port),
        }
    }
}

/// A forwarding, as sent in `OpenFwd` and `CloseFwd`.
#[derive(Debug, Clone, PartialEq, Eq)]
pub enum Fwd {
    Local { listen_socket: Socket, connect_socket: Socket },
    Remote { listen_socket: Socket, connect_socket: Socket },
    Dynamic { listen_socket: Socket },
}

pub open spec fn fwd_mode(f: Fwd) -> u32 {
    match f {
        Fwd::Local { .. } => MUX_FWD_LOCAL,
        Fwd::Remote { .. } => MUX_FWD_REMOTE,
        Fwd::Dynamic { .. } => MUX_FWD_DYNAMIC,
    }
}

pub open spec fn fwd_listen(f: Fwd) -> Socket {
    match f {
        Fwd::Local { listen_socket, .. } => listen_socket,
        Fwd::Remote { listen_socket, .. } => listen_socket,
        Fwd::Dynamic { listen_socket } => listen_socket,
    }
}

/// The connect side; a dynamic forwarding writes an empty unix path.
pub open spec fn fwd_connect_addr(f: Fwd) -> Seq<u8> {
    match f {
        Fwd::Local { connect_socket, .. } => socket_addr(connect_socket),
        Fwd::Remote { connect_socket, .. } => socket_addr(connect_socket),
        Fwd::Dynamic { .. } => Seq::empty(),
    }
}

pub open spec fn fwd_connect_port(f: Fwd) -> u32 {
    match f {
        Fwd::Local { connect_socket, .. } => socket_port(connect_socket),
        Fwd::Remote { connect_socket, .. } => socket_port(connect_socket),
        Fwd::Dynamic { .. } => UNIX_SOCKET_PORT,
    }
}

impl Fwd {
    /// The forwarding's mode, its listen socket and its connect socket
    /// (`None` stands for the empty unix path of a dynamic forwarding).
    pub fn as_serializable(&self) -> (r: (u32, &Socket, Option<&Socket>))
        ensures
            r.0 == fwd_mode(*self),
            *r.1 == fwd_listen(*self),
            r.2 is Some <==> !(*self is Dynamic),
            match *self {
                Fwd::Local { connect_socket, .. } => *r.2->Some_0 == connect_socket,
                Fwd::Remote { connect_socket, .. } => *r.2->Some_0 == connect_socket,
                Fwd::Dynamic { .. } => true,
            },
            match r.2 {
                Some(c) => fwd_connect_addr(*self) == socket_addr(*c) && fwd_connect_port(*self)
                    == socket_port(*c),
                None => fwd_connect_addr(*self) == Seq::<u8>::empty() && fwd_connect_port(*self)
                    == UNIX_SOCKET_PORT,
            },
    {
        match self {
            Fwd::Local { listen_socket, connect_socket } => (
                MUX_FWD_LOCAL,
                listen_socket,
                Some(connect_socket),
            ),
            Fwd::Remote { listen_socket, connect_socket } => (
                MUX_FWD_REMOTE,
                listen_socket,
                Some(connect_socket),
            ),
            Fwd::Dynamic { listen_socket } => (MUX_FWD_DYNAMIC, listen_socket, None),
        }
    }
}

/// The body of an `OpenFwd` (or, with `close`, a `CloseFwd`) request.
pub open spec fn fwd_body(request_id: u32, f: Fwd, close: bool) -> Seq<u8> {
    request_body(
        if close {
            Request::CloseFwd { request_id, fwd_mode: fwd_mode(f) }
        } else {
            Request::OpenFwd { request_id, fwd_mode: fwd_mode(f) }
        },
    ) + enc_bytes(socket_addr(fwd_listen(f))) + u32_be(socket_port(fwd_listen(f))) + enc_bytes(
        fwd_connect_addr(f),
    ) + u32_be(fwd_connect_port(f))
}

/// The framed forwarding request, or `TooLong` exactly when its body does
/// not fit a `u32` length.
pub fn fwd_frame(request_id: u32, fwd: &Fwd, close: bool) -> (r: Result<Vec<u8>, FormatError>)
    ensures
        match r {
            Ok(v) => fwd_body(request_id, *fwd, close).len() <= u32::MAX && v@ == framed(
                fwd_body(request_id, *fwd, close),
            ),
            Err(e) => e == FormatError::TooLong && fwd_body(request_id, *fwd, close).len()
                > u32::MAX,
        },
{
    let ghost body = fwd_body(request_id, *fwd, close);
    let (mode, listen, connect) = fwd.as_serializable();
    let (listen_addr, listen_port) = listen.as_serializable();
    let (connect_addr, connect_port) = match connect {
        Some(c) => c.as_serializable(),
        None => (Vec::new(), UNIX_SOCKET_PORT),
    };
    assert(connect_addr@ =~= fwd_connect_addr(*fwd));
    assert(body.len() == 28 + listen_addr@.len() + connect_addr@.len());
    if listen_addr.len() > 0xFFFF_FFFF - 28 || connect_addr.len() > 0xFFFF_FFFF - 28
        - listen_addr.len() {
        return Err(FormatError::TooLong);
    }
    let total: u32 = (28 + listen_addr.len() + connect_addr.len()) as u32;
    let mut out: Vec<u8> = Vec::new();
    push_u32(&mut out, total);
    let req = if close {
        Request::CloseFwd { request_id, fwd_mode: mode }
    } else {
        Request::OpenFwd { request_id, fwd_mode: mode }
    };
    req.serialize(&mut out);
    push_bytes(&mut out, listen_addr.as_slice());
    push_u32(&mut out, listen_port);
    push_bytes(&mut out, connect_addr.as_slice());
    push_u32(&mut out, connect_port);
    assert(out@ =~= framed(body));
    Ok(out)
}

impl Session {
    /// The session of an sftp client: the `sftp` subsystem, no terminal.
    pub fn sftp() -> (r: Session)
        ensures
            r.subsystem && !r.tty && !r.x11_forwarding && !r.agent,
            r.escape_ch == ESCAPE_DISABLED,
            r.term@ == Seq::<u8>::empty(),
            r.cmd@ == seq![115u8, 102u8, 116u8, 112u8],
            r.term.wf() && r.cmd.wf(),
    {
        let mut cmd = NonZeroByteVec::from_bytes_remove_nul(Vec::new());
        proof {
            assert(strip_nul(Seq::<u8>::empty()) =~= Seq::<u8>::empty());
        }
        let term = NonZeroByteVec::from_bytes_remove_nul(Vec::new());
        cmd.push(115);
        cmd.push(102);
        cmd.push(116);
        cmd.push(112);
        assert(cmd@ =~= seq![115u8, 102u8, 116u8, 112u8]);
        let mut s = Session::new(term, cmd);
        s.subsystem = true;
        s
    }
}

} // verus!
