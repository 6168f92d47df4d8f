//! Responses of the control-socket multiplexing protocol and their parser.
use vstd::prelude::*;

use crate::mux_request::MUX_MSG_HELLO;
use crate::wire::{
    enc_bytes, read_bytes, read_u32, take_bytes, take_u32, u32_be, lemma_take_bytes,
    lemma_take_u32, FormatError,
};

verus! {

pub const MUX_S_OK: u32 = 0x80000001;
pub const MUX_S_PERMISSION_DENIED: u32 = 0x80000002;
pub const MUX_S_FAILURE: u32 = 0x80000003;
pub const MUX_S_EXIT_MESSAGE: u32 = 0x80000004;
pub const MUX_S_ALIVE: u32 = 0x80000005;
pub const MUX_S_SESSION_OPENED: u32 = 0x80000006;
pub const MUX_S_REMOTE_PORT: u32 = 0x80000007;
pub const MUX_S_TTY_ALLOC_FAIL: u32 = 0x80000008;

/// A message from the mux master.
#[derive(Debug, Clone, PartialEq, Eq)]
pub enum Response {
    Hello { version: u32 },
    Alive { response_id: u32, server_pid: u32 },
    Success { response_id: u32 },
    Failure { response_id: u32, reason: Vec<u8> },
    PermissionDenied { response_id: u32, reason: Vec<u8> },
    SessionOpened { response_id: u32, session_id: u32 },
    ExitMessage { session_id: u32, exit_value: u32 },
    TtyAllocFail { session_id: u32 },
    RemotePort { response_id: u32, remote_port: u32 },
}

/// A [`Response`] with its reasons as byte sequences.
pub enum ResponseView {
    Hello { version: u32 },
    Alive { response_id: u32, server_pid: u32 },
    Success { response_id: u32 },
    Failure { response_id: u32, reason: Seq<u8> },
    PermissionDenied { response_id: u32, reason: Seq<u8> },
    SessionOpened { response_id: u32, session_id: u32 },
    ExitMessage { session_id: u32, exit_value: u32 },
    TtyAllocFail { session_id: u32 },
    RemotePort { response_id: u32, remote_port: u32 },
}

impl View for Response {
    type V = ResponseView;

    open spec fn view(&self) -> ResponseView {
        match self {
            Response::Hello { version } => ResponseView::Hello { version: *version },
            Response::Alive { response_id, server_pid } => ResponseView::Alive {
                response_id: *response_id,
                server_pid: *server_pid,
            },
            Response::Success { response_id } => ResponseView::Success { response_id: *response_id },
            Response::Failure { response_id, reason } => ResponseView::Failure {
                response_id: *response_id,
                reason: reason@,
            },
            Response::PermissionDenied { response_id, reason } => ResponseView::PermissionDenied {
                response_id: *response_id,
                reason: reason@,
            },
            Response::SessionOpened { response_id, session_id } => ResponseView::SessionOpened {
                response_id: *response_id,
                session_id: *session_id,
            },
            Response::ExitMessage { session_id, exit_value } => ResponseView::ExitMessage {
                session_id: *session_id,
                exit_value: *exit_value,
            },
            Response::TtyAllocFail { session_id } => ResponseView::TtyAllocFail {
                session_id: *session_id,
            },
            Response::RemotePort { response_id, remote_port } => ResponseView::RemotePort {
                response_id: *response_id,
                remote_port: *remote_port,
            },
        }
    }
}

/// The body of a response on the wire.
pub open spec fn response_body(r: ResponseView) -> Seq<u8> {
    match r {
        ResponseView::Hello { version } => u32_be(MUX_MSG_HELLO) + u32_be(version),
        ResponseView::Alive { response_id, server_pid } => u32_be(MUX_S_ALIVE) + u32_be(
            response_id,
        ) + u32_be(server_pid),
        ResponseView::Success { response_id } => u32_be(MUX_S_OK) + u32_be(response_id),
        ResponseView::Failure { response_id, reason } => u32_be(MUX_S_FAILURE) + u32_be(
            response_id,
        ) + enc_bytes(reason),
        ResponseView::PermissionDenied { response_id, reason } => u32_be(MUX_S_PERMISSION_DENIED)
            + u32_be(response_id) + enc_bytes(reason),
        ResponseView::SessionOpened { response_id, session_id } => u32_be(MUX_S_SESSION_OPENED)
            + u32_be(response_id) + u32_be(session_id),
        ResponseView::ExitMessage { session_id, exit_value } => u32_be(MUX_S_EXIT_MESSAGE)
            + u32_be(session_id) + u32_be(exit_value),
        ResponseView::TtyAllocFail { session_id } => u32_be(MUX_S_TTY_ALLOC_FAIL) + u32_be(
            session_id,
        ),
        ResponseView::RemotePort { response_id, remote_port } => u32_be(MUX_S_REMOTE_PORT)
            + u32_be(response_id) + u32_be(remote_port),
    }
}

/// A response is encodable when its reason fits a `u32` length.
pub open spec fn response_valid(r: ResponseView) -> bool {
    match r {
        ResponseView::Failure { reason, .. } => reason.len() <= u32::MAX,
        ResponseView::PermissionDenied { reason, .. } => reason.len() <= u32::MAX,
        _ => true,
    }
}

pub open spec fn known_response_code(code: u32) -> bool {
    code == MUX_MSG_HELLO || code == MUX_S_OK || code == MUX_S_PERMISSION_DENIED || code
        == MUX_S_FAILURE || code == MUX_S_EXIT_MESSAGE || code == MUX_S_ALIVE || code
        == MUX_S_SESSION_OPENED || code == MUX_S_REMOTE_PORT || code == MUX_S_TTY_ALLOC_FAIL
}

/// Two `u32` at `p`.
pub open spec fn take_two(s: Seq<u8>, p: int) -> Option<(u32, u32)> {
    match take_u32(s, p) {
        Some((a, q)) => match take_u32(s, q) {
            Some((b, _)) => Some((a, b)),
            None => None,
        },
        None => None,
    }
}

/// A `u32` and a string at `p`.
pub open spec fn take_id_reason(s: Seq<u8>, p: int) -> Option<(u32, Seq<u8>)> {
    match take_u32(s, p) {
        Some((a, q)) => match take_bytes(s, q) {
            Some((b, _)) => Some((a, b)),
            None => None,
        },
        None => None,
    }
}

/// The response whose fields start at `p`, given its type code. Bytes
/// after the fields are ignored.
pub open spec fn visit_response(code: u32, s: Seq<u8>, p: int) -> Option<ResponseView> {
    if code == MUX_MSG_HELLO {
        match take_u32(s, p) {
            Some((v, _)) => Some(ResponseView::Hello { version: v }),
            None => None,
        }
    } else if code == MUX_S_OK {
        match take_u32(s, p) {
            Some((v, _)) => Some(ResponseView::Success { response_id: v }),
            None => None,
        }
    } else if code == MUX_S_TTY_ALLOC_FAIL {
        match take_u32(s, p) {
            Some((v, _)) => Some(ResponseView::TtyAllocFail { session_id: v }),
            None => None,
        }
    } else if code == MUX_S_FAILURE {
        match take_id_reason(s, p) {
            Some((a, b)) => Some(ResponseView::Failure { response_id: a, reason: b }),
            None => None,
        }
    } else if code == MUX_S_PERMISSION_DENIED {
        match take_id_reason(s, p) {
            Some((a, b)) => Some(ResponseView::PermissionDenied { response_id: a, reason: b }),
            None => None,
        }
    } else if code == MUX_S_ALIVE {
        match take_two(s, p) {
            Some((a, b)) => Some(ResponseView::Alive { response_id: a, server_pid: b }),
            None => None,
        }
    } else if code == MUX_S_SESSION_OPENED {
        match take_two(s, p) {
            Some((a, b)) => Some(ResponseView::SessionOpened { response_id: a, session_id: b }),
            None => None,
        }
    } else if code == MUX_S_EXIT_MESSAGE {
        match take_two(s, p) {
            Some((a, b)) => Some(ResponseView::ExitMessage { session_id: a, exit_value: b }),
            None => None,
        }
    } else if code == MUX_S_REMOTE_PORT {
        match take_two(s, p) {
            Some((a, b)) => Some(ResponseView::RemotePort { response_id: a, remote_port: b }),
            None => None,
        }
    } else {
        None
    }
}

/// The response that a packet body holds, if any.
pub open spec fn parse_response(s: Seq<u8>) -> Option<ResponseView> {
    match take_u32(s, 0) {
        Some((code, p)) => visit_response(code, s, p),
        None => None,
    }
}

/// Parsing the encoding of a response gives it back, whatever follows it.
pub proof fn lemma_response_round_trip(r: ResponseView, trailing: Seq<u8>)
    requires
        response_valid(r),
    ensures
        parse_response(response_body(r) + trailing) == Some(r),
{
    let b = response_body(r);
    let s = b + trailing;
    assert(s.subrange(0, 4) =~= b.subrange(0, 4));
    match r {
        ResponseView::Failure { response_id, reason } => {
            assert(b.subrange(0, 4) =~= u32_be(MUX_S_FAILURE));
            lemma_take_u32(s, 0, MUX_S_FAILURE);
            assert(s.subrange(4, 8) =~= u32_be(response_id));
            lemma_take_u32(s, 4, response_id);
            assert(s.subrange(8, 12 + reason.len() as int) =~= enc_bytes(reason));
            lemma_take_bytes(s, 8, reason);
        },
        ResponseView::PermissionDenied { response_id, reason } => {
            assert(b.subrange(0, 4) =~= u32_be(MUX_S_PERMISSION_DENIED));
            lemma_take_u32(s, 0, MUX_S_PERMISSION_DENIED);
            assert(s.subrange(4, 8) =~= u32_be(response_id));
            lemma_take_u32(s, 4, response_id);
            assert(s.subrange(8, 12 + reason.len() as int) =~= enc_bytes(reason));
            lemma_take_bytes(s, 8, reason);
        },
        ResponseView::Hello { version } => {
            assert(b.subrange(0, 4) =~= u32_be(MUX_MSG_HELLO));
            lemma_take_u32(s, 0, MUX_MSG_HELLO);
            assert(s.subrange(4, 8) =~= u32_be(version));
            lemma_take_u32(s, 4, version);
        },
        ResponseView::Success { response_id } => {
            assert(b.subrange(0, 4) =~= u32_be(MUX_S_OK));
            lemma_take_u32(s, 0, MUX_S_OK);
            assert(s.subrange(4, 8) =~= u32_be(response_id));
            lemma_take_u32(s, 4, response_id);
        },
        ResponseView::TtyAllocFail { session_id } => {
            assert(b.subrange(0, 4) =~= u32_be(MUX_S_TTY_ALLOC_FAIL));
            lemma_take_u32(s, 0, MUX_S_TTY_ALLOC_FAIL);
            assert(s.subrange(4, 8) =~= u32_be(session_id));
            lemma_take_u32(s, 4, session_id);
        },
        ResponseView::Alive { response_id, server_pid } => {
            assert(s.subrange(0, 12) =~= u32_be(MUX_S_ALIVE) + u32_be(response_id) + u32_be(server_pid));
            lemma_two(s, MUX_S_ALIVE, response_id, server_pid);
        },
        ResponseView::SessionOpened { response_id, session_id } => {
            assert(s.subrange(0, 12) =~= u32_be(MUX_S_SESSION_OPENED) + u32_be(response_id) + u32_be(session_id));
            lemma_two(s, MUX_S_SESSION_OPENED, response_id, session_id);
        },
        ResponseView::ExitMessage { session_id, exit_value } => {
            assert(s.subrange(0, 12) =~= u32_be(MUX_S_EXIT_MESSAGE) + u32_be(session_id) + u32_be(exit_value));
            lemma_two(s, MUX_S_EXIT_MESSAGE, session_id, exit_value);
        },
        ResponseView::RemotePort { response_id, remote_port } => {
            assert(s.subrange(0, 12) =~= u32_be(MUX_S_REMOTE_PORT) + u32_be(response_id) + u32_be(remote_port));
            lemma_two(s, MUX_S_REMOTE_PORT, response_id, remote_port);
        },
    }
}

proof fn lemma_two(s: Seq<u8>, code: u32, a: u32, b: u32)
    requires
        s.len() >= 12,
        s.subrange(0, 12) == u32_be(code) + u32_be(a) + u32_be(b),
    ensures
        take_u32(s, 0) == Some((code, 4int)),
        take_two(s, 4) == Some((a, b)),
{
    let h = s.subrange(0, 12);
    assert(s.subrange(0, 4) =~= h.subrange(0, 4));
    assert(h.subrange(0, 4) =~= u32_be(code));
    lemma_take_u32(s, 0, code);
    assert(s.subrange(4, 8) =~= h.subrange(4, 8));
    assert(h.subrange(4, 8) =~= u32_be(a));
    lemma_take_u32(s, 4, a);
    assert(s.subrange(8, 12) =~= h.subrange(8, 12));
    assert(h.subrange(8, 12) =~= u32_be(b));
    lemma_take_u32(s, 8, b);
}

/// Reads two `u32` at `p`.
fn read_two(buf: &[u8], p: usize) -> (r: Option<(u32, u32)>)
    ensures
        match r {
            Some((a, b)) => take_two(buf@, p as int) == Some((a, b)),
            None => take_two(buf@, p as int) is None,
        },
{
    match read_u32(buf, p) {
        Some((a, q)) => match read_u32(buf, q) {
            Some((b, _)) => Some((a, b)),
            None => None,
        },
        None => None,
    }
}

/// Reads a `u32` and a string at `p`.
fn read_id_reason(buf: &[u8], p: usize) -> (r: Option<(u32, Vec<u8>)>)
    ensures
        match r {
            Some((a, b)) => take_id_reason(buf@, p as int) == Some((a, b@)),
            None => take_id_reason(buf@, p as int) is None,
        },
{
    match read_u32(buf, p) {
        Some((a, q)) => match read_bytes(buf, q) {
            Some((b, _)) => Some((a, b)),
            None => None,
        },
        None => None,
    }
}

/// Turns a type code and the fields after it into a [`Response`].
pub struct ResponseVisitor;

impl ResponseVisitor {
    /// The response of type `code` whose fields start at `pos` in `buf`.
    /// Fails with `UnknownPacketType` exactly on an unknown code, and with
    /// `Eof` when the fields are cut short.
    pub fn visit_enum(self, code: u32, buf: &[u8], pos: usize) -> (r: Result<
        Response,
        FormatError,
    >)
        ensures
            match r {
                Ok(v) => visit_response(code, buf@, pos as int) == Some(v@),
                Err(e) => visit_response(code, buf@, pos as int) is None && (e
                    == FormatError::UnknownPacketType <==> !known_response_code(code)) && (e
                    == FormatError::Eof <==> known_response_code(code)),
            },
    {
        if code == MUX_MSG_HELLO {
            match read_u32(buf, pos) {
                Some((v, _)) => Ok(Response::Hello { version: v }),
                None => Err(FormatError::Eof),
            }
        } else if code == MUX_S_OK {
            match read_u32(buf, pos) {
                Some((v, _)) => Ok(Response::Success { response_id: v }),
                None => Err(FormatError::Eof),
            }
        } else if code == MUX_S_TTY_ALLOC_FAIL {
            match read_u32(buf, pos) {
                Some((v, _)) => Ok(Response::TtyAllocFail { session_id: v }),
                None => Err(FormatError::Eof),
            }
        } else if code == MUX_S_FAILURE {
            match read_id_reason(buf, pos) {
                Some((a, b)) => Ok(Response::Failure { response_id: a, reason: b }),
                None => Err(FormatError::Eof),
            }
        } else if code == MUX_S_PERMISSION_DENIED {
            match read_id_reason(buf, pos) {
                Some((a, b)) => Ok(Response::PermissionDenied { response_id: a, reason: b }),
                None => Err(FormatError::Eof),
            }
        } else if code == MUX_S_ALIVE {
            match read_two(buf, pos) {
                Some((a, b)) => Ok(Response::Alive { response_id: a, server_pid: b }),
                None => Err(FormatError::Eof),
            }
        } else if code == MUX_S_SESSION_OPENED {
            match read_two(buf, pos) {
                Some((a, b)) => Ok(Response::SessionOpened { response_id: a, session_id: b }),
                None => Err(FormatError::Eof),
            }
        } else if code == MUX_S_EXIT_MESSAGE {
            match read_two(buf, pos) {
                Some((a, b)) => Ok(Response::ExitMessage { session_id: a, exit_value: b }),
                None => Err(FormatError::Eof),
            }
        } else if code == MUX_S_REMOTE_PORT {
            match read_two(buf, pos) {
                Some((a, b)) => Ok(Response::RemotePort { response_id: a, remote_port: b }),
                None => Err(FormatError::Eof),
            }
        } else {
            Err(FormatError::UnknownPacketType)
        }
    }
}

impl Response {
    /// Parses a packet body. Bytes after the fields are ignored, so that
    /// newer masters may append fields.
    pub fn from_bytes(buf: &[u8]) -> (r: Result<Response, FormatError>)
        ensures
            match r {
                Ok(v) => parse_response(buf@) == Some(v@),
                Err(_) => parse_response(buf@) is None,
            },
    {
        match read_u32(buf, 0) {
            Some((code, p)) => ResponseVisitor.visit_enum(code, buf, p),
            None => Err(FormatError::Eof),
        }
    }
}

} // verus!
