//! Packets that the proxy client receives, and their parser.
use vstd::prelude::*;

use crate::proxy_packet::{
    SSH_EXTENDED_DATA_STDERR, SSH_MSG_CHANNEL_CLOSE, SSH_MSG_CHANNEL_DATA, SSH_MSG_CHANNEL_EOF,
    SSH_MSG_CHANNEL_EXTENDED_DATA, SSH_MSG_CHANNEL_FAILURE, SSH_MSG_CHANNEL_OPEN,
    SSH_MSG_CHANNEL_OPEN_CONFIRMATION, SSH_MSG_CHANNEL_OPEN_FAILURE, SSH_MSG_CHANNEL_REQUEST,
    SSH_MSG_CHANNEL_SUCCESS, SSH_MSG_CHANNEL_WINDOW_ADJUST, SSH_MSG_REQUEST_FAILURE,
    SSH_MSG_REQUEST_SUCCESS, SSH_OPEN_ADMINISTRATIVELY_PROHIBITED, SSH_OPEN_CONNECT_FAILED,
    SSH_OPEN_RESOURCE_SHORTAGE, SSH_OPEN_UNKNOWN_CHANNEL_TYPE,
};
use crate::wire::{
    enc_bool, enc_bytes, lemma_take_bool, lemma_take_bytes, lemma_take_u32, u32_be, read_bool, read_bytes, read_u32, read_u8, take_bool, take_bytes, take_u32, take_u8,
    FormatError,
};

verus! {

/// Why the peer refused to open a channel.
#[derive(Debug, Clone, Copy, PartialEq, Eq)]
pub enum ErrorCode {
    AdministrativelyProhibited,
    ConnectFailed,
    UnknownChannelType,
    ResourceShortage,
    Unknown,
}

pub open spec fn error_code_of(code: u32) -> ErrorCode {
    if code == SSH_OPEN_ADMINISTRATIVELY_PROHIBITED {
        ErrorCode::AdministrativelyProhibited
    } else if code == SSH_OPEN_CONNECT_FAILED {
        ErrorCode::ConnectFailed
    } else if code == SSH_OPEN_UNKNOWN_CHANNEL_TYPE {
        ErrorCode::UnknownChannelType
    } else if code == SSH_OPEN_RESOURCE_SHORTAGE {
        ErrorCode::ResourceShortage
    } else {
        ErrorCode::Unknown
    }
}

impl ErrorCode {
    /// The reason a code on the wire stands for.
    pub fn from_code(code: u32) -> (r: ErrorCode)
        ensures
            r == error_code_of(code),
    {
        if code == SSH_OPEN_ADMINISTRATIVELY_PROHIBITED {
            ErrorCode::AdministrativelyProhibited
        } else if code == SSH_OPEN_CONNECT_FAILED {
            ErrorCode::ConnectFailed
        } else if code == SSH_OPEN_UNKNOWN_CHANNEL_TYPE {
            ErrorCode::UnknownChannelType
        } else if code == SSH_OPEN_RESOURCE_SHORTAGE {
            ErrorCode::ResourceShortage
        } else {
            ErrorCode::Unknown
        }
    }
}

/// A message and its language tag (RFC 1766).
#[derive(Debug, Clone, PartialEq, Eq)]
pub struct ErrMsg {
    message: Vec<u8>,
    language_tag: Vec<u8>,
}

pub struct ErrMsgView {
    pub message: Seq<u8>,
    pub language_tag: Seq<u8>,
}

impl View for ErrMsg {
    type V = ErrMsgView;

    closed spec fn view(&self) -> ErrMsgView {
        ErrMsgView { message: self.message@, language_tag: self.language_tag@ }
    }
}

impl ErrMsg {
    pub fn new(message: Vec<u8>, language_tag: Vec<u8>) -> (r: ErrMsg)
        ensures
            r@ == (ErrMsgView { message: message@, language_tag: language_tag@ }),
    {
        ErrMsg { message, language_tag }
    }

    /// Returns (message, language tag).
    pub fn get(&self) -> (r: (&[u8], &[u8]))
        ensures
            r.0@ == self@.message,
            r.1@ == self@.language_tag,
    {
        (self.message.as_slice(), self.language_tag.as_slice())
    }
}

/// The peer's refusal to open a channel.
#[derive(Debug, Clone, PartialEq, Eq)]
pub struct OpenFailure {
    pub error_code: ErrorCode,
    pub err_msg: ErrMsg,
}

pub struct OpenFailureView {
    pub error_code: ErrorCode,
    pub err_msg: ErrMsgView,
}

impl View for OpenFailure {
    type V = OpenFailureView;

    open spec fn view(&self) -> OpenFailureView {
        OpenFailureView { error_code: self.error_code, err_msg: self.err_msg@ }
    }
}

/// The peer accepted to open a channel.
#[derive(Debug, Clone, Copy, PartialEq, Eq)]
pub struct OpenConfirmation {
    pub sender_channel: u32,
    pub init_win_size: u32,
    pub max_packet_size: u32,
}

#[derive(Debug, Clone, Copy, PartialEq, Eq)]
pub enum ExtendedDataType {
    Stderr,
    Unknown,
}

/// A signal that killed the remote process.
#[derive(Debug, Clone, PartialEq, Eq)]
pub enum SignalName {
    Abrt,
    Alrm,
    Fpe,
    Hup,
    Ill,
    Int,
    Kill,
    Pipe,
    Quit,
    Segv,
    Term,
    Usr1,
    Usr2,
    /// Any other name, as sent.
    Extension(Vec<u8>),
}

pub enum SignalNameView {
    Known(SignalName),
    Extension(Seq<u8>),
}

impl View for SignalName {
    type V = SignalNameView;

    open spec fn view(&self) -> SignalNameView {
        match self {
            SignalName::Extension(n) => SignalNameView::Extension(n@),
            _ => SignalNameView::Known(*self),
        }
    }
}

#[derive(Debug, Clone, PartialEq, Eq)]
pub struct ExitSignal {
    pub signal_name: SignalName,
    pub core_dumped: bool,
    pub err_msg: ErrMsg,
}

pub struct ExitSignalView {
    pub signal_name: SignalNameView,
    pub core_dumped: bool,
    pub err_msg: ErrMsgView,
}

impl View for ExitSignal {
    type V = ExitSignalView;

    open spec fn view(&self) -> ExitSignalView {
        ExitSignalView {
            signal_name: self.signal_name@,
            core_dumped: self.core_dumped,
            err_msg: self.err_msg@,
        }
    }
}

/// A channel request sent by the peer.
#[derive(Debug, Clone, PartialEq, Eq)]
pub enum ChannelRequest {
    /// "exit-status": the process exited with this code.
    StatusCode(u32),
    /// "exit-signal": the process was killed.
    KilledBySignal(ExitSignal),
    Unknown,
}

pub enum ChannelRequestView {
    StatusCode(u32),
    KilledBySignal(ExitSignalView),
    Unknown,
}

impl View for ChannelRequest {
    type V = ChannelRequestView;

    open spec fn view(&self) -> ChannelRequestView {
        match self {
            ChannelRequest::StatusCode(c) => ChannelRequestView::StatusCode(*c),
            ChannelRequest::KilledBySignal(s) => ChannelRequestView::KilledBySignal(s@),
            ChannelRequest::Unknown => ChannelRequestView::Unknown,
        }
    }
}

/// A packet addressed to one channel.
#[derive(Debug, Clone, PartialEq, Eq)]
pub enum ChannelResponse {
    OpenConfirmation(OpenConfirmation),
    OpenFailure(OpenFailure),
    BytesAdjust { bytes_to_add: u32 },
    Data(Vec<u8>),
    ExtendedData { data_type: ExtendedDataType, data: Vec<u8> },
    Eof,
    Close,
    RequestSuccess,
    RequestFailure,
    Request(ChannelRequest),
}

pub enum ChannelResponseView {
    OpenConfirmation(OpenConfirmation),
    OpenFailure(OpenFailureView),
    BytesAdjust { bytes_to_add: u32 },
    Data(Seq<u8>),
    ExtendedData { data_type: ExtendedDataType, data: Seq<u8> },
    Eof,
    Close,
    RequestSuccess,
    RequestFailure,
    Request(ChannelRequestView),
}

impl View for ChannelResponse {
    type V = ChannelResponseView;

    open spec fn view(&self) -> ChannelResponseView {
        match self {
            ChannelResponse::OpenConfirmation(c) => ChannelResponseView::OpenConfirmation(*c),
            ChannelResponse::OpenFailure(f) => ChannelResponseView::OpenFailure(f@),
            ChannelResponse::BytesAdjust { bytes_to_add } => ChannelResponseView::BytesAdjust {
                bytes_to_add: *bytes_to_add,
            },
            ChannelResponse::Data(d) => ChannelResponseView::Data(d@),
            ChannelResponse::ExtendedData { data_type, data } => ChannelResponseView::ExtendedData {
                data_type: *data_type,
                data: data@,
            },
            ChannelResponse::Eof => ChannelResponseView::Eof,
            ChannelResponse::Close => ChannelResponseView::Close,
            ChannelResponse::RequestSuccess => ChannelResponseView::RequestSuccess,
            ChannelResponse::RequestFailure => ChannelResponseView::RequestFailure,
            ChannelResponse::Request(r) => ChannelResponseView::Request(r@),
        }
    }
}

/// A packet received by the proxy client.
#[derive(Debug, Clone, PartialEq, Eq)]
pub enum Response {
    GlobalRequestFailure,
    GlobalRequestSuccess,
    ChannelResponse { channel_response: ChannelResponse, recipient_channel: u32 },
    OpenChannelRequest,
}

pub enum ResponseView {
    GlobalRequestFailure,
    GlobalRequestSuccess,
    ChannelResponse { channel_response: ChannelResponseView, recipient_channel: u32 },
    OpenChannelRequest,
}

impl View for Response {
    type V = ResponseView;

    open spec fn view(&self) -> ResponseView {
        match self {
            Response::GlobalRequestFailure => ResponseView::GlobalRequestFailure,
            Response::GlobalRequestSuccess => ResponseView::GlobalRequestSuccess,
            Response::ChannelResponse { channel_response, recipient_channel } =>
                ResponseView::ChannelResponse {
                channel_response: channel_response@,
                recipient_channel: *recipient_channel,
            },
            Response::OpenChannelRequest => ResponseView::OpenChannelRequest,
        }
    }
}

/// "exit-status"
pub open spec fn exit_status_name() -> Seq<u8> {
    seq![101u8, 120u8, 105u8, 116u8, 45u8, 115u8, 116u8, 97u8, 116u8, 117u8, 115u8]
}

/// "exit-signal"
pub open spec fn exit_signal_name() -> Seq<u8> {
    seq![101u8, 120u8, 105u8, 116u8, 45u8, 115u8, 105u8, 103u8, 110u8, 97u8, 108u8]
}

/// The standard signal names, in the order of [`SignalName`]'s variants.
pub open spec fn signal_names() -> Seq<Seq<u8>> {
    seq![
        seq![65u8, 66u8, 82u8, 84u8],
        seq![65u8, 76u8, 82u8, 77u8],
        seq![70u8, 80u8, 69u8],
        seq![72u8, 85u8, 80u8],
        seq![73u8, 76u8, 76u8],
        seq![73u8, 78u8, 84u8],
        seq![75u8, 73u8, 76u8, 76u8],
        seq![80u8, 73u8, 80u8, 69u8],
        seq![81u8, 85u8, 73u8, 84u8],
        seq![83u8, 69u8, 71u8, 86u8],
        seq![84u8, 69u8, 82u8, 77u8],
        seq![85u8, 83u8, 82u8, 49u8],
        seq![85u8, 83u8, 82u8, 50u8],
    ]
}

pub open spec fn signal_at(i: int) -> SignalName {
    if i == 0 {
        SignalName::Abrt
    } else if i == 1 {
        SignalName::Alrm
    } else if i == 2 {
        SignalName::Fpe
    } else if i == 3 {
        SignalName::Hup
    } else if i == 4 {
        SignalName::Ill
    } else if i == 5 {
        SignalName::Int
    } else if i == 6 {
        SignalName::Kill
    } else if i == 7 {
        SignalName::Pipe
    } else if i == 8 {
        SignalName::Quit
    } else if i == 9 {
        SignalName::Segv
    } else if i == 10 {
        SignalName::Term
    } else if i == 11 {
        SignalName::Usr1
    } else {
        SignalName::Usr2
    }
}

/// The signal a name stands for (names without "SIG", as RFC 4254 sends
/// them).
pub open spec fn signal_of(name: Seq<u8>) -> SignalNameView {
    if exists|i: int| 0 <= i < 13 && signal_names()[i] == name {
        SignalNameView::Known(signal_at(choose|i: int| 0 <= i < 13 && signal_names()[i] == name))
    } else {
        SignalNameView::Extension(name)
    }
}

/// An error message and language tag at `p`.
pub open spec fn take_err_msg(s: Seq<u8>, p: int) -> Option<(ErrMsgView, int)> {
    match take_bytes(s, p) {
        Some((m, q)) => match take_bytes(s, q) {
            Some((t, e)) => Some((ErrMsgView { message: m, language_tag: t }, e)),
            None => None,
        },
        None => None,
    }
}

/// The channel request whose fields start at `p`.
pub open spec fn parse_channel_request(s: Seq<u8>, p: int) -> Option<ChannelRequestView> {
    match take_bytes(s, p) {
        Some((ty, q)) => match take_bool(s, q) {
            Some((_, d)) => if ty == exit_status_name() {
                match take_u32(s, d) {
                    Some((c, _)) => Some(ChannelRequestView::StatusCode(c)),
                    None => None,
                }
            } else if ty == exit_signal_name() {
                match take_bytes(s, d) {
                    Some((name, e)) => match take_bool(s, e) {
                        Some((core, f)) => match take_err_msg(s, f) {
                            Some((m, _)) => Some(
                                ChannelRequestView::KilledBySignal(
                                    ExitSignalView {
                                        signal_name: signal_of(name),
                                        core_dumped: core,
                                        err_msg: m,
                                    },
                                ),
                            ),
                            None => None,
                        },
                        None => None,
                    },
                    None => None,
                }
            } else {
                Some(ChannelRequestView::Unknown)
            },
            None => None,
        },
        None => None,
    }
}

/// The channel packet of type `ty` whose fields start at `p`.
pub open spec fn parse_channel_response(ty: u8, s: Seq<u8>, p: int) -> Option<
    ChannelResponseView,
> {
    if ty == SSH_MSG_CHANNEL_OPEN_CONFIRMATION {
        match take_u32(s, p) {
            Some((a, q)) => match take_u32(s, q) {
                Some((b, r)) => match take_u32(s, r) {
                    Some((c, _)) => Some(
                        ChannelResponseView::OpenConfirmation(
                            OpenConfirmation {
                                sender_channel: a,
                                init_win_size: b,
                                max_packet_size: c,
                            },
                        ),
                    ),
                    None => None,
                },
                None => None,
            },
            None => None,
        }
    } else if ty == SSH_MSG_CHANNEL_OPEN_FAILURE {
        match take_u32(s, p) {
            Some((c, q)) => match take_err_msg(s, q) {
                Some((m, _)) => Some(
                    ChannelResponseView::OpenFailure(
                        OpenFailureView { error_code: error_code_of(c), err_msg: m },
                    ),
                ),
                None => None,
            },
            None => None,
        }
    } else if ty == SSH_MSG_CHANNEL_WINDOW_ADJUST {
        match take_u32(s, p) {
            Some((n, _)) => Some(ChannelResponseView::BytesAdjust { bytes_to_add: n }),
            None => None,
        }
    } else if ty == SSH_MSG_CHANNEL_DATA {
        match take_bytes(s, p) {
            Some((d, _)) => Some(ChannelResponseView::Data(d)),
            None => None,
        }
    } else if ty == SSH_MSG_CHANNEL_EXTENDED_DATA {
        match take_u32(s, p) {
            Some((t, q)) => match take_bytes(s, q) {
                Some((d, _)) => Some(
                    ChannelResponseView::ExtendedData {
                        data_type: if t == SSH_EXTENDED_DATA_STDERR {
                            ExtendedDataType::Stderr
                        } else {
                            ExtendedDataType::Unknown
                        },
                        data: d,
                    },
                ),
                None => None,
            },
            None => None,
        }
    } else if ty == SSH_MSG_CHANNEL_EOF {
        Some(ChannelResponseView::Eof)
    } else if ty == SSH_MSG_CHANNEL_CLOSE {
        Some(ChannelResponseView::Close)
    } else if ty == SSH_MSG_CHANNEL_SUCCESS {
        Some(ChannelResponseView::RequestSuccess)
    } else if ty == SSH_MSG_CHANNEL_FAILURE {
        Some(ChannelResponseView::RequestFailure)
    } else if ty == SSH_MSG_CHANNEL_REQUEST {
        match parse_channel_request(s, p) {
            Some(r) => Some(ChannelResponseView::Request(r)),
            None => None,
        }
    } else {
        None
    }
}

/// The packet a body holds: padding length, type, then the fields.
/// Bytes after the fields are ignored.
pub open spec fn parse_proxy_response(s: Seq<u8>) -> Option<ResponseView> {
    match take_u8(s, 0) {
        Some((_, p)) => match take_u8(s, p) {
            Some((ty, q)) => if ty == SSH_MSG_REQUEST_SUCCESS {
                Some(ResponseView::GlobalRequestSuccess)
            } else if ty == SSH_MSG_REQUEST_FAILURE {
                Some(ResponseView::GlobalRequestFailure)
            } else if ty == SSH_MSG_CHANNEL_OPEN {
                Some(ResponseView::OpenChannelRequest)
            } else {
                match take_u32(s, q) {
                    Some((rc, r)) => match parse_channel_response(ty, s, r) {
                        Some(c) => Some(
                            ResponseView::ChannelResponse {
                                channel_response: c,
                                recipient_channel: rc,
                            },
                        ),
                        None => None,
                    },
                    None => None,
                }
            },
            None => None,
        },
        None => None,
    }
}

fn bytes_eq(a: &[u8], b: &[u8]) -> (r: bool)
    ensures
        r == (a@ == b@),
{
    if a.len() != b.len() {
        return false;
    }
    let mut i: usize = 0;
    while i < a.len()
        invariant
            a@.len() == b@.len(),
            i <= a@.len(),
            forall|j: int| 0 <= j < i ==> a@[j] == b@[j],
        decreases a@.len() - i,
    {
        if a[i] != b[i] {
            return false;
        }
        i += 1;
    }
    assert(a@ =~= b@);
    true
}

/// The standard name at `i`.
fn signal_name_bytes(i: usize) -> (r: Vec<u8>)
    requires
        i < 13,
    ensures
        r@ == signal_names()[i as int],
{
    let mut r: Vec<u8> = Vec::new();
    if i == 0 {
        r.push(65); r.push(66); r.push(82); r.push(84);
    } else if i == 1 {
        r.push(65); r.push(76); r.push(82); r.push(77);
    } else if i == 2 {
        r.push(70); r.push(80); r.push(69);
    } else if i == 3 {
        r.push(72); r.push(85); r.push(80);
    } else if i == 4 {
        r.push(73); r.push(76); r.push(76);
    } else if i == 5 {
        r.push(73); r.push(78); r.push(84);
    } else if i == 6 {
        r.push(75); r.push(73); r.push(76); r.push(76);
    } else if i == 7 {
        r.push(80); r.push(73); r.push(80); r.push(69);
    } else if i == 8 {
        r.push(81); r.push(85); r.push(73); r.push(84);
    } else if i == 9 {
        r.push(83); r.push(69); r.push(71); r.push(86);
    } else if i == 10 {
        r.push(84); r.push(69); r.push(82); r.push(77);
    } else if i == 11 {
        r.push(85); r.push(83); r.push(82); r.push(49);
    } else {
        r.push(85); r.push(83); r.push(82); r.push(50);
    }
    assert(r@ =~= signal_names()[i as int]);
    r
}

fn signal_variant(i: usize) -> (r: SignalName)
    requires
        i < 13,
    ensures
        r == signal_at(i as int),
{
    if i == 0 {
        SignalName::Abrt
    } else if i == 1 {
        SignalName::Alrm
    } else if i == 2 {
        SignalName::Fpe
    } else if i == 3 {
        SignalName::Hup
    } else if i == 4 {
        SignalName::Ill
    } else if i == 5 {
        SignalName::Int
    } else if i == 6 {
        SignalName::Kill
    } else if i == 7 {
        SignalName::Pipe
    } else if i == 8 {
        SignalName::Quit
    } else if i == 9 {
        SignalName::Segv
    } else if i == 10 {
        SignalName::Term
    } else if i == 11 {
        SignalName::Usr1
    } else {
        SignalName::Usr2
    }
}

proof fn lemma_signal_names_distinct()
    ensures
        forall|i: int, j: int|
            0 <= i < 13 && 0 <= j < 13 && #[trigger] signal_names()[i] == #[trigger] signal_names()[j]
                ==> i == j,
{
    assert forall|i: int, j: int|
        0 <= i < 13 && 0 <= j < 13 && #[trigger] signal_names()[i] == #[trigger] signal_names()[j]
            implies i == j by {
        if i != j {
            let a = signal_names()[i];
            let b = signal_names()[j];
            assert(a.len() != b.len() || a[0] != b[0] || a[1] != b[1] || a[2] != b[2] || a[3]
                != b[3]);
        }
    }
}

impl SignalName {
    /// The signal a name stands for.
    pub fn from_name(name: Vec<u8>) -> (r: SignalName)
        ensures
            r@ == signal_of(name@),
    {
        let mut i: usize = 0;
        while i < 13
            invariant
                i <= 13,
                forall|j: int| 0 <= j < i ==> signal_names()[j] != name@,
            decreases 13 - i,
        {
            let candidate = signal_name_bytes(i);
            if bytes_eq(candidate.as_slice(), name.as_slice()) {
                proof {
                    lemma_signal_names_distinct();
                    let k = choose|k: int| 0 <= k < 13 && signal_names()[k] == name@;
                    assert(signal_names()[k] == signal_names()[i as int]);
                }
                return signal_variant(i);
            }
            i += 1;
        }
        SignalName::Extension(name)
    }
}

fn read_err_msg(buf: &[u8], p: usize) -> (r: Option<(ErrMsg, usize)>)
    ensures
        match r {
            Some((m, e)) => take_err_msg(buf@, p as int) == Some((m@, e as int)),
            None => take_err_msg(buf@, p as int) is None,
        },
{
    match read_bytes(buf, p) {
        Some((m, q)) => match read_bytes(buf, q) {
            Some((t, e)) => Some((ErrMsg::new(m, t), e)),
            None => None,
        },
        None => None,
    }
}

fn read_exit_status_name(ty: &[u8]) -> (r: bool)
    ensures
        r == (ty@ == exit_status_name()),
{
    let a: [u8; 11] = [101, 120, 105, 116, 45, 115, 116, 97, 116, 117, 115];
    assert(a@ =~= exit_status_name());
    bytes_eq(ty, a.as_slice())
}

fn read_exit_signal_name(ty: &[u8]) -> (r: bool)
    ensures
        r == (ty@ == exit_signal_name()),
{
    let a: [u8; 11] = [101, 120, 105, 116, 45, 115, 105, 103, 110, 97, 108];
    assert(a@ =~= exit_signal_name());
    bytes_eq(ty, a.as_slice())
}

impl ChannelRequest {
    /// Parses the channel request whose fields start at `p`.
    pub fn from_bytes(buf: &[u8], p: usize) -> (r: Result<ChannelRequest, FormatError>)
        ensures
            match r {
                Ok(v) => parse_channel_request(buf@, p as int) == Some(v@),
                Err(_) => parse_channel_request(buf@, p as int) is None,
            },
    {
        let (ty, q) = match read_bytes(buf, p) {
            Some(x) => x,
            None => return Err(FormatError::Eof),
        };
        let (_, d) = read_bool(buf, q)?;
        if read_exit_status_name(ty.as_slice()) {
            match read_u32(buf, d) {
                Some((c, _)) => Ok(ChannelRequest::StatusCode(c)),
                None => Err(FormatError::Eof),
            }
        } else if read_exit_signal_name(ty.as_slice()) {
            let (name, e) = match read_bytes(buf, d) {
                Some(x) => x,
                None => return Err(FormatError::Eof),
            };
            let (core, f) = read_bool(buf, e)?;
            match read_err_msg(buf, f) {
                Some((m, _)) => Ok(
                    ChannelRequest::KilledBySignal(
                        ExitSignal {
                            signal_name: SignalName::from_name(name),
                            core_dumped: core,
                            err_msg: m,
                        },
                    ),
                ),
                None => Err(FormatError::Eof),
            }
        } else {
            Ok(ChannelRequest::Unknown)
        }
    }
}

impl ChannelResponse {
    /// Parses a channel packet of type `ty` whose fields start at `p`.
    pub fn from_packet(ty: u8, buf: &[u8], p: usize) -> (r: Result<ChannelResponse, FormatError>)
        ensures
            match r {
                Ok(v) => parse_channel_response(ty, buf@, p as int) == Some(v@),
                Err(_) => parse_channel_response(ty, buf@, p as int) is None,
            },
    {
        if ty == SSH_MSG_CHANNEL_OPEN_CONFIRMATION {
            match read_u32(buf, p) {
                Some((a, q)) => match read_u32(buf, q) {
                    Some((b, r)) => match read_u32(buf, r) {
                        Some((c, _)) => Ok(
                            ChannelResponse::OpenConfirmation(
                                OpenConfirmation {
                                    sender_channel: a,
                                    init_win_size: b,
                                    max_packet_size: c,
                                },
                            ),
                        ),
                        None => Err(FormatError::Eof),
                    },
                    None => Err(FormatError::Eof),
                },
                None => Err(FormatError::Eof),
            }
        } else if ty == SSH_MSG_CHANNEL_OPEN_FAILURE {
            match read_u32(buf, p) {
                Some((c, q)) => match read_err_msg(buf, q) {
                    Some((m, _)) => Ok(
                        ChannelResponse::OpenFailure(
                            OpenFailure { error_code: ErrorCode::from_code(c), err_msg: m },
                        ),
                    ),
                    None => Err(FormatError::Eof),
                },
                None => Err(FormatError::Eof),
            }
        } else if ty == SSH_MSG_CHANNEL_WINDOW_ADJUST {
            match read_u32(buf, p) {
                Some((n, _)) => Ok(ChannelResponse::BytesAdjust { bytes_to_add: n }),
                None => Err(FormatError::Eof),
            }
        } else if ty == SSH_MSG_CHANNEL_DATA {
            match read_bytes(buf, p) {
                Some((d, _)) => Ok(ChannelResponse::Data(d)),
                None => Err(FormatError::Eof),
            }
        } else if ty == SSH_MSG_CHANNEL_EXTENDED_DATA {
            match read_u32(buf, p) {
                Some((t, q)) => match read_bytes(buf, q) {
                    Some((d, _)) => Ok(
                        ChannelResponse::ExtendedData {
                            data_type: if t == SSH_EXTENDED_DATA_STDERR {
                                ExtendedDataType::Stderr
                            } else {
                                ExtendedDataType::Unknown
                            },
                            data: d,
                        },
                    ),
                    None => Err(FormatError::Eof),
                },
                None => Err(FormatError::Eof),
            }
        } else if ty == SSH_MSG_CHANNEL_EOF {
            Ok(ChannelResponse::Eof)
        } else if ty == SSH_MSG_CHANNEL_CLOSE {
            Ok(ChannelResponse::Close)
        } else if ty == SSH_MSG_CHANNEL_SUCCESS {
            Ok(ChannelResponse::RequestSuccess)
        } else if ty == SSH_MSG_CHANNEL_FAILURE {
            Ok(ChannelResponse::RequestFailure)
        } else if ty == SSH_MSG_CHANNEL_REQUEST {
            match ChannelRequest::from_bytes(buf, p) {
                Ok(r) => Ok(ChannelResponse::Request(r)),
                Err(e) => Err(e),
            }
        } else {
            Err(FormatError::UnknownPacketType)
        }
    }
}

impl Response {
    /// Parses a packet body (what follows the length prefix).
    pub fn from_bytes(buf: &[u8]) -> (r: Result<Response, FormatError>)
        ensures
            match r {
                Ok(v) => parse_proxy_response(buf@) == Some(v@),
                Err(_) => parse_proxy_response(buf@) is None,
            },
    {
        let (_, p) = match read_u8(buf, 0) {
            Some(x) => x,
            None => return Err(FormatError::Eof),
        };
        let (ty, q) = match read_u8(buf, p) {
            Some(x) => x,
            None => return Err(FormatError::Eof),
        };
        if ty == SSH_MSG_REQUEST_SUCCESS {
            Ok(Response::GlobalRequestSuccess)
        } else if ty == SSH_MSG_REQUEST_FAILURE {
            Ok(Response::GlobalRequestFailure)
        } else if ty == SSH_MSG_CHANNEL_OPEN {
            Ok(Response::OpenChannelRequest)
        } else {
            let (rc, r) = match read_u32(buf, q) {
                Some(x) => x,
                None => return Err(FormatError::Eof),
            };
            let c = ChannelResponse::from_packet(ty, buf, r)?;
            Ok(Response::ChannelResponse { channel_response: c, recipient_channel: rc })
        }
    }
}

/// The wire code of a refusal reason (0 for one this client does not know).
pub open spec fn error_code_value(c: ErrorCode) -> u32 {
    match c {
        ErrorCode::AdministrativelyProhibited => SSH_OPEN_ADMINISTRATIVELY_PROHIBITED,
        ErrorCode::ConnectFailed => SSH_OPEN_CONNECT_FAILED,
        ErrorCode::UnknownChannelType => SSH_OPEN_UNKNOWN_CHANNEL_TYPE,
        ErrorCode::ResourceShortage => SSH_OPEN_RESOURCE_SHORTAGE,
        ErrorCode::Unknown => 0,
    }
}

pub open spec fn signal_index(s: SignalName) -> int {
    match s {
        SignalName::Abrt => 0,
        SignalName::Alrm => 1,
        SignalName::Fpe => 2,
        SignalName::Hup => 3,
        SignalName::Ill => 4,
        SignalName::Int => 5,
        SignalName::Kill => 6,
        SignalName::Pipe => 7,
        SignalName::Quit => 8,
        SignalName::Segv => 9,
        SignalName::Term => 10,
        SignalName::Usr1 => 11,
        SignalName::Usr2 => 12,
        SignalName::Extension(_) => 13,
    }
}

/// The name written for a signal.
pub open spec fn signal_bytes(s: SignalNameView) -> Seq<u8> {
    match s {
        SignalNameView::Known(k) => signal_names()[signal_index(k)],
        SignalNameView::Extension(n) => n,
    }
}

pub open spec fn err_msg_bytes(m: ErrMsgView) -> Seq<u8> {
    enc_bytes(m.message) + enc_bytes(m.language_tag)
}

pub open spec fn err_msg_valid(m: ErrMsgView) -> bool {
    m.message.len() <= u32::MAX && m.language_tag.len() <= u32::MAX
}

/// The type code of a channel packet.
pub open spec fn channel_packet_type(r: ChannelResponseView) -> u8 {
    match r {
        ChannelResponseView::OpenConfirmation(_) => SSH_MSG_CHANNEL_OPEN_CONFIRMATION,
        ChannelResponseView::OpenFailure(_) => SSH_MSG_CHANNEL_OPEN_FAILURE,
        ChannelResponseView::BytesAdjust { .. } => SSH_MSG_CHANNEL_WINDOW_ADJUST,
        ChannelResponseView::Data(_) => SSH_MSG_CHANNEL_DATA,
        ChannelResponseView::ExtendedData { .. } => SSH_MSG_CHANNEL_EXTENDED_DATA,
        ChannelResponseView::Eof => SSH_MSG_CHANNEL_EOF,
        ChannelResponseView::Close => SSH_MSG_CHANNEL_CLOSE,
        ChannelResponseView::RequestSuccess => SSH_MSG_CHANNEL_SUCCESS,
        ChannelResponseView::RequestFailure => SSH_MSG_CHANNEL_FAILURE,
        ChannelResponseView::Request(_) => SSH_MSG_CHANNEL_REQUEST,
    }
}

/// The fields of a channel packet after the recipient channel. An unknown
/// request is written with an empty request type.
pub open spec fn channel_fields(r: ChannelResponseView) -> Seq<u8> {
    match r {
        ChannelResponseView::OpenConfirmation(o) => u32_be(o.sender_channel) + u32_be(
            o.init_win_size,
        ) + u32_be(o.max_packet_size),
        ChannelResponseView::OpenFailure(f) => u32_be(error_code_value(f.error_code))
            + err_msg_bytes(f.err_msg),
        ChannelResponseView::BytesAdjust { bytes_to_add } => u32_be(bytes_to_add),
        ChannelResponseView::Data(d) => enc_bytes(d),
        ChannelResponseView::ExtendedData { data_type, data } => u32_be(
            if data_type == ExtendedDataType::Stderr {
                SSH_EXTENDED_DATA_STDERR
            } else {
                0
            },
        ) + enc_bytes(data),
        ChannelResponseView::Request(q) => match q {
            ChannelRequestView::StatusCode(c) => enc_bytes(exit_status_name()) + enc_bool(false)
                + u32_be(c),
            ChannelRequestView::KilledBySignal(sig) => enc_bytes(exit_signal_name()) + enc_bool(
                false,
            ) + enc_bytes(signal_bytes(sig.signal_name)) + enc_bool(sig.core_dumped)
                + err_msg_bytes(sig.err_msg),
            ChannelRequestView::Unknown => enc_bytes(Seq::empty()) + enc_bool(false),
        },
        _ => Seq::empty(),
    }
}

/// The body of an inbound packet.
pub open spec fn proxy_response_body(r: ResponseView) -> Seq<u8> {
    match r {
        ResponseView::GlobalRequestSuccess => seq![0u8, SSH_MSG_REQUEST_SUCCESS],
        ResponseView::GlobalRequestFailure => seq![0u8, SSH_MSG_REQUEST_FAILURE],
        ResponseView::OpenChannelRequest => seq![0u8, SSH_MSG_CHANNEL_OPEN],
        ResponseView::ChannelResponse { channel_response, recipient_channel } => seq![
            0u8,
            channel_packet_type(channel_response),
        ] + u32_be(recipient_channel) + channel_fields(channel_response),
    }
}

/// A packet that has one encoding: strings fit a `u32` length, and a
/// signal is either a standard one or a name no standard one has.
pub open spec fn proxy_response_valid(r: ResponseView) -> bool {
    match r {
        ResponseView::ChannelResponse { channel_response, .. } => match channel_response {
            ChannelResponseView::OpenFailure(f) => err_msg_valid(f.err_msg),
            ChannelResponseView::Data(d) => d.len() <= u32::MAX,
            ChannelResponseView::ExtendedData { data, .. } => data.len() <= u32::MAX,
            ChannelResponseView::Request(ChannelRequestView::KilledBySignal(sig)) => {
                &&& err_msg_valid(sig.err_msg)
                &&& match sig.signal_name {
                    SignalNameView::Known(k) => !(k is Extension),
                    SignalNameView::Extension(n) => n.len() <= u32::MAX && forall|i: int|
                        0 <= i < 13 ==> signal_names()[i] != n,
                }
            },
            _ => true,
        },
        _ => true,
    }
}

proof fn lemma_err_msg_at(s: Seq<u8>, p: int, m: ErrMsgView)
    requires
        0 <= p,
        err_msg_valid(m),
        p + err_msg_bytes(m).len() <= s.len(),
        s.subrange(p, p + err_msg_bytes(m).len()) == err_msg_bytes(m),
    ensures
        take_err_msg(s, p) == Some((m, p + err_msg_bytes(m).len())),
{
    let a = m.message.len() as int;
    let b = m.language_tag.len() as int;
    let w = s.subrange(p, p + 8 + a + b);
    assert(s.subrange(p, p + 4 + a) =~= w.subrange(0, 4 + a));
    assert(w.subrange(0, 4 + a) =~= enc_bytes(m.message));
    lemma_take_bytes(s, p, m.message);
    assert(s.subrange(p + 4 + a, p + 8 + a + b) =~= w.subrange(4 + a, 8 + a + b));
    assert(w.subrange(4 + a, 8 + a + b) =~= enc_bytes(m.language_tag));
    lemma_take_bytes(s, p + 4 + a, m.language_tag);
}

proof fn lemma_signal_round_trip(n: SignalNameView)
    requires
        match n {
            SignalNameView::Known(k) => !(k is Extension),
            SignalNameView::Extension(x) => forall|i: int| 0 <= i < 13 ==> signal_names()[i] != x,
        },
    ensures
        signal_of(signal_bytes(n)) == n,
{
    match n {
        SignalNameView::Known(k) => {
            let i = signal_index(k);
            assert(0 <= i < 13);
            assert(signal_names()[i] == signal_bytes(n));
            lemma_signal_names_distinct();
            let j = choose|j: int| 0 <= j < 13 && signal_names()[j] == signal_bytes(n);
            assert(signal_names()[j] == signal_names()[i]);
            assert(j == i);
            assert(signal_at(i) == k);
        },
        SignalNameView::Extension(x) => {},
    }
}

/// The validity of a channel packet alone.
pub open spec fn channel_response_valid(cr: ChannelResponseView) -> bool {
    proxy_response_valid(ResponseView::ChannelResponse { channel_response: cr, recipient_channel: 0 })
}

proof fn lemma_status_request(s: Seq<u8>, code: u32)
    requires
        s.len() >= 29,
        s.subrange(6, 29) == enc_bytes(exit_status_name()) + enc_bool(false) + u32_be(code),
    ensures
        parse_channel_request(s, 6) == Some(ChannelRequestView::StatusCode(code)),
{
    let f = s.subrange(6, 29);
    assert(s.subrange(6, 21) =~= f.subrange(0, 15));
    assert(f.subrange(0, 15) =~= enc_bytes(exit_status_name()));
    lemma_take_bytes(s, 6, exit_status_name());
    assert(s.subrange(21, 25) =~= f.subrange(15, 19));
    assert(f.subrange(15, 19) =~= enc_bool(false));
    lemma_take_bool(s, 21, false);
    assert(s.subrange(25, 29) =~= f.subrange(19, 23));
    assert(f.subrange(19, 23) =~= u32_be(code));
    lemma_take_u32(s, 25, code);
}

#[verifier::rlimit(60)]
proof fn lemma_signal_request(s: Seq<u8>, sig: ExitSignalView)
    requires
        channel_response_valid(ChannelResponseView::Request(ChannelRequestView::KilledBySignal(sig))),
        s.len() >= 6 + channel_fields(ChannelResponseView::Request(ChannelRequestView::KilledBySignal(sig))).len(),
        s.subrange(6, 6 + channel_fields(ChannelResponseView::Request(ChannelRequestView::KilledBySignal(sig))).len() as int)
            == channel_fields(ChannelResponseView::Request(ChannelRequestView::KilledBySignal(sig))),
    ensures
        parse_channel_request(s, 6) == Some(ChannelRequestView::KilledBySignal(sig)),
{
    let f = channel_fields(ChannelResponseView::Request(ChannelRequestView::KilledBySignal(sig)));
    assert(s.subrange(6, 21) =~= f.subrange(0, 15));
    assert(f.subrange(0, 15) =~= enc_bytes(exit_signal_name()));
    lemma_take_bytes(s, 6, exit_signal_name());
    assert(s.subrange(21, 25) =~= f.subrange(15, 19));
    assert(f.subrange(15, 19) =~= enc_bool(false));
    lemma_take_bool(s, 21, false);
    let nb = signal_bytes(sig.signal_name);
    let n = nb.len() as int;
    assert(n <= u32::MAX) by {
        if sig.signal_name is Known {
            assert(signal_names()[signal_index(sig.signal_name->Known_0)].len() <= 4);
        }
    }
    assert(s.subrange(25, 29 + n) =~= f.subrange(19, 23 + n));
    assert(f.subrange(19, 23 + n) =~= enc_bytes(nb));
    lemma_take_bytes(s, 25, nb);
    assert(s.subrange(29 + n, 33 + n) =~= f.subrange(23 + n, 27 + n));
    assert(f.subrange(23 + n, 27 + n) =~= enc_bool(sig.core_dumped));
    lemma_take_bool(s, 29 + n, sig.core_dumped);
    let m = err_msg_bytes(sig.err_msg);
    assert(s.subrange(33 + n, 33 + n + m.len() as int) =~= f.subrange(27 + n, 27 + n + m.len() as int));
    assert(f.subrange(27 + n, 27 + n + m.len() as int) =~= m);
    lemma_err_msg_at(s, 33 + n, sig.err_msg);
    lemma_signal_round_trip(sig.signal_name);
}

proof fn lemma_unknown_request(s: Seq<u8>)
    requires
        s.len() >= 14,
        s.subrange(6, 14) == enc_bytes(Seq::<u8>::empty()) + enc_bool(false),
    ensures
        parse_channel_request(s, 6) == Some(ChannelRequestView::Unknown),
{
    let f = s.subrange(6, 14);
    assert(s.subrange(6, 10) =~= f.subrange(0, 4));
    assert(f.subrange(0, 4) =~= enc_bytes(Seq::<u8>::empty()));
    lemma_take_bytes(s, 6, Seq::<u8>::empty());
    assert(s.subrange(10, 14) =~= f.subrange(4, 8));
    assert(f.subrange(4, 8) =~= enc_bool(false));
    lemma_take_bool(s, 10, false);
    assert(Seq::<u8>::empty().len() != exit_status_name().len());
    assert(Seq::<u8>::empty().len() != exit_signal_name().len());
}

proof fn lemma_request_fields(s: Seq<u8>, q: ChannelRequestView)
    requires
        channel_response_valid(ChannelResponseView::Request(q)),
        s.len() >= 6 + channel_fields(ChannelResponseView::Request(q)).len(),
        s.subrange(6, 6 + channel_fields(ChannelResponseView::Request(q)).len() as int)
            == channel_fields(ChannelResponseView::Request(q)),
    ensures
        parse_channel_request(s, 6) == Some(q),
{
    match q {
        ChannelRequestView::StatusCode(code) => lemma_status_request(s, code),
        ChannelRequestView::KilledBySignal(sig) => lemma_signal_request(s, sig),
        ChannelRequestView::Unknown => lemma_unknown_request(s),
    }
}

#[verifier::rlimit(40)]
proof fn lemma_channel_fields(s: Seq<u8>, cr: ChannelResponseView)
    requires
        channel_response_valid(cr),
        s.len() >= 6 + channel_fields(cr).len(),
        s.subrange(6, 6 + channel_fields(cr).len() as int) == channel_fields(cr),
    ensures
        parse_channel_response(channel_packet_type(cr), s, 6) == Some(cr),
{
    let f = channel_fields(cr);
    match cr {
        ChannelResponseView::OpenConfirmation(o) => {
            assert(s.subrange(6, 10) =~= f.subrange(0, 4));
            assert(f.subrange(0, 4) =~= u32_be(o.sender_channel));
            lemma_take_u32(s, 6, o.sender_channel);
            assert(s.subrange(10, 14) =~= f.subrange(4, 8));
            assert(f.subrange(4, 8) =~= u32_be(o.init_win_size));
            lemma_take_u32(s, 10, o.init_win_size);
            assert(s.subrange(14, 18) =~= f.subrange(8, 12));
            assert(f.subrange(8, 12) =~= u32_be(o.max_packet_size));
            lemma_take_u32(s, 14, o.max_packet_size);
        },
        ChannelResponseView::OpenFailure(fl) => {
            let code = error_code_value(fl.error_code);
            assert(s.subrange(6, 10) =~= f.subrange(0, 4));
            assert(f.subrange(0, 4) =~= u32_be(code));
            lemma_take_u32(s, 6, code);
            let m = err_msg_bytes(fl.err_msg);
            assert(s.subrange(10, 10 + m.len() as int) =~= f.subrange(4, 4 + m.len() as int));
            assert(f.subrange(4, 4 + m.len() as int) =~= m);
            lemma_err_msg_at(s, 10, fl.err_msg);
        },
        ChannelResponseView::BytesAdjust { bytes_to_add } => {
            assert(s.subrange(6, 10) =~= u32_be(bytes_to_add));
            lemma_take_u32(s, 6, bytes_to_add);
        },
        ChannelResponseView::Data(d) => {
            assert(s.subrange(6, 10 + d.len() as int) =~= enc_bytes(d));
            lemma_take_bytes(s, 6, d);
        },
        ChannelResponseView::ExtendedData { data_type, data } => {
            let code = if data_type == ExtendedDataType::Stderr {
                SSH_EXTENDED_DATA_STDERR
            } else {
                0u32
            };
            assert(s.subrange(6, 10) =~= f.subrange(0, 4));
            assert(f.subrange(0, 4) =~= u32_be(code));
            lemma_take_u32(s, 6, code);
            assert(s.subrange(10, 14 + data.len() as int) =~= f.subrange(4, 8 + data.len() as int));
            assert(f.subrange(4, 8 + data.len() as int) =~= enc_bytes(data));
            lemma_take_bytes(s, 10, data);
        },
        ChannelResponseView::Request(q) => {
            lemma_request_fields(s, q);
        },
        _ => {},
    }
}

/// Parsing the encoding of an inbound packet gives it back, whatever
/// bytes follow it.
pub proof fn lemma_proxy_response_round_trip(r: ResponseView, trailing: Seq<u8>)
    requires
        proxy_response_valid(r),
    ensures
        parse_proxy_response(proxy_response_body(r) + trailing) == Some(r),
{
    let s = proxy_response_body(r) + trailing;
    match r {
        ResponseView::ChannelResponse { channel_response: cr, recipient_channel: c } => {
            let f = channel_fields(cr);
            assert(s.subrange(2, 6) =~= u32_be(c));
            lemma_take_u32(s, 2, c);
            assert(s.subrange(6, 6 + f.len() as int) =~= f);
            lemma_channel_fields(s, cr);
        },
        _ => {},
    }
}

} // verus!
