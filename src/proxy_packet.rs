//! Packets that the proxy client sends on the SSH connection layer
//! (RFC 4254), and their wire form: `u32` length, a zero padding length,
//! the packet type, then the type's fields.
use vstd::prelude::*;

use crate::non_zero_bytes::NonZeroByteVec;
use crate::wire::{enc_bool, enc_bytes, enc_str, push_bool, push_bytes, push_str, push_u32, u32_be, FormatError};

verus! {

pub const SSH_MSG_GLOBAL_REQUEST: u8 = 80;
pub const SSH_MSG_REQUEST_SUCCESS: u8 = 81;
pub const SSH_MSG_REQUEST_FAILURE: u8 = 82;
pub const SSH_MSG_CHANNEL_OPEN: u8 = 90;
pub const SSH_MSG_CHANNEL_OPEN_CONFIRMATION: u8 = 91;
pub const SSH_MSG_CHANNEL_OPEN_FAILURE: u8 = 92;
pub const SSH_MSG_CHANNEL_WINDOW_ADJUST: u8 = 93;
pub const SSH_MSG_CHANNEL_DATA: u8 = 94;
pub const SSH_MSG_CHANNEL_EXTENDED_DATA: u8 = 95;
pub const SSH_MSG_CHANNEL_EOF: u8 = 96;
pub const SSH_MSG_CHANNEL_CLOSE: u8 = 97;
pub const SSH_MSG_CHANNEL_REQUEST: u8 = 98;
pub const SSH_MSG_CHANNEL_SUCCESS: u8 = 99;
pub const SSH_MSG_CHANNEL_FAILURE: u8 = 100;

pub const SSH_OPEN_ADMINISTRATIVELY_PROHIBITED: u32 = 1;
pub const SSH_OPEN_CONNECT_FAILED: u32 = 2;
pub const SSH_OPEN_UNKNOWN_CHANNEL_TYPE: u32 = 3;
pub const SSH_OPEN_RESOURCE_SHORTAGE: u32 = 4;

pub const SSH_EXTENDED_DATA_STDERR: u32 = 1;

/// A host and port, as written in forwarding packets.
#[derive(Debug, Clone, PartialEq, Eq)]
pub struct IpAddr {
    pub host: Vec<u8>,
    pub port: u32,
}

impl IpAddr {
    /// The same address, owning its host.
    pub fn into_owned(self) -> (r: IpAddr)
        ensures
            r.host@ == self.host@,
            r.port == self.port,
    {
        IpAddr { host: self.host, port: self.port }
    }
}

pub open spec fn enc_ip(a: IpAddr) -> Seq<u8> {
    enc_str(a.host@) + u32_be(a.port)
}

/// "session"
pub open spec fn session_name() -> Seq<u8> {
    seq![115u8, 101u8, 115u8, 115u8, 105u8, 111u8, 110u8]
}

/// "direct-tcpip"
pub open spec fn direct_tcpip_name() -> Seq<u8> {
    seq![100u8, 105u8, 114u8, 101u8, 99u8, 116u8, 45u8, 116u8, 99u8, 112u8, 105u8, 112u8]
}

/// "exec"
pub open spec fn exec_name() -> Seq<u8> {
    seq![101u8, 120u8, 101u8, 99u8]
}

/// "env"
pub open spec fn env_name() -> Seq<u8> {
    seq![101u8, 110u8, 118u8]
}

/// "subsystem"
pub open spec fn subsystem_name() -> Seq<u8> {
    seq![115u8, 117u8, 98u8, 115u8, 121u8, 115u8, 116u8, 101u8, 109u8]
}

/// "tcpip-forward"
pub open spec fn tcpip_forward_name() -> Seq<u8> {
    seq![116u8, 99u8, 112u8, 105u8, 112u8, 45u8, 102u8, 111u8, 114u8, 119u8, 97u8, 114u8, 100u8]
}

/// "cancel-tcpip-forward"
pub open spec fn cancel_tcpip_forward_name() -> Seq<u8> {
    seq![99u8, 97u8, 110u8, 99u8, 101u8, 108u8, 45u8].add(tcpip_forward_name())
}

/// The kinds of channel this client opens.
#[derive(Debug, Clone, PartialEq, Eq)]
pub enum OpenChannel {
    /// A session, for a remote process.
    Session,
    /// A TCP connection made by the remote side.
    LocalForward { remote_addr: IpAddr, originator_addr: IpAddr },
}

/// A channel request; all of them ask for a reply.
#[derive(Debug, Clone, PartialEq, Eq)]
pub enum ChannelRequest {
    /// Sets an environment variable.
    PassEnv { name: Vec<u8>, value: Vec<u8> },
    /// Runs a command.
    ExecCmd { cmd: NonZeroByteVec },
    /// Starts a subsystem.
    RequestSubsystem { subsystem: Vec<u8> },
}

/// A packet sent by this client.
#[derive(Debug, Clone, PartialEq, Eq)]
pub enum Request {
    OpenChannel {
        sender_channel: u32,
        initial_window_size: u32,
        max_packet_size: u32,
        channel: OpenChannel,
    },
    ChannelRequest { recipient_channel: u32, request: ChannelRequest },
    ChannelAdjustWindow { recipient_channel: u32, bytes_to_add: u32 },
    /// The header of a data packet; the data follows it.
    DataTransfer { recipient_channel: u32, data_len: u32 },
    ChannelEof { recipient_channel: u32 },
    ChannelClose { recipient_channel: u32 },
    /// Asks the server to listen on an address.
    RemoteForward { addr: IpAddr },
    /// Stops a listening set up by `RemoteForward`.
    CancelRemoteForward { addr: IpAddr },
}

pub open spec fn header(packet_type: u8) -> Seq<u8> {
    seq![0u8, packet_type]
}

pub open spec fn channel_request_fields(r: ChannelRequest) -> Seq<u8> {
    match r {
        ChannelRequest::PassEnv { name, value } => enc_bytes(env_name()) + enc_bool(true) + enc_str(
            name@,
        ) + enc_str(value@),
        ChannelRequest::ExecCmd { cmd } => enc_bytes(exec_name()) + enc_bool(true) + enc_bytes(
            cmd@,
        ),
        ChannelRequest::RequestSubsystem { subsystem } => enc_bytes(subsystem_name()) + enc_bool(
            true,
        ) + enc_str(subsystem@),
    }
}

/// The packet's bytes after the length prefix.
pub open spec fn packet_body(p: Request) -> Seq<u8> {
    match p {
        Request::OpenChannel { sender_channel, initial_window_size, max_packet_size, channel } => {
            header(SSH_MSG_CHANNEL_OPEN) + match channel {
                OpenChannel::Session => enc_bytes(session_name()),
                OpenChannel::LocalForward { .. } => enc_bytes(direct_tcpip_name()),
            } + u32_be(sender_channel) + u32_be(initial_window_size) + u32_be(max_packet_size)
                + match channel {
                OpenChannel::Session => Seq::empty(),
                OpenChannel::LocalForward { remote_addr, originator_addr } => enc_ip(remote_addr)
                    + enc_ip(originator_addr),
            }
        },
        Request::ChannelRequest { recipient_channel, request } => header(SSH_MSG_CHANNEL_REQUEST)
            + u32_be(recipient_channel) + channel_request_fields(request),
        Request::ChannelAdjustWindow { recipient_channel, bytes_to_add } => header(
            SSH_MSG_CHANNEL_WINDOW_ADJUST,
        ) + u32_be(recipient_channel) + u32_be(bytes_to_add),
        Request::DataTransfer { recipient_channel, data_len } => header(SSH_MSG_CHANNEL_DATA)
            + u32_be(recipient_channel) + u32_be(data_len),
        Request::ChannelEof { recipient_channel } => header(SSH_MSG_CHANNEL_EOF) + u32_be(
            recipient_channel,
        ),
        Request::ChannelClose { recipient_channel } => header(SSH_MSG_CHANNEL_CLOSE) + u32_be(
            recipient_channel,
        ),
        Request::RemoteForward { addr } => header(SSH_MSG_GLOBAL_REQUEST) + enc_bytes(
            tcpip_forward_name(),
        ) + enc_bool(true) + enc_ip(addr),
        Request::CancelRemoteForward { addr } => header(SSH_MSG_GLOBAL_REQUEST) + enc_bytes(
            cancel_tcpip_forward_name(),
        ) + enc_bool(true) + enc_ip(addr),
    }
}

/// Every string of the packet fits a `u32` length.
pub open spec fn request_valid(p: Request) -> bool {
    match p {
        Request::OpenChannel { channel, .. } => match channel {
            OpenChannel::Session => true,
            OpenChannel::LocalForward { remote_addr, originator_addr } => remote_addr.host@.len()
                <= u32::MAX && originator_addr.host@.len() <= u32::MAX,
        },
        Request::ChannelRequest { request, .. } => match request {
            ChannelRequest::PassEnv { name, value } => name@.len() <= u32::MAX && value@.len()
                <= u32::MAX,
            ChannelRequest::ExecCmd { cmd } => cmd@.len() <= u32::MAX,
            ChannelRequest::RequestSubsystem { subsystem } => subsystem@.len() <= u32::MAX,
        },
        Request::RemoteForward { addr } => addr.host@.len() <= u32::MAX,
        Request::CancelRemoteForward { addr } => addr.host@.len() <= u32::MAX,
        _ => true,
    }
}

/// A whole packet: its length (the body's plus `extra`), then the body.
pub open spec fn packet_frame(p: Request, extra: u32) -> Seq<u8> {
    u32_be((packet_body(p).len() + extra) as u32) + packet_body(p)
}

fn push_array(out: &mut Vec<u8>, a: &[u8])
    requires
        a@.len() <= u32::MAX,
    ensures
        final(out)@ == old(out)@ + enc_bytes(a@),
{
    push_bytes(out, a);
}

fn push_name(out: &mut Vec<u8>, which: u8)
    ensures
        final(out)@ == old(out)@ + enc_bytes(
            if which == 0 {
                session_name()
            } else if which == 1 {
                direct_tcpip_name()
            } else if which == 2 {
                exec_name()
            } else if which == 3 {
                env_name()
            } else if which == 4 {
                subsystem_name()
            } else if which == 5 {
                tcpip_forward_name()
            } else {
                cancel_tcpip_forward_name()
            },
        ),
{
    if which == 0 {
        let a: [u8; 7] = [115, 101, 115, 115, 105, 111, 110];
        assert(a@ =~= session_name());
        push_array(out, a.as_slice());
    } else if which == 1 {
        let a: [u8; 12] = [100, 105, 114, 101, 99, 116, 45, 116, 99, 112, 105, 112];
        assert(a@ =~= direct_tcpip_name());
        push_array(out, a.as_slice());
    } else if which == 2 {
        let a: [u8; 4] = [101, 120, 101, 99];
        assert(a@ =~= exec_name());
        push_array(out, a.as_slice());
    } else if which == 3 {
        let a: [u8; 3] = [101, 110, 118];
        assert(a@ =~= env_name());
        push_array(out, a.as_slice());
    } else if which == 4 {
        let a: [u8; 9] = [115, 117, 98, 115, 121, 115, 116, 101, 109];
        assert(a@ =~= subsystem_name());
        push_array(out, a.as_slice());
    } else if which == 5 {
        let a: [u8; 13] = [116, 99, 112, 105, 112, 45, 102, 111, 114, 119, 97, 114, 100];
        assert(a@ =~= tcpip_forward_name());
        push_array(out, a.as_slice());
    } else {
        let a: [u8; 20] = [
            99, 97, 110, 99, 101, 108, 45, 116, 99, 112, 105, 112, 45, 102, 111, 114, 119, 97, 114,
            100,
        ];
        assert(a@ =~= cancel_tcpip_forward_name());
        push_array(out, a.as_slice());
    }
}

fn push_ip(out: &mut Vec<u8>, a: &IpAddr)
    requires
        a.host@.len() <= u32::MAX,
    ensures
        final(out)@ == old(out)@ + enc_ip(*a),
{
    let ghost start = out@;
    push_str(out, a.host.as_slice());
    push_u32(out, a.port);
    assert(out@ =~= start + enc_ip(*a));
}

fn push_header(out: &mut Vec<u8>, packet_type: u8)
    ensures
        final(out)@ == old(out)@ + header(packet_type),
{
    out.push(0);
    out.push(packet_type);
    assert(final(out)@ =~= old(out)@ + header(packet_type));
}

impl Request {
    /// Appends the packet's body to `out`.
    pub fn serialize(&self, out: &mut Vec<u8>)
        requires
            request_valid(*self),
        ensures
            final(out)@ == old(out)@ + packet_body(*self),
    {
        let ghost start = out@;
        match self {
            Request::OpenChannel {
                sender_channel,
                initial_window_size,
                max_packet_size,
                channel,
            } => {
                push_header(out, SSH_MSG_CHANNEL_OPEN);
                match channel {
                    OpenChannel::Session => push_name(out, 0),
                    OpenChannel::LocalForward { .. } => push_name(out, 1),
                }
                push_u32(out, *sender_channel);
                push_u32(out, *initial_window_size);
                push_u32(out, *max_packet_size);
                match channel {
                    OpenChannel::Session => {},
                    OpenChannel::LocalForward { remote_addr, originator_addr } => {
                        push_ip(out, remote_addr);
                        push_ip(out, originator_addr);
                    },
                }
            },
            Request::ChannelRequest { recipient_channel, request } => {
                push_header(out, SSH_MSG_CHANNEL_REQUEST);
                push_u32(out, *recipient_channel);
                match request {
                    ChannelRequest::PassEnv { name, value } => {
                        push_name(out, 3);
                        push_bool(out, true);
                        push_str(out, name.as_slice());
                        push_str(out, value.as_slice());
                    },
                    ChannelRequest::ExecCmd { cmd } => {
                        push_name(out, 2);
                        push_bool(out, true);
                        push_bytes(out, cmd.as_bytes());
                    },
                    ChannelRequest::RequestSubsystem { subsystem } => {
                        push_name(out, 4);
                        push_bool(out, true);
                        push_str(out, subsystem.as_slice());
                    },
                }
            },
            Request::ChannelAdjustWindow { recipient_channel, bytes_to_add } => {
                push_header(out, SSH_MSG_CHANNEL_WINDOW_ADJUST);
                push_u32(out, *recipient_channel);
                push_u32(out, *bytes_to_add);
            },
            Request::DataTransfer { recipient_channel, data_len } => {
                push_header(out, SSH_MSG_CHANNEL_DATA);
                push_u32(out, *recipient_channel);
                push_u32(out, *data_len);
            },
            Request::ChannelEof { recipient_channel } => {
                push_header(out, SSH_MSG_CHANNEL_EOF);
                push_u32(out, *recipient_channel);
            },
            Request::ChannelClose { recipient_channel } => {
                push_header(out, SSH_MSG_CHANNEL_CLOSE);
                push_u32(out, *recipient_channel);
            },
            Request::RemoteForward { addr } => {
                push_header(out, SSH_MSG_GLOBAL_REQUEST);
                push_name(out, 5);
                push_bool(out, true);
                push_ip(out, addr);
            },
            Request::CancelRemoteForward { addr } => {
                push_header(out, SSH_MSG_GLOBAL_REQUEST);
                push_name(out, 6);
                push_bool(out, true);
                push_ip(out, addr);
            },
        }
        assert(out@ =~= start + packet_body(*self));
    }

    /// The whole packet, its length counting `extra_data` more bytes that
    /// the caller sends after it; `TooLong` exactly when that length does
    /// not fit a `u32`.
    pub fn serialize_with_header(&self, extra_data: u32) -> (r: Result<Vec<u8>, FormatError>)
        requires
            request_valid(*self),
        ensures
            match r {
                Ok(v) => packet_body(*self).len() + extra_data <= u32::MAX && v@ == packet_frame(
                    *self,
                    extra_data,
                ),
                Err(e) => e == FormatError::TooLong && packet_body(*self).len() + extra_data
                    > u32::MAX,
            },
    {
        let mut body: Vec<u8> = Vec::new();
        self.serialize(&mut body);
        if body.len() > 0xFFFF_FFFF || extra_data as usize > 0xFFFF_FFFF - body.len() {
            return Err(FormatError::TooLong);
        }
        let mut out: Vec<u8> = Vec::new();
        push_u32(&mut out, (body.len() + extra_data as usize) as u32);
        let ghost b = body@;
        out.append(&mut body);
        assert(out@ =~= packet_frame(*self, extra_data));
        Ok(out)
    }
}

/// A packet of fixed size; its frame never fails.
pub open spec fn is_fixed(p: Request) -> bool {
    p is ChannelAdjustWindow || p is DataTransfer || p is ChannelEof || p is ChannelClose
}

/// The whole packet of a fixed-size request.
pub fn fixed_frame(p: &Request, extra_data: u32) -> (r: Vec<u8>)
    requires
        is_fixed(*p),
        extra_data <= u32::MAX - 10,
    ensures
        r@ == packet_frame(*p, extra_data),
{
    let mut body: Vec<u8> = Vec::new();
    p.serialize(&mut body);
    assert(body@.len() <= 10);
    let mut out: Vec<u8> = Vec::new();
    push_u32(&mut out, (body.len() + extra_data as usize) as u32);
    let ghost b = body@;
    out.append(&mut body);
    assert(out@ =~= packet_frame(*p, extra_data));
    out
}

/// `CHANNEL_EOF` for `recipient_channel`.
pub fn channel_eof_frame(recipient_channel: u32) -> (r: Vec<u8>)
    ensures
        r@ == packet_frame(Request::ChannelEof { recipient_channel }, 0),
{
    fixed_frame(&Request::ChannelEof { recipient_channel }, 0)
}

/// `CHANNEL_CLOSE` for `recipient_channel`.
pub fn channel_close_frame(recipient_channel: u32) -> (r: Vec<u8>)
    ensures
        r@ == packet_frame(Request::ChannelClose { recipient_channel }, 0),
{
    fixed_frame(&Request::ChannelClose { recipient_channel }, 0)
}

/// `CHANNEL_WINDOW_ADJUST` granting `bytes_to_add` more bytes.
pub fn window_adjust_frame(recipient_channel: u32, bytes_to_add: u32) -> (r: Vec<u8>)
    ensures
        r@ == packet_frame(Request::ChannelAdjustWindow { recipient_channel, bytes_to_add }, 0),
{
    fixed_frame(&Request::ChannelAdjustWindow { recipient_channel, bytes_to_add }, 0)
}

/// The header of a `CHANNEL_DATA` packet whose `data_len` payload bytes
/// follow it.
pub fn data_transfer_header(recipient_channel: u32, data_len: u32) -> (r: Vec<u8>)
    requires
        data_len <= u32::MAX - 10,
    ensures
        r@ == packet_frame(Request::DataTransfer { recipient_channel, data_len }, data_len),
        r@.len() == 14,
{
    fixed_frame(&Request::DataTransfer { recipient_channel, data_len }, data_len)
}

} // verus!
