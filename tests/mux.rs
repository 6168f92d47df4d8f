use openssh_mux_client::mux_connection::{
    ack_result, alive_check_result, check_hello, dynamic_forward_result, make_fwd,
    open_session_result, ShutdownStep,
};
use openssh_mux_client::mux_request::{
    Request as MuxRequest, ESCAPE_DISABLED, MUX_C_ALIVE_CHECK, MUX_C_NEW_SESSION,
    MUX_C_OPEN_FWD, MUX_C_STOP_LISTENING, MUX_FWD_REMOTE, MUX_MSG_HELLO, UNIX_SOCKET_PORT,
};
use openssh_mux_client::mux_response::{
    MUX_S_ALIVE, MUX_S_EXIT_MESSAGE, MUX_S_FAILURE, MUX_S_OK, MUX_S_PERMISSION_DENIED,
    MUX_S_REMOTE_PORT, MUX_S_SESSION_OPENED, MUX_S_TTY_ALLOC_FAIL,
};
use openssh_mux_client::wire::{serialize_u32, FormatError};
use openssh_mux_client::{
    EstablishedSessionState, Error, ForwardType, FrameBuffer, Fwd, MuxClient, MuxShutdown,
    NonZeroByteVec, Response, ResponseVisitor, Session, SessionTracker, Socket,
};

fn frame(body: &[u8]) -> Vec<u8> {
    let mut v = (body.len() as u32).to_be_bytes().to_vec();
    v.extend_from_slice(body);
    v
}

fn parse_one(bytes: &[u8]) -> Result<Response, Error> {
    let mut buf = FrameBuffer::new();
    buf.extend(bytes);
    buf.read_response().expect("a whole packet")
}

#[test]
fn alive_check_scenario() {
    let mut client = MuxClient::new();
    assert_eq!(
        MuxClient::hello_frame(),
        ssh_format::to_bytes(&(MUX_MSG_HELLO, 4u32)).unwrap()
    );
    let (id, packet) = client.alive_check();
    assert_eq!(id, 0);
    assert_eq!(packet, ssh_format::to_bytes(&(MUX_C_ALIVE_CHECK, 0u32)).unwrap());

    let reply = ssh_format::to_bytes(&(MUX_S_ALIVE, 0u32, 12345u32)).unwrap();
    let resp = parse_one(&reply).unwrap();
    assert_eq!(alive_check_result(id, resp).unwrap(), 12345);
}

#[test]
fn request_ids_increase() {
    let mut client = MuxClient::new();
    assert_eq!(client.alive_check().0, 0);
    assert_eq!(client.stop_listening().0, 1);
    let (id, packet) = client.alive_check();
    assert_eq!(id, 2);
    assert_eq!(packet, ssh_format::to_bytes(&(MUX_C_ALIVE_CHECK, 2u32)).unwrap());
}

#[test]
fn response_id_must_match_request_id() {
    let resp = Response::Alive { response_id: 1, server_pid: 12 };
    assert_eq!(alive_check_result(0, resp), Err(Error::UnmatchedRequestId));
    let resp = Response::Success { response_id: 3 };
    assert_eq!(ack_result(2, resp), Err(Error::UnmatchedRequestId));
    let resp = Response::PermissionDenied { response_id: 9, reason: b"no".to_vec() };
    assert_eq!(ack_result(2, resp), Err(Error::UnmatchedRequestId));
}

#[test]
fn alive_check_with_zero_pid() {
    let resp = Response::Alive { response_id: 0, server_pid: 0 };
    assert_eq!(alive_check_result(0, resp), Err(Error::InvalidPid));
}

#[test]
fn unexpected_response_type() {
    let resp = Response::Success { response_id: 0 };
    match alive_check_result(0, resp.clone()) {
        Err(Error::InvalidServerResponse(_, r)) => assert_eq!(r, resp),
        other => panic!("{:?}", other),
    }
}

#[test]
fn hello_version_checked() {
    assert_eq!(check_hello(Response::Hello { version: 4 }), Ok(()));
    assert_eq!(
        check_hello(Response::Hello { version: 3 }),
        Err(Error::UnsupportedMuxProtocol)
    );
    assert!(matches!(
        check_hello(Response::Success { response_id: 0 }),
        Err(Error::InvalidServerResponse(..))
    ));
}

#[test]
fn refusals_carry_reason() {
    let denied = ssh_format::to_bytes(&(MUX_S_PERMISSION_DENIED, 5u32, "not allowed")).unwrap();
    let resp = parse_one(&denied).unwrap();
    assert_eq!(ack_result(5, resp), Err(Error::PermissionDenied(b"not allowed".to_vec())));

    let failed = ssh_format::to_bytes(&(MUX_S_FAILURE, 5u32, "broken")).unwrap();
    let resp = parse_one(&failed).unwrap();
    assert_eq!(ack_result(5, resp), Err(Error::RequestFailure(b"broken".to_vec())));
}

#[test]
fn session_exec_scenario() {
    let mut client = MuxClient::new();
    let cmd = NonZeroByteVec::new(b"/bin/cat".to_vec()).unwrap();
    let term = NonZeroByteVec::new(b"xterm".to_vec()).unwrap();
    let session = Session::new(term, cmd);
    let (id, packet) = client.new_session(&session).unwrap();
    assert_eq!(id, 0);
    let expected = ssh_format::to_bytes(&(
        MUX_C_NEW_SESSION,
        0u32,
        "",
        false,
        false,
        false,
        false,
        ESCAPE_DISABLED,
        "xterm",
        "/bin/cat",
    ))
    .unwrap();
    assert_eq!(packet, expected);

    let opened = ssh_format::to_bytes(&(MUX_S_SESSION_OPENED, 0u32, 77u32)).unwrap();
    let session_id = open_session_result(id, parse_one(&opened).unwrap()).unwrap();
    assert_eq!(session_id, 77);

    let tracker = SessionTracker { session_id };
    let exit = ssh_format::to_bytes(&(MUX_S_EXIT_MESSAGE, 77u32, 0u32)).unwrap();
    assert_eq!(
        tracker.on_message(Some(parse_one(&exit).unwrap())),
        Ok(EstablishedSessionState::Exited(Some(0)))
    );
}

#[test]
fn session_events() {
    let tracker = SessionTracker { session_id: 3 };
    let tty = ssh_format::to_bytes(&(MUX_S_TTY_ALLOC_FAIL, 3u32)).unwrap();
    assert_eq!(
        tracker.on_message(Some(parse_one(&tty).unwrap())),
        Ok(EstablishedSessionState::TtyAllocFail)
    );
    assert_eq!(tracker.on_message(None), Ok(EstablishedSessionState::Exited(None)));
    let other = Response::ExitMessage { session_id: 4, exit_value: 1 };
    assert_eq!(tracker.on_message(Some(other)), Err(Error::UnmatchedSessionId));
}

#[test]
fn sftp_session_packet() {
    let mut client = MuxClient::new();
    let (_, packet) = client.new_session(&Session::sftp()).unwrap();
    let expected = ssh_format::to_bytes(&(
        MUX_C_NEW_SESSION,
        0u32,
        "",
        false,
        false,
        false,
        true,
        ESCAPE_DISABLED,
        "",
        "sftp",
    ))
    .unwrap();
    assert_eq!(packet, expected);
}

#[test]
fn remote_forward_scenario() {
    let mut client = MuxClient::new();
    let listen = Socket::UnixSocket { path: b"/tmp/x.sock".to_vec() };
    let connect = Socket::TcpSocket { port: 1234, host: b"127.0.0.1".to_vec() };
    let fwd = make_fwd(ForwardType::Remote, listen, connect);
    let (id, packet) = client.forward(&fwd, false).unwrap();
    let expected = ssh_format::to_bytes(&(
        MUX_C_OPEN_FWD,
        0u32,
        MUX_FWD_REMOTE,
        "/tmp/x.sock",
        UNIX_SOCKET_PORT,
        "127.0.0.1",
        1234u32,
    ))
    .unwrap();
    assert_eq!(packet, expected);
    let ok = ssh_format::to_bytes(&(MUX_S_OK, id)).unwrap();
    assert_eq!(ack_result(id, parse_one(&ok).unwrap()), Ok(()));

    let (close_id, close_packet) = client.forward(&fwd, true).unwrap();
    assert_eq!(close_id, 1);
    assert_eq!(&close_packet[4..8], &0x10000007u32.to_be_bytes());
    let ok = ssh_format::to_bytes(&(MUX_S_OK, close_id)).unwrap();
    assert_eq!(ack_result(close_id, parse_one(&ok).unwrap()), Ok(()));
}

#[test]
fn dynamic_forward_pads_connect_side() {
    let mut client = MuxClient::new();
    let fwd = Fwd::Dynamic { listen_socket: Socket::TcpSocket { port: 0, host: b"::1".to_vec() } };
    let (id, packet) = client.forward(&fwd, false).unwrap();
    let expected =
        ssh_format::to_bytes(&(MUX_C_OPEN_FWD, 0u32, 3u32, "::1", 0u32, "", UNIX_SOCKET_PORT))
            .unwrap();
    assert_eq!(packet, expected);
    let port = Response::RemotePort { response_id: id, remote_port: 4000 };
    assert_eq!(dynamic_forward_result(id, port), Ok(4000));
    let zero = Response::RemotePort { response_id: id, remote_port: 0 };
    assert_eq!(dynamic_forward_result(id, zero), Err(Error::InvalidPort));
}

#[test]
fn socket_address_drops_nul_bytes() {
    let s = Socket::TcpSocket { port: 22, host: vec![104, 0, 111] };
    assert_eq!(s.as_serializable(), (vec![104, 111], 22));
    let u = Socket::UnixSocket { path: b"/a".to_vec() };
    assert_eq!(u.as_serializable(), (b"/a".to_vec(), 0xFFFF_FFFE));
}

#[test]
fn stop_listening_packet() {
    let mut client = MuxClient::new();
    let (id, packet) = client.stop_listening();
    assert_eq!(packet, ssh_format::to_bytes(&(MUX_C_STOP_LISTENING, id)).unwrap());
}

#[test]
fn shutdown_exchange() {
    let (mut shutdown, hello) = MuxShutdown::start();
    assert_eq!(hello, MuxClient::hello_frame());
    let next = shutdown.on_response(Response::Hello { version: 4 }).unwrap().unwrap();
    assert_eq!(next, ssh_format::to_bytes(&(MUX_C_STOP_LISTENING, 0u32)).unwrap());
    assert_eq!(shutdown.step, ShutdownStep::AwaitStopListening);
    assert_eq!(shutdown.on_response(Response::Success { response_id: 0 }), Ok(None));
    assert_eq!(shutdown.step, ShutdownStep::Done);
}

#[test]
fn response_round_trip_with_trailing_bytes() {
    let cases: Vec<(Vec<u8>, Response)> = vec![
        (
            ssh_format::to_bytes(&(MUX_MSG_HELLO, 4u32)).unwrap(),
            Response::Hello { version: 4 },
        ),
        (
            ssh_format::to_bytes(&(MUX_S_REMOTE_PORT, 9u32, 2022u32)).unwrap(),
            Response::RemotePort { response_id: 9, remote_port: 2022 },
        ),
        (
            ssh_format::to_bytes(&(MUX_S_FAILURE, 1u32, "why")).unwrap(),
            Response::Failure { response_id: 1, reason: b"why".to_vec() },
        ),
        (
            ssh_format::to_bytes(&(MUX_S_TTY_ALLOC_FAIL, 8u32)).unwrap(),
            Response::TtyAllocFail { session_id: 8 },
        ),
    ];
    for (packet, expected) in cases {
        let body = &packet[4..];
        assert_eq!(Response::from_bytes(body), Ok(expected.clone()));
        let mut longer = body.to_vec();
        longer.extend_from_slice(&[0xde, 0xad, 0xbe, 0xef, 7]);
        assert_eq!(Response::from_bytes(&longer), Ok(expected));
    }
}

#[test]
fn unknown_and_short_packets() {
    let body = ssh_format::to_bytes(&(0x80000099u32, 1u32)).unwrap();
    assert_eq!(Response::from_bytes(&body[4..]), Err(FormatError::UnknownPacketType));
    let short = ssh_format::to_bytes(&(MUX_S_ALIVE, 1u32)).unwrap();
    assert_eq!(Response::from_bytes(&short[4..]), Err(FormatError::Eof));
    assert_eq!(
        ResponseVisitor.visit_enum(MUX_S_OK, &[0, 0, 0, 7], 0),
        Ok(Response::Success { response_id: 7 })
    );
}

#[test]
fn frame_buffer_needs_whole_packets() {
    let packet = ssh_format::to_bytes(&(MUX_S_OK, 3u32)).unwrap();
    let mut buf = FrameBuffer::new();
    assert_eq!(buf.bytes_needed(), 4);
    buf.extend(&packet[..2]);
    assert_eq!(buf.bytes_needed(), 2);
    buf.extend(&packet[2..6]);
    assert_eq!(buf.bytes_needed(), 6);
    assert!(buf.take_frame().is_none());
    buf.extend(&packet[6..]);
    buf.extend(&frame(&[1, 2]));
    assert_eq!(buf.bytes_needed(), 0);
    assert_eq!(buf.read_response(), Some(Ok(Response::Success { response_id: 3 })));
    assert_eq!(buf.take_frame(), Some(vec![1, 2]));
    assert_eq!(buf.bytes_needed(), 4);
}

#[test]
fn serialize_u32_is_big_endian() {
    assert_eq!(serialize_u32(0x01020304), [1, 2, 3, 4]);
    let mut body = Vec::new();
    MuxRequest::StopListening { request_id: 258 }.serialize(&mut body);
    assert_eq!(body, vec![0x10, 0, 0, 9, 0, 0, 1, 2]);
}

#[test]
fn undecodable_packet_is_a_format_error() {
    let mut buf = FrameBuffer::new();
    buf.extend(&frame(&[0x80, 0, 0, 0x99, 0, 0, 0, 1]));
    assert_eq!(
        buf.read_response(),
        Some(Err(Error::FormatError(FormatError::UnknownPacketType)))
    );
    assert_eq!(buf.bytes_needed(), 4);
}
