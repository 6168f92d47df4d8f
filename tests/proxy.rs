use openssh_mux_client::channel_state::ProcessStatus;
use openssh_mux_client::pending_requests::Completion;
use openssh_mux_client::proxy_error::Error;
use openssh_mux_client::proxy_packet::{
    channel_close_frame, channel_eof_frame, data_transfer_header, window_adjust_frame,
    ChannelRequest as OutRequest, OpenChannel, Request,
};
use openssh_mux_client::proxy_response::{
    ChannelResponse, ErrorCode, ExtendedDataType, Response, SignalName,
};
use openssh_mux_client::wire::FormatError;
use openssh_mux_client::{ChannelInput, ChannelOutput, IpAddr, NonZeroByteVec, ProxyCore};

/// The body (after the length) of a packet serialized by ssh_format.
fn body(serialized: Result<Vec<u8>, ssh_format::Error>) -> Vec<u8> {
    serialized.unwrap()[4..].to_vec()
}

fn packet(serialized: Result<Vec<u8>, ssh_format::Error>) -> Response {
    Response::from_bytes(&body(serialized)).unwrap()
}

/// Splits the written stream into packets: (type, payload after the type).
fn split_packets(wire: &[u8]) -> Vec<(u8, Vec<u8>)> {
    let mut out = Vec::new();
    let mut pos = 0;
    while pos < wire.len() {
        let len = u32::from_be_bytes([wire[pos], wire[pos + 1], wire[pos + 2], wire[pos + 3]])
            as usize;
        let p = &wire[pos + 4..pos + 4 + len];
        out.push((p[1], p[2..].to_vec()));
        pos += 4 + len;
    }
    out
}

fn drain(core: &mut ProxyCore) -> Vec<u8> {
    match core.poll_write_queue() {
        Some(chunks) => chunks.concat(),
        None => Vec::new(),
    }
}

/// Opens a session channel confirmed by the peer as `peer_id`.
fn open_confirmed(core: &mut ProxyCore, peer_id: u32, init_win: u32, max_pkt: u32) -> u32 {
    let slot = core.open_channel(OpenChannel::Session, 4096, 32768, 4096, true, true).unwrap();
    let conf = packet(ssh_format::to_bytes(&(0u8, 91u8, slot, peer_id, init_win, max_pkt)));
    core.handle_packet(conf).unwrap();
    assert_eq!(core.poll_open_result(slot), Ok(Some(max_pkt)));
    slot
}

#[test]
fn open_session_packet() {
    let mut core = ProxyCore::new();
    let slot = core.open_channel(OpenChannel::Session, 1000, 2000, 500, true, false).unwrap();
    assert_eq!(slot, 0);
    let expected = ssh_format::to_bytes(&(0u8, 90u8, "session", 0u32, 1000u32, 2000u32)).unwrap();
    assert_eq!(drain(&mut core), expected);
    assert_eq!(core.poll_open_result(slot), Ok(None));
}

#[test]
fn window_grant_scenario() {
    let mut core = ProxyCore::new();
    let slot = open_confirmed(&mut core, 100, 0, 32768);
    drain(&mut core);

    let mut input = ChannelInput::new(slot, 32768);
    core.start_send(&mut input, vec![7u8; 100 * 1024]).unwrap();
    assert_eq!(core.poll_flush(&mut input), Ok(false));
    assert!(core.poll_write_queue().is_none());

    core.handle_packet(packet(ssh_format::to_bytes(&(0u8, 93u8, 100u32, 65536u32)))).unwrap();
    assert_eq!(core.poll_flush(&mut input), Ok(false));
    let packets = split_packets(&drain(&mut core));
    assert_eq!(packets.len(), 2);
    for (ty, payload) in &packets {
        assert_eq!(*ty, 94);
        assert_eq!(&payload[0..4], &slot.to_be_bytes());
        assert_eq!(&payload[4..8], &32768u32.to_be_bytes());
        assert_eq!(payload.len(), 8 + 32768);
    }
    assert_eq!(input.pending_len(), 100 * 1024 - 65536);
    assert_eq!(input.curr_sender_win(), 0);
}

#[test]
fn close_ordering_scenario() {
    let mut core = ProxyCore::new();
    let slot = open_confirmed(&mut core, 100, 1000, 32768);
    drain(&mut core);

    let mut input = ChannelInput::new(slot, 32768);
    core.start_send(&mut input, b"hello".to_vec()).unwrap();
    assert_eq!(core.close_input(&mut input), Ok(true));
    let packets = split_packets(&drain(&mut core));
    assert_eq!(packets.len(), 2);
    assert_eq!(packets[0].0, 94);
    assert_eq!(&packets[0].1[8..], b"hello");
    assert_eq!(packets[1].0, 96);

    assert!(core.release_channel(slot));
    assert_eq!(drain(&mut core), channel_close_frame(slot));
}

#[test]
fn open_failure_scenario() {
    let mut core = ProxyCore::new();
    let slot = core.open_channel(OpenChannel::Session, 1000, 2000, 500, true, false).unwrap();
    let failure = packet(ssh_format::to_bytes(&(0u8, 92u8, slot, 1u32, "no", "")));
    core.handle_packet(failure).unwrap();
    match core.poll_open_result(slot) {
        Err(Error::ChannelOpenFailure(f)) => {
            assert_eq!(f.error_code, ErrorCode::AdministrativelyProhibited);
            assert_eq!(f.err_msg.get().0, b"no");
        },
        other => panic!("{:?}", other),
    }
    assert_eq!(core.poll_open_result(slot), Err(Error::InvalidRecipientChannel(slot)));
    let again = packet(ssh_format::to_bytes(&(0u8, 91u8, slot, 5u32, 0u32, 10u32)));
    assert_eq!(core.handle_packet(again), Err(Error::InvalidRecipientChannel(slot)));
}

#[test]
fn slot_is_reused_after_release() {
    let mut core = ProxyCore::new();
    let a = core.open_channel(OpenChannel::Session, 1, 1, 1, false, false).unwrap();
    let b = core.open_channel(OpenChannel::Session, 1, 1, 1, false, false).unwrap();
    assert_eq!((a, b), (0, 1));
    core.handle_packet(packet(ssh_format::to_bytes(&(0u8, 92u8, a, 2u32, "", "")))).unwrap();
    assert!(core.poll_open_result(a).is_err());
    let c = core.open_channel(OpenChannel::Session, 1, 1, 1, false, false).unwrap();
    assert_eq!(c, a);
}

#[test]
fn registry_is_bounded() {
    let mut core = ProxyCore::new();
    for i in 0..64u32 {
        assert_eq!(core.open_channel(OpenChannel::Session, 1, 1, 1, false, false), Ok(i));
    }
    assert_eq!(
        core.open_channel(OpenChannel::Session, 1, 1, 1, false, false),
        Err(Error::NoFreeSlot)
    );
}

#[test]
fn close_is_sent_once() {
    let mut core = ProxyCore::new();
    let slot = open_confirmed(&mut core, 100, 0, 10);
    drain(&mut core);
    assert!(core.release_channel(slot));
    assert!(!core.release_channel(slot));
    assert_eq!(split_packets(&drain(&mut core)).len(), 1);
    core.handle_packet(packet(ssh_format::to_bytes(&(0u8, 97u8, 100u32)))).unwrap();
    assert_eq!(core.poll_open_result(slot), Err(Error::InvalidRecipientChannel(slot)));
}

#[test]
fn inbound_data_in_order_and_window_refill() {
    let mut core = ProxyCore::new();
    let slot = core.open_channel(OpenChannel::Session, 6, 32768, 4096, true, true).unwrap();
    core.handle_packet(packet(ssh_format::to_bytes(&(0u8, 91u8, slot, 100u32, 0u32, 10u32)))).unwrap();
    drain(&mut core);

    core.handle_packet(packet(ssh_format::to_bytes(&(0u8, 94u8, 100u32, "abc")))).unwrap();
    assert!(core.poll_write_queue().is_none());
    core.handle_packet(packet(ssh_format::to_bytes(&(0u8, 94u8, 100u32, "def")))).unwrap();
    assert_eq!(drain(&mut core), window_adjust_frame(0, 4096));
    core.handle_packet(packet(ssh_format::to_bytes(&(0u8, 95u8, 100u32, 1u32, "err")))).unwrap();
    core.handle_packet(packet(ssh_format::to_bytes(&(0u8, 95u8, 100u32, 2u32, "ignored")))).unwrap();

    let mut out = ChannelOutput::new();
    assert_eq!(core.poll_read(slot, false, &mut out), Ok(true));
    assert_eq!(out.read_buffered(100), b"abcdef".to_vec());
    let mut err = ChannelOutput::new();
    assert_eq!(core.poll_read(slot, true, &mut err), Ok(true));
    assert_eq!(err.next_bytes(), Some(b"err".to_vec()));

    core.handle_packet(packet(ssh_format::to_bytes(&(0u8, 96u8, 100u32)))).unwrap();
    assert_eq!(core.poll_read(slot, false, &mut out), Ok(true));
    assert!(out.is_terminated());
}

#[test]
fn no_window_grant_without_readers() {
    let mut core = ProxyCore::new();
    let slot = core.open_channel(OpenChannel::Session, 3, 32768, 4096, true, false).unwrap();
    core.handle_packet(packet(ssh_format::to_bytes(&(0u8, 91u8, slot, 100u32, 0u32, 10u32)))).unwrap();
    drain(&mut core);
    core.drop_output(slot, false).unwrap();
    core.handle_packet(packet(ssh_format::to_bytes(&(0u8, 94u8, 100u32, "abcd")))).unwrap();
    assert!(core.poll_write_queue().is_none());
}

#[test]
fn unknown_sender_channel() {
    let mut core = ProxyCore::new();
    assert_eq!(
        core.handle_packet(packet(ssh_format::to_bytes(&(0u8, 94u8, 9u32, "x")))),
        Err(Error::InvalidSenderChannel(9))
    );
    assert!(matches!(
        core.handle_packet(Response::GlobalRequestSuccess),
        Err(Error::UnexpectedChannelState { .. })
    ));
}

#[test]
fn duplicate_sender_channel() {
    let mut core = ProxyCore::new();
    let a = core.open_channel(OpenChannel::Session, 1, 1, 1, false, false).unwrap();
    let b = core.open_channel(OpenChannel::Session, 1, 1, 1, false, false).unwrap();
    core.handle_packet(packet(ssh_format::to_bytes(&(0u8, 91u8, a, 7u32, 0u32, 10u32)))).unwrap();
    assert_eq!(
        core.handle_packet(packet(ssh_format::to_bytes(&(0u8, 91u8, b, 7u32, 0u32, 10u32)))),
        Err(Error::DuplicateSenderChannel(7))
    );
}

#[test]
fn requests_complete_in_batches() {
    let mut core = ProxyCore::new();
    let slot = open_confirmed(&mut core, 100, 0, 10);
    assert_eq!(core.poll_requests(slot), Err(Error::UnexpectedRequestResponse));
    assert_eq!(core.start_new_requests(slot, 2), Ok(true));
    assert_eq!(core.start_new_requests(slot, 1), Ok(false));
    core.handle_packet(packet(ssh_format::to_bytes(&(0u8, 99u8, 100u32)))).unwrap();
    assert_eq!(core.poll_requests(slot), Ok(None));
    core.handle_packet(packet(ssh_format::to_bytes(&(0u8, 100u8, 100u32)))).unwrap();
    assert_eq!(core.poll_requests(slot), Ok(Some(Completion::Failed)));
    assert_eq!(core.start_new_requests(slot, 1), Ok(true));
    core.handle_packet(packet(ssh_format::to_bytes(&(0u8, 99u8, 100u32)))).unwrap();
    assert_eq!(core.poll_requests(slot), Ok(Some(Completion::Success)));
    assert_eq!(
        core.handle_packet(packet(ssh_format::to_bytes(&(0u8, 99u8, 100u32)))),
        Err(Error::UnexpectedRequestResponse)
    );
}

#[test]
fn process_exit_status() {
    let mut core = ProxyCore::new();
    let slot = open_confirmed(&mut core, 100, 0, 10);
    assert_eq!(core.poll_process_exit(slot), Ok(None));
    core.handle_packet(packet(ssh_format::to_bytes(&(0u8, 98u8, 100u32, "exit-status", false, 3u32)))).unwrap();
    assert_eq!(core.poll_process_exit(slot), Ok(Some(ProcessStatus::ProcessExited(3))));
    assert!(matches!(core.poll_process_exit(slot), Err(Error::UnexpectedChannelState { .. })));
}

#[test]
fn process_killed_by_signal() {
    let mut core = ProxyCore::new();
    let slot = open_confirmed(&mut core, 100, 0, 10);
    core.handle_packet(packet(ssh_format::to_bytes(&(0u8, 98u8, 100u32, "exit-signal", false, "KILL", true, "m", "en"))))
        .unwrap();
    match core.poll_process_exit(slot) {
        Ok(Some(ProcessStatus::ProcessKilled(s))) => {
            assert_eq!(s.signal_name, SignalName::Kill);
            assert!(s.core_dumped);
        },
        other => panic!("{:?}", other),
    }
    let unknown = packet(ssh_format::to_bytes(&(0u8, 98u8, 100u32, "keepalive", false)));
    assert!(matches!(core.handle_packet(unknown), Err(Error::UnexpectedChannelState { .. })));
}

#[test]
fn graceful_shutdown_drains_then_ends() {
    let mut core = ProxyCore::new();
    core.open_channel(OpenChannel::Session, 1, 1, 1, false, false).unwrap();
    core.shutdown();
    let first = core.poll_write_queue().unwrap();
    assert_eq!(first.len(), 1);
    assert_eq!(core.poll_write_queue(), Some(Vec::new()));
}

#[test]
fn window_never_exceeded() {
    let mut core = ProxyCore::new();
    let slot = open_confirmed(&mut core, 100, 10, 4);
    drain(&mut core);
    let mut input = ChannelInput::new(slot, 4);
    core.start_send(&mut input, vec![1u8; 25]).unwrap();
    assert_eq!(core.poll_flush(&mut input), Ok(false));
    let sent: usize = split_packets(&drain(&mut core)).iter().map(|p| p.1.len() - 8).sum();
    assert_eq!(sent, 10);
    core.handle_packet(packet(ssh_format::to_bytes(&(0u8, 93u8, 100u32, 100u32)))).unwrap();
    assert_eq!(core.poll_flush(&mut input), Ok(true));
    let packets = split_packets(&drain(&mut core));
    let sizes: Vec<usize> = packets.iter().map(|p| p.1.len() - 8).collect();
    assert_eq!(sizes, vec![4, 4, 4, 3]);
}

#[test]
fn packets_match_the_serializer() {
    assert_eq!(channel_eof_frame(5), ssh_format::to_bytes(&(0u8, 96u8, 5u32)).unwrap());
    assert_eq!(channel_close_frame(5), ssh_format::to_bytes(&(0u8, 97u8, 5u32)).unwrap());
    assert_eq!(
        window_adjust_frame(5, 9),
        ssh_format::to_bytes(&(0u8, 93u8, 5u32, 9u32)).unwrap()
    );
    let header = data_transfer_header(5, 3);
    assert_eq!(header, vec![0, 0, 0, 13, 0, 94, 0, 0, 0, 5, 0, 0, 0, 3]);

    let exec = Request::ChannelRequest {
        recipient_channel: 2,
        request: OutRequest::ExecCmd { cmd: NonZeroByteVec::new(b"ls".to_vec()).unwrap() },
    };
    assert_eq!(
        exec.serialize_with_header(0).unwrap(),
        ssh_format::to_bytes(&(0u8, 98u8, 2u32, "exec", true, "ls")).unwrap()
    );
    let env = Request::ChannelRequest {
        recipient_channel: 2,
        request: OutRequest::PassEnv { name: b"A\0B".to_vec(), value: b"1".to_vec() },
    };
    assert_eq!(
        env.serialize_with_header(0).unwrap(),
        ssh_format::to_bytes(&(0u8, 98u8, 2u32, "env", true, "AB", "1")).unwrap()
    );
    let fwd = Request::RemoteForward { addr: IpAddr { host: b"0.0.0.0".to_vec(), port: 80 } };
    assert_eq!(
        fwd.serialize_with_header(0).unwrap(),
        ssh_format::to_bytes(&(0u8, 80u8, "tcpip-forward", true, "0.0.0.0", 80u32)).unwrap()
    );
    let cancel =
        Request::CancelRemoteForward { addr: IpAddr { host: b"h".to_vec(), port: 1 }.into_owned() };
    assert_eq!(
        cancel.serialize_with_header(0).unwrap(),
        ssh_format::to_bytes(&(0u8, 80u8, "cancel-tcpip-forward", true, "h", 1u32)).unwrap()
    );
    let local = Request::OpenChannel {
        sender_channel: 1,
        initial_window_size: 2,
        max_packet_size: 3,
        channel: OpenChannel::LocalForward {
            remote_addr: IpAddr { host: b"r".to_vec(), port: 4 },
            originator_addr: IpAddr { host: b"o".to_vec(), port: 5 },
        },
    };
    assert_eq!(
        local.serialize_with_header(0).unwrap(),
        ssh_format::to_bytes(&(0u8, 90u8, "direct-tcpip", 1u32, 2u32, 3u32, "r", 4u32, "o", 5u32))
            .unwrap()
    );
}

#[test]
fn parse_channel_packets() {
    assert_eq!(
        Response::from_bytes(&body(ssh_format::to_bytes(&(0u8, 94u8, 3u32, "xy", 9u8)))),
        Ok(Response::ChannelResponse { channel_response: ChannelResponse::Data(b"xy".to_vec()), recipient_channel: 3 })
    );
    assert_eq!(
        Response::from_bytes(&body(ssh_format::to_bytes(&(0u8, 95u8, 3u32, 1u32, "e")))),
        Ok(Response::ChannelResponse {
            channel_response: ChannelResponse::ExtendedData { data_type: ExtendedDataType::Stderr, data: b"e".to_vec() },
            recipient_channel: 3,
        })
    );
    assert_eq!(Response::from_bytes(&body(ssh_format::to_bytes(&(0u8, 81u8)))), Ok(Response::GlobalRequestSuccess));
    assert_eq!(Response::from_bytes(&body(ssh_format::to_bytes(&(0u8, 82u8)))), Ok(Response::GlobalRequestFailure));
    assert_eq!(Response::from_bytes(&body(ssh_format::to_bytes(&(0u8, 90u8, "x")))), Ok(Response::OpenChannelRequest));
    assert_eq!(Response::from_bytes(&body(ssh_format::to_bytes(&(0u8, 150u8, 3u32)))), Err(FormatError::UnknownPacketType));
    assert_eq!(Response::from_bytes(&body(ssh_format::to_bytes(&(0u8, 93u8, 3u32)))), Err(FormatError::Eof));
    assert_eq!(Response::from_bytes(&[0]), Err(FormatError::Eof));
}

#[test]
fn error_codes_and_signals() {
    assert_eq!(ErrorCode::from_code(1), ErrorCode::AdministrativelyProhibited);
    assert_eq!(ErrorCode::from_code(2), ErrorCode::ConnectFailed);
    assert_eq!(ErrorCode::from_code(3), ErrorCode::UnknownChannelType);
    assert_eq!(ErrorCode::from_code(4), ErrorCode::ResourceShortage);
    assert_eq!(ErrorCode::from_code(5), ErrorCode::Unknown);
    assert_eq!(SignalName::from_name(b"USR2".to_vec()), SignalName::Usr2);
    assert_eq!(SignalName::from_name(b"SEGV".to_vec()), SignalName::Segv);
    assert_eq!(
        SignalName::from_name(b"X@y".to_vec()),
        SignalName::Extension(b"X@y".to_vec())
    );
}

#[test]
fn window_grant_names_its_own_channel() {
    let mut core = ProxyCore::new();
    let a = core.open_channel(OpenChannel::Session, 100, 32768, 4096, true, false).unwrap();
    let b = core.open_channel(OpenChannel::Session, 3, 32768, 2048, true, false).unwrap();
    assert_eq!((a, b), (0, 1));
    core.handle_packet(packet(ssh_format::to_bytes(&(0u8, 91u8, a, 100u32, 0u32, 10u32)))).unwrap();
    core.handle_packet(packet(ssh_format::to_bytes(&(0u8, 91u8, b, 101u32, 0u32, 10u32)))).unwrap();
    drain(&mut core);
    core.handle_packet(packet(ssh_format::to_bytes(&(0u8, 94u8, 101u32, "abc")))).unwrap();
    let granted = drain(&mut core);
    assert_eq!(granted, ssh_format::to_bytes(&(0u8, 93u8, 1u32, 2048u32)).unwrap());
    assert_eq!(granted, window_adjust_frame(b, 2048));
}

#[test]
fn dropped_reader_discards_data() {
    let mut core = ProxyCore::new();
    let slot = core.open_channel(OpenChannel::Session, 100, 32768, 4096, true, true).unwrap();
    core.handle_packet(packet(ssh_format::to_bytes(&(0u8, 91u8, slot, 100u32, 0u32, 10u32)))).unwrap();
    core.drop_output(slot, false).unwrap();
    core.handle_packet(packet(ssh_format::to_bytes(&(0u8, 94u8, 100u32, "gone")))).unwrap();
    let mut out = ChannelOutput::new();
    assert_eq!(core.poll_read(slot, false, &mut out), Err(Error::InvalidRecipientChannel(slot)));
    let mut err = ChannelOutput::new();
    assert_eq!(core.poll_read(slot, true, &mut err), Ok(false));
}

#[test]
fn flush_waits_for_window_and_reports_data_frames() {
    let mut core = ProxyCore::new();
    let slot = open_confirmed(&mut core, 100, 6, 4);
    drain(&mut core);
    let mut input = ChannelInput::new(slot, 4);
    core.start_send(&mut input, b"abcdefgh".to_vec()).unwrap();
    let first = split_packets(&drain(&mut core));
    assert_eq!(first.len(), 1);
    assert_eq!(&first[0].1[8..], b"abcd");
    assert_eq!(core.poll_flush(&mut input), Ok(false));
    let second = split_packets(&drain(&mut core));
    assert_eq!(second.len(), 1);
    assert_eq!(&second[0].1[8..], b"ef");
    assert_eq!(core.close_input(&mut input), Ok(false));
    assert!(core.poll_write_queue().is_none());
    core.handle_packet(packet(ssh_format::to_bytes(&(0u8, 93u8, 100u32, 10u32)))).unwrap();
    assert_eq!(core.poll_flush(&mut input), Ok(true));
    core.send_eof(&mut input);
    let rest = split_packets(&drain(&mut core));
    assert_eq!(rest.len(), 2);
    assert_eq!(&rest[0].1[8..], b"gh");
    assert_eq!(rest[1].0, 96);
}

#[test]
fn largest_data_packet_header() {
    let header = data_transfer_header(7, u32::MAX - 10);
    assert_eq!(&header[0..4], &u32::MAX.to_be_bytes());
    assert_eq!(&header[10..14], &(u32::MAX - 10).to_be_bytes());
}

#[test]
fn output_ends_after_eof() {
    let mut core = ProxyCore::new();
    let slot = open_confirmed(&mut core, 100, 0, 10);
    core.handle_packet(packet(ssh_format::to_bytes(&(0u8, 94u8, 100u32, "z")))).unwrap();
    core.handle_packet(packet(ssh_format::to_bytes(&(0u8, 96u8, 100u32)))).unwrap();
    let mut out = ChannelOutput::new();
    assert_eq!(core.poll_read(slot, false, &mut out), Ok(true));
    assert_eq!(out.next_bytes(), Some(b"z".to_vec()));
    assert!(!out.is_terminated());
    assert_eq!(core.poll_read(slot, false, &mut out), Ok(true));
    assert!(out.is_terminated());
    assert_eq!(out.next_bytes(), None);
}
