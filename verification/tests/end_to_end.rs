use nada::args::{Args, ClientArgs};
use nada::capsules::CapsuleError;
use nada::e2e::responses::{
    BodyRead, DgramRead, Polled, Receiver, ReceiverAction, ReceiverEvent,
};
use nada::e2e::session::{
    next_wait, ClientAction, ClientEvent, ClientPhase, Outgoing, QuicClient,
};
use nada::e2e::{
    dgram_path, e2e_quic_config, e2e_setup, quic_client, response_path, timing_path,
    E2eClientConfig,
};
use nada::frames::{Header, InboundFrame, OutboundFrame};
use nada::logging::LogLevel;
use nada::relay::{CapsuleRelay, RelayAction, RelayEvent};
use nada::stats::{
    connection_report, connection_report_path, report_plan, timing_report, ConnectionStats,
    ReportPlan,
};

fn args() -> ClientArgs {
    ClientArgs {
        common: Args {
            proxy_address: "[::1]:443".to_owned(),
            log_keys: true,
            results_dir: Some("/out".to_owned()),
            qlog: true,
            log_level: LogLevel::Info,
            cc_algorithm: "bbr".to_owned(),
            initial_max_path_id: None,
        },
        client_address: "[::5]:0".to_owned(),
        proxy_authority: "masque.technology".to_owned(),
        target_ip: "fd00::4".to_owned(),
        target_port: "25565".to_owned(),
        ca: "ca.pem".to_owned(),
        server_name: "quic.tech".to_owned(),
        endpoint: vec!["/first".to_owned(), "/second".to_owned()],
        log_stats: true,
        keep_resp: true,
        skip_verify: false,
        reliable: true,
        outer_prios: vec![],
        inner_prio: "u=2".to_owned(),
        idle_timeout_secs: 3,
        multipath: false,
        extra_addresses: vec![],
        scheduler: "rr".to_owned(),
        probe_timeout: 5,
    }
}

fn config() -> E2eClientConfig {
    E2eClientConfig::from(&args())
}

fn tunnel(frame: InboundFrame) -> ClientEvent {
    ClientEvent::Tunnel(Some(frame))
}

fn packet(bytes: &[u8]) -> ClientEvent {
    ClientEvent::Outgoing(Outgoing::Packet(bytes.to_vec()))
}

fn waiting_client(reliable: bool) -> QuicClient {
    let mut client = quic_client(config(), 3, reliable);
    assert_eq!(client.phase(), ClientPhase::Opening);
    assert_eq!(client.step(ClientEvent::Outgoing(Outgoing::Done)), ClientAction::Await);
    client
}

fn finish_turn(client: &mut QuicClient) {
    assert_eq!(client.step(ClientEvent::Draining(true)), ClientAction::CheckEstablished);
    assert_eq!(client.step(ClientEvent::Established(false)), ClientAction::CheckClosed);
    assert_eq!(client.step(ClientEvent::Closed(false)), ClientAction::Await);
}

fn client_with_h3(reliable: bool) -> QuicClient {
    let mut client = waiting_client(reliable);
    assert_eq!(client.step(ClientEvent::Timeout), ClientAction::CheckDraining);
    assert_eq!(client.step(ClientEvent::Draining(false)), ClientAction::TakePacket);
    assert_eq!(
        client.step(ClientEvent::Outgoing(Outgoing::Done)),
        ClientAction::CheckEstablished
    );
    assert_eq!(client.step(ClientEvent::Established(true)), ClientAction::CreateH3);
    assert_eq!(client.step(ClientEvent::H3Created(true)), ClientAction::CheckClosed);
    assert_eq!(client.step(ClientEvent::Closed(false)), ClientAction::Await);
    client
}

fn receiver(keep_resp: bool, log_stats: bool, dir: Option<&str>) -> Receiver<u8, u32> {
    let mut config = config();
    config.keep_resp = keep_resp;
    config.log_stats = log_stats;
    config.results_dir = dir.map(|d| d.to_owned());
    Receiver::new(&config, 3, "ab12")
}

fn polling(receiver: &mut Receiver<u8, u32>) {
    assert!(matches!(receiver.step(ReceiverEvent::Readable), ReceiverAction::Poll));
}

fn polled(receiver: &mut Receiver<u8, u32>, event: Polled) -> ReceiverAction<u32> {
    receiver.step(ReceiverEvent::Polled(event))
}

#[test]
fn config_of_a_command_line() {
    let config = config();
    assert_eq!(config.client_address, "[::5]:0");
    assert_eq!(config.target_ip, "fd00::4");
    assert_eq!(config.target_port, "25565");
    assert_eq!(config.server_name, "quic.tech");
    assert_eq!(config.endpoint, "/first");
    assert_eq!(config.inner_prio, "u=2");
    assert_eq!(config.ca, "ca.pem");
    assert_eq!(config.cc_algorithm, "bbr");
    assert_eq!(config.results_dir, Some("/out".to_owned()));
    assert!(config.log_keys && config.qlog && config.log_stats && config.keep_resp);
    assert!(!config.skip_verify);
    let mut none = args();
    none.endpoint = vec![];
    assert_eq!(E2eClientConfig::from(&none).endpoint, "");
}

#[test]
fn transport_settings() {
    let settings = e2e_quic_config(&config());
    assert_eq!(settings.initial_max_streams, 1000);
    assert_eq!(settings.initial_max_stream_data, 1_000_000);
    assert_eq!(settings.initial_max_data, 10_000_000);
    assert_eq!(settings.max_udp_payload_size, 1280);
    assert_eq!(settings.dgram_queue_len, 65_536);
    assert_eq!(settings.cc_algorithm, "bbr");
    assert_eq!(settings.ca, "ca.pem");
    assert!(settings.verify_peer && settings.log_keys);
}

#[test]
fn addresses_and_log_files() {
    let setup = e2e_setup(&config(), "ab12");
    assert_eq!(setup.peer, "[fd00::4]:25565");
    assert_eq!(setup.local, "[::5]:0");
    assert_eq!(setup.keylog_file, Some("/out/ssl-client.key".to_owned()));
    assert_eq!(setup.qlog_file, Some("/out/e2e-ab12.qlog".to_owned()));
    let mut quiet = config();
    quiet.log_keys = false;
    assert_eq!(e2e_setup(&quiet, "ab12").keylog_file, None);
    quiet.results_dir = None;
    assert_eq!(e2e_setup(&quiet, "ab12").qlog_file, None);
}

#[test]
fn names_of_data_files() {
    assert_eq!(response_path("/out", 1, 23), "/out/flow_1_stream_23.data");
    assert_eq!(dgram_path("/out", 12, 3), "/out/flow_12_dgram_3.data");
    assert_eq!(response_path("", 0, u64::MAX), "/flow_0_stream_18446744073709551615.data");
    assert_eq!(timing_path("/out", "ab12"), "/out/e2e-ab12.timing.json");
    assert_ne!(response_path("/out", 1, 23), response_path("/out", 12, 3));
    assert_ne!(response_path("/out", 1, 23), dgram_path("/out", 1, 23));
}

#[test]
fn first_packet_is_sent_whatever_comes_of_it() {
    let mut client = quic_client(config(), 3, true);
    assert_eq!(
        client.step(packet(&[9])),
        ClientAction::SendFrame(OutboundFrame::Body(vec![0, 2, 0, 9], false))
    );
    assert_eq!(client.step(ClientEvent::FrameSent(false)), ClientAction::Await);
    let mut client = quic_client(config(), 3, false);
    assert_eq!(client.step(ClientEvent::Outgoing(Outgoing::Error)), ClientAction::Await);
}

#[test]
fn packets_go_out_until_there_are_none() {
    let mut client = waiting_client(false);
    assert_eq!(client.step(ClientEvent::Timeout), ClientAction::CheckDraining);
    assert_eq!(client.step(ClientEvent::Draining(false)), ClientAction::TakePacket);
    assert_eq!(
        client.step(packet(&[9])),
        ClientAction::SendFrame(OutboundFrame::Datagram(vec![0, 9], 3))
    );
    assert_eq!(client.step(ClientEvent::FrameSent(true)), ClientAction::CheckDraining);
    assert_eq!(client.step(ClientEvent::Draining(false)), ClientAction::TakePacket);
    assert_eq!(
        client.step(ClientEvent::Outgoing(Outgoing::Done)),
        ClientAction::CheckEstablished
    );
}

#[test]
fn clients_stop_on_errors() {
    let mut client = waiting_client(true);
    assert_eq!(client.step(ClientEvent::Tunnel(None)), ClientAction::Stop);
    assert_eq!(client.phase(), ClientPhase::Stopped);

    let mut client = waiting_client(true);
    client.step(ClientEvent::Timeout);
    client.step(ClientEvent::Draining(false));
    assert_eq!(client.step(ClientEvent::Outgoing(Outgoing::Error)), ClientAction::Stop);

    let mut client = waiting_client(true);
    client.step(ClientEvent::Timeout);
    client.step(ClientEvent::Draining(false));
    client.step(packet(&[1]));
    assert_eq!(client.step(ClientEvent::FrameSent(false)), ClientAction::Stop);

    let mut client = waiting_client(true);
    client.step(tunnel(InboundFrame::Datagram(vec![0, 1])));
    assert_eq!(client.step(ClientEvent::Received(false)), ClientAction::Stop);

    let mut client = waiting_client(true);
    assert_eq!(
        client.step(tunnel(InboundFrame::Body(vec![0x21], false))),
        ClientAction::Reject(CapsuleError::UnsupportedType(0x21))
    );

    let mut client = waiting_client(true);
    client.step(ClientEvent::Timeout);
    client.step(ClientEvent::Draining(true));
    client.step(ClientEvent::Established(false));
    assert_eq!(client.step(ClientEvent::Closed(true)), ClientAction::Stop);
}

#[test]
fn datagrams_are_received() {
    let mut client = waiting_client(false);
    assert_eq!(
        client.step(tunnel(InboundFrame::Datagram(vec![0, 1, 2]))),
        ClientAction::Receive(vec![1, 2])
    );
    assert_eq!(client.step(ClientEvent::Received(true)), ClientAction::CheckDraining);
    finish_turn(&mut client);
    // Body bytes count for nothing here.
    assert_eq!(
        client.step(tunnel(InboundFrame::Body(vec![0x21], true))),
        ClientAction::CheckDraining
    );
}

#[test]
fn packets_in_capsules_are_received_in_order() {
    let mut client = waiting_client(true);
    let chunk = vec![0, 2, 0, 1, 0, 2, 0, 2, 0];
    assert_eq!(
        client.step(tunnel(InboundFrame::Body(chunk, false))),
        ClientAction::Receive(vec![1])
    );
    assert_eq!(client.step(ClientEvent::Received(true)), ClientAction::Receive(vec![2]));
    assert_eq!(client.step(ClientEvent::Received(true)), ClientAction::CheckDraining);
    finish_turn(&mut client);
    assert_eq!(
        client.step(tunnel(InboundFrame::Body(vec![2, 0, 3], true))),
        ClientAction::Receive(vec![3])
    );
    assert_eq!(client.step(ClientEvent::Received(true)), ClientAction::Stop);
}

#[test]
fn h3_is_polled_after_every_packet() {
    let mut client = client_with_h3(true);
    let chunk = vec![0, 2, 0, 1, 0, 2, 0, 2];
    client.step(tunnel(InboundFrame::Body(chunk, false)));
    assert_eq!(client.step(ClientEvent::Received(true)), ClientAction::PollH3);
    assert_eq!(client.step(ClientEvent::Polled), ClientAction::Receive(vec![2]));
    assert_eq!(client.step(ClientEvent::Received(true)), ClientAction::PollH3);
    assert_eq!(client.step(ClientEvent::Polled), ClientAction::CheckDraining);
}

#[test]
fn request_is_sent_once() {
    let mut client = client_with_h3(false);
    client.step(ClientEvent::Timeout);
    client.step(ClientEvent::Draining(true));
    assert_eq!(
        client.step(ClientEvent::Established(true)),
        ClientAction::SendRequest(vec![
            Header::from_text(":method", "GET"),
            Header::from_text(":scheme", "https"),
            Header::from_text(":authority", "quic.tech"),
            Header::from_text(":path", "/first"),
            Header::from_text("priority", "u=2"),
        ])
    );
    assert_eq!(client.step(ClientEvent::RequestSent), ClientAction::PollH3);
    assert_eq!(client.step(ClientEvent::Polled), ClientAction::CheckClosed);
    assert_eq!(client.step(ClientEvent::Closed(false)), ClientAction::Await);
    client.step(ClientEvent::Timeout);
    client.step(ClientEvent::Draining(true));
    assert_eq!(client.step(ClientEvent::Established(true)), ClientAction::CheckClosed);
}

#[test]
fn h3_is_created_again_after_a_failure() {
    let mut client = waiting_client(false);
    for _ in 0..2 {
        client.step(ClientEvent::Timeout);
        client.step(ClientEvent::Draining(true));
        assert_eq!(client.step(ClientEvent::Established(true)), ClientAction::CreateH3);
        assert_eq!(client.step(ClientEvent::H3Created(false)), ClientAction::CheckClosed);
        assert_eq!(client.step(ClientEvent::Closed(false)), ClientAction::Await);
    }
}

#[test]
fn packets_cross_the_tunnel() {
    let mut client = quic_client(config(), 3, true);
    let mut relay = CapsuleRelay::new();
    let frame = match client.step(packet(&[4, 5, 6])) {
        ClientAction::SendFrame(OutboundFrame::Body(bytes, fin)) => InboundFrame::Body(bytes, fin),
        other => panic!("no frame: {:?}", other),
    };
    assert_eq!(
        relay.step(RelayEvent::Tunnel(Some(frame))),
        RelayAction::SendToTarget(vec![4, 5, 6])
    );
    assert_eq!(relay.step(RelayEvent::Sent(true)), RelayAction::Wait);
    assert_eq!(client.step(ClientEvent::FrameSent(true)), ClientAction::Await);
    let frame = match relay.step(RelayEvent::Target(Some(vec![7, 8]))) {
        RelayAction::SendToTunnel(OutboundFrame::Body(bytes, fin)) => {
            InboundFrame::Body(bytes, fin)
        },
        other => panic!("no frame: {:?}", other),
    };
    assert_eq!(client.step(tunnel(frame)), ClientAction::Receive(vec![7, 8]));
}

#[test]
fn responses_are_kept_and_counted() {
    let mut receiver = receiver(true, true, Some("/out"));
    receiver.start_request(1000);
    polling(&mut receiver);
    assert!(matches!(polled(&mut receiver, Polled::Headers(0)), ReceiverAction::Poll));
    match polled(&mut receiver, Polled::Data(0)) {
        ReceiverAction::OpenResponse(0, path) => assert_eq!(path, "/out/flow_3_stream_0.data"),
        _ => panic!("the file is not opened"),
    }
    assert!(matches!(receiver.step(ReceiverEvent::Opened(Some(77))), ReceiverAction::ReadBody(0)));
    for n in [10, 5] {
        assert!(matches!(
            receiver.step(ReceiverEvent::Body(BodyRead::Bytes(n))),
            ReceiverAction::WriteBody(0)
        ));
        assert!(matches!(receiver.step(ReceiverEvent::Written), ReceiverAction::ReadBody(0)));
    }
    assert!(matches!(
        receiver.step(ReceiverEvent::Body(BodyRead::Error)),
        ReceiverAction::ReadBody(0)
    ));
    assert!(matches!(receiver.step(ReceiverEvent::Body(BodyRead::Done)), ReceiverAction::Poll));
    assert_eq!(receiver.logging.bytes_received[&0], 15);
    // The file is open already.
    assert!(matches!(polled(&mut receiver, Polled::Data(0)), ReceiverAction::ReadBody(0)));
    assert!(matches!(
        receiver.step(ReceiverEvent::Body(BodyRead::Bytes(0))),
        ReceiverAction::Poll
    ));
    match polled(&mut receiver, Polled::Finished(0)) {
        ReceiverAction::Report(report) => {
            assert_eq!((report.stream_id, report.start_time), (0, 1000));
            assert_eq!(report.timing, Some(("/out/e2e-ab12.timing.json".to_owned(), 15)));
        },
        _ => panic!("the request is not reported on"),
    }
    assert!(receiver.logging.resp_map.is_empty());
    assert!(receiver.logging.bytes_received.is_empty());
    assert!(matches!(receiver.step(ReceiverEvent::Reported), ReceiverAction::Poll));
    // A request is reported on once.
    assert!(matches!(polled(&mut receiver, Polled::Finished(4)), ReceiverAction::Poll));
}

#[test]
fn responses_are_counted_without_a_file() {
    let mut receiver = receiver(true, true, None);
    receiver.start_request(5);
    polling(&mut receiver);
    assert!(matches!(polled(&mut receiver, Polled::Data(8)), ReceiverAction::ReadBody(8)));
    assert!(matches!(
        receiver.step(ReceiverEvent::Body(BodyRead::Bytes(3))),
        ReceiverAction::ReadBody(8)
    ));
    receiver.step(ReceiverEvent::Body(BodyRead::Done));
    match polled(&mut receiver, Polled::Finished(8)) {
        ReceiverAction::Report(report) => assert_eq!(report.timing, None),
        _ => panic!("the request is not reported on"),
    }
    assert_eq!(receiver.logging.bytes_received[&8], 3);
}

#[test]
fn file_that_cannot_be_opened_is_tried_again() {
    let mut receiver = receiver(true, false, Some("/out"));
    polling(&mut receiver);
    for _ in 0..2 {
        assert!(matches!(
            polled(&mut receiver, Polled::Data(0)),
            ReceiverAction::OpenResponse(0, _)
        ));
        assert!(matches!(receiver.step(ReceiverEvent::Opened(None)), ReceiverAction::ReadBody(0)));
        assert!(matches!(receiver.step(ReceiverEvent::Body(BodyRead::Done)), ReceiverAction::Poll));
    }
}

#[test]
fn reset_streams_are_forgotten() {
    let mut receiver = receiver(true, true, Some("/out"));
    polling(&mut receiver);
    polled(&mut receiver, Polled::Data(0));
    receiver.step(ReceiverEvent::Opened(Some(1)));
    receiver.step(ReceiverEvent::Body(BodyRead::Bytes(9)));
    receiver.step(ReceiverEvent::Written);
    receiver.step(ReceiverEvent::Body(BodyRead::Done));
    assert!(matches!(polled(&mut receiver, Polled::Reset(0)), ReceiverAction::Poll));
    assert!(receiver.logging.resp_map.is_empty());
    assert!(receiver.logging.bytes_received.is_empty());
    assert!(matches!(polled(&mut receiver, Polled::GoAway(0)), ReceiverAction::Poll));
    assert!(matches!(polled(&mut receiver, Polled::PriorityUpdate(0)), ReceiverAction::Poll));
}

#[test]
fn datagrams_are_kept_by_flow() {
    let mut receiver = receiver(true, true, Some("/out"));
    polling(&mut receiver);
    assert!(matches!(polled(&mut receiver, Polled::Done), ReceiverAction::ReadDgram));
    let dgram = |bytes: &[u8]| ReceiverEvent::Dgram(DgramRead::Dgram(bytes.to_vec()));
    match receiver.step(dgram(&[0x05, 0x00, 1, 2])) {
        ReceiverAction::OpenDgrams(5, path) => assert_eq!(path, "/out/flow_3_dgram_5.data"),
        _ => panic!("the file is not opened"),
    }
    match receiver.step(ReceiverEvent::Opened(Some(1))) {
        ReceiverAction::WriteDgram(5, payload) => assert_eq!(payload, vec![1, 2]),
        _ => panic!("the payload is not written"),
    }
    assert!(matches!(receiver.step(ReceiverEvent::Written), ReceiverAction::ReadDgram));
    match receiver.step(dgram(&[0x05, 0x07, 3])) {
        ReceiverAction::WriteDgram(5, payload) => assert_eq!(payload, vec![7, 3]),
        _ => panic!("the payload is not written"),
    }
    receiver.step(ReceiverEvent::Written);
    // Without a flow ID nothing is kept.
    assert!(matches!(receiver.step(dgram(&[0x40])), ReceiverAction::ReadDgram));
    // A file that cannot be opened loses the payload.
    receiver.step(dgram(&[0x06, 0x00, 4]));
    assert!(matches!(receiver.step(ReceiverEvent::Opened(None)), ReceiverAction::ReadDgram));
    assert!(matches!(
        receiver.step(ReceiverEvent::Dgram(DgramRead::Done)),
        ReceiverAction::Return
    ));
    polling(&mut receiver);
}

#[test]
fn datagrams_are_dropped_where_nothing_is_kept() {
    for (keep, dir) in [(false, Some("/out")), (true, None)] {
        let mut receiver = receiver(keep, true, dir);
        polling(&mut receiver);
        polled(&mut receiver, Polled::Error);
        assert!(matches!(
            receiver.step(ReceiverEvent::Dgram(DgramRead::Dgram(vec![5, 0, 1]))),
            ReceiverAction::ReadDgram
        ));
        assert!(matches!(
            receiver.step(ReceiverEvent::Dgram(DgramRead::Error)),
            ReceiverAction::Return
        ));
    }
}

#[test]
fn timing_report_text() {
    assert_eq!(
        timing_report(3, 4, 1500, 0),
        "{\n  \"bytes_received\": 0,\n  \"duration_us\": 1500,\n  \"flow_id\": 3,\n  \"stream_id\": 4\n}\n"
    );
}

#[test]
fn connection_report_text() {
    let stats = ConnectionStats {
        recv: 1,
        recv_bytes: 2,
        sent: 3,
        sent_bytes: 4,
        lost: 5,
        lost_bytes: 6,
        retrans: 7,
        stream_retrans_bytes: 8,
        dgram_recv: 9,
        dgram_sent: u64::MAX,
    };
    let lines = [
        "{",
        "  \"dgram_recv\": 9,",
        "  \"dgram_sent\": 18446744073709551615,",
        "  \"lost\": 5,",
        "  \"lost_bytes\": 6,",
        "  \"recv\": 1,",
        "  \"recv_bytes\": 2,",
        "  \"retrans\": 7,",
        "  \"sent\": 3,",
        "  \"sent_bytes\": 4,",
        "  \"stream_retrans_bytes\": 8",
        "}",
    ];
    assert_eq!(connection_report(&stats), Some(lines.join("\n")));
    assert_eq!(
        connection_report_path("/out", "ab12"),
        "/out/outer-connection-stats-ab12.json"
    );
}

#[test]
fn clients_accept_what_they_asked_for() {
    let client = quic_client(config(), 3, true);
    assert!(client.phase().accepts_event(&packet(&[1])));
    assert!(!client.phase().accepts_event(&ClientEvent::Timeout));
    let mut client = waiting_client(true);
    assert!(client.phase().accepts_event(&ClientEvent::Timeout));
    assert!(client.phase().accepts_event(&ClientEvent::Tunnel(None)));
    assert!(!client.phase().accepts_event(&packet(&[1])));
    client.step(ClientEvent::Tunnel(None));
    for event in [ClientEvent::Timeout, ClientEvent::Tunnel(None), ClientEvent::Polled] {
        assert!(!client.phase().accepts_event(&event));
    }
}

#[test]
fn receivers_accept_what_they_asked_for() {
    let mut receiver = receiver(true, true, None);
    assert!(receiver.accepts_event(&ReceiverEvent::Readable));
    assert!(!receiver.accepts_event(&ReceiverEvent::Written));
    polling(&mut receiver);
    polled(&mut receiver, Polled::Data(0));
    receiver.step(ReceiverEvent::Body(BodyRead::Bytes(u64::MAX)));
    assert!(receiver.accepts_event(&ReceiverEvent::Body(BodyRead::Done)));
    // Bytes are counted in 64 bits.
    assert!(!receiver.accepts_event(&ReceiverEvent::Body(BodyRead::Bytes(1))));
    assert!(receiver.accepts_event(&ReceiverEvent::Body(BodyRead::Bytes(0))));
}

#[test]
fn waits_last_as_long_as_the_timeout() {
    assert_eq!(next_wait(Some(0)), 0);
    assert_eq!(next_wait(Some(25_000_000)), 25_000_000);
    assert_eq!(next_wait(None), 1_000_000_000);
}

#[test]
fn reports_need_a_directory() {
    let dir = Some("/out".to_owned());
    assert_eq!(report_plan(false, &dir), ReportPlan::Skip);
    assert_eq!(report_plan(false, &None), ReportPlan::Skip);
    assert_eq!(report_plan(true, &None), ReportPlan::NoDirectory);
    assert_eq!(report_plan(true, &dir), ReportPlan::Write("/out".to_owned()));
}

#[test]
fn every_packet_goes_out_in_one_frame() {
    let mut client = quic_client(config(), 3, false);
    let events = [
        packet(&[1]),
        ClientEvent::FrameSent(true),
        ClientEvent::Timeout,
        ClientEvent::Draining(false),
        packet(&[2]),
        ClientEvent::FrameSent(true),
        ClientEvent::Draining(false),
        packet(&[3]),
        ClientEvent::FrameSent(true),
        ClientEvent::Draining(true),
        ClientEvent::Established(false),
        ClientEvent::Closed(true),
    ];
    let mut frames = Vec::new();
    for event in events {
        assert!(client.phase().accepts_event(&event));
        if let ClientAction::SendFrame(frame) = client.step(event) {
            frames.push(frame);
        }
    }
    let expected: Vec<_> = (1..4).map(|n| OutboundFrame::Datagram(vec![0, n], 3)).collect();
    assert_eq!(frames, expected);
}
