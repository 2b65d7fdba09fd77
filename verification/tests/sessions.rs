use nada::args::{Args, ClientArgs, ProxyArgs};
use nada::client::{
    client_settings, connect_requests, is_last_body, read_response, tunnel_endpoint, OpenTunnel,
};
use nada::frames::{find_header, Header, InboundFrame, OutboundFrame};
use nada::logging::LogLevel;
use nada::prios::Priority;
use nada::proxy::{
    answer_request, handle_request, proxy_settings, scheduler_update, successful_response, Answer,
    Request, TunnelAnswer,
};
use nada::scheduler::{BoxedScheduler, PacketSchedulingAlgorithm};

fn common() -> Args {
    Args {
        proxy_address: "[::1]:443".to_owned(),
        log_keys: false,
        results_dir: None,
        qlog: false,
        log_level: LogLevel::Off,
        cc_algorithm: "cubic".to_owned(),
        initial_max_path_id: None,
    }
}

fn client() -> ClientArgs {
    ClientArgs {
        common: common(),
        client_address: "[::1]:0".to_owned(),
        proxy_authority: "masque.technology".to_owned(),
        target_ip: "fd00::4".to_owned(),
        target_port: "25565".to_owned(),
        ca: "ca.pem".to_owned(),
        server_name: "quic.tech".to_owned(),
        endpoint: vec!["/a".to_owned(), "/b".to_owned()],
        log_stats: false,
        keep_resp: false,
        skip_verify: false,
        reliable: true,
        outer_prios: vec!["u=0,i".to_owned(), "u=3".to_owned()],
        inner_prio: "u=3".to_owned(),
        idle_timeout_secs: 3,
        multipath: false,
        extra_addresses: vec!["[::2]:0".to_owned(), "[::3]:0".to_owned()],
        scheduler: "rr".to_owned(),
        probe_timeout: 5,
    }
}

fn proxy() -> ProxyArgs {
    ProxyArgs {
        common: common(),
        cert: "cert".to_owned(),
        key: "key".to_owned(),
        multipath: false,
        extra_addresses: vec!["[::2]:443".to_owned()],
        scheduler: "ecf".to_owned(),
        log_stats: false,
    }
}

fn header(name: &str, value: &str) -> Header {
    Header::from_text(name, value)
}

fn connect(path: &str) -> Vec<Header> {
    vec![
        header(":method", "CONNECT"),
        header(":protocol", "connect-udp"),
        header(":path", path),
        header("capsule-protocol", "?1"),
    ]
}

fn tunnel(answer: Answer) -> TunnelAnswer {
    match answer {
        Answer::Tunnel(tunnel) => tunnel,
        other => panic!("no tunnel: {:?}", other),
    }
}

fn algorithm(scheduler: Option<BoxedScheduler>) -> Option<PacketSchedulingAlgorithm> {
    scheduler.map(|s| s.algorithm())
}

#[test]
fn last_header_counts() {
    let headers = [header("a", "1"), header("b", "2"), header("a", "3")];
    assert_eq!(find_header(&headers, "a"), Some(b"3".to_vec()));
    assert_eq!(find_header(&headers, "b"), Some(b"2".to_vec()));
    assert_eq!(find_header(&headers, "A"), None);
    assert_eq!(find_header(&[], "a"), None);
}

#[test]
fn connect_request_headers() {
    let requests = connect_requests(&client());
    assert_eq!(requests.len(), 2);
    assert_eq!(
        requests[0],
        vec![
            header(":method", "CONNECT"),
            header(":protocol", "connect-udp"),
            header(":authority", "masque.technology"),
            header(":scheme", "https"),
            header(":path", "/.well-known/masque/udp/fd00::4/25565"),
            header("capsule-protocol", "?1"),
            header("priority", "u=0,i"),
        ]
    );
    assert_eq!(requests[1][6], header("priority", "u=3"));
    let mut args = client();
    args.reliable = false;
    assert_eq!(connect_requests(&args)[0][5], header("capsule-protocol", "?0"));
}

#[test]
fn client_and_proxy_agree() {
    for reliable in [true, false] {
        let mut args = client();
        args.reliable = reliable;
        for headers in connect_requests(&args) {
            let plan = handle_request(&headers, 8, true);
            let tunnel = tunnel(plan.answer);
            assert_eq!(tunnel.target_addr, "[fd00::4]:25565");
            assert_eq!((tunnel.reliable, tunnel.flow_id), (reliable, 2));
            match tunnel.response {
                OutboundFrame::Headers(response, _) => assert_eq!(
                    read_response(&response, 8),
                    Some(OpenTunnel { flow_id: 2, use_capsules: reliable })
                ),
                other => panic!("no headers: {:?}", other),
            }
        }
    }
}

#[test]
fn response_headers() {
    assert_eq!(
        successful_response(true, Some(Priority::new(2, true))),
        OutboundFrame::Headers(
            vec![header(":status", "200"), header("capsule-protocol", "?1")],
            Some(Priority::new(2, true))
        )
    );
    assert_eq!(
        successful_response(false, None),
        OutboundFrame::Headers(
            vec![header(":status", "200"), header("capsule-protocol", "?0")],
            None
        )
    );
}

#[test]
fn priorities_of_requests() {
    let mut headers = connect("/.well-known/masque/udp/10.0.0.1/53");
    headers.push(header("priority", "u=1, i, sched=rr"));
    let plan = handle_request(&headers, 4, true);
    assert_eq!(algorithm(plan.scheduler), Some(PacketSchedulingAlgorithm::RoundRobin));
    assert_eq!(
        tunnel(plan.answer).response,
        successful_response(true, Some(Priority::new(1, true)))
    );
    // The scheduler stays where it cannot be replaced.
    assert_eq!(algorithm(handle_request(&headers, 4, false).scheduler), None);
    // A later header replaces an earlier one.
    headers.push(header("priority", "u=6"));
    let plan = handle_request(&headers, 4, true);
    assert_eq!(algorithm(plan.scheduler), None);
    assert_eq!(
        tunnel(plan.answer).response,
        successful_response(true, Some(Priority::new(6, false)))
    );
}

#[test]
fn invalid_requests_may_still_reschedule() {
    let plan = handle_request(&[header("priority", "sched=ll")], 0, true);
    assert_eq!(algorithm(plan.scheduler), Some(PacketSchedulingAlgorithm::LowestLatency));
    assert_eq!(plan.answer, Answer::Invalid);
    // A name that no scheduler has changes nothing.
    let plan = handle_request(&[header("priority", "sched=x")], 0, true);
    assert_eq!(plan.hint, Some("x".to_owned()));
    assert_eq!(algorithm(plan.scheduler), None);
    assert_eq!(handle_request(&[header("priority", "sched=x")], 0, false).hint, None);
}

#[test]
fn scheduler_hints() {
    assert_eq!(
        algorithm(scheduler_update(&Some("eps-aware-ecf".to_owned()))),
        Some(PacketSchedulingAlgorithm::StreamAwareEarliestCompletionFirst)
    );
    assert_eq!(algorithm(scheduler_update(&Some("nothing".to_owned()))), None);
    assert_eq!(algorithm(scheduler_update(&None)), None);
}

#[test]
fn only_connect_udp_is_answered() {
    let good = connect("/.well-known/masque/udp/10.0.0.1/53");
    for left_out in 0..3 {
        let mut headers = good.clone();
        headers.remove(left_out);
        assert_eq!(handle_request(&headers, 0, true).answer, Answer::Invalid);
    }
    let mut headers = good.clone();
    headers[0] = header(":method", "GET");
    assert_eq!(handle_request(&headers, 0, true).answer, Answer::Invalid);
    let mut headers = good.clone();
    headers[1] = header(":protocol", "connect-ip");
    assert_eq!(handle_request(&headers, 0, true).answer, Answer::Invalid);
    assert_eq!(handle_request(&connect("/index.html"), 0, true).answer, Answer::NoTarget);
    assert_eq!(
        tunnel(handle_request(&good, 0, true).answer).target_addr,
        "[10.0.0.1]:53"
    );
}

#[test]
fn requests_without_capsules_use_datagrams() {
    for value in [None, Some(b"?0".to_vec()), Some(b"yes".to_vec())] {
        let request = Request {
            method: Some(b"CONNECT".to_vec()),
            path: Some(b"/.well-known/masque/udp/::1/9".to_vec()),
            protocol: Some(b"connect-udp".to_vec()),
            capsule_protocol: value,
            priority: None,
        };
        let tunnel = tunnel(answer_request(request, 13, None));
        assert_eq!(
            tunnel,
            TunnelAnswer {
                target_addr: "[::1]:9".to_owned(),
                response: successful_response(false, None),
                reliable: false,
                flow_id: 3,
            }
        );
    }
}

#[test]
fn only_status_200_opens_a_tunnel() {
    assert_eq!(read_response(&[], 0), None);
    assert_eq!(read_response(&[header(":status", "404")], 0), None);
    assert_eq!(
        read_response(&[header(":status", "200")], 12),
        Some(OpenTunnel { flow_id: 3, use_capsules: false })
    );
    assert_eq!(
        read_response(&[header(":status", "200"), header(":status", "503")], 12),
        None
    );
}

#[test]
fn endpoints_of_tunnels() {
    let endpoints = vec!["/a".to_owned(), "/b".to_owned()];
    assert_eq!(tunnel_endpoint(&endpoints, "/common", 0), "/a");
    assert_eq!(tunnel_endpoint(&endpoints, "/common", 1), "/b");
    assert_eq!(tunnel_endpoint(&endpoints, "/common", 2), "/common");
    assert_eq!(tunnel_endpoint(&endpoints, "/common", u64::MAX), "/common");
}

#[test]
fn body_of_an_answer_ends_with_fin() {
    assert!(is_last_body(&InboundFrame::Body(vec![], true)));
    assert!(!is_last_body(&InboundFrame::Body(vec![1], false)));
    assert!(!is_last_body(&InboundFrame::Datagram(vec![])));
}

#[test]
fn client_settings_without_multipath() {
    let settings = client_settings(&client());
    assert_eq!(settings.extra_addresses, Vec::<String>::new());
    assert_eq!(settings.initial_max_path_id, None);
    assert_eq!(settings.scheduler, None);
    assert_eq!(settings.idle_timeout_secs, 3);
    assert_eq!(settings.keylog_file, None);
    assert_eq!(settings.qlog_dir, None);
}

#[test]
fn client_settings_with_multipath() {
    let mut args = client();
    args.multipath = true;
    args.common.log_keys = true;
    args.common.qlog = true;
    args.common.results_dir = Some("/out".to_owned());
    let settings = client_settings(&args);
    assert_eq!(settings.extra_addresses, vec!["[::2]:0".to_owned(), "[::3]:0".to_owned()]);
    assert_eq!(settings.initial_max_path_id, Some(2));
    assert_eq!(settings.scheduler, Some("rr".to_owned()));
    assert_eq!(settings.idle_timeout_secs, 5);
    assert_eq!(settings.keylog_file, Some("/out/ssl-client.key".to_owned()));
    assert_eq!(settings.qlog_dir, Some("/out".to_owned()));

    args.common.initial_max_path_id = Some(9);
    args.idle_timeout_secs = 6;
    let settings = client_settings(&args);
    assert_eq!(settings.initial_max_path_id, Some(9));
    assert_eq!(settings.idle_timeout_secs, 6);

    // Without paths to probe the idle timeout stays.
    args.idle_timeout_secs = 1;
    args.extra_addresses = vec![];
    assert_eq!(client_settings(&args).idle_timeout_secs, 1);
}

#[test]
fn proxy_settings_follow_the_command_line() {
    let mut args = proxy();
    let settings = proxy_settings(&args);
    assert_eq!(settings.bind_addresses, vec!["[::1]:443".to_owned()]);
    assert_eq!(settings.initial_max_path_id, None);
    assert_eq!(algorithm(settings.scheduler), None);
    assert_eq!(settings.keylog_file, None);
    assert_eq!(settings.qlog_dir, None);

    args.multipath = true;
    args.common.log_keys = true;
    args.common.results_dir = Some("/out".to_owned());
    let settings = proxy_settings(&args);
    assert_eq!(settings.bind_addresses, vec!["[::1]:443".to_owned(), "[::2]:443".to_owned()]);
    assert_eq!(settings.initial_max_path_id, Some(1));
    assert_eq!(
        algorithm(settings.scheduler),
        Some(PacketSchedulingAlgorithm::EarliestCompletionFirst)
    );
    assert_eq!(settings.keylog_file, Some("/out/ssl-proxy.key".to_owned()));
    assert_eq!(settings.qlog_dir, None);

    args.scheduler = "unknown".to_owned();
    args.common.qlog = true;
    let settings = proxy_settings(&args);
    assert_eq!(algorithm(settings.scheduler), None);
    assert_eq!(settings.qlog_dir, Some("/out".to_owned()));
}
