use nada::dgrams::{proxied_dgram, retrieve_dgram};
use nada::frames::OutboundFrame;
use nada::helpers::{
    dest_addr_from_masque_uri, flow_id_from_stream_id, masque_path, sfv_bool, target_addr,
};
use nada::logging::{LogLevel, LogVerbosity};
use nada::{MasqueTunnels, MissingTunnel, Tunnel};

fn address(ip: &str, port: &str) -> Option<(String, String)> {
    Some((ip.to_owned(), port.to_owned()))
}

#[test]
fn datagram_layout() {
    assert_eq!(proxied_dgram(7, &[1, 2]), OutboundFrame::Datagram(vec![0, 1, 2], 7));
    assert_eq!(proxied_dgram(u64::MAX, &[]), OutboundFrame::Datagram(vec![0], u64::MAX));
}

#[test]
fn datagrams_come_back() {
    for payload in [vec![], vec![0], vec![64, 1, 2], vec![9; 1500]] {
        match proxied_dgram(3, &payload) {
            OutboundFrame::Datagram(mut bytes, 3) => {
                assert_eq!(retrieve_dgram(&mut bytes).to_vec(), payload);
            },
            other => panic!("no datagram of the flow: {:?}", other),
        }
    }
}

#[test]
fn payload_of_other_datagrams_is_all_of_them() {
    let mut other = [5, 1, 2];
    assert_eq!(retrieve_dgram(&mut other).to_vec(), vec![5, 1, 2]);
    let mut cut = [0x40];
    assert_eq!(retrieve_dgram(&mut cut).to_vec(), vec![0x40]);
    let mut empty: [u8; 0] = [];
    assert_eq!(retrieve_dgram(&mut empty).to_vec(), Vec::<u8>::new());
    let mut long_id = [0x40, 0x00, 8];
    assert_eq!(retrieve_dgram(&mut long_id).to_vec(), vec![8]);
}

#[test]
fn payloads_are_changed_in_place() {
    let mut dgram = [0, 1, 2];
    retrieve_dgram(&mut dgram)[1] = 9;
    assert_eq!(dgram, [0, 1, 9]);
}

#[test]
fn masque_uris() {
    assert_eq!(
        dest_addr_from_masque_uri(b"/.well-known/masque/udp/fd00:0:0:4::1/25565"),
        address("fd00:0:0:4::1", "25565")
    );
    assert_eq!(
        dest_addr_from_masque_uri(b"/.well-known/masque/udp/10.0.0.1/443/more/of/it"),
        address("10.0.0.1", "443")
    );
    assert_eq!(dest_addr_from_masque_uri(b"/.well-known/masque/udp//"), address("", ""));
    assert_eq!(
        dest_addr_from_masque_uri("/.well-known/masque/udp/h\u{f6}st/1".as_bytes()),
        address("h\u{f6}st", "1")
    );
}

#[test]
fn other_paths_have_no_target() {
    for path in [
        &b""[..],
        b"/",
        b"/.well-known/masque/udp/10.0.0.1",
        b".well-known/masque/udp/10.0.0.1/443",
        b"x/.well-known/masque/udp/10.0.0.1/443",
        b"/.well-known/masque/tcp/10.0.0.1/443",
        b"/.well-known/masque/ip/10.0.0.1/443",
        b"/.Well-known/masque/udp/10.0.0.1/443",
        b"/.well-known/masque/udp/\xff/443",
    ] {
        assert_eq!(dest_addr_from_masque_uri(path), None);
    }
}

#[test]
fn masque_paths_lead_back() {
    let path = masque_path("fd00::1", "25565");
    assert_eq!(path, "/.well-known/masque/udp/fd00::1/25565");
    assert_eq!(dest_addr_from_masque_uri(path.as_bytes()), address("fd00::1", "25565"));
    // Not with a slash in the address.
    let path = masque_path("a/b", "1");
    assert_eq!(dest_addr_from_masque_uri(path.as_bytes()), address("a", "b"));
    assert_eq!(target_addr("fd00::1", "25565"), "[fd00::1]:25565");
}

#[test]
fn structured_field_booleans() {
    assert_eq!(sfv_bool(true), "?1");
    assert_eq!(sfv_bool(false), "?0");
}

#[test]
fn flow_ids_are_quarter_stream_ids() {
    assert_eq!(flow_id_from_stream_id(0), 0);
    assert_eq!(flow_id_from_stream_id(4), 1);
    assert_eq!(flow_id_from_stream_id(7), 1);
    assert_eq!(flow_id_from_stream_id(u64::MAX), u64::MAX / 4);
}

#[test]
fn flows_are_taken_once() {
    let mut tunnels: MasqueTunnels<&str, u8> = MasqueTunnels::new();
    assert_eq!(tunnels.take_flow(1), Err(MissingTunnel(1)));
    tunnels.add_flow(1, "send", 7);
    tunnels.add_flow(2, "other", 8);
    assert_eq!(tunnels.take_flow(1), Ok(Some(("send", 7))));
    assert_eq!(tunnels.take_flow(1), Ok(None));
    tunnels.add_flow(1, "again", 9);
    assert_eq!(tunnels.take_flow(1), Ok(Some(("again", 9))));
    assert_eq!(tunnels.take_flow(2), Ok(Some(("other", 8))));
}

#[test]
fn half_a_tunnel_is_no_tunnel() {
    let mut tunnels: MasqueTunnels<u8, u8> = MasqueTunnels::default();
    let mut tunnel = Tunnel::new(1, 2);
    tunnel.recv = None;
    tunnels.masque_map.insert(5, tunnel);
    assert_eq!(tunnels.take_flow(5), Ok(None));
    assert_eq!(tunnels.masque_map[&5].send, None);
}

#[test]
fn log_levels() {
    let verbosity: Option<LogVerbosity> = LogLevel::Debug.into();
    assert_eq!(verbosity, Some(LogVerbosity::Debug));
    assert_eq!(Option::<LogVerbosity>::from(LogLevel::Info), Some(LogVerbosity::Info));
    assert_eq!(Option::<LogVerbosity>::from(LogLevel::Trace), Some(LogVerbosity::Trace));
    assert_eq!(Option::<LogVerbosity>::from(LogLevel::Off), None);
}
