use nada::capsules::{dgram_capsule_from_udp_payload, CapsuleError};
use nada::dgrams::proxied_dgram;
use nada::frames::{InboundFrame, OutboundFrame};
use nada::relay::{CapsuleRelay, DgramRelay, RelayAction, RelayEvent, RelayPhase};

fn capsule(payload: &[u8]) -> Vec<u8> {
    match dgram_capsule_from_udp_payload(payload) {
        OutboundFrame::Body(bytes, _) => bytes,
        other => panic!("no body: {:?}", other),
    }
}

fn body(bytes: Vec<u8>, fin: bool) -> RelayEvent {
    RelayEvent::Tunnel(Some(InboundFrame::Body(bytes, fin)))
}

fn dgram(bytes: Vec<u8>) -> RelayEvent {
    RelayEvent::Tunnel(Some(InboundFrame::Datagram(bytes)))
}

#[test]
fn datagrams_go_both_ways() {
    let mut relay = DgramRelay::new(6);
    assert_eq!(relay.step(dgram(vec![0, 1, 2])), RelayAction::SendToTarget(vec![1, 2]));
    assert_eq!(relay.step(RelayEvent::Sent(true)), RelayAction::Wait);
    assert_eq!(
        relay.step(RelayEvent::Target(Some(vec![3]))),
        RelayAction::SendToTunnel(proxied_dgram(6, &[3]))
    );
    assert_eq!(relay.step(RelayEvent::Sent(true)), RelayAction::Wait);
    assert_eq!(relay.phase(), RelayPhase::Waiting);
}

#[test]
fn bodies_are_no_datagrams() {
    let mut relay = DgramRelay::new(6);
    assert_eq!(relay.step(body(vec![1, 2], true)), RelayAction::Wait);
    assert_eq!(relay.step(RelayEvent::Tunnel(None)), RelayAction::Stop);
    assert_eq!(relay.phase(), RelayPhase::Stopped);
}

#[test]
fn datagram_relays_stop_on_errors() {
    let mut relay = DgramRelay::new(1);
    assert_eq!(relay.step(RelayEvent::Target(None)), RelayAction::Stop);
    let mut relay = DgramRelay::new(1);
    relay.step(dgram(vec![0]));
    assert_eq!(relay.step(RelayEvent::Sent(false)), RelayAction::Stop);
    let mut relay = DgramRelay::new(1);
    relay.step(RelayEvent::Target(Some(vec![])));
    assert_eq!(relay.step(RelayEvent::Sent(false)), RelayAction::Stop);
    assert!(!relay.phase().accepts_event(&RelayEvent::Sent(true)));
    assert!(!relay.phase().accepts_event(&dgram(vec![])));
}

#[test]
fn capsules_go_to_the_target_in_order() {
    let mut relay = CapsuleRelay::new();
    let mut stream = capsule(&[1]);
    stream.extend(capsule(&[2, 2]));
    let rest = stream.split_off(4);
    // The first capsule is complete, the second is not.
    assert_eq!(relay.step(body(stream, false)), RelayAction::SendToTarget(vec![1]));
    assert_eq!(relay.step(RelayEvent::Sent(true)), RelayAction::Wait);
    let mut rest = rest;
    rest.extend(capsule(&[3]));
    assert_eq!(relay.step(body(rest, true)), RelayAction::SendToTarget(vec![2, 2]));
    assert_eq!(relay.step(RelayEvent::Sent(true)), RelayAction::SendToTarget(vec![3]));
    assert_eq!(relay.step(RelayEvent::Sent(true)), RelayAction::Stop);
}

#[test]
fn payload_that_cannot_be_sent_keeps_the_relay() {
    let mut relay = CapsuleRelay::new();
    let mut stream = capsule(&[1]);
    stream.extend(capsule(&[2]));
    assert_eq!(relay.step(body(stream, false)), RelayAction::SendToTarget(vec![1]));
    assert_eq!(relay.step(RelayEvent::Sent(false)), RelayAction::Wait);
    // The payload behind it goes with the next chunk.
    assert_eq!(relay.step(body(capsule(&[3]), true)), RelayAction::SendToTarget(vec![2]));
    assert_eq!(relay.step(RelayEvent::Sent(false)), RelayAction::Stop);
}

#[test]
fn target_payloads_become_capsules() {
    let mut relay = CapsuleRelay::new();
    assert_eq!(
        relay.step(RelayEvent::Target(Some(vec![7, 7]))),
        RelayAction::SendToTunnel(OutboundFrame::Body(vec![0, 3, 0, 7, 7], false))
    );
    assert_eq!(relay.step(RelayEvent::Sent(true)), RelayAction::Wait);
    relay.step(RelayEvent::Target(Some(vec![])));
    assert_eq!(relay.step(RelayEvent::Sent(false)), RelayAction::Stop);
    let mut relay = CapsuleRelay::new();
    assert_eq!(relay.step(RelayEvent::Target(None)), RelayAction::Stop);
}

#[test]
fn capsule_relays_end_with_the_tunnel() {
    let mut relay = CapsuleRelay::new();
    assert_eq!(relay.step(body(vec![], false)), RelayAction::Wait);
    assert_eq!(relay.step(body(vec![], true)), RelayAction::Stop);
    let mut relay = CapsuleRelay::new();
    assert_eq!(relay.step(RelayEvent::Tunnel(None)), RelayAction::Stop);
    let mut relay = CapsuleRelay::new();
    assert_eq!(relay.step(dgram(vec![0])), RelayAction::Stop);
    assert_eq!(relay.phase(), RelayPhase::Stopped);
}

#[test]
fn capsule_relays_reject_other_bytes() {
    let mut relay = CapsuleRelay::new();
    let mut stream = capsule(&[1]);
    stream.push(0x17);
    assert_eq!(
        relay.step(body(stream, false)),
        RelayAction::Reject(CapsuleError::UnsupportedType(0x17))
    );
    assert_eq!(relay.phase(), RelayPhase::Stopped);
}

#[test]
fn every_datagram_is_forwarded_once() {
    let mut relay = DgramRelay::new(6);
    let events = [
        dgram(vec![0, 1]),
        RelayEvent::Sent(true),
        body(vec![9], false),
        RelayEvent::Target(Some(vec![2])),
        RelayEvent::Sent(true),
        dgram(vec![0, 3]),
        RelayEvent::Sent(true),
        RelayEvent::Target(Some(vec![4])),
        RelayEvent::Sent(false),
    ];
    let mut to_target = Vec::new();
    let mut to_tunnel = Vec::new();
    for event in events {
        assert!(relay.phase().accepts_event(&event));
        match relay.step(event) {
            RelayAction::SendToTarget(payload) => to_target.push(payload),
            RelayAction::SendToTunnel(frame) => to_tunnel.push(frame),
            _ => {},
        }
    }
    assert_eq!(to_target, vec![vec![1], vec![3]]);
    assert_eq!(to_tunnel, vec![proxied_dgram(6, &[2]), proxied_dgram(6, &[4])]);
}
