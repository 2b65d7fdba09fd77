//! The life of an end-to-end connection.
//!
//! A client is told what the tunnel, the clock or the inner QUIC connection gave and answers what
//! to do next. Whoever runs it holds the connections.

use vstd::prelude::*;

use crate::capsules;
use crate::capsules::{
    dgram_capsule_from_udp_payload, CapsuleDeframer, CapsuleError, CapsuleState, DeframerView,
};
use crate::dgrams;
use crate::dgrams::{proxied_dgram, retrieve_dgram};
use crate::e2e::E2eClientConfig;
use crate::frames;
use crate::frames::{
    Header, HeaderView, InboundFrame, InboundFrameView, OutboundFrame, OutboundFrameView,
};
use crate::relay::{CapsuleRelayView, DgramRelayView, RelayActionView, RelayEventView};
use crate::varint::MAX_VARINT;
use crate::CONTEXT_ID_VARINT_LEN;

verus! {

/// How long to wait where the inner connection has no timeout, in nanoseconds.
pub const DEFAULT_WAIT_NANOS: u128 = 1_000_000_000;

/// How long to wait for the tunnel before the inner connection is told of a timeout: as long as it
/// says, in nanoseconds.
pub fn next_wait(timeout_nanos: Option<u128>) -> (nanos: u128)
    ensures
        nanos == match timeout_nanos {
            Some(timeout) => timeout,
            None => DEFAULT_WAIT_NANOS,
        },
{
    match timeout_nanos {
        Some(timeout) => timeout,
        None => DEFAULT_WAIT_NANOS,
    }
}

/// What asking the inner connection for a packet gave.
#[derive(Debug, Clone, PartialEq, Eq)]
pub enum Outgoing {
    Packet(Vec<u8>),
    Done,
    Error,
}

/// What asking for a packet gave, by its view.
pub enum OutgoingView {
    Packet(Seq<u8>),
    Done,
    Error,
}

impl View for Outgoing {
    type V = OutgoingView;

    open spec fn view(&self) -> OutgoingView {
        match self {
            Outgoing::Packet(packet) => OutgoingView::Packet(packet@),
            Outgoing::Done => OutgoingView::Done,
            Outgoing::Error => OutgoingView::Error,
        }
    }
}

/// What happened to a client.
#[derive(Debug, Clone, PartialEq, Eq)]
pub enum ClientEvent {
    /// The timer of the inner connection went off.
    Timeout,
    /// A frame came in on the tunnel, or the tunnel was closed.
    Tunnel(Option<InboundFrame>),
    /// The inner connection took the packet, or failed to.
    Received(bool),
    /// Everything that the inner HTTP/3 connection had was read.
    Polled,
    /// Whether the inner connection is draining.
    Draining(bool),
    /// The inner connection was asked for a packet.
    Outgoing(Outgoing),
    /// The frame was sent, or sending it failed.
    FrameSent(bool),
    /// Whether the inner connection is established.
    Established(bool),
    /// The inner HTTP/3 connection was created, or creating it failed.
    H3Created(bool),
    /// The request was handed to the inner HTTP/3 connection.
    RequestSent,
    /// Whether the inner connection is closed.
    Closed(bool),
}

/// What happened to a client, by its view.
pub enum ClientEventView {
    Timeout,
    Tunnel(Option<InboundFrameView>),
    Received(bool),
    Polled,
    Draining(bool),
    Outgoing(OutgoingView),
    FrameSent(bool),
    Established(bool),
    H3Created(bool),
    RequestSent,
    Closed(bool),
}

impl View for ClientEvent {
    type V = ClientEventView;

    open spec fn view(&self) -> ClientEventView {
        match self {
            ClientEvent::Timeout => ClientEventView::Timeout,
            ClientEvent::Tunnel(Some(frame)) => ClientEventView::Tunnel(Some(frame@)),
            ClientEvent::Tunnel(None) => ClientEventView::Tunnel(None),
            ClientEvent::Received(ok) => ClientEventView::Received(*ok),
            ClientEvent::Polled => ClientEventView::Polled,
            ClientEvent::Draining(draining) => ClientEventView::Draining(*draining),
            ClientEvent::Outgoing(outgoing) => ClientEventView::Outgoing(outgoing@),
            ClientEvent::FrameSent(ok) => ClientEventView::FrameSent(*ok),
            ClientEvent::Established(established) => ClientEventView::Established(*established),
            ClientEvent::H3Created(ok) => ClientEventView::H3Created(*ok),
            ClientEvent::RequestSent => ClientEventView::RequestSent,
            ClientEvent::Closed(closed) => ClientEventView::Closed(*closed),
        }
    }
}

/// What a client does next.
#[derive(Debug, Clone, PartialEq, Eq)]
pub enum ClientAction {
    /// Wait for the tunnel and for the timer.
    Await,
    /// Hand a packet to the inner connection.
    Receive(Vec<u8>),
    /// Read what the inner HTTP/3 connection has.
    PollH3,
    /// Ask whether the inner connection is draining.
    CheckDraining,
    /// Ask the inner connection for a packet.
    TakePacket,
    /// Send a frame on the tunnel.
    SendFrame(OutboundFrame),
    /// Ask whether the inner connection is established.
    CheckEstablished,
    /// Create the inner HTTP/3 connection.
    CreateH3,
    /// Send this request on the inner HTTP/3 connection.
    SendRequest(Vec<Header>),
    /// Ask whether the inner connection is closed.
    CheckClosed,
    /// The client is over.
    Stop,
    /// The client is over: what came in on the tunnel are no Datagram Capsules.
    Reject(CapsuleError),
}

/// What a client does, by its view.
pub enum ClientActionView {
    Await,
    Receive(Seq<u8>),
    PollH3,
    CheckDraining,
    TakePacket,
    SendFrame(OutboundFrameView),
    CheckEstablished,
    CreateH3,
    SendRequest(Seq<HeaderView>),
    CheckClosed,
    Stop,
    Reject(CapsuleError),
}

impl View for ClientAction {
    type V = ClientActionView;

    open spec fn view(&self) -> ClientActionView {
        match self {
            ClientAction::Await => ClientActionView::Await,
            ClientAction::Receive(packet) => ClientActionView::Receive(packet@),
            ClientAction::PollH3 => ClientActionView::PollH3,
            ClientAction::CheckDraining => ClientActionView::CheckDraining,
            ClientAction::TakePacket => ClientActionView::TakePacket,
            ClientAction::SendFrame(frame) => ClientActionView::SendFrame(frame@),
            ClientAction::CheckEstablished => ClientActionView::CheckEstablished,
            ClientAction::CreateH3 => ClientActionView::CreateH3,
            ClientAction::SendRequest(headers) => ClientActionView::SendRequest(
                frames::header_views(headers@),
            ),
            ClientAction::CheckClosed => ClientActionView::CheckClosed,
            ClientAction::Stop => ClientActionView::Stop,
            ClientAction::Reject(e) => ClientActionView::Reject(*e),
        }
    }
}

/// What goes on after the inner connection took a packet or was polled.
#[derive(Debug, Clone, Copy, PartialEq, Eq, Structural)]
pub enum Resume {
    /// The packet came in a datagram.
    Datagram,
    /// The packet came in a capsule. `fin` says whether the tunnel ended behind it.
    Capsules { fin: bool },
    /// The request was sent.
    Request,
}

/// What a client is at.
#[derive(Debug, Clone, Copy, PartialEq, Eq, Structural)]
pub enum ClientPhase {
    /// Asking for the first packet.
    Opening,
    /// Sending the first packet.
    SendingFirst,
    /// Waiting for the tunnel and for the timer.
    Waiting,
    /// Handing a packet to the inner connection.
    Receiving(Resume),
    /// Reading what the inner HTTP/3 connection has.
    Polling(Resume),
    /// Asking whether the inner connection is draining.
    CheckingDraining,
    /// Asking for a packet.
    TakingPacket,
    /// Sending a packet.
    SendingFrame,
    /// Asking whether the inner connection is established.
    CheckingEstablished,
    /// Creating the inner HTTP/3 connection.
    CreatingH3,
    /// Sending the request.
    Requesting,
    /// Asking whether the inner connection is closed.
    CheckingClosed,
    /// The client is over.
    Stopped,
}

impl ClientPhase {
    /// Whether this can happen to a client in this phase.
    pub open spec fn accepts(self, event: ClientEventView) -> bool {
        match self {
            ClientPhase::Opening => event is Outgoing,
            ClientPhase::SendingFirst => event is FrameSent,
            ClientPhase::Waiting => event is Timeout || event is Tunnel,
            ClientPhase::Receiving(_) => event is Received,
            ClientPhase::Polling(_) => event is Polled,
            ClientPhase::CheckingDraining => event is Draining,
            ClientPhase::TakingPacket => event is Outgoing,
            ClientPhase::SendingFrame => event is FrameSent,
            ClientPhase::CheckingEstablished => event is Established,
            ClientPhase::CreatingH3 => event is H3Created,
            ClientPhase::Requesting => event is RequestSent,
            ClientPhase::CheckingClosed => event is Closed,
            ClientPhase::Stopped => false,
        }
    }

    /// Whether this can happen to a client in this phase.
    pub fn accepts_event(self, event: &ClientEvent) -> (accepted: bool)
        ensures
            accepted == self.accepts(event@),
    {
        match self {
            ClientPhase::Opening => matches!(event, ClientEvent::Outgoing(_)),
            ClientPhase::SendingFirst => matches!(event, ClientEvent::FrameSent(_)),
            ClientPhase::Waiting => match event {
                ClientEvent::Timeout => true,
                ClientEvent::Tunnel(_) => true,
                _ => false,
            },
            ClientPhase::Receiving(_) => matches!(event, ClientEvent::Received(_)),
            ClientPhase::Polling(_) => matches!(event, ClientEvent::Polled),
            ClientPhase::CheckingDraining => matches!(event, ClientEvent::Draining(_)),
            ClientPhase::TakingPacket => matches!(event, ClientEvent::Outgoing(_)),
            ClientPhase::SendingFrame => matches!(event, ClientEvent::FrameSent(_)),
            ClientPhase::CheckingEstablished => matches!(event, ClientEvent::Established(_)),
            ClientPhase::CreatingH3 => matches!(event, ClientEvent::H3Created(_)),
            ClientPhase::Requesting => matches!(event, ClientEvent::RequestSent),
            ClientPhase::CheckingClosed => matches!(event, ClientEvent::Closed(_)),
            ClientPhase::Stopped => false,
        }
    }
}

/// The field lines of the request that goes through a tunnel.
pub open spec fn get_headers(
    server_name: Seq<char>,
    endpoint: Seq<char>,
    inner_prio: Seq<char>,
) -> Seq<HeaderView> {
    seq![
        frames::text_header(":method"@, "GET"@),
        frames::text_header(":scheme"@, "https"@),
        frames::text_header(":authority"@, server_name),
        frames::text_header(":path"@, endpoint),
        frames::text_header("priority"@, inner_prio),
    ]
}

/// The request that goes through a tunnel.
pub fn get_request(config: &E2eClientConfig) -> (headers: Vec<Header>)
    ensures
        frames::header_views(headers@) == get_headers(
            config.server_name@,
            config.endpoint@,
            config.inner_prio@,
        ),
{
    let headers: Vec<Header> = vec![
        Header::from_text(":method", "GET"),
        Header::from_text(":scheme", "https"),
        Header::from_text(":authority", config.server_name.as_str()),
        Header::from_text(":path", config.endpoint.as_str()),
        Header::from_text("priority", config.inner_prio.as_str()),
    ];
    assert(frames::header_views(headers@) =~= get_headers(
        config.server_name@,
        config.endpoint@,
        config.inner_prio@,
    ));
    headers
}

/// An end-to-end client in a tunnel.
pub struct QuicClient {
    config: E2eClientConfig,
    flow_id: u64,
    reliable_masque: bool,
    deframer: CapsuleDeframer,
    has_h3: bool,
    get_request_sent: bool,
    phase: ClientPhase,
}

/// What an end-to-end client knows.
pub struct QuicClientView {
    /// The field lines of its request.
    pub request: Seq<HeaderView>,
    pub flow_id: u64,
    /// Whether packets go as capsules, else as datagrams.
    pub reliable_masque: bool,
    pub deframer: DeframerView,
    /// Whether there is an inner HTTP/3 connection.
    pub has_h3: bool,
    pub get_request_sent: bool,
    pub phase: ClientPhase,
}

impl View for QuicClient {
    type V = QuicClientView;

    closed spec fn view(&self) -> QuicClientView {
        QuicClientView {
            request: get_headers(
                self.config.server_name@,
                self.config.endpoint@,
                self.config.inner_prio@,
            ),
            flow_id: self.flow_id,
            reliable_masque: self.reliable_masque,
            deframer: self.deframer@,
            has_h3: self.has_h3,
            get_request_sent: self.get_request_sent,
            phase: self.phase,
        }
    }
}

impl QuicClientView {
    /// The client in another phase, and what it does.
    pub open spec fn go(self, phase: ClientPhase, action: ClientActionView) -> (
        QuicClientView,
        ClientActionView,
    ) {
        (QuicClientView { phase, ..self }, action)
    }

    /// The client is over.
    pub open spec fn stop(self) -> (QuicClientView, ClientActionView) {
        self.go(ClientPhase::Stopped, ClientActionView::Stop)
    }

    /// Sends what the inner connection has to send, unless it is draining.
    pub open spec fn flush(self) -> (QuicClientView, ClientActionView) {
        self.go(ClientPhase::CheckingDraining, ClientActionView::CheckDraining)
    }

    /// Looks at how the inner connection stands, once everything is sent.
    pub open spec fn advance(self) -> (QuicClientView, ClientActionView) {
        self.go(ClientPhase::CheckingEstablished, ClientActionView::CheckEstablished)
    }

    /// Waits for more, unless the inner connection is closed.
    pub open spec fn finish_turn(self) -> (QuicClientView, ClientActionView) {
        self.go(ClientPhase::CheckingClosed, ClientActionView::CheckClosed)
    }

    /// The frame that takes a packet through the tunnel.
    pub open spec fn wrap(self, packet: Seq<u8>) -> OutboundFrameView {
        if self.reliable_masque {
            OutboundFrameView::Body(capsules::capsule_bytes(packet), false)
        } else {
            OutboundFrameView::Datagram(dgrams::dgram_bytes(packet), self.flow_id)
        }
    }

    /// Whether a frame can hold a packet: the length of a capsule is a variable-length integer, and
    /// the frame has to fit in memory.
    pub open spec fn fits(self, packet: Seq<u8>) -> bool {
        if self.reliable_masque {
            &&& packet.len() < MAX_VARINT
            &&& capsules::capsule_bytes(packet).len() <= usize::MAX
        } else {
            packet.len() + CONTEXT_ID_VARINT_LEN <= usize::MAX
        }
    }

    /// Hands the next packet of the capsules that were read to the inner connection. Without one
    /// the turn goes on, or the client ends with the tunnel.
    pub open spec fn next_capsule(self, fin: bool) -> (QuicClientView, ClientActionView) {
        let payloads = self.deframer.payloads;
        if payloads.len() > 0 {
            (QuicClientView {
                deframer: DeframerView { payloads: payloads.skip(1), ..self.deframer },
                ..self
            }).go(
                ClientPhase::Receiving(Resume::Capsules { fin }),
                ClientActionView::Receive(payloads[0]),
            )
        } else if fin {
            self.stop()
        } else {
            self.flush()
        }
    }

    /// What is done about a frame that came in. Body bytes count only on a tunnel of capsules.
    pub open spec fn on_frame(self, frame: InboundFrameView) -> (QuicClientView, ClientActionView) {
        match frame {
            InboundFrameView::Datagram(dgram) => self.go(
                ClientPhase::Receiving(Resume::Datagram),
                ClientActionView::Receive(dgrams::dgram_payload(dgram)),
            ),
            InboundFrameView::Body(bytes, fin) => if !self.reliable_masque {
                self.flush()
            } else {
                let fed = QuicClientView { deframer: self.deframer.run(bytes), ..self };
                match fed.deframer.outcome() {
                    Ok(_) => fed.next_capsule(fin),
                    Err(e) => fed.go(ClientPhase::Stopped, ClientActionView::Reject(e)),
                }
            },
        }
    }

    /// What goes on after the inner connection took a packet or was polled.
    pub open spec fn resume(self, resume: Resume) -> (QuicClientView, ClientActionView) {
        match resume {
            Resume::Datagram => self.flush(),
            Resume::Capsules { fin } => self.next_capsule(fin),
            Resume::Request => self.finish_turn(),
        }
    }

    /// What is done on an established connection: its HTTP/3 connection is created, then the
    /// request is sent, once.
    pub open spec fn on_established(self) -> (QuicClientView, ClientActionView) {
        if !self.has_h3 {
            self.go(ClientPhase::CreatingH3, ClientActionView::CreateH3)
        } else if !self.get_request_sent {
            (QuicClientView { get_request_sent: true, ..self }).go(
                ClientPhase::Requesting,
                ClientActionView::SendRequest(self.request),
            )
        } else {
            self.finish_turn()
        }
    }

    /// What an event changes, and what is done about it.
    pub open spec fn step(self, event: ClientEventView) -> (QuicClientView, ClientActionView) {
        match (self.phase, event) {
            (ClientPhase::Opening, ClientEventView::Outgoing(OutgoingView::Packet(packet))) => self.go(
                ClientPhase::SendingFirst,
                ClientActionView::SendFrame(self.wrap(packet)),
            ),
            (ClientPhase::Opening, _) => self.go(ClientPhase::Waiting, ClientActionView::Await),
            (ClientPhase::SendingFirst, _) => self.go(
                ClientPhase::Waiting,
                ClientActionView::Await,
            ),
            (ClientPhase::Waiting, ClientEventView::Timeout) => self.flush(),
            (ClientPhase::Waiting, ClientEventView::Tunnel(Some(frame))) => self.on_frame(frame),
            (ClientPhase::Receiving(resume), ClientEventView::Received(true)) => if self.has_h3 {
                self.go(ClientPhase::Polling(resume), ClientActionView::PollH3)
            } else {
                self.resume(resume)
            },
            (ClientPhase::Polling(resume), _) => self.resume(resume),
            (ClientPhase::CheckingDraining, ClientEventView::Draining(true)) => self.advance(),
            (ClientPhase::CheckingDraining, _) => self.go(
                ClientPhase::TakingPacket,
                ClientActionView::TakePacket,
            ),
            (ClientPhase::TakingPacket, ClientEventView::Outgoing(OutgoingView::Packet(packet))) => self.go(
                ClientPhase::SendingFrame,
                ClientActionView::SendFrame(self.wrap(packet)),
            ),
            (ClientPhase::TakingPacket, ClientEventView::Outgoing(OutgoingView::Done)) =>
                self.advance(),
            (ClientPhase::SendingFrame, ClientEventView::FrameSent(true)) => self.flush(),
            (ClientPhase::CheckingEstablished, ClientEventView::Established(true)) =>
                self.on_established(),
            (ClientPhase::CheckingEstablished, _) => self.finish_turn(),
            (ClientPhase::CreatingH3, ClientEventView::H3Created(ok)) => (QuicClientView {
                has_h3: ok,
                ..self
            }).finish_turn(),
            (ClientPhase::Requesting, _) => self.go(
                ClientPhase::Polling(Resume::Request),
                ClientActionView::PollH3,
            ),
            (ClientPhase::CheckingClosed, ClientEventView::Closed(false)) => self.go(
                ClientPhase::Waiting,
                ClientActionView::Await,
            ),
            _ => self.stop(),
        }
    }

    /// What a list of events, one after another, changes, and what is done about each.
    pub open spec fn run(self, events: Seq<ClientEventView>) -> (
        QuicClientView,
        Seq<ClientActionView>,
    )
        decreases events.len(),
    {
        if events.len() == 0 {
            (self, Seq::empty())
        } else {
            let (before, actions) = self.run(events.drop_last());
            let (after, action) = before.step(events.last());
            (after, actions.push(action))
        }
    }
}

/// Starts a QUIC client at the MASQUE tunnel ingress. It first asks the inner connection for a
/// packet.
pub fn quic_client(config: E2eClientConfig, flow_id: u64, reliable_masque: bool) -> (client:
    QuicClient)
    ensures
        client.wf(),
        client@ == (QuicClientView {
            request: get_headers(config.server_name@, config.endpoint@, config.inner_prio@),
            flow_id,
            reliable_masque,
            deframer: DeframerView { state: CapsuleState::Type, payloads: Seq::empty() },
            has_h3: false,
            get_request_sent: false,
            phase: ClientPhase::Opening,
        }),
{
    QuicClient {
        config,
        flow_id,
        reliable_masque,
        deframer: CapsuleDeframer::new(),
        has_h3: false,
        get_request_sent: false,
        phase: ClientPhase::Opening,
    }
}

impl QuicClient {
    /// What every client keeps.
    pub closed spec fn wf(self) -> bool {
        self.deframer.wf()
    }

    /// What the client is at.
    pub fn phase(&self) -> (phase: ClientPhase)
        ensures
            phase == self@.phase,
    {
        self.phase
    }

    fn stop(&mut self) -> (action: ClientAction)
        requires
            old(self).wf(),
        ensures
            final(self).wf(),
            (final(self)@, action@) == old(self)@.stop(),
    {
        self.phase = ClientPhase::Stopped;
        ClientAction::Stop
    }

    fn flush(&mut self) -> (action: ClientAction)
        requires
            old(self).wf(),
        ensures
            final(self).wf(),
            (final(self)@, action@) == old(self)@.flush(),
    {
        self.phase = ClientPhase::CheckingDraining;
        ClientAction::CheckDraining
    }

    fn advance(&mut self) -> (action: ClientAction)
        requires
            old(self).wf(),
        ensures
            final(self).wf(),
            (final(self)@, action@) == old(self)@.advance(),
    {
        self.phase = ClientPhase::CheckingEstablished;
        ClientAction::CheckEstablished
    }

    fn finish_turn(&mut self) -> (action: ClientAction)
        requires
            old(self).wf(),
        ensures
            final(self).wf(),
            (final(self)@, action@) == old(self)@.finish_turn(),
    {
        self.phase = ClientPhase::CheckingClosed;
        ClientAction::CheckClosed
    }

    fn wait(&mut self) -> (action: ClientAction)
        requires
            old(self).wf(),
        ensures
            final(self).wf(),
            (final(self)@, action@) == old(self)@.go(ClientPhase::Waiting, ClientActionView::Await),
    {
        self.phase = ClientPhase::Waiting;
        ClientAction::Await
    }

    fn wrap(&self, packet: &[u8]) -> (frame: OutboundFrame)
        requires
            self@.fits(packet@),
        ensures
            frame@ == self@.wrap(packet@),
    {
        if self.reliable_masque {
            dgram_capsule_from_udp_payload(packet)
        } else {
            proxied_dgram(self.flow_id, packet)
        }
    }

    fn next_capsule(&mut self, fin: bool) -> (action: ClientAction)
        requires
            old(self).wf(),
        ensures
            final(self).wf(),
            (final(self)@, action@) == old(self)@.next_capsule(fin),
    {
        match self.deframer.pop_udp_payload() {
            Some(packet) => {
                self.phase = ClientPhase::Receiving(Resume::Capsules { fin });
                assert(old(self)@.deframer.payloads.skip(1) =~= self@.deframer.payloads);
                ClientAction::Receive(packet)
            },
            None => if fin {
                self.stop()
            } else {
                self.flush()
            },
        }
    }

    fn on_frame(&mut self, frame: InboundFrame) -> (action: ClientAction)
        requires
            old(self).wf(),
        ensures
            final(self).wf(),
            (final(self)@, action@) == old(self)@.on_frame(frame@),
    {
        match frame {
            InboundFrame::Datagram(mut dgram) => {
                self.phase = ClientPhase::Receiving(Resume::Datagram);
                let packet = vstd::slice::slice_to_vec(retrieve_dgram(dgram.as_mut_slice()));
                ClientAction::Receive(packet)
            },
            InboundFrame::Body(bytes, fin) => {
                if !self.reliable_masque {
                    return self.flush();
                }
                match self.deframer.try_feed(bytes.as_slice()) {
                    Ok(_) => self.next_capsule(fin),
                    Err(e) => {
                        self.phase = ClientPhase::Stopped;
                        ClientAction::Reject(e)
                    },
                }
            },
        }
    }

    fn resume(&mut self, resume: Resume) -> (action: ClientAction)
        requires
            old(self).wf(),
        ensures
            final(self).wf(),
            (final(self)@, action@) == old(self)@.resume(resume),
    {
        match resume {
            Resume::Datagram => self.flush(),
            Resume::Capsules { fin } => self.next_capsule(fin),
            Resume::Request => self.finish_turn(),
        }
    }

    fn on_established(&mut self) -> (action: ClientAction)
        requires
            old(self).wf(),
        ensures
            final(self).wf(),
            (final(self)@, action@) == old(self)@.on_established(),
    {
        if !self.has_h3 {
            self.phase = ClientPhase::CreatingH3;
            ClientAction::CreateH3
        } else if !self.get_request_sent {
            let headers = get_request(&self.config);
            self.get_request_sent = true;
            self.phase = ClientPhase::Requesting;
            ClientAction::SendRequest(headers)
        } else {
            self.finish_turn()
        }
    }

    fn step_inbound(&mut self, event: ClientEvent) -> (action: ClientAction)
        requires
            old(self).wf(),
            old(self)@.phase is Waiting || old(self)@.phase is Receiving || old(self)@.phase is Polling,
            old(self)@.phase.accepts(event@),
        ensures
            final(self).wf(),
            (final(self)@, action@) == old(self)@.step(event@),
    {
        match (self.phase, event) {
            (ClientPhase::Waiting, ClientEvent::Timeout) => self.flush(),
            (ClientPhase::Waiting, ClientEvent::Tunnel(Some(frame))) => self.on_frame(frame),
            (ClientPhase::Receiving(resume), ClientEvent::Received(true)) => {
                if self.has_h3 {
                    self.phase = ClientPhase::Polling(resume);
                    ClientAction::PollH3
                } else {
                    self.resume(resume)
                }
            },
            (ClientPhase::Polling(resume), _) => self.resume(resume),
            _ => self.stop(),
        }
    }

    fn step_outbound(&mut self, event: ClientEvent) -> (action: ClientAction)
        requires
            old(self).wf(),
            old(self)@.phase is Opening || old(self)@.phase is SendingFirst
                || old(self)@.phase is CheckingDraining || old(self)@.phase is TakingPacket
                || old(self)@.phase is SendingFrame,
            old(self)@.phase.accepts(event@),
            event matches ClientEvent::Outgoing(Outgoing::Packet(packet)) ==> old(self)@.fits(
                packet@,
            ),
        ensures
            final(self).wf(),
            (final(self)@, action@) == old(self)@.step(event@),
    {
        match (self.phase, event) {
            (ClientPhase::Opening, ClientEvent::Outgoing(Outgoing::Packet(packet))) => {
                self.phase = ClientPhase::SendingFirst;
                ClientAction::SendFrame(self.wrap(packet.as_slice()))
            },
            (ClientPhase::Opening, _) => self.wait(),
            (ClientPhase::SendingFirst, _) => self.wait(),
            (ClientPhase::CheckingDraining, ClientEvent::Draining(true)) => self.advance(),
            (ClientPhase::CheckingDraining, _) => {
                self.phase = ClientPhase::TakingPacket;
                ClientAction::TakePacket
            },
            (ClientPhase::TakingPacket, ClientEvent::Outgoing(Outgoing::Packet(packet))) => {
                self.phase = ClientPhase::SendingFrame;
                ClientAction::SendFrame(self.wrap(packet.as_slice()))
            },
            (ClientPhase::TakingPacket, ClientEvent::Outgoing(Outgoing::Done)) => self.advance(),
            (ClientPhase::SendingFrame, ClientEvent::FrameSent(true)) => self.flush(),
            _ => self.stop(),
        }
    }

    fn step_connection(&mut self, event: ClientEvent) -> (action: ClientAction)
        requires
            old(self).wf(),
            old(self)@.phase is CheckingEstablished || old(self)@.phase is CreatingH3
                || old(self)@.phase is Requesting || old(self)@.phase is CheckingClosed,
            old(self)@.phase.accepts(event@),
        ensures
            final(self).wf(),
            (final(self)@, action@) == old(self)@.step(event@),
    {
        match (self.phase, event) {
            (ClientPhase::CheckingEstablished, ClientEvent::Established(true)) =>
                self.on_established(),
            (ClientPhase::CheckingEstablished, _) => self.finish_turn(),
            (ClientPhase::CreatingH3, ClientEvent::H3Created(ok)) => {
                self.has_h3 = ok;
                self.finish_turn()
            },
            (ClientPhase::Requesting, _) => {
                self.phase = ClientPhase::Polling(Resume::Request);
                ClientAction::PollH3
            },
            (ClientPhase::CheckingClosed, ClientEvent::Closed(false)) => self.wait(),
            _ => self.stop(),
        }
    }

    /// Tells the client what happened and asks what to do next.
    pub fn step(&mut self, event: ClientEvent) -> (action: ClientAction)
        requires
            old(self).wf(),
            old(self)@.phase.accepts(event@),
            event matches ClientEvent::Outgoing(Outgoing::Packet(packet)) ==> old(self)@.fits(
                packet@,
            ),
        ensures
            final(self).wf(),
            (final(self)@, action@) == old(self)@.step(event@),
    {
        match self.phase {
            ClientPhase::Opening => self.step_outbound(event),
            ClientPhase::SendingFirst => self.step_outbound(event),
            ClientPhase::Waiting => self.step_inbound(event),
            ClientPhase::Receiving(_) => self.step_inbound(event),
            ClientPhase::Polling(_) => self.step_inbound(event),
            ClientPhase::CheckingDraining => self.step_outbound(event),
            ClientPhase::TakingPacket => self.step_outbound(event),
            ClientPhase::SendingFrame => self.step_outbound(event),
            ClientPhase::CheckingEstablished => self.step_connection(event),
            ClientPhase::CreatingH3 => self.step_connection(event),
            ClientPhase::Requesting => self.step_connection(event),
            ClientPhase::CheckingClosed => self.step_connection(event),
            ClientPhase::Stopped => self.stop(),
        }
    }
}

/// A client that is over stays over.
pub proof fn law_stopped_client_is_over(event: ClientEventView)
    ensures
        !ClientPhase::Stopped.accepts(event),
{
}

/// How many requests are sent.
pub open spec fn requests(actions: Seq<ClientActionView>) -> nat
    decreases actions.len(),
{
    if actions.len() == 0 {
        0
    } else {
        requests(actions.drop_last()) + if actions.last() is SendRequest {
            1nat
        } else {
            0
        }
    }
}

/// A request is sent at most once, and never after it was sent.
pub proof fn law_request_sent_once(client: QuicClientView, events: Seq<ClientEventView>)
    ensures
        ({
            let (after, actions) = client.run(events);
            &&& requests(actions) <= 1
            &&& client.get_request_sent ==> requests(actions) == 0 && after.get_request_sent
            &&& !client.get_request_sent ==> (requests(actions) == 1 <==> after.get_request_sent)
            &&& after.request == client.request
        }),
    decreases events.len(),
{
    if events.len() > 0 {
        law_request_sent_once(client, events.drop_last());
        let (before, actions) = client.run(events.drop_last());
        let (_, action) = before.step(events.last());
        assert(actions.push(action).drop_last() =~= actions);
    }
}

/// What is sent as the request is the request, and it is sent only on an established connection
/// that has its HTTP/3 connection.
pub proof fn law_request_needs_h3(client: QuicClientView, event: ClientEventView)
    ensures
        client.step(event).1 matches ClientActionView::SendRequest(headers) ==> {
            &&& headers == client.request
            &&& client.has_h3
            &&& event == ClientEventView::Established(true)
        },
{
}

/// Whether every event of a list can happen to the client at its turn.
pub open spec fn all_accepted(client: QuicClientView, events: Seq<ClientEventView>) -> bool
    decreases events.len(),
{
    events.len() > 0 ==> {
        &&& all_accepted(client, events.drop_last())
        &&& client.run(events.drop_last()).0.phase.accepts(events.last())
    }
}

/// The packets that the inner connection gives.
pub open spec fn packets(events: Seq<ClientEventView>) -> Seq<Seq<u8>>
    decreases events.len(),
{
    if events.len() == 0 {
        Seq::empty()
    } else {
        let before = packets(events.drop_last());
        match events.last() {
            ClientEventView::Outgoing(OutgoingView::Packet(packet)) => before.push(packet),
            _ => before,
        }
    }
}

/// The frames that are sent on the tunnel.
pub open spec fn sent_frames(actions: Seq<ClientActionView>) -> Seq<OutboundFrameView>
    decreases actions.len(),
{
    if actions.len() == 0 {
        Seq::empty()
    } else {
        let before = sent_frames(actions.drop_last());
        match actions.last() {
            ClientActionView::SendFrame(frame) => before.push(frame),
            _ => before,
        }
    }
}

/// Whatever happens in between, every packet that the inner connection gives is sent in one frame,
/// in their order, and no other frame is sent.
pub proof fn law_one_frame_per_packet(client: QuicClientView, events: Seq<ClientEventView>)
    requires
        all_accepted(client, events),
    ensures
        ({
            let (after, actions) = client.run(events);
            &&& after.reliable_masque == client.reliable_masque
            &&& after.flow_id == client.flow_id
            &&& sent_frames(actions) == packets(events).map_values(
                |packet: Seq<u8>| client.wrap(packet),
            )
        }),
    decreases events.len(),
{
    let wrap = |packet: Seq<u8>| client.wrap(packet);
    if events.len() == 0 {
        assert(sent_frames(client.run(events).1) =~= packets(events).map_values(wrap));
    } else {
        let earlier = events.drop_last();
        law_one_frame_per_packet(client, earlier);
        let (before, actions) = client.run(earlier);
        let (_, action) = before.step(events.last());
        assert(actions.push(action).drop_last() =~= actions);
        assert(sent_frames(actions.push(action)) =~= packets(events).map_values(wrap));
    }
}

/// A frame, as it comes in at the other end of a tunnel.
pub open spec fn arriving(frame: OutboundFrameView) -> InboundFrameView
    recommends
        !(frame is Headers),
{
    match frame {
        OutboundFrameView::Datagram(dgram, _) => InboundFrameView::Datagram(dgram),
        OutboundFrameView::Body(bytes, fin) => InboundFrameView::Body(bytes, fin),
        OutboundFrameView::Headers(_, _) => InboundFrameView::Body(Seq::empty(), false),
    }
}

/// A packet of the client reaches the target through a relay of datagrams as it was sent.
pub proof fn law_packet_reaches_target_in_dgram(
    client: QuicClientView,
    relay: DgramRelayView,
    packet: Seq<u8>,
)
    requires
        !client.reliable_masque,
    ensures
        relay.step(RelayEventView::Tunnel(Some(arriving(client.wrap(packet))))).1
            == RelayActionView::SendToTarget(packet),
{
    dgrams::law_dgram_roundtrip(packet);
}

/// A packet of the client reaches the target through a relay of capsules as it was sent, and leaves
/// the relay ready for the next.
pub proof fn law_packet_reaches_target_in_capsule(
    client: QuicClientView,
    relay: CapsuleRelayView,
    packet: Seq<u8>,
)
    requires
        client.reliable_masque,
        packet.len() < MAX_VARINT,
        relay.phase is Waiting,
        relay.deframer.state is Type,
        relay.deframer.payloads.len() == 0,
    ensures
        ({
            let (sending, action) = relay.step(
                RelayEventView::Tunnel(Some(arriving(client.wrap(packet)))),
            );
            &&& action == RelayActionView::SendToTarget(packet)
            &&& sending.step(RelayEventView::Sent(true)) == (relay, RelayActionView::Wait)
        }),
{
    capsules::law_capsule_roundtrip(relay.deframer, packet);
    let payloads = relay.deframer.payloads.push(packet);
    assert(payloads[0] == packet);
    assert(payloads.skip(1) =~= relay.deframer.payloads);
}

/// A UDP payload of the target reaches the client through a relay of datagrams as it was sent.
pub proof fn law_reply_reaches_client_in_dgram(
    relay: DgramRelayView,
    client: QuicClientView,
    payload: Seq<u8>,
)
    requires
        client.phase is Waiting,
    ensures
        relay.step(RelayEventView::Target(Some(payload))).1 matches RelayActionView::SendToTunnel(
            frame,
        ) && client.step(ClientEventView::Tunnel(Some(arriving(frame)))).1
            == ClientActionView::Receive(payload),
{
    dgrams::law_dgram_roundtrip(payload);
}

/// A UDP payload of the target reaches the client through a relay of capsules as it was sent.
pub proof fn law_reply_reaches_client_in_capsule(
    relay: CapsuleRelayView,
    client: QuicClientView,
    payload: Seq<u8>,
)
    requires
        payload.len() < MAX_VARINT,
        client.reliable_masque,
        client.phase is Waiting,
        client.deframer.state is Type,
        client.deframer.payloads.len() == 0,
    ensures
        relay.step(RelayEventView::Target(Some(payload))).1 matches RelayActionView::SendToTunnel(
            frame,
        ) && client.step(ClientEventView::Tunnel(Some(arriving(frame)))).1
            == ClientActionView::Receive(payload),
{
    capsules::law_capsule_roundtrip(client.deframer, payload);
    assert(client.deframer.payloads.push(payload)[0] == payload);
}

/// The reports that so many packets were taken, each followed by the report that the HTTP/3
/// connection was polled, where there is one.
pub open spec fn taken(n: nat, has_h3: bool) -> Seq<ClientEventView>
    decreases n,
{
    if n == 0 {
        Seq::empty()
    } else {
        let received = taken((n - 1) as nat, has_h3).push(ClientEventView::Received(true));
        if has_h3 {
            received.push(ClientEventView::Polled)
        } else {
            received
        }
    }
}

/// The packets that are handed to the inner connection.
pub open spec fn received(actions: Seq<ClientActionView>) -> Seq<Seq<u8>>
    decreases actions.len(),
{
    if actions.len() == 0 {
        Seq::empty()
    } else {
        let before = received(actions.drop_last());
        match actions.last() {
            ClientActionView::Receive(packet) => before.push(packet),
            _ => before,
        }
    }
}

/// A chunk of body bytes, and the reports on so many packets in it.
pub open spec fn chunk_events(bytes: Seq<u8>, fin: bool, n: nat, has_h3: bool) -> Seq<
    ClientEventView,
> {
    seq![ClientEventView::Tunnel(Some(InboundFrameView::Body(bytes, fin)))] + taken(n, has_h3)
}

/// As long as the inner connection takes them, it gets every packet that a chunk completes, in
/// their order. Then the turn goes on, or the client ends with the tunnel.
pub proof fn law_chunk_is_received(client: QuicClientView, bytes: Seq<u8>, fin: bool)
    requires
        client.phase is Waiting,
        client.reliable_masque,
        client.deframer.run(bytes).outcome() is Ok,
    ensures
        ({
            let fed = client.deframer.run(bytes);
            let (after, actions) = client.run(
                chunk_events(bytes, fin, fed.payloads.len(), client.has_h3),
            );
            &&& received(actions) == fed.payloads
            &&& after == (QuicClientView {
                deframer: DeframerView { payloads: Seq::empty(), ..fed },
                phase: if fin {
                    ClientPhase::Stopped
                } else {
                    ClientPhase::CheckingDraining
                },
                ..client
            })
        }),
{
    let fed = client.deframer.run(bytes);
    let n = fed.payloads.len();
    lemma_chunk_received(client, bytes, fin, n);
    assert(fed.payloads.take(n as int) =~= fed.payloads);
    assert(fed.payloads.skip(n as int) =~= Seq::<Seq<u8>>::empty());
}

proof fn lemma_chunk_received(client: QuicClientView, bytes: Seq<u8>, fin: bool, n: nat)
    requires
        client.phase is Waiting,
        client.reliable_masque,
        client.deframer.run(bytes).outcome() is Ok,
        n <= client.deframer.run(bytes).payloads.len(),
    ensures
        ({
            let fed = client.deframer.run(bytes);
            let left = QuicClientView {
                deframer: DeframerView { payloads: fed.payloads.skip(n as int), ..fed },
                ..client
            };
            let (after, actions) = client.run(chunk_events(bytes, fin, n, client.has_h3));
            &&& after == left.next_capsule(fin).0
            &&& received(actions) == fed.payloads.take(
                if n < fed.payloads.len() {
                    n as int + 1
                } else {
                    n as int
                },
            )
        }),
    decreases n,
{
    let fed = client.deframer.run(bytes);
    let payloads = fed.payloads;
    let events = chunk_events(bytes, fin, n, client.has_h3);
    if n == 0 {
        assert(events.drop_last() =~= Seq::<ClientEventView>::empty());
        assert(client.run(events.drop_last()) == (client, Seq::<ClientActionView>::empty()));
        assert(payloads.skip(0) =~= payloads);
        lemma_received_push(Seq::empty(), client.step(events.last()).1);
        assert(received(Seq::<ClientActionView>::empty()) =~= Seq::<Seq<u8>>::empty());
        assert(received(client.run(events).1) =~= payloads.take(
            if payloads.len() > 0 {
                1
            } else {
                0
            },
        ));
    } else {
        let before = (n - 1) as nat;
        lemma_chunk_received(client, bytes, fin, before);
        let earlier = chunk_events(bytes, fin, before, client.has_h3);
        let got = earlier.push(ClientEventView::Received(true));
        assert(got.drop_last() =~= earlier);
        assert(payloads.skip(before as int).skip(1) =~= payloads.skip(n as int));
        let left = QuicClientView {
            deframer: DeframerView { payloads: payloads.skip(n as int), ..fed },
            ..client
        };
        let (receiving, done) = client.run(earlier);
        let (resumed, action) = receiving.step(ClientEventView::Received(true));
        lemma_received_push(done, action);
        if client.has_h3 {
            assert(events =~= got.push(ClientEventView::Polled));
            assert(events.drop_last() =~= got);
            lemma_received_push(done.push(action), resumed.step(ClientEventView::Polled).1);
            assert(client.run(got) == (resumed, done.push(action)));
            assert(received(done.push(action)) == payloads.take(n as int));
            assert(client.run(events).0 == left.next_capsule(fin).0);
        } else {
            assert(events =~= got);
            assert(client.run(events).0 == left.next_capsule(fin).0);
            assert(received(done) == payloads.take(n as int));
        }
        if n < payloads.len() {
            assert(payloads.take(n as int).push(payloads[n as int]) =~= payloads.take(n as int + 1));
        }
    }
}

proof fn lemma_received_push(actions: Seq<ClientActionView>, action: ClientActionView)
    ensures
        received(actions.push(action)) == match action {
            ClientActionView::Receive(packet) => received(actions).push(packet),
            _ => received(actions),
        },
{
    assert(actions.push(action).drop_last() =~= actions);
}

/// The HTTP/3 connection is read after every packet that the inner connection took, whether the
/// packet came in a datagram or in a capsule, and after the request was sent; and only then.
pub proof fn law_h3_is_polled_after_packet(client: QuicClientView, event: ClientEventView)
    requires
        client.phase.accepts(event),
    ensures
        client.step(event).1 is PollH3 <==> event == ClientEventView::RequestSent || (event
            == ClientEventView::Received(true) && client.has_h3),
{
}

/// How often the HTTP/3 connection is read.
pub open spec fn polls(actions: Seq<ClientActionView>) -> nat
    decreases actions.len(),
{
    if actions.len() == 0 {
        0
    } else {
        polls(actions.drop_last()) + if actions.last() is PollH3 {
            1nat
        } else {
            0
        }
    }
}

/// How often there is something to read: a packet was taken while there was an HTTP/3 connection,
/// or the request was sent.
pub open spec fn occasions_to_poll(client: QuicClientView, events: Seq<ClientEventView>) -> nat
    decreases events.len(),
{
    if events.len() == 0 {
        0
    } else {
        let earlier = events.drop_last();
        occasions_to_poll(client, earlier) + if events.last() == ClientEventView::RequestSent || (
        events.last() == ClientEventView::Received(true) && client.run(earlier).0.has_h3) {
            1nat
        } else {
            0
        }
    }
}

/// Over any run, the HTTP/3 connection is read once for each packet that was taken while it was
/// there, and once for the request.
pub proof fn law_one_poll_per_packet(client: QuicClientView, events: Seq<ClientEventView>)
    requires
        all_accepted(client, events),
    ensures
        polls(client.run(events).1) == occasions_to_poll(client, events),
    decreases events.len(),
{
    if events.len() > 0 {
        let earlier = events.drop_last();
        law_one_poll_per_packet(client, earlier);
        let (before, actions) = client.run(earlier);
        law_h3_is_polled_after_packet(before, events.last());
        assert(actions.push(before.step(events.last()).1).drop_last() =~= actions);
    }
}

/// A client ends exactly where the tunnel is closed, the inner connection is closed or does not take
/// a packet, a packet cannot be had or sent after the first, or the tunnel has ended and everything
/// in it was taken. It rejects what is no stream of Datagram Capsules, with the reason.
pub proof fn law_client_ends(client: QuicClientView, event: ClientEventView)
    requires
        client.phase.accepts(event),
    ensures
        ({
            let (after, action) = client.step(event);
            &&& after.phase is Stopped <==> action is Stop || action is Reject
            &&& event == ClientEventView::Tunnel(None) ==> action is Stop
            &&& event == ClientEventView::Received(false) ==> action is Stop
            &&& event == ClientEventView::Closed(true) ==> action is Stop
            &&& event == ClientEventView::FrameSent(false) && !(client.phase is SendingFirst)
                ==> action is Stop
            &&& event == ClientEventView::Outgoing(OutgoingView::Error)
                && !(client.phase is Opening) ==> action is Stop
            &&& action is Reject ==> client.reliable_masque && (
            event matches ClientEventView::Tunnel(Some(InboundFrameView::Body(bytes, _)))
                && action == ClientActionView::Reject(
                client.deframer.run(bytes).outcome()->Err_0,
            ) && client.deframer.run(bytes).outcome() is Err)
            &&& client.reliable_masque ==> (event matches ClientEventView::Tunnel(
                Some(InboundFrameView::Body(bytes, _)),
            ) ==> (client.deframer.run(bytes).outcome() is Err ==> action is Reject))
            &&& event is Timeout || event is Draining || event is Established || event is H3Created
                || event is RequestSent ==> !(after.phase is Stopped)
            &&& event matches ClientEventView::Tunnel(Some(InboundFrameView::Datagram(_)))
                ==> !(after.phase is Stopped)
            &&& event matches ClientEventView::Tunnel(Some(InboundFrameView::Body(_, false)))
                ==> !(action is Stop)
            &&& event == ClientEventView::Closed(false) || event == ClientEventView::FrameSent(true)
                ==> !(after.phase is Stopped)
            &&& event matches ClientEventView::Outgoing(outgoing) ==> (!(outgoing is Error)
                || client.phase is Opening ==> !(after.phase is Stopped))
            &&& client.phase is SendingFirst ==> !(after.phase is Stopped)
        }),
{
}

/// What a client does next follows from what it was told: it hands on the payload of a datagram,
/// passes over body bytes on a tunnel of datagrams, sends all packets unless the inner connection is
/// draining, looks at the connection once there are none, and waits unless it is closed. Trouble
/// with the very first packet is passed over.
pub proof fn law_client_reacts(client: QuicClientView, event: ClientEventView)
    requires
        client.phase.accepts(event),
    ensures
        ({
            let (after, action) = client.step(event);
            &&& event is Timeout ==> action is CheckDraining
            &&& event matches ClientEventView::Tunnel(Some(InboundFrameView::Datagram(dgram)))
                ==> action == ClientActionView::Receive(dgrams::dgram_payload(dgram))
            &&& !client.reliable_masque && (event matches ClientEventView::Tunnel(
                Some(InboundFrameView::Body(_, _)),
            )) ==> action is CheckDraining && after.deframer == client.deframer
            &&& event == ClientEventView::Draining(true) ==> action is CheckEstablished
            &&& event == ClientEventView::Draining(false) ==> action is TakePacket
            &&& event matches ClientEventView::Outgoing(OutgoingView::Packet(_))
                ==> action is SendFrame
            &&& event == ClientEventView::Outgoing(OutgoingView::Done) ==> (
            if client.phase is Opening {
                action is Await
            } else {
                action is CheckEstablished
            })
            &&& event == ClientEventView::Outgoing(OutgoingView::Error) && client.phase is Opening
                ==> action is Await
            &&& event is FrameSent && client.phase is SendingFirst ==> action is Await
            &&& event == ClientEventView::FrameSent(true) && client.phase is SendingFrame
                ==> action is CheckDraining
            &&& event == ClientEventView::Closed(false) ==> action is Await
        }),
{
}

/// An HTTP/3 connection is created as soon as the inner connection is established and there is none.
/// The request is sent as soon as it is established and there is one, unless it was sent. Whether
/// there is one changes by nothing but creating it.
pub proof fn law_established_client_proceeds(client: QuicClientView, event: ClientEventView)
    requires
        client.phase.accepts(event),
    ensures
        ({
            let (after, action) = client.step(event);
            &&& action is CreateH3 <==> event == ClientEventView::Established(true)
                && !client.has_h3
            &&& action is SendRequest <==> event == ClientEventView::Established(true)
                && client.has_h3 && !client.get_request_sent
            &&& event == ClientEventView::Established(true) && client.has_h3
                && client.get_request_sent ==> action is CheckClosed
            &&& event == ClientEventView::Established(false) ==> action is CheckClosed
            &&& event matches ClientEventView::H3Created(ok) ==> action is CheckClosed
                && after.has_h3 == ok
            &&& !(event is H3Created) ==> after.has_h3 == client.has_h3
            &&& after.get_request_sent <==> client.get_request_sent || action is SendRequest
            &&& after.request == client.request && after.flow_id == client.flow_id
                && after.reliable_masque == client.reliable_masque
        }),
{
}

/// A client is told next of what it asked for, and of nothing else.
pub proof fn law_client_is_told_what_it_asked_for(
    client: QuicClientView,
    event: ClientEventView,
    reply: ClientEventView,
)
    requires
        client.phase.accepts(event),
    ensures
        ({
            let (after, action) = client.step(event);
            after.phase.accepts(reply) <==> match action {
                ClientActionView::Await => reply is Timeout || reply is Tunnel,
                ClientActionView::Receive(_) => reply is Received,
                ClientActionView::PollH3 => reply is Polled,
                ClientActionView::CheckDraining => reply is Draining,
                ClientActionView::TakePacket => reply is Outgoing,
                ClientActionView::SendFrame(_) => reply is FrameSent,
                ClientActionView::CheckEstablished => reply is Established,
                ClientActionView::CreateH3 => reply is H3Created,
                ClientActionView::SendRequest(_) => reply is RequestSent,
                ClientActionView::CheckClosed => reply is Closed,
                ClientActionView::Stop => false,
                ClientActionView::Reject(_) => false,
            }
        }),
{
}

/// A packet that came in a datagram and was taken is followed by sending what the inner connection
/// has to send, after the HTTP/3 connection was read, where there is one.
pub proof fn law_datagram_turn(client: QuicClientView, dgram: Seq<u8>)
    requires
        client.phase is Waiting,
    ensures
        ({
            let (receiving, _) = client.step(
                ClientEventView::Tunnel(Some(InboundFrameView::Datagram(dgram))),
            );
            let (taken, action) = receiving.step(ClientEventView::Received(true));
            if client.has_h3 {
                &&& action is PollH3
                &&& taken.step(ClientEventView::Polled).1 is CheckDraining
            } else {
                action is CheckDraining
            }
        }),
{
}

/// A request that was sent is followed by reading the HTTP/3 connection and looking whether the
/// inner connection is closed.
pub proof fn law_request_turn(client: QuicClientView)
    requires
        client.phase is CheckingEstablished,
        client.has_h3,
        !client.get_request_sent,
    ensures
        ({
            let (sending, _) = client.step(ClientEventView::Established(true));
            let (sent, action) = sending.step(ClientEventView::RequestSent);
            &&& action is PollH3
            &&& sent.step(ClientEventView::Polled).1 is CheckClosed
        }),
{
}

/// The body bytes that come in on the tunnel.
pub open spec fn tunnel_body(events: Seq<ClientEventView>) -> Seq<u8>
    decreases events.len(),
{
    if events.len() == 0 {
        Seq::empty()
    } else {
        let before = tunnel_body(events.drop_last());
        match events.last() {
            ClientEventView::Tunnel(Some(InboundFrameView::Body(bytes, _))) => before + bytes,
            _ => before,
        }
    }
}

/// A client on a tunnel of capsules loses nothing, makes up nothing and changes no order: as long as
/// no datagram comes in, the packets that it handed to the inner connection and those that still
/// wait are the packets of all the body bytes that came in.
pub proof fn law_client_loses_nothing(client: QuicClientView, events: Seq<ClientEventView>)
    requires
        client.reliable_masque,
        all_accepted(client, events),
        forall|i: int|
            0 <= i < events.len() ==> !(#[trigger] events[i] matches ClientEventView::Tunnel(
                Some(InboundFrameView::Datagram(_)),
            )),
    ensures
        ({
            let (after, actions) = client.run(events);
            let read = client.deframer.run(tunnel_body(events));
            &&& received(actions) + after.deframer.payloads == read.payloads
            &&& after.deframer.state == read.state
            &&& after.reliable_masque
        }),
    decreases events.len(),
{
    if events.len() == 0 {
        assert(received(client.run(events).1) + client.deframer.payloads
            =~= client.deframer.payloads);
    } else {
        let earlier = events.drop_last();
        assert(forall|i: int| 0 <= i < earlier.len() ==> #[trigger] earlier[i] == events[i]);
        assert(events.last() == events[events.len() - 1]);
        law_client_loses_nothing(client, earlier);
        let (before, actions) = client.run(earlier);
        let (after, action) = before.step(events.last());
        let read = client.deframer.run(tunnel_body(earlier));
        let taken = received(actions);
        lemma_received_push(actions, action);
        let fed = match events.last() {
            ClientEventView::Tunnel(Some(InboundFrameView::Body(bytes, _))) => {
                capsules::law_run_chunks(client.deframer, tunnel_body(earlier), bytes);
                capsules::law_payloads_are_added_behind(before.deframer, bytes);
                capsules::law_payloads_are_added_behind(read, bytes);
                let fresh = DeframerView { payloads: Seq::empty(), ..read };
                assert(fresh == (DeframerView { payloads: Seq::empty(), ..before.deframer }));
                assert(taken + (before.deframer.payloads + fresh.run(bytes).payloads)
                    =~= taken + before.deframer.payloads + fresh.run(bytes).payloads);
                before.deframer.run(bytes)
            },
            _ => before.deframer,
        };
        assert(taken + fed.payloads == client.deframer.run(tunnel_body(events)).payloads);
        if action is Receive {
            assert(taken.push(fed.payloads[0]) + fed.payloads.skip(1) =~= taken + fed.payloads);
        }
    }
}

/// The request that goes through a tunnel has five field lines: the method, the scheme, the
/// authority, the path and the priority.
pub proof fn law_get_headers(server_name: Seq<char>, endpoint: Seq<char>, inner_prio: Seq<char>)
    ensures
        get_headers(server_name, endpoint, inner_prio).len() == 5,
        forall|name: Seq<char>, value: Seq<char>|
            name == ":method"@ && value == "GET"@ || name == ":scheme"@ && value == "https"@ || name
                == ":authority"@ && value == server_name || name == ":path"@ && value == endpoint
                || name == "priority"@ && value == inner_prio ==> #[trigger] get_headers(
                server_name,
                endpoint,
                inner_prio,
            ).contains(frames::text_header(name, value)),
{
    let headers = get_headers(server_name, endpoint, inner_prio);
    assert(headers[0] == frames::text_header(":method"@, "GET"@));
    assert(headers[1] == frames::text_header(":scheme"@, "https"@));
    assert(headers[2] == frames::text_header(":authority"@, server_name));
    assert(headers[3] == frames::text_header(":path"@, endpoint));
    assert(headers[4] == frames::text_header("priority"@, inner_prio));
}

/// Every packet whose frame fits in memory can be sent as a datagram. As a capsule it can be where,
/// besides, its length with the context ID is less than 2^62.
pub proof fn law_packets_that_fit(client: QuicClientView, packet: Seq<u8>)
    ensures
        !client.reliable_masque ==> (client.fits(packet) <==> packet.len() + 1 <= usize::MAX),
        client.reliable_masque ==> (client.fits(packet) <==> packet.len() + 1
            < 0x4000_0000_0000_0000 && capsules::capsule_bytes(packet).len() <= usize::MAX),
{
}

} // verus!
