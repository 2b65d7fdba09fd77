//! The proxy between a tunnel and its target: which UDP payloads go where.
//!
//! A relay is told what happened and answers what to do next. Whoever runs it receives from the
//! tunnel and from the target while the relay waits, and reports back on everything that it was
//! told to send.

use vstd::prelude::*;

use crate::capsules;
use crate::capsules::{
    dgram_capsule_from_udp_payload, CapsuleDeframer, CapsuleError, CapsuleState, DeframerView,
};
use crate::dgrams;
use crate::dgrams::{proxied_dgram, retrieve_dgram};
use crate::frames::{InboundFrame, InboundFrameView, OutboundFrame, OutboundFrameView};
use crate::varint::MAX_VARINT;
use crate::CONTEXT_ID_VARINT_LEN;

verus! {

/// What happened to a relay.
#[derive(Debug, Clone, PartialEq, Eq)]
pub enum RelayEvent {
    /// A frame came in on the tunnel, or the tunnel was closed.
    Tunnel(Option<InboundFrame>),
    /// A UDP payload came from the target, or receiving from it failed.
    Target(Option<Vec<u8>>),
    /// What was to be sent was sent, or sending it failed.
    Sent(bool),
}

/// What a relay is told, by its view.
pub enum RelayEventView {
    Tunnel(Option<InboundFrameView>),
    Target(Option<Seq<u8>>),
    Sent(bool),
}

impl View for RelayEvent {
    type V = RelayEventView;

    open spec fn view(&self) -> RelayEventView {
        match self {
            RelayEvent::Tunnel(Some(frame)) => RelayEventView::Tunnel(Some(frame@)),
            RelayEvent::Tunnel(None) => RelayEventView::Tunnel(None),
            RelayEvent::Target(Some(payload)) => RelayEventView::Target(Some(payload@)),
            RelayEvent::Target(None) => RelayEventView::Target(None),
            RelayEvent::Sent(ok) => RelayEventView::Sent(*ok),
        }
    }
}

/// What a relay does next.
#[derive(Debug, Clone, PartialEq, Eq)]
pub enum RelayAction {
    /// Wait for the tunnel and for the target.
    Wait,
    /// Send a UDP payload to the target.
    SendToTarget(Vec<u8>),
    /// Send a frame on the tunnel.
    SendToTunnel(OutboundFrame),
    /// The relay is over.
    Stop,
    /// The relay is over: what came in on the tunnel are no Datagram Capsules.
    Reject(CapsuleError),
}

/// What a relay does, by its view.
pub enum RelayActionView {
    Wait,
    SendToTarget(Seq<u8>),
    SendToTunnel(OutboundFrameView),
    Stop,
    Reject(CapsuleError),
}

impl View for RelayAction {
    type V = RelayActionView;

    open spec fn view(&self) -> RelayActionView {
        match self {
            RelayAction::Wait => RelayActionView::Wait,
            RelayAction::SendToTarget(payload) => RelayActionView::SendToTarget(payload@),
            RelayAction::SendToTunnel(frame) => RelayActionView::SendToTunnel(frame@),
            RelayAction::Stop => RelayActionView::Stop,
            RelayAction::Reject(e) => RelayActionView::Reject(*e),
        }
    }
}

/// What a relay is at.
#[derive(Debug, Clone, Copy, PartialEq, Eq, Structural)]
pub enum RelayPhase {
    /// Waiting for the tunnel and for the target.
    Waiting,
    /// Sending a UDP payload to the target. `fin` says whether the tunnel ended behind it.
    ToTarget { fin: bool },
    /// Sending a frame on the tunnel.
    ToTunnel,
    /// The relay is over.
    Stopped,
}

impl RelayPhase {
    /// Whether this can happen to a relay in this phase.
    pub open spec fn accepts(self, event: RelayEventView) -> bool {
        match self {
            RelayPhase::Waiting => event is Tunnel || event is Target,
            RelayPhase::ToTarget { .. } => event is Sent,
            RelayPhase::ToTunnel => event is Sent,
            RelayPhase::Stopped => false,
        }
    }

    /// Whether this can happen to a relay in this phase.
    pub fn accepts_event(self, event: &RelayEvent) -> (accepted: bool)
        ensures
            accepted == self.accepts(event@),
    {
        match self {
            RelayPhase::Waiting => match event {
                RelayEvent::Tunnel(_) => true,
                RelayEvent::Target(_) => true,
                RelayEvent::Sent(_) => false,
            },
            RelayPhase::ToTarget { .. } => matches!(event, RelayEvent::Sent(_)),
            RelayPhase::ToTunnel => matches!(event, RelayEvent::Sent(_)),
            RelayPhase::Stopped => false,
        }
    }
}

/// Forwards (proxied) datagrams in both directions.
pub struct DgramRelay {
    flow_id: u64,
    phase: RelayPhase,
}

/// What a relay of datagrams knows.
pub struct DgramRelayView {
    pub flow_id: u64,
    pub phase: RelayPhase,
}

impl View for DgramRelay {
    type V = DgramRelayView;

    closed spec fn view(&self) -> DgramRelayView {
        DgramRelayView { flow_id: self.flow_id, phase: self.phase }
    }
}

impl DgramRelayView {
    /// The relay in another phase, and what it does.
    pub open spec fn go(self, phase: RelayPhase, action: RelayActionView) -> (
        DgramRelayView,
        RelayActionView,
    ) {
        (DgramRelayView { phase, ..self }, action)
    }

    /// What an event changes, and what is done about it.
    pub open spec fn step(self, event: RelayEventView) -> (DgramRelayView, RelayActionView) {
        match event {
            RelayEventView::Tunnel(Some(InboundFrameView::Datagram(dgram))) => self.go(
                RelayPhase::ToTarget { fin: false },
                RelayActionView::SendToTarget(dgrams::dgram_payload(dgram)),
            ),
            RelayEventView::Tunnel(Some(InboundFrameView::Body(_, _))) => self.go(
                RelayPhase::Waiting,
                RelayActionView::Wait,
            ),
            RelayEventView::Target(Some(payload)) => self.go(
                RelayPhase::ToTunnel,
                RelayActionView::SendToTunnel(
                    OutboundFrameView::Datagram(dgrams::dgram_bytes(payload), self.flow_id),
                ),
            ),
            RelayEventView::Sent(true) => self.go(RelayPhase::Waiting, RelayActionView::Wait),
            _ => self.go(RelayPhase::Stopped, RelayActionView::Stop),
        }
    }

    /// What a list of events, one after another, changes, and what is done about each.
    pub open spec fn run(self, events: Seq<RelayEventView>) -> (
        DgramRelayView,
        Seq<RelayActionView>,
    )
        decreases events.len(),
    {
        if events.len() == 0 {
            (self, Seq::empty())
        } else {
            let (before, actions) = self.run(events.drop_last());
            let (after, action) = before.step(events.last());
            (after, actions.push(action))
        }
    }
}

impl DgramRelay {
    /// A relay for the datagrams of a flow.
    pub fn new(flow_id: u64) -> (relay: Self)
        ensures
            relay@ == (DgramRelayView { flow_id, phase: RelayPhase::Waiting }),
    {
        DgramRelay { flow_id, phase: RelayPhase::Waiting }
    }

    /// What the relay is at.
    pub fn phase(&self) -> (phase: RelayPhase)
        ensures
            phase == self@.phase,
    {
        self.phase
    }

    /// Tells the relay what happened and asks what to do next.
    pub fn step(&mut self, event: RelayEvent) -> (action: RelayAction)
        requires
            old(self)@.phase.accepts(event@),
            event matches RelayEvent::Target(Some(payload)) ==> payload@.len()
                + CONTEXT_ID_VARINT_LEN <= usize::MAX,
        ensures
            (final(self)@, action@) == old(self)@.step(event@),
    {
        match event {
            RelayEvent::Tunnel(Some(InboundFrame::Datagram(mut dgram))) => {
                self.phase = RelayPhase::ToTarget { fin: false };
                let payload = vstd::slice::slice_to_vec(retrieve_dgram(dgram.as_mut_slice()));
                RelayAction::SendToTarget(payload)
            },
            RelayEvent::Tunnel(Some(InboundFrame::Body(_, _))) => {
                self.phase = RelayPhase::Waiting;
                RelayAction::Wait
            },
            RelayEvent::Target(Some(payload)) => {
                self.phase = RelayPhase::ToTunnel;
                RelayAction::SendToTunnel(proxied_dgram(self.flow_id, payload.as_slice()))
            },
            RelayEvent::Sent(true) => {
                self.phase = RelayPhase::Waiting;
                RelayAction::Wait
            },
            _ => {
                self.phase = RelayPhase::Stopped;
                RelayAction::Stop
            },
        }
    }
}

/// Forwards UDP datagrams using Datagram Capsules.
pub struct CapsuleRelay {
    deframer: CapsuleDeframer,
    phase: RelayPhase,
}

/// What a relay of capsules knows.
pub struct CapsuleRelayView {
    pub deframer: DeframerView,
    pub phase: RelayPhase,
}

impl View for CapsuleRelay {
    type V = CapsuleRelayView;

    closed spec fn view(&self) -> CapsuleRelayView {
        CapsuleRelayView { deframer: self.deframer@, phase: self.phase }
    }
}

impl CapsuleRelayView {
    /// The relay in another phase, and what it does.
    pub open spec fn go(self, phase: RelayPhase, action: RelayActionView) -> (
        CapsuleRelayView,
        RelayActionView,
    ) {
        (CapsuleRelayView { phase, ..self }, action)
    }

    /// What follows the payloads of a chunk: the end, where the chunk was the last.
    pub open spec fn settle(self, fin: bool) -> (CapsuleRelayView, RelayActionView) {
        if fin {
            self.go(RelayPhase::Stopped, RelayActionView::Stop)
        } else {
            self.go(RelayPhase::Waiting, RelayActionView::Wait)
        }
    }

    /// Sends the next payload to the target, where there is one.
    pub open spec fn drain(self, fin: bool) -> (CapsuleRelayView, RelayActionView) {
        let payloads = self.deframer.payloads;
        if payloads.len() > 0 {
            (
                CapsuleRelayView {
                    deframer: DeframerView { payloads: payloads.skip(1), ..self.deframer },
                    phase: RelayPhase::ToTarget { fin },
                },
                RelayActionView::SendToTarget(payloads[0]),
            )
        } else {
            self.settle(fin)
        }
    }

    /// What an event changes, and what is done about it. A payload that cannot be sent to the
    /// target ends the work on its chunk, not the relay.
    pub open spec fn step(self, event: RelayEventView) -> (CapsuleRelayView, RelayActionView) {
        match event {
            RelayEventView::Tunnel(Some(InboundFrameView::Body(bytes, fin))) => {
                let fed = CapsuleRelayView { deframer: self.deframer.run(bytes), ..self };
                match fed.deframer.outcome() {
                    Ok(_) => fed.drain(fin),
                    Err(e) => fed.go(RelayPhase::Stopped, RelayActionView::Reject(e)),
                }
            },
            RelayEventView::Target(Some(payload)) => self.go(
                RelayPhase::ToTunnel,
                RelayActionView::SendToTunnel(
                    OutboundFrameView::Body(capsules::capsule_bytes(payload), false),
                ),
            ),
            RelayEventView::Sent(ok) => match self.phase {
                RelayPhase::ToTarget { fin } => if ok {
                    self.drain(fin)
                } else {
                    self.settle(fin)
                },
                _ => self.settle(!ok),
            },
            _ => self.settle(true),
        }
    }

    /// What a list of events, one after another, changes, and what is done about each.
    pub open spec fn run(self, events: Seq<RelayEventView>) -> (
        CapsuleRelayView,
        Seq<RelayActionView>,
    )
        decreases events.len(),
    {
        if events.len() == 0 {
            (self, Seq::empty())
        } else {
            let (before, actions) = self.run(events.drop_last());
            let (after, action) = before.step(events.last());
            (after, actions.push(action))
        }
    }
}

impl CapsuleRelay {
    /// What every relay keeps.
    pub closed spec fn wf(self) -> bool {
        self.deframer.wf()
    }

    /// A relay for the capsules of a stream.
    pub fn new() -> (relay: Self)
        ensures
            relay.wf(),
            relay@ == (CapsuleRelayView {
                deframer: DeframerView { state: CapsuleState::Type, payloads: Seq::empty() },
                phase: RelayPhase::Waiting,
            }),
    {
        CapsuleRelay { deframer: CapsuleDeframer::new(), phase: RelayPhase::Waiting }
    }

    /// What the relay is at.
    pub fn phase(&self) -> (phase: RelayPhase)
        ensures
            phase == self@.phase,
    {
        self.phase
    }

    fn settle(&mut self, fin: bool) -> (action: RelayAction)
        requires
            old(self).wf(),
        ensures
            final(self).wf(),
            (final(self)@, action@) == old(self)@.settle(fin),
    {
        if fin {
            self.phase = RelayPhase::Stopped;
            RelayAction::Stop
        } else {
            self.phase = RelayPhase::Waiting;
            RelayAction::Wait
        }
    }

    fn drain(&mut self, fin: bool) -> (action: RelayAction)
        requires
            old(self).wf(),
        ensures
            final(self).wf(),
            (final(self)@, action@) == old(self)@.drain(fin),
    {
        match self.deframer.pop_udp_payload() {
            Some(payload) => {
                self.phase = RelayPhase::ToTarget { fin };
                assert(old(self)@.deframer.payloads.skip(1) =~= self@.deframer.payloads);
                RelayAction::SendToTarget(payload)
            },
            None => self.settle(fin),
        }
    }

    /// Tells the relay what happened and asks what to do next.
    pub fn step(&mut self, event: RelayEvent) -> (action: RelayAction)
        requires
            old(self).wf(),
            old(self)@.phase.accepts(event@),
            event matches RelayEvent::Target(Some(payload)) ==> {
                &&& payload@.len() < MAX_VARINT
                &&& capsules::capsule_bytes(payload@).len() <= usize::MAX
            },
        ensures
            final(self).wf(),
            (final(self)@, action@) == old(self)@.step(event@),
    {
        match event {
            RelayEvent::Tunnel(Some(InboundFrame::Body(bytes, fin))) => {
                match self.deframer.try_feed(bytes.as_slice()) {
                    Ok(_) => self.drain(fin),
                    Err(e) => {
                        self.phase = RelayPhase::Stopped;
                        RelayAction::Reject(e)
                    },
                }
            },
            RelayEvent::Target(Some(payload)) => {
                self.phase = RelayPhase::ToTunnel;
                RelayAction::SendToTunnel(dgram_capsule_from_udp_payload(payload.as_slice()))
            },
            RelayEvent::Sent(ok) => match self.phase {
                RelayPhase::ToTarget { fin } => if ok {
                    self.drain(fin)
                } else {
                    self.settle(fin)
                },
                _ => self.settle(!ok),
            },
            _ => self.settle(true),
        }
    }
}

/// A datagram that carries a UDP payload takes it to the target, and a payload of the target
/// comes back in a datagram of the flow that hands it out again.
pub proof fn law_dgram_relay_forwards(relay: DgramRelayView, payload: Seq<u8>)
    ensures
        relay.step(
            RelayEventView::Tunnel(Some(InboundFrameView::Datagram(dgrams::dgram_bytes(payload)))),
        ).1 == RelayActionView::SendToTarget(payload),
        relay.step(RelayEventView::Target(Some(payload))).1 matches RelayActionView::SendToTunnel(
            OutboundFrameView::Datagram(dgram, flow_id),
        ) && flow_id == relay.flow_id && dgrams::dgram_payload(dgram) == payload,
{
    dgrams::law_dgram_roundtrip(payload);
}

/// The datagrams that come in on the tunnel.
pub open spec fn tunnel_dgrams(events: Seq<RelayEventView>) -> Seq<Seq<u8>>
    decreases events.len(),
{
    if events.len() == 0 {
        Seq::empty()
    } else {
        let before = tunnel_dgrams(events.drop_last());
        match events.last() {
            RelayEventView::Tunnel(Some(InboundFrameView::Datagram(dgram))) => before.push(dgram),
            _ => before,
        }
    }
}

/// The UDP payloads that come from the target.
pub open spec fn target_payloads(events: Seq<RelayEventView>) -> Seq<Seq<u8>>
    decreases events.len(),
{
    if events.len() == 0 {
        Seq::empty()
    } else {
        let before = target_payloads(events.drop_last());
        match events.last() {
            RelayEventView::Target(Some(payload)) => before.push(payload),
            _ => before,
        }
    }
}

/// The UDP payloads that are sent to the target.
pub open spec fn sent_to_target(actions: Seq<RelayActionView>) -> Seq<Seq<u8>>
    decreases actions.len(),
{
    if actions.len() == 0 {
        Seq::empty()
    } else {
        let before = sent_to_target(actions.drop_last());
        match actions.last() {
            RelayActionView::SendToTarget(payload) => before.push(payload),
            _ => before,
        }
    }
}

/// The frames that are sent on the tunnel.
pub open spec fn sent_to_tunnel(actions: Seq<RelayActionView>) -> Seq<OutboundFrameView>
    decreases actions.len(),
{
    if actions.len() == 0 {
        Seq::empty()
    } else {
        let before = sent_to_tunnel(actions.drop_last());
        match actions.last() {
            RelayActionView::SendToTunnel(frame) => before.push(frame),
            _ => before,
        }
    }
}

/// Whatever happens in between, every datagram that comes in takes its payload to the target once
/// and every payload of the target comes back in one datagram of the flow, each in their order; and
/// nothing else is sent either way.
pub proof fn law_dgram_relay_forwards_all(relay: DgramRelayView, events: Seq<RelayEventView>)
    ensures
        ({
            let (after, actions) = relay.run(events);
            &&& after.flow_id == relay.flow_id
            &&& sent_to_target(actions) == tunnel_dgrams(events).map_values(
                |dgram: Seq<u8>| dgrams::dgram_payload(dgram),
            )
            &&& sent_to_tunnel(actions) == target_payloads(events).map_values(
                |payload: Seq<u8>|
                    OutboundFrameView::Datagram(dgrams::dgram_bytes(payload), relay.flow_id),
            )
        }),
    decreases events.len(),
{
    let unwrap = |dgram: Seq<u8>| dgrams::dgram_payload(dgram);
    let wrap = |payload: Seq<u8>|
        OutboundFrameView::Datagram(dgrams::dgram_bytes(payload), relay.flow_id);
    if events.len() == 0 {
        assert(sent_to_target(relay.run(events).1) =~= tunnel_dgrams(events).map_values(unwrap));
        assert(sent_to_tunnel(relay.run(events).1) =~= target_payloads(events).map_values(wrap));
    } else {
        let earlier = events.drop_last();
        law_dgram_relay_forwards_all(relay, earlier);
        let (before, actions) = relay.run(earlier);
        let (_, action) = before.step(events.last());
        assert(actions.push(action).drop_last() =~= actions);
        assert(sent_to_target(actions.push(action)) =~= tunnel_dgrams(events).map_values(unwrap));
        assert(sent_to_tunnel(actions.push(action)) =~= target_payloads(events).map_values(wrap));
    }
}

/// A relay that is over stays over.
pub proof fn law_stopped_relay_is_over(event: RelayEventView)
    ensures
        !RelayPhase::Stopped.accepts(event),
{
}

/// That many reports that something was sent.
pub open spec fn all_sent(n: nat) -> Seq<RelayEventView> {
    Seq::new(n, |i: int| RelayEventView::Sent(true))
}

/// A chunk of body bytes, and the reports that every payload in it was sent.
pub open spec fn chunk_events(bytes: Seq<u8>, fin: bool, payloads: nat) -> Seq<RelayEventView> {
    seq![RelayEventView::Tunnel(Some(InboundFrameView::Body(bytes, fin)))] + all_sent(payloads)
}

/// Each payload, sent to the target.
pub open spec fn target_actions(payloads: Seq<Seq<u8>>) -> Seq<RelayActionView> {
    payloads.map_values(|payload: Seq<u8>| RelayActionView::SendToTarget(payload))
}

/// As long as sending works, every payload that a chunk completes goes to the target, in their
/// order and nothing between them. Then the relay waits for more, or ends with the tunnel.
pub proof fn law_chunk_goes_to_target(relay: CapsuleRelayView, bytes: Seq<u8>, fin: bool)
    requires
        relay.phase is Waiting,
        relay.deframer.run(bytes).outcome() is Ok,
    ensures
        ({
            let fed = relay.deframer.run(bytes);
            let (after, actions) = relay.run(chunk_events(bytes, fin, fed.payloads.len()));
            let (settled, last) = relay.settle(fin);
            &&& actions == target_actions(fed.payloads).push(last)
            &&& after.phase == settled.phase
            &&& after.deframer == (DeframerView { payloads: Seq::empty(), ..fed })
        }),
{
    let fed = relay.deframer.run(bytes);
    let n = fed.payloads.len();
    if n > 0 {
        lemma_chunk_prefix(relay, bytes, fin, (n - 1) as nat);
        let events = chunk_events(bytes, fin, n);
        assert(events.drop_last() =~= chunk_events(bytes, fin, (n - 1) as nat));
        assert(fed.payloads.take(n as int) =~= fed.payloads);
        assert(fed.payloads.skip(n as int) =~= Seq::<Seq<u8>>::empty());
    } else {
        lemma_chunk_start(relay, bytes, fin);
        assert(fed.payloads =~= Seq::<Seq<u8>>::empty());
        assert(target_actions(fed.payloads) =~= Seq::<RelayActionView>::empty());
    }
}

proof fn lemma_chunk_start(relay: CapsuleRelayView, bytes: Seq<u8>, fin: bool)
    ensures
        ({
            let event = RelayEventView::Tunnel(Some(InboundFrameView::Body(bytes, fin)));
            relay.run(chunk_events(bytes, fin, 0)) == (relay.step(event).0, seq![relay.step(event).1])
        }),
{
    let events = chunk_events(bytes, fin, 0);
    assert(events.drop_last() =~= Seq::<RelayEventView>::empty());
    assert(relay.run(events.drop_last()) == (relay, Seq::<RelayActionView>::empty()));
    assert(relay.run(events).1 =~= seq![relay.step(events.last()).1]);
}

proof fn lemma_chunk_prefix(relay: CapsuleRelayView, bytes: Seq<u8>, fin: bool, sent: nat)
    requires
        relay.phase is Waiting,
        relay.deframer.run(bytes).outcome() is Ok,
        sent < relay.deframer.run(bytes).payloads.len(),
    ensures
        ({
            let fed = relay.deframer.run(bytes);
            relay.run(chunk_events(bytes, fin, sent)) == (
                CapsuleRelayView {
                    deframer: DeframerView { payloads: fed.payloads.skip(sent as int + 1), ..fed },
                    phase: RelayPhase::ToTarget { fin },
                },
                target_actions(fed.payloads.take(sent as int + 1)),
            )
        }),
    decreases sent,
{
    let payloads = relay.deframer.run(bytes).payloads;
    if sent == 0 {
        lemma_chunk_start(relay, bytes, fin);
        assert(target_actions(payloads.take(1)) =~= seq![
            RelayActionView::SendToTarget(payloads[0]),
        ]);
    } else {
        let before = (sent - 1) as nat;
        lemma_chunk_prefix(relay, bytes, fin, before);
        let events = chunk_events(bytes, fin, sent);
        assert(events.drop_last() =~= chunk_events(bytes, fin, before));
        assert(payloads.skip(sent as int).skip(1) =~= payloads.skip(sent as int + 1));
        assert(target_actions(payloads.take(sent as int + 1)) =~= target_actions(
            payloads.take(sent as int),
        ).push(RelayActionView::SendToTarget(payloads[sent as int])));
    }
}

/// A stream of capsules, in one chunk, takes to the target the payloads that the capsules were
/// built from.
pub proof fn law_capsules_reach_target(relay: CapsuleRelayView, payloads: Seq<Seq<u8>>, fin: bool)
    requires
        relay.phase is Waiting,
        relay.deframer.state is Type,
        relay.deframer.payloads.len() == 0,
        forall|i: int| 0 <= i < payloads.len() ==> #[trigger] payloads[i].len() < MAX_VARINT,
    ensures
        relay.run(
            chunk_events(capsules::capsule_stream(payloads), fin, payloads.len()),
        ).1 == target_actions(payloads).push(relay.settle(fin).1),
{
    capsules::law_capsule_stream_roundtrip(relay.deframer, payloads);
    assert(relay.deframer.payloads + payloads =~= payloads);
    law_chunk_goes_to_target(relay, capsules::capsule_stream(payloads), fin);
}

/// Payloads of the target, each followed by the report that its capsule was sent.
pub open spec fn target_events(payloads: Seq<Seq<u8>>) -> Seq<RelayEventView>
    decreases payloads.len(),
{
    if payloads.len() == 0 {
        Seq::empty()
    } else {
        target_events(payloads.drop_last()).push(
            RelayEventView::Target(Some(payloads.last())),
        ).push(RelayEventView::Sent(true))
    }
}

/// The body bytes that are sent on the tunnel.
pub open spec fn tunnel_bytes(actions: Seq<RelayActionView>) -> Seq<u8>
    decreases actions.len(),
{
    if actions.len() == 0 {
        Seq::empty()
    } else {
        let before = tunnel_bytes(actions.drop_last());
        match actions.last() {
            RelayActionView::SendToTunnel(OutboundFrameView::Body(bytes, _)) => before + bytes,
            _ => before,
        }
    }
}

/// The payloads of the target go on the tunnel as one stream of capsules, and a client that reads
/// that stream from its start gets them back in their order.
pub proof fn law_target_payloads_reach_client(
    relay: CapsuleRelayView,
    payloads: Seq<Seq<u8>>,
    client: DeframerView,
)
    requires
        relay.phase is Waiting,
        client.state is Type,
        forall|i: int| 0 <= i < payloads.len() ==> #[trigger] payloads[i].len() < MAX_VARINT,
    ensures
        ({
            let (after, actions) = relay.run(target_events(payloads));
            &&& after == relay
            &&& tunnel_bytes(actions) == capsules::capsule_stream(payloads)
            &&& client.run(tunnel_bytes(actions)) == (DeframerView {
                payloads: client.payloads + payloads,
                ..client
            })
        }),
{
    capsules::law_capsule_stream_roundtrip(client, payloads);
    lemma_target_bytes(relay, payloads);
}

proof fn lemma_target_bytes(relay: CapsuleRelayView, payloads: Seq<Seq<u8>>)
    requires
        relay.phase is Waiting,
    ensures
        relay.run(target_events(payloads)).0 == relay,
        tunnel_bytes(relay.run(target_events(payloads)).1) == capsules::capsule_stream(payloads),
    decreases payloads.len(),
{
    if payloads.len() > 0 {
        let earlier = target_events(payloads.drop_last());
        lemma_target_bytes(relay, payloads.drop_last());
        let received = earlier.push(RelayEventView::Target(Some(payloads.last())));
        let events = received.push(RelayEventView::Sent(true));
        assert(events.drop_last() =~= received);
        assert(received.drop_last() =~= earlier);
        let done = relay.run(earlier).1;
        let sending = relay.run(received).1;
        let settled = relay.run(events).1;
        assert(sending.drop_last() =~= done);
        assert(settled.drop_last() =~= sending);
        assert(sending.last() == RelayActionView::SendToTunnel(
            OutboundFrameView::Body(capsules::capsule_bytes(payloads.last()), false),
        ));
        assert(tunnel_bytes(sending) == tunnel_bytes(done) + capsules::capsule_bytes(
            payloads.last(),
        ));
        assert(tunnel_bytes(settled) == tunnel_bytes(sending));
    }
}

/// A relay of datagrams ends exactly where the tunnel is closed, receiving from the target fails or
/// something cannot be sent. Body bytes are passed over. After everything else it waits again, once
/// what was to be sent is sent.
pub proof fn law_dgram_relay_reacts(relay: DgramRelayView, event: RelayEventView)
    ensures
        ({
            let (after, action) = relay.step(event);
            &&& action is Stop <==> event == RelayEventView::Tunnel(None) || event
                == RelayEventView::Target(None) || event == RelayEventView::Sent(false)
            &&& action is Wait <==> event == RelayEventView::Sent(true) || (
            event matches RelayEventView::Tunnel(Some(InboundFrameView::Body(_, _))))
            &&& action is SendToTarget <==> (event matches RelayEventView::Tunnel(
                Some(InboundFrameView::Datagram(_)),
            ))
            &&& action is SendToTunnel <==> (event matches RelayEventView::Target(Some(_)))
            &&& after.phase is Stopped <==> action is Stop
            &&& after.phase is Waiting <==> action is Wait
            &&& after.phase is ToTarget <==> action is SendToTarget
            &&& after.phase is ToTunnel <==> action is SendToTunnel
            &&& after.phase matches RelayPhase::ToTarget { fin } ==> !fin
            &&& after.flow_id == relay.flow_id
        }),
{
}

/// A relay that waits is told of the tunnel and of the target, one that sends of what came of it,
/// and nothing else.
pub proof fn law_relay_is_told_what_it_waits_for(phase: RelayPhase, event: RelayEventView)
    ensures
        phase is Waiting ==> (phase.accepts(event) <==> !(event is Sent)),
        phase is ToTarget || phase is ToTunnel ==> (phase.accepts(event) <==> event is Sent),
{
}

/// The body bytes that come in on the tunnel.
pub open spec fn tunnel_body(events: Seq<RelayEventView>) -> Seq<u8>
    decreases events.len(),
{
    if events.len() == 0 {
        Seq::empty()
    } else {
        let before = tunnel_body(events.drop_last());
        match events.last() {
            RelayEventView::Tunnel(Some(InboundFrameView::Body(bytes, _))) => before + bytes,
            _ => before,
        }
    }
}

/// A relay of capsules loses nothing, makes up nothing and changes no order: whatever happens, the
/// payloads that it sent to the target and those that still wait are the payloads of all the body
/// bytes that came in.
pub proof fn law_capsule_relay_loses_nothing(relay: CapsuleRelayView, events: Seq<RelayEventView>)
    ensures
        ({
            let (after, actions) = relay.run(events);
            let read = relay.deframer.run(tunnel_body(events));
            &&& sent_to_target(actions) + after.deframer.payloads == read.payloads
            &&& after.deframer.state == read.state
        }),
    decreases events.len(),
{
    if events.len() == 0 {
        assert(sent_to_target(relay.run(events).1) + relay.deframer.payloads
            =~= relay.deframer.payloads);
    } else {
        let earlier = events.drop_last();
        law_capsule_relay_loses_nothing(relay, earlier);
        let (before, actions) = relay.run(earlier);
        let (after, action) = before.step(events.last());
        let read = relay.deframer.run(tunnel_body(earlier));
        let sent = sent_to_target(actions);
        assert(actions.push(action).drop_last() =~= actions);
        let fed = match events.last() {
            RelayEventView::Tunnel(Some(InboundFrameView::Body(bytes, _))) => {
                capsules::law_run_chunks(relay.deframer, tunnel_body(earlier), bytes);
                capsules::law_payloads_are_added_behind(before.deframer, bytes);
                capsules::law_payloads_are_added_behind(read, bytes);
                let fresh = DeframerView { payloads: Seq::empty(), ..read };
                assert(fresh == (DeframerView { payloads: Seq::empty(), ..before.deframer }));
                assert(sent + (before.deframer.payloads + fresh.run(bytes).payloads)
                    =~= sent + before.deframer.payloads + fresh.run(bytes).payloads);
                before.deframer.run(bytes)
            },
            _ => before.deframer,
        };
        assert(sent + fed.payloads == relay.deframer.run(tunnel_body(events)).payloads);
        if action is SendToTarget {
            assert(sent.push(fed.payloads[0]) + fed.payloads.skip(1) =~= sent + fed.payloads);
        }
    }
}

/// A relay of capsules rejects what is no stream of Datagram Capsules, with the reason, and
/// otherwise ends exactly where the tunnel is closed or brings a datagram, where receiving from the
/// target or sending on the tunnel fails, or where the tunnel has ended and nothing is left to be
/// sent or can be sent. A payload that cannot be sent does not end it while the tunnel goes on.
pub proof fn law_capsule_relay_reacts(relay: CapsuleRelayView, event: RelayEventView)
    requires
        relay.phase.accepts(event),
    ensures
        ({
            let (after, action) = relay.step(event);
            let waits = relay.deframer.payloads.len() > 0;
            &&& event matches RelayEventView::Tunnel(Some(InboundFrameView::Body(bytes, fin))) ==> {
                let read = relay.deframer.run(bytes);
                &&& read.outcome() matches Err(e) ==> action == RelayActionView::Reject(e)
                &&& read.outcome() is Ok && read.payloads.len() > 0 ==> action
                    == RelayActionView::SendToTarget(read.payloads[0]) && after.phase == (
                RelayPhase::ToTarget { fin })
                &&& read.outcome() is Ok && read.payloads.len() == 0 ==> (if fin {
                    action is Stop
                } else {
                    action is Wait
                })
            }
            &&& event matches RelayEventView::Tunnel(Some(InboundFrameView::Datagram(_)))
                ==> action is Stop
            &&& event matches RelayEventView::Tunnel(None) ==> action is Stop
            &&& event matches RelayEventView::Target(None) ==> action is Stop
            &&& event matches RelayEventView::Target(Some(payload)) ==> action
                == RelayActionView::SendToTunnel(
                OutboundFrameView::Body(capsules::capsule_bytes(payload), false),
            )
            &&& event matches RelayEventView::Sent(ok) ==> {
                &&& relay.phase is ToTunnel ==> (if ok {
                    action is Wait
                } else {
                    action is Stop
                })
                &&& relay.phase matches RelayPhase::ToTarget { fin } ==> {
                    &&& ok && waits ==> action == RelayActionView::SendToTarget(
                        relay.deframer.payloads[0],
                    ) && after.phase == (RelayPhase::ToTarget { fin })
                    &&& !(ok && waits) ==> (if fin {
                        action is Stop
                    } else {
                        action is Wait
                    })
                }
            }
            &&& after.phase is Stopped <==> action is Stop || action is Reject
            &&& after.phase is Waiting <==> action is Wait
            &&& after.phase is ToTarget <==> action is SendToTarget
            &&& after.phase is ToTunnel <==> action is SendToTunnel
        }),
{
}

} // verus!
