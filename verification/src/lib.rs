//! Proxying UDP in HTTP (RFC 9298) over HTTP Datagrams and the Capsule Protocol (RFC 9297), with the
//! Extensible Prioritization Scheme (RFC 9218) and packet schedulers for multipath connections.
//!
//! The library holds the rules of a MASQUE client and of a MASQUE proxy and does no I/O. Sockets,
//! QUIC connections, files and clocks belong to its caller, which hands over what they gave and
//! does with them what the library answers.
pub mod args;
pub mod capsules;
pub mod client;
pub mod dgrams;
pub mod e2e;
pub mod frames;
pub mod helpers;
pub mod logging;
pub mod prios;
pub mod proxy;
pub mod relay;
pub mod scheduler;
pub mod stats;
pub mod text;
pub mod varint;

use std::collections::HashMap;

use vstd::prelude::*;

verus! {

broadcast use vstd::std_specs::hash::group_hash_axioms;

/// The context ID of HTTP datagrams that carry UDP payloads (RFC 9298, Section 5).
pub const UDP_PAYLOAD_CONTEXT_ID: u64 = 0x00;

/// The size of that context ID as a variable-length integer.
pub const CONTEXT_ID_VARINT_LEN: usize = 1;

/// How many streams of each kind a peer may open.
pub const MAX_STREAMS: u64 = 1000;

/// Maximum outer QUIC packet size on the client-proxy segment.
/// Ref: Kühlewind et al. (2021), Section 4.1.
pub const MAX_OUTER_QUIC_PACKET_SIZE: usize = 1380;

/// The two ends of a datagram flow: `S` sends frames and `R` receives them.
pub struct Tunnel<S, R> {
    /// Sends HTTP/3 DATAGRAMS to the client
    pub send: Option<S>,
    /// Receives HTTP/3 DATAGRAMS from the client
    pub recv: Option<R>,
}

impl<S, R> Tunnel<S, R> {
    pub fn new(send: S, recv: R) -> (tunnel: Self)
        ensures
            tunnel == (Tunnel { send: Some(send), recv: Some(recv) }),
    {
        Tunnel { send: Some(send), recv: Some(recv) }
    }

    /// The tunnel that is left once both ends are taken.
    pub open spec fn spent() -> Self {
        Tunnel { send: None, recv: None }
    }

    /// Both ends, where both are still there.
    pub open spec fn ends(self) -> Option<(S, R)> {
        match (self.send, self.recv) {
            (Some(send), Some(recv)) => Some((send, recv)),
            _ => None,
        }
    }
}

/// No datagram flow has this flow ID.
#[derive(Debug, Clone, Copy, PartialEq, Eq)]
pub struct MissingTunnel(pub u64);

/// The datagram flows of a connection.
pub struct MasqueTunnels<S, R> {
    /// Maps a flow ID to a MASQUE tunnel
    pub masque_map: HashMap<u64, Tunnel<S, R>>,
}

impl<S, R> View for MasqueTunnels<S, R> {
    type V = Map<u64, Tunnel<S, R>>;

    open spec fn view(&self) -> Map<u64, Tunnel<S, R>> {
        self.masque_map@
    }
}

impl<S, R> MasqueTunnels<S, R> {
    pub fn new() -> (tunnels: Self)
        ensures
            tunnels@ == Map::<u64, Tunnel<S, R>>::empty(),
    {
        MasqueTunnels { masque_map: HashMap::new() }
    }

    /// Keeps the two ends of a flow that was created. A flow that had this ID before is gone.
    pub fn add_flow(&mut self, flow_id: u64, send: S, recv: R)
        ensures
            final(self)@ == old(self)@.insert(
                flow_id,
                Tunnel { send: Some(send), recv: Some(recv) },
            ),
    {
        self.masque_map.insert(flow_id, Tunnel::new(send, recv));
    }

    /// Takes the two ends of a flow. They are handed out once; what is left of the flow has none.
    pub fn take_flow(&mut self, flow_id: u64) -> (r: Result<Option<(S, R)>, MissingTunnel>)
        ensures
            match r {
                Ok(ends) => {
                    &&& old(self)@.contains_key(flow_id)
                    &&& ends == old(self)@[flow_id].ends()
                    &&& final(self)@ == old(self)@.insert(flow_id, Tunnel::spent())
                },
                Err(missing) => {
                    &&& !old(self)@.contains_key(flow_id)
                    &&& missing == MissingTunnel(flow_id)
                    &&& final(self)@ == old(self)@
                },
            },
    {
        match self.masque_map.remove(&flow_id) {
            Some(tunnel) => {
                self.masque_map.insert(flow_id, Tunnel { send: None, recv: None });
                assert(self@ =~= old(self)@.insert(flow_id, Tunnel::spent()));
                match (tunnel.send, tunnel.recv) {
                    (Some(send), Some(recv)) => Ok(Some((send, recv))),
                    _ => Ok(None),
                }
            },
            None => {
                assert(self@ =~= old(self)@);
                Err(MissingTunnel(flow_id))
            },
        }
    }
}

impl<S, R> Default for MasqueTunnels<S, R> {
    fn default() -> (tunnels: Self)
        ensures
            tunnels@ == Map::<u64, Tunnel<S, R>>::empty(),
    {
        Self::new()
    }
}

/// The ends of a flow that was added are handed out once, whatever other flows there are.
pub proof fn law_flow_is_taken_once<S, R>(
    tunnels: Map<u64, Tunnel<S, R>>,
    flow_id: u64,
    send: S,
    recv: R,
)
    ensures
        ({
            let added = tunnels.insert(flow_id, Tunnel { send: Some(send), recv: Some(recv) });
            let taken = added.insert(flow_id, Tunnel::spent());
            &&& added.contains_key(flow_id) && added[flow_id].ends() == Some((send, recv))
            &&& taken.contains_key(flow_id) && taken[flow_id].ends() is None
            &&& forall|other: u64|
                other != flow_id && tunnels.contains_key(other) ==> #[trigger] taken.contains_key(
                    other,
                ) && taken[other] == tunnels[other]
        }),
{
}

} // verus!
