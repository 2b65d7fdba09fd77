//! Packet schedulers: which path of a multipath connection carries the next packet.
//!
//! A scheduler reads a [`ConnectionState`], a picture of the connection in plain values. Addresses
//! are of any type that can be copied, times are whole nanoseconds.

pub mod ecf;
pub mod laws;
pub mod rtt;
pub mod turns;

pub use ecf::{
    EarliestCompletionFirstScheduler, StreamAwareEarliestCompletionFirst, INTERLEAVE_BYTES,
};
pub use rtt::{LowRTTScheduler, LowestLatencyScheduler, MinRTTScheduler, MAX_TIME};
pub use turns::{RandomScheduler, RoundRobinScheduler};

use vstd::prelude::*;

use crate::text::str_eq;

verus! {

/// The packet scheduling algorithms.
#[derive(Debug, Copy, Clone, PartialEq, Eq, Structural)]
pub enum PacketSchedulingAlgorithm {
    /// LowRTT Path Scheduler algorithm - selects path with lowest RTT
    MinRTT,
    /// Round Robin Path Scheduler algorithm - cycles through available paths
    RoundRobin,
    /// Random Path Scheduler algorithm - randomly selects among available paths
    Random,
    /// Lowest Latency Path Scheduler algorithm - like MinRTT but considers jitter
    LowestLatency,
    /// LowRTT - like MinRTT but only considers paths with available cwnd
    LowRTT,
    /// ECF: may wait for a faster path to become available
    EarliestCompletionFirst,
    /// Stream-Aware Earliest Completion First accounting for HTTP/3 hints.
    StreamAwareEarliestCompletionFirst,
}

/// Why there is no scheduler.
#[derive(Debug, Copy, Clone, PartialEq, Eq, Structural)]
pub enum SchedulerError {
    /// No algorithm has that name.
    UnknownPacketScheduler,
}

impl PacketSchedulingAlgorithm {
    /// The name of the algorithm.
    pub open spec fn spec_name(self) -> Seq<char> {
        match self {
            PacketSchedulingAlgorithm::MinRTT => "minrtt"@,
            PacketSchedulingAlgorithm::RoundRobin => "roundrobin"@,
            PacketSchedulingAlgorithm::Random => "random"@,
            PacketSchedulingAlgorithm::LowestLatency => "lowestlatency"@,
            PacketSchedulingAlgorithm::EarliestCompletionFirst => "earliestcompletionfirst"@,
            PacketSchedulingAlgorithm::StreamAwareEarliestCompletionFirst => "sa-ecf"@,
            PacketSchedulingAlgorithm::LowRTT => "lowrtt"@,
        }
    }

    /// The algorithm that a name or an abbreviation stands for.
    pub open spec fn named(name: Seq<char>) -> Result<Self, SchedulerError> {
        if name == "minrtt"@ {
            Ok(PacketSchedulingAlgorithm::MinRTT)
        } else if name == "lowrtt"@ {
            Ok(PacketSchedulingAlgorithm::LowRTT)
        } else if name == "roundrobin"@ || name == "rr"@ {
            Ok(PacketSchedulingAlgorithm::RoundRobin)
        } else if name == "random"@ || name == "rand"@ {
            Ok(PacketSchedulingAlgorithm::Random)
        } else if name == "lowestlatency"@ || name == "ll"@ {
            Ok(PacketSchedulingAlgorithm::LowestLatency)
        } else if name == "ecf"@ {
            Ok(PacketSchedulingAlgorithm::EarliestCompletionFirst)
        } else if name == "sa-ecf"@ || name == "eps-aware-ecf"@ || name == "stream-aware-ecf"@ {
            Ok(PacketSchedulingAlgorithm::StreamAwareEarliestCompletionFirst)
        } else {
            Err(SchedulerError::UnknownPacketScheduler)
        }
    }

    /// Returns the name of the algorithm.
    pub fn name(self) -> (name: &'static str)
        ensures
            name@ == self.spec_name(),
    {
        match self {
            PacketSchedulingAlgorithm::MinRTT => "minrtt",
            PacketSchedulingAlgorithm::RoundRobin => "roundrobin",
            PacketSchedulingAlgorithm::Random => "random",
            PacketSchedulingAlgorithm::LowestLatency => "lowestlatency",
            PacketSchedulingAlgorithm::EarliestCompletionFirst => "earliestcompletionfirst",
            PacketSchedulingAlgorithm::StreamAwareEarliestCompletionFirst => "sa-ecf",
            PacketSchedulingAlgorithm::LowRTT => "lowrtt",
        }
    }

    /// Converts a string to `PacketSchedulingAlgorithm`.
    pub fn parse(name: &str) -> (r: Result<Self, SchedulerError>)
        ensures
            r == Self::named(name@),
    {
        if str_eq(name, "minrtt") {
            Ok(PacketSchedulingAlgorithm::MinRTT)
        } else if str_eq(name, "lowrtt") {
            Ok(PacketSchedulingAlgorithm::LowRTT)
        } else if str_eq(name, "roundrobin") || str_eq(name, "rr") {
            Ok(PacketSchedulingAlgorithm::RoundRobin)
        } else if str_eq(name, "random") || str_eq(name, "rand") {
            Ok(PacketSchedulingAlgorithm::Random)
        } else if str_eq(name, "lowestlatency") || str_eq(name, "ll") {
            Ok(PacketSchedulingAlgorithm::LowestLatency)
        } else if str_eq(name, "ecf") {
            Ok(PacketSchedulingAlgorithm::EarliestCompletionFirst)
        } else if str_eq(name, "sa-ecf") || str_eq(name, "eps-aware-ecf") || str_eq(
            name,
            "stream-aware-ecf",
        ) {
            Ok(PacketSchedulingAlgorithm::StreamAwareEarliestCompletionFirst)
        } else {
            Err(SchedulerError::UnknownPacketScheduler)
        }
    }
}

impl std::str::FromStr for PacketSchedulingAlgorithm {
    type Err = SchedulerError;

    /// Converts a string to `PacketSchedulingAlgorithm`.
    ///
    /// If `name` is not valid, `SchedulerError::UnknownPacketScheduler` is returned.
    fn from_str(name: &str) -> (r: Result<Self, SchedulerError>)
        ensures
            r == PacketSchedulingAlgorithm::named(name@),
    {
        Self::parse(name)
    }
}

/// The name of an algorithm leads back to it. The one exception is `EarliestCompletionFirst`, which
/// is asked for by its abbreviation alone.
pub proof fn law_name_parses(algorithm: PacketSchedulingAlgorithm)
    requires
        algorithm != PacketSchedulingAlgorithm::EarliestCompletionFirst,
    ensures
        PacketSchedulingAlgorithm::named(algorithm.spec_name()) == Ok::<
            PacketSchedulingAlgorithm,
            SchedulerError,
        >(algorithm),
{
    lemma_names_differ();
}

pub(crate) proof fn lemma_names_differ()
    ensures
        "minrtt"@.len() == 6 && "minrtt"@[0] == 'm',
        "lowrtt"@.len() == 6 && "lowrtt"@[0] == 'l',
        "random"@.len() == 6 && "random"@[0] == 'r',
        "sa-ecf"@.len() == 6 && "sa-ecf"@[0] == 's',
        "roundrobin"@.len() == 10,
        "lowestlatency"@.len() == 13 && "lowestlatency"@[0] == 'l',
        "eps-aware-ecf"@.len() == 13 && "eps-aware-ecf"@[0] == 'e',
        "stream-aware-ecf"@.len() == 16,
        "rand"@.len() == 4,
        "ecf"@.len() == 3,
        "rr"@.len() == 2 && "rr"@[0] == 'r',
        "ll"@.len() == 2 && "ll"@[0] == 'l',
{
    reveal_strlit("minrtt");
    reveal_strlit("lowrtt");
    reveal_strlit("random");
    reveal_strlit("sa-ecf");
    reveal_strlit("roundrobin");
    reveal_strlit("lowestlatency");
    reveal_strlit("eps-aware-ecf");
    reveal_strlit("stream-aware-ecf");
    reveal_strlit("rand");
    reveal_strlit("ecf");
    reveal_strlit("rr");
    reveal_strlit("ll");
}

/// The result of a scheduling decision.
#[derive(Debug, PartialEq, Eq)]
pub struct SchedulerDecision<A> {
    /// The path to send on.
    pub path: (A, A),
    /// Optional stream ID hint for the send path.
    /// When `Some`, this stream is preferred.
    pub stream_id: Option<u64>,
}

impl<A: Copy> Clone for SchedulerDecision<A> {
    fn clone(&self) -> (decision: Self)
        ensures
            decision == *self,
    {
        Self { path: (self.path.0, self.path.1), stream_id: self.stream_id }
    }
}

impl<A: Copy> SchedulerDecision<A> {
    /// Path-only decision.
    pub(crate) fn path_only(local: A, peer: A) -> (decision: Self)
        ensures
            decision == (SchedulerDecision { path: (local, peer), stream_id: None }),
    {
        Self { path: (local, peer), stream_id: None }
    }

    /// A stream-aware scheduling decision.
    pub(crate) fn stream_aware(local: A, peer: A, stream_id: u64) -> (decision: Self)
        ensures
            decision == (SchedulerDecision { path: (local, peer), stream_id: Some(stream_id) }),
    {
        Self { path: (local, peer), stream_id: Some(stream_id) }
    }
}

/// What a connection knows of one of its paths.
#[derive(Debug, Clone, Copy, PartialEq, Eq)]
pub struct PathStats<A> {
    pub path_id: u64,
    pub local_addr: A,
    pub peer_addr: A,
    /// Whether the path is in use.
    pub active: bool,
    /// Whether the path was closed.
    pub closed: bool,
    /// The smoothed round-trip time in nanoseconds.
    pub rtt: u128,
    /// The variation of the round-trip time in nanoseconds.
    pub rttvar: u128,
    /// The congestion window in bytes.
    pub cwnd: usize,
    /// How much of the congestion window is free.
    pub cwnd_available: usize,
}

impl<A> PathStats<A> {
    /// Whether packets may go over the path at all.
    pub open spec fn usable(self) -> bool {
        self.active && !self.closed
    }

    /// Whether the congestion window of the path has room.
    pub open spec fn available(self) -> bool {
        self.cwnd_available > 0
    }

    /// The round-trip time together with twice its variation.
    pub open spec fn score(self) -> nat {
        self.rtt as nat + 2 * self.rttvar as nat
    }

    /// The decision for this path.
    pub open spec fn decision(self) -> SchedulerDecision<A> {
        SchedulerDecision { path: (self.local_addr, self.peer_addr), stream_id: None }
    }

    /// The decision for this path that names a stream.
    pub open spec fn stream_decision(self, stream_id: u64) -> SchedulerDecision<A> {
        SchedulerDecision { path: (self.local_addr, self.peer_addr), stream_id: Some(stream_id) }
    }
}

/// A stream with data to send.
#[derive(Debug, Clone, Copy, PartialEq, Eq, Structural)]
pub struct StreamKey {
    pub id: u64,
    pub urgency: u8,
    pub incremental: bool,
    /// Whether the stream was told to wait for a faster path.
    pub waiting: bool,
    /// How many bytes of the stream are still to be sent.
    pub bytes_left: usize,
}

/// What comparing completion times says of data that can go over the fastest path, which has no
/// room at the moment, or over the fastest path that has.
#[derive(Debug, Clone, Copy, PartialEq, Eq, Structural)]
pub struct Verdict {
    /// The fastest path completes first, even with the wait.
    pub fast_completes_first: bool,
    /// The other path takes longer than the fastest path with the wait.
    pub slow_is_late: bool,
}

/// What the schedulers read of a connection.
#[derive(Debug, Clone, PartialEq, Eq)]
pub struct ConnectionState<A> {
    /// The path that the connection itself asks for, say to probe it.
    pub next_send_path_id: Option<u64>,
    /// All paths of the connection.
    pub paths: Vec<PathStats<A>>,
    /// How many bytes wait to be sent.
    pub send_buffer_size: usize,
    /// The streams with data to send, the most urgent first.
    pub streams: Vec<StreamKey>,
    /// What comparing completion times says: of all data, or of each stream.
    pub verdicts: Vec<Verdict>,
}

/// The first path with the given ID.
pub open spec fn find_path<A>(paths: Seq<PathStats<A>>, path_id: u64) -> Option<PathStats<A>>
    decreases paths.len(),
{
    if paths.len() == 0 {
        None
    } else if paths[0].path_id == path_id {
        Some(paths[0])
    } else {
        find_path(paths.drop_first(), path_id)
    }
}

/// The path with the least key, the first of them where several have it.
pub open spec fn least<A>(paths: Seq<PathStats<A>>, key: spec_fn(PathStats<A>) -> nat) -> Option<
    PathStats<A>,
>
    decreases paths.len(),
{
    if paths.len() == 0 {
        None
    } else {
        match least(paths.drop_last(), key) {
            Some(p) => if key(paths.last()) < key(p) {
                Some(paths.last())
            } else {
                Some(p)
            },
            None => Some(paths.last()),
        }
    }
}

/// The path with the lowest round-trip time, the first of them where several have it.
pub open spec fn fastest<A>(paths: Seq<PathStats<A>>) -> Option<PathStats<A>> {
    least(paths, |p: PathStats<A>| p.rtt as nat)
}

/// The decision for a path, where there is one.
pub open spec fn decision_for<A>(path: Option<PathStats<A>>) -> Option<SchedulerDecision<A>> {
    match path {
        Some(p) => Some(p.decision()),
        None => None,
    }
}

impl<A> ConnectionState<A> {
    /// The path that the connection itself asks for.
    pub open spec fn preferred(self) -> Option<PathStats<A>> {
        match self.next_send_path_id {
            Some(path_id) => find_path(self.paths@, path_id),
            None => None,
        }
    }

    /// The paths that packets may go over.
    pub open spec fn usable_paths(self) -> Seq<PathStats<A>> {
        self.paths@.filter(|p: PathStats<A>| p.usable())
    }

    /// The paths that packets may go over and that have room.
    pub open spec fn available_paths(self) -> Seq<PathStats<A>> {
        self.usable_paths().filter(|p: PathStats<A>| p.available())
    }

    /// The fastest path and the fastest path with room, where these differ: none of them is asked
    /// for by the connection, the fastest has no room and another one has.
    pub open spec fn contest(self) -> Option<(PathStats<A>, PathStats<A>)> {
        match (fastest(self.usable_paths()), fastest(self.available_paths())) {
            (Some(fast), Some(slow)) => if self.preferred() is None && !fast.available() {
                Some((fast, slow))
            } else {
                None
            },
            _ => None,
        }
    }
}

impl PacketSchedulingAlgorithm {
    /// The paths that packets may go over.
    pub(crate) fn active_paths<A: Copy>(&self, conn: &ConnectionState<A>) -> (paths: Vec<PathStats<A>>)
        ensures
            paths@ == conn.usable_paths(),
    {
        let mut paths: Vec<PathStats<A>> = Vec::new();
        let ghost pred = |p: PathStats<A>| p.usable();
        let mut i: usize = 0;
        assert(conn.paths@.take(0).filter(pred) =~= Seq::empty()) by {
            reveal(Seq::filter);
        }
        while i < conn.paths.len()
            invariant
                i <= conn.paths@.len(),
                pred == (|p: PathStats<A>| p.usable()),
                paths@ == conn.paths@.take(i as int).filter(pred),
            decreases conn.paths@.len() - i,
        {
            proof {
                reveal(Seq::filter);
                assert(conn.paths@.take(i + 1).drop_last() =~= conn.paths@.take(i as int));
            }
            let path = conn.paths[i];
            if path.active && !path.closed {
                paths.push(path);
            }
            i = i + 1;
        }
        assert(conn.paths@.take(i as int) =~= conn.paths@);
        paths
    }
}

/// The paths with room.
pub(crate) fn with_room<A: Copy>(paths: &Vec<PathStats<A>>) -> (available: Vec<PathStats<A>>)
    ensures
        available@ == paths@.filter(|p: PathStats<A>| p.available()),
{
    let mut available: Vec<PathStats<A>> = Vec::new();
    let ghost pred = |p: PathStats<A>| p.available();
    let mut i: usize = 0;
    assert(paths@.take(0).filter(pred) =~= Seq::empty()) by {
        reveal(Seq::filter);
    }
    while i < paths.len()
        invariant
            i <= paths@.len(),
            pred == (|p: PathStats<A>| p.available()),
            available@ == paths@.take(i as int).filter(pred),
        decreases paths@.len() - i,
    {
        proof {
            reveal(Seq::filter);
            assert(paths@.take(i + 1).drop_last() =~= paths@.take(i as int));
        }
        let path = paths[i];
        if path.cwnd_available > 0 {
            available.push(path);
        }
        i = i + 1;
    }
    assert(paths@.take(i as int) =~= paths@);
    available
}

/// The path with the lowest round-trip time.
pub(crate) fn lowest_rtt<A: Copy>(paths: &Vec<PathStats<A>>) -> (path: Option<PathStats<A>>)
    ensures
        path == fastest(paths@),
{
    let mut best: Option<PathStats<A>> = None;
    let ghost key = |p: PathStats<A>| p.rtt as nat;
    let mut i: usize = 0;
    while i < paths.len()
        invariant
            i <= paths@.len(),
            key == (|p: PathStats<A>| p.rtt as nat),
            best == least(paths@.take(i as int), key),
        decreases paths@.len() - i,
    {
        assert(paths@.take(i + 1).drop_last() =~= paths@.take(i as int));
        let path = paths[i];
        best = match best {
            Some(b) => if path.rtt < b.rtt {
                Some(path)
            } else {
                Some(b)
            },
            None => Some(path),
        };
        i = i + 1;
    }
    assert(paths@.take(i as int) =~= paths@);
    best
}

/// The path that the connection itself asks for.
pub(crate) fn preferred_path<A: Copy>(conn: &ConnectionState<A>) -> (path: Option<PathStats<A>>)
    ensures
        path == conn.preferred(),
{
    match conn.next_send_path_id {
        Some(path_id) => {
            let mut i: usize = 0;
            assert(conn.paths@.skip(0) =~= conn.paths@);
            while i < conn.paths.len()
                invariant
                    i <= conn.paths@.len(),
                    conn.next_send_path_id == Some(path_id),
                    find_path(conn.paths@, path_id) == find_path(
                        conn.paths@.skip(i as int),
                        path_id,
                    ),
                decreases conn.paths@.len() - i,
            {
                assert(conn.paths@.skip(i as int).drop_first() =~= conn.paths@.skip(i + 1));
                if conn.paths[i].path_id == path_id {
                    return Some(conn.paths[i]);
                }
                i = i + 1;
            }
            None
        },
        None => None,
    }
}

/// A packet scheduler that can determine which path to use for sending packets
pub trait PacketScheduler<A: Copy>: Sized {
    /// The algorithm of the scheduler.
    spec fn spec_algorithm(&self) -> PacketSchedulingAlgorithm;

    /// Whether the scheduler can decide on this state.
    spec fn ready(&self, conn: ConnectionState<A>) -> bool;

    /// Whether the scheduler may decide so on this state, and leave itself and the streams so.
    spec fn decides(
        &self,
        conn: ConnectionState<A>,
        decision: Option<SchedulerDecision<A>>,
        after: Self,
        conn_after: ConnectionState<A>,
    ) -> bool;

    /// Says whether the scheduler can decide on this state.
    fn is_ready(&self, conn: &ConnectionState<A>) -> (r: bool)
        ensures
            r == self.ready(*conn),
    ;

    /// Get the next path to send a packet on
    fn next_path(&mut self, conn: &mut ConnectionState<A>) -> (decision: Option<
        SchedulerDecision<A>,
    >)
        requires
            old(self).ready(*old(conn)),
        ensures
            old(self).decides(*old(conn), decision, *final(self), *final(conn)),
    ;

    /// Returns the name of the scheduler.
    fn name(&self) -> (name: &'static str)
        ensures
            name@ == self.spec_algorithm().spec_name(),
    ;

    /// Returns the algorithm used by the scheduler.
    fn algorithm(&self) -> (algorithm: PacketSchedulingAlgorithm)
        ensures
            algorithm == self.spec_algorithm(),
    ;
}

/// A scheduler of any algorithm.
#[derive(Debug)]
pub enum BoxedScheduler {
    MinRTT(MinRTTScheduler),
    RoundRobin(RoundRobinScheduler),
    Random(RandomScheduler),
    LowestLatency(LowestLatencyScheduler),
    LowRTT(LowRTTScheduler),
    EarliestCompletionFirst(EarliestCompletionFirstScheduler),
    StreamAwareEarliestCompletionFirst(StreamAwareEarliestCompletionFirst),
}

impl BoxedScheduler {
    /// The algorithm of the scheduler.
    pub open spec fn of_algorithm(self) -> PacketSchedulingAlgorithm {
        match self {
            BoxedScheduler::MinRTT(_) => PacketSchedulingAlgorithm::MinRTT,
            BoxedScheduler::RoundRobin(_) => PacketSchedulingAlgorithm::RoundRobin,
            BoxedScheduler::Random(_) => PacketSchedulingAlgorithm::Random,
            BoxedScheduler::LowestLatency(_) => PacketSchedulingAlgorithm::LowestLatency,
            BoxedScheduler::LowRTT(_) => PacketSchedulingAlgorithm::LowRTT,
            BoxedScheduler::EarliestCompletionFirst(_) => PacketSchedulingAlgorithm::EarliestCompletionFirst,
            BoxedScheduler::StreamAwareEarliestCompletionFirst(_) => PacketSchedulingAlgorithm::StreamAwareEarliestCompletionFirst,
        }
    }

    /// Returns the algorithm used by the scheduler.
    pub fn algorithm(&self) -> (algorithm: PacketSchedulingAlgorithm)
        ensures
            algorithm == self.of_algorithm(),
    {
        match self {
            BoxedScheduler::MinRTT(_) => PacketSchedulingAlgorithm::MinRTT,
            BoxedScheduler::RoundRobin(_) => PacketSchedulingAlgorithm::RoundRobin,
            BoxedScheduler::Random(_) => PacketSchedulingAlgorithm::Random,
            BoxedScheduler::LowestLatency(_) => PacketSchedulingAlgorithm::LowestLatency,
            BoxedScheduler::LowRTT(_) => PacketSchedulingAlgorithm::LowRTT,
            BoxedScheduler::EarliestCompletionFirst(_) => PacketSchedulingAlgorithm::EarliestCompletionFirst,
            BoxedScheduler::StreamAwareEarliestCompletionFirst(_) => PacketSchedulingAlgorithm::StreamAwareEarliestCompletionFirst,
        }
    }

    /// Returns the name of the scheduler.
    pub fn name(&self) -> (name: &'static str)
        ensures
            name@ == self.of_algorithm().spec_name(),
    {
        self.algorithm().name()
    }
}

impl<A: Copy> PacketScheduler<A> for BoxedScheduler {
    open spec fn spec_algorithm(&self) -> PacketSchedulingAlgorithm {
        self.of_algorithm()
    }

    open spec fn ready(&self, conn: ConnectionState<A>) -> bool {
        match self {
            BoxedScheduler::MinRTT(s) => s.ready(conn),
            BoxedScheduler::RoundRobin(s) => s.ready(conn),
            BoxedScheduler::Random(s) => s.ready(conn),
            BoxedScheduler::LowestLatency(s) => s.ready(conn),
            BoxedScheduler::LowRTT(s) => s.ready(conn),
            BoxedScheduler::EarliestCompletionFirst(s) => s.ready(conn),
            BoxedScheduler::StreamAwareEarliestCompletionFirst(s) => s.ready(conn),
        }
    }

    open spec fn decides(
        &self,
        conn: ConnectionState<A>,
        decision: Option<SchedulerDecision<A>>,
        after: Self,
        conn_after: ConnectionState<A>,
    ) -> bool {
        match (self, after) {
            (BoxedScheduler::MinRTT(s), BoxedScheduler::MinRTT(a)) => s.decides(
                conn,
                decision,
                a,
                conn_after,
            ),
            (BoxedScheduler::RoundRobin(s), BoxedScheduler::RoundRobin(a)) => s.decides(
                conn,
                decision,
                a,
                conn_after,
            ),
            (BoxedScheduler::Random(s), BoxedScheduler::Random(a)) => s.decides(
                conn,
                decision,
                a,
                conn_after,
            ),
            (BoxedScheduler::LowestLatency(s), BoxedScheduler::LowestLatency(a)) => s.decides(
                conn,
                decision,
                a,
                conn_after,
            ),
            (BoxedScheduler::LowRTT(s), BoxedScheduler::LowRTT(a)) => s.decides(
                conn,
                decision,
                a,
                conn_after,
            ),
            (BoxedScheduler::EarliestCompletionFirst(s), BoxedScheduler::EarliestCompletionFirst(a)) => s.decides(
                conn,
                decision,
                a,
                conn_after,
            ),
            (BoxedScheduler::StreamAwareEarliestCompletionFirst(s), BoxedScheduler::StreamAwareEarliestCompletionFirst(a)) => s.decides(
                conn,
                decision,
                a,
                conn_after,
            ),
            _ => false,
        }
    }

    fn is_ready(&self, conn: &ConnectionState<A>) -> bool {
        match self {
            BoxedScheduler::MinRTT(s) => s.is_ready(conn),
            BoxedScheduler::RoundRobin(s) => s.is_ready(conn),
            BoxedScheduler::Random(s) => s.is_ready(conn),
            BoxedScheduler::LowestLatency(s) => s.is_ready(conn),
            BoxedScheduler::LowRTT(s) => s.is_ready(conn),
            BoxedScheduler::EarliestCompletionFirst(s) => s.is_ready(conn),
            BoxedScheduler::StreamAwareEarliestCompletionFirst(s) => s.is_ready(conn),
        }
    }

    fn next_path(&mut self, conn: &mut ConnectionState<A>) -> Option<SchedulerDecision<A>> {
        match self {
            BoxedScheduler::MinRTT(s) => s.next_path(conn),
            BoxedScheduler::RoundRobin(s) => s.next_path(conn),
            BoxedScheduler::Random(s) => s.next_path(conn),
            BoxedScheduler::LowestLatency(s) => s.next_path(conn),
            BoxedScheduler::LowRTT(s) => s.next_path(conn),
            BoxedScheduler::EarliestCompletionFirst(s) => s.next_path(conn),
            BoxedScheduler::StreamAwareEarliestCompletionFirst(s) => s.next_path(conn),
        }
    }

    fn name(&self) -> &'static str {
        self.algorithm().name()
    }

    fn algorithm(&self) -> PacketSchedulingAlgorithm {
        BoxedScheduler::algorithm(self)
    }
}

/// Factory for creating scheduler instances
pub struct PacketSchedulerFactory;

impl PacketSchedulerFactory {
    /// A scheduler of an algorithm that has not decided anything yet.
    pub open spec fn fresh(algorithm: PacketSchedulingAlgorithm) -> BoxedScheduler {
        match algorithm {
            PacketSchedulingAlgorithm::MinRTT => BoxedScheduler::MinRTT(MinRTTScheduler),
            PacketSchedulingAlgorithm::RoundRobin => BoxedScheduler::RoundRobin(RoundRobinScheduler { current_index: 0 }),
            PacketSchedulingAlgorithm::Random => BoxedScheduler::Random(RandomScheduler),
            PacketSchedulingAlgorithm::LowestLatency => BoxedScheduler::LowestLatency(LowestLatencyScheduler),
            PacketSchedulingAlgorithm::LowRTT => BoxedScheduler::LowRTT(LowRTTScheduler),
            PacketSchedulingAlgorithm::EarliestCompletionFirst => BoxedScheduler::EarliestCompletionFirst(EarliestCompletionFirstScheduler { waiting: false }),
            PacketSchedulingAlgorithm::StreamAwareEarliestCompletionFirst => BoxedScheduler::StreamAwareEarliestCompletionFirst(StreamAwareEarliestCompletionFirst),
        }
    }

    /// Create a new scheduler instance based on the algorithm
    pub fn create(algorithm: PacketSchedulingAlgorithm) -> (scheduler: BoxedScheduler)
        ensures
            scheduler == Self::fresh(algorithm),
            scheduler.of_algorithm() == algorithm,
    {
        match algorithm {
            PacketSchedulingAlgorithm::MinRTT => BoxedScheduler::MinRTT(MinRTTScheduler::new()),
            PacketSchedulingAlgorithm::RoundRobin => BoxedScheduler::RoundRobin(RoundRobinScheduler::new()),
            PacketSchedulingAlgorithm::Random => BoxedScheduler::Random(RandomScheduler::new()),
            PacketSchedulingAlgorithm::LowestLatency => BoxedScheduler::LowestLatency(LowestLatencyScheduler::new()),
            PacketSchedulingAlgorithm::LowRTT => BoxedScheduler::LowRTT(LowRTTScheduler::new()),
            PacketSchedulingAlgorithm::EarliestCompletionFirst => BoxedScheduler::EarliestCompletionFirst(EarliestCompletionFirstScheduler::new()),
            PacketSchedulingAlgorithm::StreamAwareEarliestCompletionFirst => BoxedScheduler::StreamAwareEarliestCompletionFirst(StreamAwareEarliestCompletionFirst::new()),
        }
    }

    /// Create a new scheduler instance from a string name
    pub fn from_name(name: &str) -> (r: Result<BoxedScheduler, SchedulerError>)
        ensures
            r == match PacketSchedulingAlgorithm::named(name@) {
                Ok(algorithm) => Ok(Self::fresh(algorithm)),
                Err(e) => Err(e),
            },
    {
        match PacketSchedulingAlgorithm::parse(name) {
            Ok(algorithm) => Ok(Self::create(algorithm)),
            Err(e) => Err(e),
        }
    }
}

} // verus!
