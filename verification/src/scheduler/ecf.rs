//! Schedulers that may wait for a faster path.

use vstd::prelude::*;

use crate::scheduler;
use crate::scheduler::{
    lowest_rtt, preferred_path, with_room, ConnectionState, PacketScheduler,
    PacketSchedulingAlgorithm, PathStats, SchedulerDecision, StreamKey, Verdict,
};

verus! {

/// Earliest Completion First Path Scheduler algorithm.
///
/// Based on:
/// Yeon-sup Lim, Erich M. Nahum, Don Towsley, and Richard J. Gibbens. 2017.
/// ECF: An MPTCP Path Scheduler to Manage Heterogeneous Paths.
/// In Proceedings of CoNEXT '17. ACM, New York, NY, USA, 13 pages.
/// https: //doi.org/10.1145/3143361.3143376
#[derive(Debug)]
pub struct EarliestCompletionFirstScheduler {
    /// Whether the data waits for the fastest path.
    pub waiting: bool,
}

impl EarliestCompletionFirstScheduler {
    pub fn new() -> (scheduler: Self)
        ensures
            scheduler == (EarliestCompletionFirstScheduler { waiting: false }),
    {
        Self { waiting: false }
    }
}

impl Default for EarliestCompletionFirstScheduler {
    fn default() -> (scheduler: Self)
        ensures
            scheduler == (EarliestCompletionFirstScheduler { waiting: false }),
    {
        Self::new()
    }
}

impl Verdict {
    /// Whether it is better to send nothing and wait for the fastest path.
    pub open spec fn waits(self) -> bool {
        self.fast_completes_first && self.slow_is_late
    }
}

/// What ECF decides: the path that the connection asks for; otherwise the fastest path, where it
/// has room; otherwise the fastest path that has, unless waiting is better.
pub open spec fn ecf_decision<A>(conn: ConnectionState<A>) -> Option<SchedulerDecision<A>> {
    match conn.contest() {
        Some((_, slow)) => if conn.verdicts@[0].waits() {
            None
        } else {
            Some(slow.decision())
        },
        None => uncontested_decision(conn),
    }
}

/// What ECF remembers: that it waits, until the fastest path no longer completes first.
pub open spec fn ecf_waiting<A>(waiting: bool, conn: ConnectionState<A>) -> bool {
    if conn.contest() is None {
        waiting
    } else if conn.verdicts@[0].waits() {
        true
    } else {
        waiting && conn.verdicts@[0].fast_completes_first
    }
}

/// The decision where no two paths contest for the data: the path that the connection asks for;
/// otherwise the fastest path, where it has room.
pub open spec fn uncontested_decision<A>(conn: ConnectionState<A>) -> Option<
    SchedulerDecision<A>,
> {
    match conn.preferred() {
        Some(p) => Some(p.decision()),
        None => match scheduler::fastest(conn.usable_paths()) {
            Some(fast) => if fast.available() {
                Some(fast.decision())
            } else {
                None
            },
            None => None,
        },
    }
}

impl<A: Copy> ConnectionState<A> {
    /// The fastest path and the fastest path with room, where the data could go over either.
    pub fn find_contest(&self) -> (contest: Option<(PathStats<A>, PathStats<A>)>)
        ensures
            contest == self.contest(),
    {
        if preferred_path(self).is_some() {
            return None;
        }
        let paths = PacketSchedulingAlgorithm::EarliestCompletionFirst.active_paths(self);
        match lowest_rtt(&paths) {
            Some(fast) => {
                if fast.cwnd_available > 0 {
                    return None;
                }
                let available = with_room(&paths);
                match lowest_rtt(&available) {
                    Some(slow) => Some((fast, slow)),
                    None => None,
                }
            },
            None => None,
        }
    }

    fn uncontested(&self) -> (decision: Option<SchedulerDecision<A>>)
        ensures
            decision == uncontested_decision(*self),
    {
        if let Some(path) = preferred_path(self) {
            return Some(SchedulerDecision::path_only(path.local_addr, path.peer_addr));
        }
        let paths = PacketSchedulingAlgorithm::EarliestCompletionFirst.active_paths(self);
        match lowest_rtt(&paths) {
            Some(fast) => if fast.cwnd_available > 0 {
                Some(SchedulerDecision::path_only(fast.local_addr, fast.peer_addr))
            } else {
                None
            },
            None => None,
        }
    }
}

impl<A: Copy> PacketScheduler<A> for EarliestCompletionFirstScheduler {
    open spec fn spec_algorithm(&self) -> PacketSchedulingAlgorithm {
        PacketSchedulingAlgorithm::EarliestCompletionFirst
    }

    open spec fn ready(&self, conn: ConnectionState<A>) -> bool {
        conn.contest() is Some ==> conn.verdicts@.len() >= 1
    }

    open spec fn decides(
        &self,
        conn: ConnectionState<A>,
        decision: Option<SchedulerDecision<A>>,
        after: Self,
        conn_after: ConnectionState<A>,
    ) -> bool {
        &&& decision == ecf_decision(conn)
        &&& after.waiting == ecf_waiting(self.waiting, conn)
        &&& conn_after == conn
    }

    fn is_ready(&self, conn: &ConnectionState<A>) -> bool {
        conn.find_contest().is_none() || conn.verdicts.len() >= 1
    }

    fn next_path(&mut self, conn: &mut ConnectionState<A>) -> Option<SchedulerDecision<A>> {
        match conn.find_contest() {
            Some((_, slow)) => {
                let verdict = conn.verdicts[0];
                if verdict.fast_completes_first {
                    if verdict.slow_is_late {
                        self.waiting = true; // Wait for the fastest path
                        None // No available path
                    } else {
                        Some(SchedulerDecision::path_only(slow.local_addr, slow.peer_addr))
                    }
                } else {
                    self.waiting = false;
                    Some(SchedulerDecision::path_only(slow.local_addr, slow.peer_addr))
                }
            },
            None => conn.uncontested(),
        }
    }

    fn name(&self) -> &'static str {
        PacketSchedulingAlgorithm::EarliestCompletionFirst.name()
    }

    fn algorithm(&self) -> PacketSchedulingAlgorithm {
        PacketSchedulingAlgorithm::EarliestCompletionFirst
    }
}

/// Stream-Aware Earliest Completion First Path Scheduler algorithm.
///
/// Based on:
/// Alexander Rabitsch, Per Hurtig, and Anna Brunstrom. 2018.
/// A Stream-Aware Multipath QUIC Scheduler for Heterogeneous Paths.
/// In EPIQ '18: Workshop on the Evolution, Performance, and Interoperability of QUIC, December 4, 2018, Heraklion, Greece.
/// ACM, New York,  NY, USA, 7 pages. https://doi.org/10.1145/3284850.3284855
#[derive(Debug)]
pub struct StreamAwareEarliestCompletionFirst;

impl StreamAwareEarliestCompletionFirst {
    pub fn new() -> (scheduler: Self)
        ensures
            scheduler == StreamAwareEarliestCompletionFirst,
    {
        Self
    }
}

impl Default for StreamAwareEarliestCompletionFirst {
    fn default() -> (scheduler: Self)
        ensures
            scheduler == StreamAwareEarliestCompletionFirst,
    {
        Self::new()
    }
}

/// Multiplexing granularity (in bytes per sending opportunity) for incremental streams.
pub const INTERLEAVE_BYTES: usize = 1300;

/// How many streams share the sending opportunities with an incremental stream of this urgency.
pub open spec fn interleaved(streams: Seq<StreamKey>, urgency: u8) -> nat
    decreases streams.len(),
{
    if streams.len() == 0 {
        0
    } else {
        let last = streams.last();
        interleaved(streams.drop_last(), urgency) + if last.urgency == urgency && last.incremental {
            1nat
        } else {
            0nat
        }
    }
}

/// The number of bytes that are sent at the connection level before a stream completes: what is
/// left of it, and for an incremental stream, which takes turns with the others of its urgency,
/// what these send until its last turn.
pub open spec fn bytes_until_completion(streams: Seq<StreamKey>, stream: StreamKey) -> int {
    let n = interleaved(streams, stream.urgency);
    if !stream.incremental || stream.bytes_left <= INTERLEAVE_BYTES || n <= 1 {
        stream.bytes_left as int
    } else {
        stream.bytes_left * n - (n - 1) * INTERLEAVE_BYTES
    }
}

/// How many streams at the front have to wait for the fastest path.
pub open spec fn waiting_streams(verdicts: Seq<Verdict>) -> nat
    decreases verdicts.len(),
{
    if verdicts.len() == 0 || !verdicts[0].waits() {
        0
    } else {
        1 + waiting_streams(verdicts.drop_first())
    }
}

/// What stream-aware ECF decides: the path that the connection asks for; otherwise the fastest
/// path, where it has room; otherwise the fastest path that has, for the first stream that need
/// not wait.
pub open spec fn sa_ecf_decision<A>(conn: ConnectionState<A>) -> Option<SchedulerDecision<A>> {
    match conn.contest() {
        Some((_, slow)) => {
            let first = waiting_streams(conn.verdicts@.take(conn.streams@.len() as int));
            if first < conn.streams@.len() {
                Some(slow.stream_decision(conn.streams@[first as int].id))
            } else {
                None
            }
        },
        None => uncontested_decision(conn),
    }
}

/// What stream-aware ECF leaves the streams at: those in front of the chosen one wait, and the
/// chosen one no longer waits where the fastest path does not complete first.
pub open spec fn sa_ecf_streams<A>(conn: ConnectionState<A>) -> Seq<StreamKey> {
    if conn.contest() is None {
        conn.streams@
    } else {
        let first = waiting_streams(conn.verdicts@.take(conn.streams@.len() as int));
        Seq::new(
            conn.streams@.len(),
            |i: int|
                if i < first {
                    StreamKey { waiting: true, ..conn.streams@[i] }
                } else if i == first && !conn.verdicts@[i].fast_completes_first {
                    StreamKey { waiting: false, ..conn.streams@[i] }
                } else {
                    conn.streams@[i]
                },
        )
    }
}

impl<A: Copy> ConnectionState<A> {
    /// The number of bytes that are sent at the connection level before a stream completes.
    pub fn stream_backlog(&self, index: usize) -> (bytes: u128)
        requires
            index < self.streams@.len(),
        ensures
            bytes == bytes_until_completion(self.streams@, self.streams@[index as int]),
    {
        let stream = self.streams[index];
        let mut n: u128 = 0;
        let mut i: usize = 0;
        while i < self.streams.len()
            invariant
                i <= self.streams@.len(),
                n <= i,
                n == interleaved(self.streams@.take(i as int), stream.urgency),
            decreases self.streams@.len() - i,
        {
            assert(self.streams@.take(i + 1).drop_last() =~= self.streams@.take(i as int));
            if self.streams[i].urgency == stream.urgency && self.streams[i].incremental {
                n = n + 1;
            }
            i = i + 1;
        }
        assert(self.streams@.take(i as int) =~= self.streams@);
        let bytes_left: u128 = stream.bytes_left as u128;
        if !stream.incremental || stream.bytes_left <= INTERLEAVE_BYTES || n <= 1 {
            bytes_left
        } else {
            proof {
                let left = bytes_left as int;
                let turns = n as int;
                assert(left * turns <= u64::MAX * u64::MAX) by (nonlinear_arith)
                    requires
                        0 <= left <= u64::MAX,
                        0 <= turns <= u64::MAX,
                ;
                assert((turns - 1) * 1300 <= left * turns) by (nonlinear_arith)
                    requires
                        1300 <= left,
                        1 <= turns,
                ;
            }
            bytes_left * n - (n - 1) * (INTERLEAVE_BYTES as u128)
        }
    }
}

impl<A: Copy> PacketScheduler<A> for StreamAwareEarliestCompletionFirst {
    open spec fn spec_algorithm(&self) -> PacketSchedulingAlgorithm {
        PacketSchedulingAlgorithm::StreamAwareEarliestCompletionFirst
    }

    open spec fn ready(&self, conn: ConnectionState<A>) -> bool {
        conn.contest() is Some ==> conn.verdicts@.len() >= conn.streams@.len()
    }

    open spec fn decides(
        &self,
        conn: ConnectionState<A>,
        decision: Option<SchedulerDecision<A>>,
        after: Self,
        conn_after: ConnectionState<A>,
    ) -> bool {
        &&& decision == sa_ecf_decision(conn)
        &&& conn_after.streams@ == sa_ecf_streams(conn)
        &&& conn_after.next_send_path_id == conn.next_send_path_id
        &&& conn_after.paths == conn.paths
        &&& conn_after.send_buffer_size == conn.send_buffer_size
        &&& conn_after.verdicts == conn.verdicts
    }

    fn is_ready(&self, conn: &ConnectionState<A>) -> bool {
        conn.find_contest().is_none() || conn.verdicts.len() >= conn.streams.len()
    }

    fn next_path(&mut self, conn: &mut ConnectionState<A>) -> Option<SchedulerDecision<A>> {
        match conn.find_contest() {
            Some((_, slow)) => {
                let ghost verdicts = conn.verdicts@.take(conn.streams@.len() as int);
                let mut i: usize = 0;
                assert(verdicts.skip(0) =~= verdicts);
                while i < conn.streams.len()
                    invariant
                        i <= conn.streams@.len(),
                        conn.streams@.len() == old(conn).streams@.len(),
                        conn.verdicts@.len() >= conn.streams@.len(),
                        verdicts == conn.verdicts@.take(conn.streams@.len() as int),
                        old(conn).contest() matches Some((_, s)) && s == slow,
                        waiting_streams(verdicts) == i + waiting_streams(verdicts.skip(i as int)),
                        conn.next_send_path_id == old(conn).next_send_path_id,
                        conn.paths == old(conn).paths,
                        conn.send_buffer_size == old(conn).send_buffer_size,
                        conn.verdicts == old(conn).verdicts,
                        forall|j: int|
                            0 <= j < i ==> #[trigger] conn.streams@[j] == (StreamKey {
                                waiting: true,
                                ..old(conn).streams@[j]
                            }),
                        forall|j: int|
                            i <= j < conn.streams@.len() ==> #[trigger] conn.streams@[j] == old(
                                conn,
                            ).streams@[j],
                    decreases conn.streams@.len() - i,
                {
                    assert(verdicts.skip(i as int).drop_first() =~= verdicts.skip(i + 1));
                    let mut stream = conn.streams[i];
                    let verdict = conn.verdicts[i];
                    if verdict.fast_completes_first && verdict.slow_is_late {
                        stream.waiting = true; // Stream waits for faster path
                        conn.streams.set(i, stream);
                    } else {
                        if !verdict.fast_completes_first {
                            stream.waiting = false;
                            conn.streams.set(i, stream);
                        }
                        assert(waiting_streams(verdicts) == i);
                        assert(conn.streams@ =~= sa_ecf_streams(*old(conn)));
                        return Some(
                            SchedulerDecision::stream_aware(
                                slow.local_addr,
                                slow.peer_addr,
                                stream.id,
                            ),
                        );
                    }
                    i = i + 1;
                }
                assert(conn.streams@ =~= sa_ecf_streams(*old(conn)));
                None // No transmission
            },
            None => conn.uncontested(),
        }
    }

    fn name(&self) -> &'static str {
        PacketSchedulingAlgorithm::StreamAwareEarliestCompletionFirst.name()
    }

    fn algorithm(&self) -> PacketSchedulingAlgorithm {
        PacketSchedulingAlgorithm::StreamAwareEarliestCompletionFirst
    }
}

} // verus!
