//! Schedulers that go by round-trip times.

use vstd::prelude::*;

use crate::scheduler;
use crate::scheduler::{
    lowest_rtt, preferred_path, with_room, ConnectionState, PacketScheduler,
    PacketSchedulingAlgorithm, PathStats, SchedulerDecision,
};

verus! {

/// MinRTT Path Scheduler algorithm.
#[derive(Debug, Clone)]
pub struct MinRTTScheduler;

impl MinRTTScheduler {
    pub fn new() -> (scheduler: Self)
        ensures
            scheduler == MinRTTScheduler,
    {
        Self
    }
}

impl Default for MinRTTScheduler {
    fn default() -> (scheduler: Self)
        ensures
            scheduler == MinRTTScheduler,
    {
        Self::new()
    }
}

/// What MinRTT decides: the path that the connection asks for, the fastest path otherwise.
pub open spec fn min_rtt_decision<A>(conn: ConnectionState<A>) -> Option<SchedulerDecision<A>> {
    match conn.preferred() {
        Some(p) => Some(p.decision()),
        None => scheduler::decision_for(scheduler::fastest(conn.usable_paths())),
    }
}

impl<A: Copy> PacketScheduler<A> for MinRTTScheduler {
    open spec fn spec_algorithm(&self) -> PacketSchedulingAlgorithm {
        PacketSchedulingAlgorithm::MinRTT
    }

    open spec fn ready(&self, conn: ConnectionState<A>) -> bool {
        true
    }

    open spec fn decides(
        &self,
        conn: ConnectionState<A>,
        decision: Option<SchedulerDecision<A>>,
        after: Self,
        conn_after: ConnectionState<A>,
    ) -> bool {
        decision == min_rtt_decision(conn) && after == *self && conn_after == conn
    }

    fn is_ready(&self, conn: &ConnectionState<A>) -> bool {
        true
    }

    fn next_path(&mut self, conn: &mut ConnectionState<A>) -> Option<
        SchedulerDecision<A>,
    > {
        if let Some(path) = preferred_path(conn) {
            return Some(SchedulerDecision::path_only(path.local_addr, path.peer_addr));
        }
        let paths = PacketSchedulingAlgorithm::MinRTT.active_paths(conn);

        // Return the path with the lowest RTT
        match lowest_rtt(&paths) {
            Some(p) => Some(SchedulerDecision::path_only(p.local_addr, p.peer_addr)),
            None => None,
        }
    }

    fn name(&self) -> &'static str {
        PacketSchedulingAlgorithm::MinRTT.name()
    }

    fn algorithm(&self) -> PacketSchedulingAlgorithm {
        PacketSchedulingAlgorithm::MinRTT
    }
}

/// LowRTT Path Scheduler algorithm.
///
/// Like MinRTT but only considers paths with available congestion window,
/// selecting the one with the lowest smoothed RTT among those.
#[derive(Debug, Clone)]
pub struct LowRTTScheduler;

impl LowRTTScheduler {
    pub fn new() -> (scheduler: Self)
        ensures
            scheduler == LowRTTScheduler,
    {
        Self
    }
}

impl Default for LowRTTScheduler {
    fn default() -> (scheduler: Self)
        ensures
            scheduler == LowRTTScheduler,
    {
        Self::new()
    }
}

/// What LowRTT decides: the path that the connection asks for, the fastest path with room
/// otherwise.
pub open spec fn low_rtt_decision<A>(conn: ConnectionState<A>) -> Option<SchedulerDecision<A>> {
    match conn.preferred() {
        Some(p) => Some(p.decision()),
        None => scheduler::decision_for(scheduler::fastest(conn.available_paths())),
    }
}

impl<A: Copy> PacketScheduler<A> for LowRTTScheduler {
    open spec fn spec_algorithm(&self) -> PacketSchedulingAlgorithm {
        PacketSchedulingAlgorithm::LowRTT
    }

    open spec fn ready(&self, conn: ConnectionState<A>) -> bool {
        true
    }

    open spec fn decides(
        &self,
        conn: ConnectionState<A>,
        decision: Option<SchedulerDecision<A>>,
        after: Self,
        conn_after: ConnectionState<A>,
    ) -> bool {
        decision == low_rtt_decision(conn) && after == *self && conn_after == conn
    }

    fn is_ready(&self, conn: &ConnectionState<A>) -> bool {
        true
    }

    fn next_path(&mut self, conn: &mut ConnectionState<A>) -> Option<SchedulerDecision<A>> {
        if let Some(path) = preferred_path(conn) {
            return Some(SchedulerDecision::path_only(path.local_addr, path.peer_addr));
        }
        let active = PacketSchedulingAlgorithm::LowRTT.active_paths(conn);
        let paths = with_room(&active);

        match lowest_rtt(&paths) {
            Some(p) => Some(SchedulerDecision::path_only(p.local_addr, p.peer_addr)),
            None => None,
        }
    }

    fn name(&self) -> &'static str {
        PacketSchedulingAlgorithm::LowRTT.name()
    }

    fn algorithm(&self) -> PacketSchedulingAlgorithm {
        PacketSchedulingAlgorithm::LowRTT
    }
}

/// Lowest Latency Path Scheduler algorithm.
#[derive(Debug)]
pub struct LowestLatencyScheduler;

impl LowestLatencyScheduler {
    pub fn new() -> (scheduler: Self)
        ensures
            scheduler == LowestLatencyScheduler,
    {
        Self
    }
}

impl Default for LowestLatencyScheduler {
    fn default() -> (scheduler: Self)
        ensures
            scheduler == LowestLatencyScheduler,
    {
        Self::new()
    }
}

/// The longest time that there is, in nanoseconds.
pub const MAX_TIME: u128 = 18_446_744_073_709_551_615_999_999_999;

/// What lowest latency decides: the path with the least score.
pub open spec fn lowest_latency_decision<A>(conn: ConnectionState<A>) -> Option<
    SchedulerDecision<A>,
> {
    scheduler::decision_for(scheduler::least(conn.usable_paths(), |p: PathStats<A>| p.score()))
}

/// Whether no score is beyond the longest time.
pub open spec fn scores_fit<A>(paths: Seq<PathStats<A>>) -> bool {
    forall|i: int| 0 <= i < paths.len() ==> #[trigger] paths[i].score() <= MAX_TIME
}

/// The path with the least score.
fn lowest_score<A: Copy>(paths: &Vec<PathStats<A>>) -> (path: Option<PathStats<A>>)
    requires
        paths@.len() > 1 ==> scores_fit(paths@),
    ensures
        path == scheduler::least(paths@, |p: PathStats<A>| p.score()),
{
    let ghost key = |p: PathStats<A>| p.score();
    if paths.len() == 0 {
        return None;
    }
    let mut best = paths[0];
    let mut i: usize = 1;
    assert(scheduler::least(paths@.take(1).drop_last(), key) is None);
    while i < paths.len()
        invariant
            1 <= i <= paths@.len(),
            paths@.len() > 1 ==> scores_fit(paths@),
            key == (|p: PathStats<A>| p.score()),
            i < paths@.len() ==> best.score() <= MAX_TIME,
            Some(best) == scheduler::least(paths@.take(i as int), key),
        decreases paths@.len() - i,
    {
        assert(paths@.take(i + 1).drop_last() =~= paths@.take(i as int));
        let path = paths[i];
        assert(path.score() <= MAX_TIME);
        // This is a simple weighted formula that considers both metrics:
        // score = rtt + (2 * rttvar)
        if path.rtt + path.rttvar * 2 < best.rtt + best.rttvar * 2 {
            best = path;
        }
        i = i + 1;
    }
    assert(paths@.take(i as int) =~= paths@);
    Some(best)
}

impl<A: Copy> PacketScheduler<A> for LowestLatencyScheduler {
    open spec fn spec_algorithm(&self) -> PacketSchedulingAlgorithm {
        PacketSchedulingAlgorithm::LowestLatency
    }

    open spec fn ready(&self, conn: ConnectionState<A>) -> bool {
        conn.usable_paths().len() > 1 ==> scores_fit(conn.usable_paths())
    }

    open spec fn decides(
        &self,
        conn: ConnectionState<A>,
        decision: Option<SchedulerDecision<A>>,
        after: Self,
        conn_after: ConnectionState<A>,
    ) -> bool {
        decision == lowest_latency_decision(conn) && after == *self && conn_after == conn
    }

    fn is_ready(&self, conn: &ConnectionState<A>) -> bool {
        let paths = PacketSchedulingAlgorithm::LowestLatency.active_paths(conn);
        if paths.len() <= 1 {
            return true;
        }
        let mut i: usize = 0;
        while i < paths.len()
            invariant
                i <= paths@.len(),
                forall|j: int| 0 <= j < i ==> #[trigger] paths@[j].score() <= MAX_TIME,
                paths@ == conn.usable_paths(),
                paths@.len() > 1,
            decreases paths@.len() - i,
        {
            let p = paths[i];
            if p.rtt > MAX_TIME || p.rttvar > MAX_TIME || p.rtt + p.rttvar * 2 > MAX_TIME {
                assert(paths@[i as int].score() > MAX_TIME);
                return false;
            }
            i = i + 1;
        }
        true
    }

    fn next_path(&mut self, conn: &mut ConnectionState<A>) -> Option<SchedulerDecision<A>> {
        let paths = PacketSchedulingAlgorithm::LowestLatency.active_paths(conn);

        // Return the path with the lowest latency score
        match lowest_score(&paths) {
            Some(p) => Some(SchedulerDecision::path_only(p.local_addr, p.peer_addr)),
            None => None,
        }
    }

    fn name(&self) -> &'static str {
        PacketSchedulingAlgorithm::LowestLatency.name()
    }

    fn algorithm(&self) -> PacketSchedulingAlgorithm {
        PacketSchedulingAlgorithm::LowestLatency
    }
}

} // verus!
