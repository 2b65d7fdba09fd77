//! Schedulers that take turns or leave it to chance.

use vstd::prelude::*;

use crate::scheduler::{
    preferred_path, with_room, ConnectionState, PacketScheduler, PacketSchedulingAlgorithm,
    SchedulerDecision,
};

verus! {

/// Round Robin Path Scheduler algorithm.
#[derive(Debug)]
pub struct RoundRobinScheduler {
    /// Counts the paths that were handed out.
    pub current_index: usize,
}

impl RoundRobinScheduler {
    pub fn new() -> (scheduler: Self)
        ensures
            scheduler == (RoundRobinScheduler { current_index: 0 }),
    {
        Self { current_index: 0 }
    }
}

impl Default for RoundRobinScheduler {
    fn default() -> (scheduler: Self)
        ensures
            scheduler == (RoundRobinScheduler { current_index: 0 }),
    {
        Self::new()
    }
}

impl RoundRobinScheduler {
    /// Counts on by one and returns the count before, which starts over after the largest.
    pub fn fetch_add(&mut self) -> (index: usize)
        ensures
            index == old(self).current_index,
            final(self).current_index == wrapping_next(index),
    {
        let index: usize = self.current_index;
        self.current_index = index.wrapping_add(1);
        index
    }
}

/// The count after `index`, 0 after the largest.
pub open spec fn wrapping_next(index: usize) -> usize {
    if index == usize::MAX {
        0
    } else {
        (index + 1) as usize
    }
}

/// What round robin decides and counts on to: the path that the connection asks for; otherwise the
/// path with room that the count stands at, over and over, in the order of the paths.
pub open spec fn round_robin_decision<A>(index: usize, conn: ConnectionState<A>) -> (
    Option<SchedulerDecision<A>>,
    usize,
) {
    let paths = conn.available_paths();
    match conn.preferred() {
        Some(p) => (Some(p.decision()), index),
        None => if paths.len() == 0 {
            (None, wrapping_next(index))
        } else {
            (
                Some(paths[index as int % paths.len() as int].decision()),
                (wrapping_next(index) as int % paths.len() as int) as usize,
            )
        },
    }
}

impl<A: Copy> PacketScheduler<A> for RoundRobinScheduler {
    open spec fn spec_algorithm(&self) -> PacketSchedulingAlgorithm {
        PacketSchedulingAlgorithm::RoundRobin
    }

    open spec fn ready(&self, conn: ConnectionState<A>) -> bool {
        true
    }

    open spec fn decides(
        &self,
        conn: ConnectionState<A>,
        decision: Option<SchedulerDecision<A>>,
        after: Self,
        conn_after: ConnectionState<A>,
    ) -> bool {
        &&& (decision, after.current_index) == round_robin_decision(self.current_index, conn)
        &&& conn_after == conn
    }

    fn is_ready(&self, conn: &ConnectionState<A>) -> bool {
        true
    }

    fn next_path(&mut self, conn: &mut ConnectionState<A>) -> Option<SchedulerDecision<A>> {
        if let Some(path) = preferred_path(conn) {
            return Some(SchedulerDecision::path_only(path.local_addr, path.peer_addr));
        }
        let idx: usize = self.fetch_add();
        let active = PacketSchedulingAlgorithm::RoundRobin.active_paths(conn);
        let paths = with_room(&active);

        if paths.len() == 0 {
            return None;
        }
        // Get the next path in round-robin fashion
        let path = paths[idx % paths.len()];

        // Update the index for the next call
        self.current_index = idx.wrapping_add(1) % paths.len();

        Some(SchedulerDecision::path_only(path.local_addr, path.peer_addr))
    }

    fn name(&self) -> &'static str {
        PacketSchedulingAlgorithm::RoundRobin.name()
    }

    fn algorithm(&self) -> PacketSchedulingAlgorithm {
        PacketSchedulingAlgorithm::RoundRobin
    }
}

/// Random Path Scheduler algorithm.
#[derive(Debug)]
pub struct RandomScheduler;

impl RandomScheduler {
    pub fn new() -> (scheduler: Self)
        ensures
            scheduler == RandomScheduler,
    {
        Self
    }
}

impl Default for RandomScheduler {
    fn default() -> (scheduler: Self)
        ensures
            scheduler == RandomScheduler,
    {
        Self::new()
    }
}

/// `rand::seq::SliceRandom::choose` with the generator of the thread: one of the items, none where
/// there is none. Which one is left to chance.
#[verifier::external_body]
fn pick<T>(items: &[T]) -> (item: Option<&T>)
    ensures
        item is None <==> items@.len() == 0,
        item matches Some(i) ==> items@.contains(*i),
{
    rand::seq::SliceRandom::choose(items, &mut rand::thread_rng())
}

impl<A: Copy> PacketScheduler<A> for RandomScheduler {
    open spec fn spec_algorithm(&self) -> PacketSchedulingAlgorithm {
        PacketSchedulingAlgorithm::Random
    }

    open spec fn ready(&self, conn: ConnectionState<A>) -> bool {
        true
    }

    open spec fn decides(
        &self,
        conn: ConnectionState<A>,
        decision: Option<SchedulerDecision<A>>,
        after: Self,
        conn_after: ConnectionState<A>,
    ) -> bool {
        &&& after == *self
        &&& conn_after == conn
        &&& match conn.preferred() {
            Some(p) => decision == Some(p.decision()),
            None => if conn.usable_paths().len() == 0 {
                decision is None
            } else {
                exists|i: int|
                    0 <= i < conn.usable_paths().len() && decision == Some(
                        (#[trigger] conn.usable_paths()[i]).decision(),
                    )
            },
        }
    }

    fn is_ready(&self, conn: &ConnectionState<A>) -> bool {
        true
    }

    fn next_path(&mut self, conn: &mut ConnectionState<A>) -> Option<SchedulerDecision<A>> {
        if let Some(path) = preferred_path(conn) {
            return Some(SchedulerDecision::path_only(path.local_addr, path.peer_addr));
        }
        let paths = PacketSchedulingAlgorithm::Random.active_paths(conn);

        // Randomly select an active path
        match pick(paths.as_slice()) {
            Some(p) => Some(SchedulerDecision::path_only(p.local_addr, p.peer_addr)),
            None => None,
        }
    }

    fn name(&self) -> &'static str {
        PacketSchedulingAlgorithm::Random.name()
    }

    fn algorithm(&self) -> PacketSchedulingAlgorithm {
        PacketSchedulingAlgorithm::Random
    }
}

} // verus!
