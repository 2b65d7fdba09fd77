use std::str::FromStr;

use nada::scheduler::{
    ConnectionState, EarliestCompletionFirstScheduler, LowRTTScheduler, LowestLatencyScheduler,
    MinRTTScheduler, PacketScheduler, PacketSchedulerFactory, PacketSchedulingAlgorithm, PathStats,
    RandomScheduler, RoundRobinScheduler, SchedulerDecision, SchedulerError,
    StreamAwareEarliestCompletionFirst, StreamKey, Verdict,
};

fn path(path_id: u64, rtt: u128, cwnd_available: usize) -> PathStats<u16> {
    PathStats {
        path_id,
        local_addr: path_id as u16,
        peer_addr: 100 + path_id as u16,
        active: true,
        closed: false,
        rtt,
        rttvar: 0,
        cwnd: 10_000,
        cwnd_available,
    }
}

fn stream(id: u64, urgency: u8, incremental: bool, bytes_left: usize) -> StreamKey {
    StreamKey { id, urgency, incremental, waiting: false, bytes_left }
}

fn connection(paths: Vec<PathStats<u16>>) -> ConnectionState<u16> {
    ConnectionState {
        next_send_path_id: None,
        paths,
        send_buffer_size: 0,
        streams: Vec::new(),
        verdicts: Vec::new(),
    }
}

fn over(path_id: u16) -> Option<SchedulerDecision<u16>> {
    Some(SchedulerDecision { path: (path_id, 100 + path_id), stream_id: None })
}

fn stream_over(path_id: u16, stream_id: u64) -> Option<SchedulerDecision<u16>> {
    Some(SchedulerDecision { path: (path_id, 100 + path_id), stream_id: Some(stream_id) })
}

const WAIT: Verdict = Verdict { fast_completes_first: true, slow_is_late: true };
const SLOW_IN_TIME: Verdict = Verdict { fast_completes_first: true, slow_is_late: false };
const SLOW_FIRST: Verdict = Verdict { fast_completes_first: false, slow_is_late: true };

#[test]
fn test_scheduler_factory_create() {
    let scheduler = PacketSchedulerFactory::create(PacketSchedulingAlgorithm::MinRTT);
    assert_eq!(scheduler.algorithm(), PacketSchedulingAlgorithm::MinRTT);
    assert_eq!(scheduler.name(), "minrtt");

    let scheduler = PacketSchedulerFactory::create(PacketSchedulingAlgorithm::LowRTT);
    assert_eq!(scheduler.algorithm(), PacketSchedulingAlgorithm::LowRTT);
    assert_eq!(scheduler.name(), "lowrtt");

    let scheduler = PacketSchedulerFactory::create(PacketSchedulingAlgorithm::RoundRobin);
    assert_eq!(scheduler.algorithm(), PacketSchedulingAlgorithm::RoundRobin);
    assert_eq!(scheduler.name(), "roundrobin");

    let scheduler = PacketSchedulerFactory::create(PacketSchedulingAlgorithm::Random);
    assert_eq!(scheduler.algorithm(), PacketSchedulingAlgorithm::Random);
    assert_eq!(scheduler.name(), "random");

    let scheduler = PacketSchedulerFactory::create(PacketSchedulingAlgorithm::LowestLatency);
    assert_eq!(scheduler.algorithm(), PacketSchedulingAlgorithm::LowestLatency);
    assert_eq!(scheduler.name(), "lowestlatency");

    let scheduler =
        PacketSchedulerFactory::create(PacketSchedulingAlgorithm::EarliestCompletionFirst);
    assert_eq!(scheduler.algorithm(), PacketSchedulingAlgorithm::EarliestCompletionFirst);
    assert_eq!(scheduler.name(), "earliestcompletionfirst");

    let scheduler =
        PacketSchedulerFactory::create(PacketSchedulingAlgorithm::StreamAwareEarliestCompletionFirst);
    assert_eq!(
        scheduler.algorithm(),
        PacketSchedulingAlgorithm::StreamAwareEarliestCompletionFirst
    );
    assert_eq!(scheduler.name(), "sa-ecf");
}

#[test]
fn test_round_robin_index_cycling() {
    let mut scheduler = RoundRobinScheduler::new();

    // Test that the internal index starts at 0
    assert_eq!(scheduler.current_index, 0);

    // Test that fetch_add increments the index
    let idx1 = scheduler.fetch_add();
    assert_eq!(idx1, 0);
    assert_eq!(scheduler.current_index, 1);

    let idx2 = scheduler.fetch_add();
    assert_eq!(idx2, 1);
    assert_eq!(scheduler.current_index, 2);
}

#[test]
fn algorithms_are_found_by_name() {
    let names = [
        ("minrtt", PacketSchedulingAlgorithm::MinRTT),
        ("lowrtt", PacketSchedulingAlgorithm::LowRTT),
        ("roundrobin", PacketSchedulingAlgorithm::RoundRobin),
        ("rr", PacketSchedulingAlgorithm::RoundRobin),
        ("random", PacketSchedulingAlgorithm::Random),
        ("rand", PacketSchedulingAlgorithm::Random),
        ("lowestlatency", PacketSchedulingAlgorithm::LowestLatency),
        ("ll", PacketSchedulingAlgorithm::LowestLatency),
        ("ecf", PacketSchedulingAlgorithm::EarliestCompletionFirst),
        ("sa-ecf", PacketSchedulingAlgorithm::StreamAwareEarliestCompletionFirst),
        ("eps-aware-ecf", PacketSchedulingAlgorithm::StreamAwareEarliestCompletionFirst),
        ("stream-aware-ecf", PacketSchedulingAlgorithm::StreamAwareEarliestCompletionFirst),
    ];
    for (name, algorithm) in names {
        assert_eq!(PacketSchedulingAlgorithm::from_str(name), Ok(algorithm));
        assert_eq!(PacketSchedulerFactory::from_name(name).map(|s| s.algorithm()), Ok(algorithm));
    }
}

#[test]
fn unknown_names_are_refused() {
    for name in ["", "RR", "earliestcompletionfirst", "rr "] {
        assert_eq!(
            PacketSchedulingAlgorithm::from_str(name),
            Err(SchedulerError::UnknownPacketScheduler)
        );
        assert_eq!(
            PacketSchedulerFactory::from_name(name).map(|s| s.name()),
            Err(SchedulerError::UnknownPacketScheduler)
        );
    }
}

#[test]
fn min_rtt_takes_the_fastest_path() {
    let mut conn = connection(vec![path(1, 30, 5), path(2, 10, 0), path(3, 10, 7)]);
    assert_eq!(MinRTTScheduler::new().next_path(&mut conn), over(2));
}

#[test]
fn closed_and_idle_paths_are_left_out() {
    let mut paths = vec![path(1, 30, 5), path(2, 10, 5), path(3, 20, 5)];
    paths[1].closed = true;
    paths[2].active = false;
    let mut conn = connection(paths);
    assert_eq!(MinRTTScheduler::new().next_path(&mut conn), over(1));
    assert_eq!(LowRTTScheduler::new().next_path(&mut conn), over(1));
    assert_eq!(RandomScheduler::new().next_path(&mut conn), over(1));
    assert_eq!(LowestLatencyScheduler::new().next_path(&mut conn), over(1));
}

#[test]
fn no_path_no_decision() {
    let mut conn = connection(Vec::new());
    for name in ["minrtt", "lowrtt", "rr", "rand", "ll", "ecf", "sa-ecf"] {
        let mut scheduler = PacketSchedulerFactory::from_name(name).unwrap();
        assert!(scheduler.is_ready(&conn));
        assert_eq!(scheduler.next_path(&mut conn), None);
    }
}

#[test]
fn connection_asks_for_a_path() {
    let mut paths = vec![path(1, 10, 5), path(2, 90, 0)];
    paths[1].active = false;
    let mut conn = connection(paths);
    conn.next_send_path_id = Some(2);
    for name in ["minrtt", "lowrtt", "rr", "rand", "ecf", "sa-ecf"] {
        let mut scheduler = PacketSchedulerFactory::from_name(name).unwrap();
        assert!(scheduler.is_ready(&conn));
        assert_eq!(scheduler.next_path(&mut conn), over(2));
    }
    // Lowest latency does not ask.
    assert_eq!(LowestLatencyScheduler::new().next_path(&mut conn), over(1));
    // A path that the connection does not have is ignored.
    conn.next_send_path_id = Some(9);
    assert_eq!(MinRTTScheduler::new().next_path(&mut conn), over(1));
}

#[test]
fn low_rtt_needs_room() {
    let mut conn = connection(vec![path(1, 30, 5), path(2, 10, 0), path(3, 20, 7)]);
    assert_eq!(LowRTTScheduler::new().next_path(&mut conn), over(3));
    let mut conn = connection(vec![path(1, 30, 0)]);
    assert_eq!(LowRTTScheduler::new().next_path(&mut conn), None);
    assert_eq!(MinRTTScheduler::new().next_path(&mut conn), over(1));
}

#[test]
fn round_robin_takes_turns() {
    let mut scheduler = RoundRobinScheduler::new();
    let mut conn = connection(vec![path(1, 30, 5), path(2, 10, 0), path(3, 20, 7)]);
    let turns: Vec<_> = (0..4).map(|_| scheduler.next_path(&mut conn)).collect();
    assert_eq!(turns, vec![over(1), over(3), over(1), over(3)]);
}

#[test]
fn round_robin_counts_on_without_paths() {
    let mut scheduler = RoundRobinScheduler::new();
    let mut conn = connection(vec![path(1, 30, 0)]);
    assert_eq!(scheduler.next_path(&mut conn), None);
    assert_eq!(scheduler.current_index, 1);
    let mut conn = connection(vec![path(1, 30, 5), path(2, 10, 5)]);
    assert_eq!(scheduler.next_path(&mut conn), over(2));
    assert_eq!(scheduler.current_index, 0);
}

#[test]
fn random_takes_a_usable_path() {
    let mut scheduler = RandomScheduler::new();
    let mut conn = connection(vec![path(1, 30, 0), path(2, 10, 5), path(3, 5, 5)]);
    conn.paths[2].closed = true;
    let mut seen = [false; 2];
    for _ in 0..200 {
        let decision = scheduler.next_path(&mut conn);
        assert!(decision == over(1) || decision == over(2));
        seen[if decision == over(1) { 0 } else { 1 }] = true;
    }
    assert_eq!(seen, [true, true]);
}

#[test]
fn lowest_latency_counts_variation_twice() {
    let mut paths = vec![path(1, 10, 5), path(2, 20, 0), path(3, 16, 5)];
    paths[0].rttvar = 6;
    paths[1].rttvar = 1;
    paths[2].rttvar = 3;
    let mut conn = connection(paths);
    // 10 + 2 * 6 == 22, 20 + 2 * 1 == 22, 16 + 2 * 3 == 22: the first of them.
    assert_eq!(LowestLatencyScheduler::new().next_path(&mut conn), over(1));
    conn.paths[1].rttvar = 0;
    assert_eq!(LowestLatencyScheduler::new().next_path(&mut conn), over(2));
}

#[test]
fn lowest_latency_needs_times_that_fit() {
    let scheduler = LowestLatencyScheduler::new();
    let mut conn = connection(vec![path(1, 10, 5), path(2, 10, 5)]);
    assert!(scheduler.is_ready(&conn));
    conn.paths[1].rttvar = u128::MAX;
    assert!(!scheduler.is_ready(&conn));
    conn.paths[0].active = false;
    assert!(scheduler.is_ready(&conn));
}

#[test]
fn ecf_uses_the_fastest_path_with_room() {
    let mut scheduler = EarliestCompletionFirstScheduler::new();
    let mut conn = connection(vec![path(1, 30, 5), path(2, 10, 1)]);
    assert_eq!(conn.find_contest(), None);
    assert!(scheduler.is_ready(&conn));
    assert_eq!(scheduler.next_path(&mut conn), over(2));
}

#[test]
fn ecf_weighs_the_slower_path() {
    let mut scheduler = EarliestCompletionFirstScheduler::new();
    let mut conn = connection(vec![path(1, 30, 5), path(2, 10, 0), path(3, 20, 4)]);
    assert_eq!(conn.find_contest(), Some((path(2, 10, 0), path(3, 20, 4))));
    assert!(!scheduler.is_ready(&conn));

    conn.verdicts = vec![SLOW_IN_TIME];
    assert!(scheduler.is_ready(&conn));
    assert_eq!(scheduler.next_path(&mut conn), over(3));
    assert!(!scheduler.waiting);

    conn.verdicts = vec![WAIT];
    assert_eq!(scheduler.next_path(&mut conn), None);
    assert!(scheduler.waiting);

    conn.verdicts = vec![SLOW_IN_TIME];
    assert_eq!(scheduler.next_path(&mut conn), over(3));
    assert!(scheduler.waiting);

    conn.verdicts = vec![SLOW_FIRST];
    assert_eq!(scheduler.next_path(&mut conn), over(3));
    assert!(!scheduler.waiting);
}

#[test]
fn ecf_has_nothing_to_wait_for() {
    let mut scheduler = EarliestCompletionFirstScheduler::new();
    let mut conn = connection(vec![path(1, 30, 0), path(2, 10, 0)]);
    assert!(scheduler.is_ready(&conn));
    assert_eq!(scheduler.next_path(&mut conn), None);
    assert!(!scheduler.waiting);
}

#[test]
fn stream_aware_ecf_names_the_first_stream_that_goes() {
    let mut scheduler = StreamAwareEarliestCompletionFirst::new();
    let mut conn = connection(vec![path(1, 30, 5), path(2, 10, 0)]);
    conn.streams = vec![stream(0, 1, false, 9), stream(4, 3, true, 9), stream(8, 5, true, 9)];
    conn.streams[1].waiting = true;
    conn.streams[2].waiting = true;
    conn.verdicts = vec![WAIT, SLOW_FIRST, WAIT];
    assert!(scheduler.is_ready(&conn));
    assert_eq!(scheduler.next_path(&mut conn), stream_over(1, 4));
    let waiting: Vec<bool> = conn.streams.iter().map(|s| s.waiting).collect();
    assert_eq!(waiting, vec![true, false, true]);
}

#[test]
fn stream_aware_ecf_keeps_a_stream_waiting() {
    let mut scheduler = StreamAwareEarliestCompletionFirst::new();
    let mut conn = connection(vec![path(1, 30, 5), path(2, 10, 0)]);
    conn.streams = vec![stream(0, 1, false, 9)];
    conn.streams[0].waiting = true;
    conn.verdicts = vec![SLOW_IN_TIME];
    assert_eq!(scheduler.next_path(&mut conn), stream_over(1, 0));
    assert!(conn.streams[0].waiting);
}

#[test]
fn stream_aware_ecf_sends_nothing_while_all_wait() {
    let mut scheduler = StreamAwareEarliestCompletionFirst::new();
    let mut conn = connection(vec![path(1, 30, 5), path(2, 10, 0)]);
    conn.streams = vec![stream(0, 1, false, 9), stream(4, 3, true, 9)];
    conn.verdicts = vec![WAIT];
    assert!(!scheduler.is_ready(&conn));
    conn.verdicts = vec![WAIT, WAIT];
    assert_eq!(scheduler.next_path(&mut conn), None);
    assert!(conn.streams.iter().all(|s| s.waiting));
}

#[test]
fn stream_aware_ecf_leaves_the_stream_open_on_the_fastest_path() {
    let mut scheduler = StreamAwareEarliestCompletionFirst::new();
    let mut conn = connection(vec![path(1, 30, 5), path(2, 10, 1)]);
    conn.streams = vec![stream(0, 1, false, 9)];
    assert_eq!(scheduler.next_path(&mut conn), over(2));
}

#[test]
fn backlog_of_a_stream() {
    let mut conn = connection(Vec::new());
    conn.streams = vec![
        stream(0, 3, true, 5_000),
        stream(4, 3, true, 1_300),
        stream(8, 3, false, 5_000),
        stream(12, 3, true, 2_000),
        stream(16, 2, true, 5_000),
    ];
    // Three incremental streams share urgency 3: 5000 * 3 - 2 * 1300.
    assert_eq!(conn.stream_backlog(0), 12_400);
    // No more than one turn is left.
    assert_eq!(conn.stream_backlog(1), 1_300);
    // Not interleaved.
    assert_eq!(conn.stream_backlog(2), 5_000);
    assert_eq!(conn.stream_backlog(3), 3_400);
    // Alone in its urgency.
    assert_eq!(conn.stream_backlog(4), 5_000);
}

#[test]
fn schedulers_agree_where_the_fastest_path_has_room() {
    let mut conn = connection(vec![path(1, 30, 5), path(2, 10, 1), path(3, 20, 4)]);
    for name in ["minrtt", "lowrtt", "ecf", "sa-ecf"] {
        let mut scheduler = PacketSchedulerFactory::from_name(name).unwrap();
        assert!(scheduler.is_ready(&conn));
        assert_eq!(scheduler.next_path(&mut conn), over(2));
    }
}

#[test]
fn round_robin_goes_on_after_paths_went_away() {
    let mut scheduler = RoundRobinScheduler { current_index: 7 };
    let mut conn = connection(vec![path(1, 30, 5), path(2, 10, 5), path(3, 20, 7)]);
    let turns: Vec<_> = (0..4).map(|_| scheduler.next_path(&mut conn)).collect();
    // 7 % 3 == 1.
    assert_eq!(turns, vec![over(2), over(3), over(1), over(2)]);
}
