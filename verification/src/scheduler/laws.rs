//! What holds of the schedulers.

use vstd::prelude::*;

use crate::scheduler;
use crate::scheduler::{
    ecf, rtt, turns, BoxedScheduler, ConnectionState, EarliestCompletionFirstScheduler,
    PacketScheduler, PacketSchedulerFactory, PacketSchedulingAlgorithm, PathStats,
    SchedulerDecision, SchedulerError, StreamKey, Verdict, INTERLEAVE_BYTES,
};

verus! {

/// The path that `least` finds is one of the paths, none has a lesser key, and those in front of it
/// have greater ones.
pub proof fn law_least<A>(paths: Seq<PathStats<A>>, key: spec_fn(PathStats<A>) -> nat)
    ensures
        scheduler::least(paths, key) is None <==> paths.len() == 0,
        scheduler::least(paths, key) matches Some(p) ==> exists|i: int|
            {
                &&& 0 <= i < paths.len()
                &&& p == #[trigger] paths[i]
                &&& forall|j: int| 0 <= j < i ==> key(#[trigger] paths[j]) > key(p)
                &&& forall|j: int| i <= j < paths.len() ==> key(#[trigger] paths[j]) >= key(p)
            },
    decreases paths.len(),
{
    if paths.len() > 0 {
        let shorter = paths.drop_last();
        law_least(shorter, key);
        if let Some(p) = scheduler::least(shorter, key) {
            let i = choose|i: int|
                {
                    &&& 0 <= i < shorter.len()
                    &&& p == #[trigger] shorter[i]
                    &&& forall|j: int| 0 <= j < i ==> key(#[trigger] shorter[j]) > key(p)
                    &&& forall|j: int|
                        i <= j < shorter.len() ==> key(#[trigger] shorter[j]) >= key(p)
                };
            assert(paths[i] == shorter[i]);
            assert forall|j: int| 0 <= j < shorter.len() implies paths[j] == #[trigger] shorter[j] by {}
            let last = paths.len() - 1;
            if key(paths.last()) < key(p) {
                assert forall|j: int| 0 <= j < last implies key(#[trigger] paths[j]) > key(
                    paths[last],
                ) by {
                    assert(key(shorter[j]) >= key(p));
                }
            } else {
                assert forall|j: int| 0 <= j < i implies key(#[trigger] paths[j]) > key(p) by {
                    assert(key(shorter[j]) > key(p));
                }
                assert forall|j: int| i <= j < paths.len() implies key(#[trigger] paths[j]) >= key(
                    p,
                ) by {
                    if j < last {
                        assert(key(shorter[j]) >= key(p));
                    }
                }
            }
        } else {
            let p = paths[0];
            assert(scheduler::least(paths, key) == Some(p));
            assert forall|j: int| 0 <= j < paths.len() implies key(#[trigger] paths[j]) >= key(
                p,
            ) by {}
        }
    }
}

/// Whether a decision is for one of the paths.
pub open spec fn goes_over<A>(decision: SchedulerDecision<A>, path: PathStats<A>) -> bool {
    decision.path == (path.local_addr, path.peer_addr)
}

proof fn lemma_fastest_is_member<A>(paths: Seq<PathStats<A>>)
    ensures
        scheduler::fastest(paths) matches Some(p) ==> paths.contains(p),
{
    law_least(paths, |p: PathStats<A>| p.rtt as nat);
}

proof fn lemma_filtered<A>(conn: ConnectionState<A>, path: PathStats<A>)
    ensures
        conn.usable_paths().contains(path) ==> conn.paths@.contains(path) && path.usable(),
        conn.available_paths().contains(path) ==> conn.paths@.contains(path) && path.usable()
            && path.available(),
{
    let usable = |p: PathStats<A>| p.usable();
    let available = |p: PathStats<A>| p.available();
    lemma_filter_member(conn.paths@, usable, path);
    lemma_filter_member(conn.usable_paths(), available, path);
}

proof fn lemma_filter_member<A>(
    paths: Seq<PathStats<A>>,
    pred: spec_fn(PathStats<A>) -> bool,
    path: PathStats<A>,
)
    ensures
        paths.filter(pred).contains(path) ==> paths.contains(path) && pred(path),
{
    if paths.filter(pred).contains(path) {
        paths.lemma_filter_contains_rev(pred, path);
        paths.lemma_filter_pred(pred, paths.filter(pred).index_of(path));
    }
}

proof fn lemma_find_path<A>(paths: Seq<PathStats<A>>, path_id: u64)
    ensures
        scheduler::find_path(paths, path_id) matches Some(p) ==> paths.contains(p) && p.path_id == path_id,
    decreases paths.len(),
{
    if paths.len() > 0 {
        lemma_find_path(paths.drop_first(), path_id);
        if paths[0].path_id != path_id {
            if let Some(p) = scheduler::find_path(paths.drop_first(), path_id) {
                let i = paths.drop_first().index_of(p);
                assert(paths[i + 1] == p);
            }
        } else {
            assert(paths[0] == scheduler::find_path(paths, path_id)->0);
        }
    }
}

proof fn lemma_least_filtered<A>(
    paths: Seq<PathStats<A>>,
    key: spec_fn(PathStats<A>) -> nat,
    pred: spec_fn(PathStats<A>) -> bool,
)
    requires
        scheduler::least(paths, key) matches Some(p) && pred(p),
    ensures
        scheduler::least(paths.filter(pred), key) == scheduler::least(paths, key),
    decreases paths.len(),
{
    reveal(Seq::filter);
    let shorter = paths.drop_last();
    let last = paths.last();
    let kept = shorter.filter(pred);
    if scheduler::least(shorter, key) is Some && scheduler::least(paths, key)
        == scheduler::least(shorter, key) {
        lemma_least_filtered(shorter, key, pred);
        assert(kept.push(last).drop_last() =~= kept);
    } else {
        assert(scheduler::least(paths, key) == Some(last));
        assert(kept.push(last).drop_last() =~= kept);
        law_least(kept, key);
        if let Some(q) = scheduler::least(kept, key) {
            lemma_filter_member(shorter, pred, q);
            law_least(shorter, key);
            let i = shorter.index_of(q);
            assert(key(shorter[i]) >= key(scheduler::least(shorter, key)->0));
        }
    }
}

/// Where the fastest path has room, MinRTT, LowRTT and both kinds of ECF decide alike.
pub proof fn law_fastest_path_with_room_is_taken<A>(conn: ConnectionState<A>)
    requires
        scheduler::fastest(conn.usable_paths()) matches Some(fast) && fast.available(),
    ensures
        rtt::low_rtt_decision(conn) == rtt::min_rtt_decision(conn),
        ecf::ecf_decision(conn) == rtt::min_rtt_decision(conn),
        ecf::sa_ecf_decision(conn) == rtt::min_rtt_decision(conn),
{
    lemma_least_filtered(
        conn.usable_paths(),
        |p: PathStats<A>| p.rtt as nat,
        |p: PathStats<A>| p.available(),
    );
}

/// A scheduler sends over a path of the connection, and over none that is inactive or closed unless
/// the connection itself asks for it.
pub proof fn law_decision_is_for_usable_path<A: Copy>(
    scheduler: BoxedScheduler,
    conn: ConnectionState<A>,
    decision: SchedulerDecision<A>,
    after: BoxedScheduler,
    conn_after: ConnectionState<A>,
)
    requires
        scheduler.ready(conn),
        scheduler.decides(conn, Some(decision), after, conn_after),
    ensures
        exists|path: PathStats<A>|
            {
                &&& #[trigger] conn.paths@.contains(path)
                &&& goes_over(decision, path)
                &&& path.usable() || conn.next_send_path_id == Some(path.path_id)
            },
{
    if let Some(path_id) = conn.next_send_path_id {
        lemma_find_path(conn.paths@, path_id);
    }
    lemma_fastest_is_member(conn.usable_paths());
    lemma_fastest_is_member(conn.available_paths());
    let score = |p: PathStats<A>| p.score();
    law_least(conn.usable_paths(), score);
    assert(scheduler::least(conn.usable_paths(), score) matches Some(p) ==> conn.usable_paths().contains(p));
    assert forall|p: PathStats<A>| #[trigger] conn.usable_paths().contains(p) implies conn.paths@.contains(p)
        && p.usable() by {
        lemma_filtered(conn, p);
    }
    assert forall|p: PathStats<A>| #[trigger] conn.available_paths().contains(p) implies conn.paths@.contains(
        p,
    ) && p.usable() by {
        lemma_filtered(conn, p);
    }
    match scheduler {
        BoxedScheduler::RoundRobin(s) => {
            let paths = conn.available_paths();
            if conn.preferred() is None && paths.len() > 0 {
                let i = s.current_index as int % paths.len() as int;
                assert(paths.contains(paths[i]));
            }
        },
        BoxedScheduler::Random(_) => {
            let paths = conn.usable_paths();
            if conn.preferred() is None && paths.len() > 0 {
                let i = choose|i: int|
                    0 <= i < paths.len() && Some(decision) == Some(
                        (#[trigger] paths[i]).decision(),
                    );
                assert(paths.contains(paths[i]));
            }
        },
        _ => {},
    }
}

/// LowRTT, round robin and the two ECF schedulers send over a path without room only where the
/// connection itself asks for it.
pub proof fn law_decision_has_room<A: Copy>(
    scheduler: BoxedScheduler,
    conn: ConnectionState<A>,
    decision: SchedulerDecision<A>,
    after: BoxedScheduler,
    conn_after: ConnectionState<A>,
)
    requires
        scheduler.ready(conn),
        scheduler.decides(conn, Some(decision), after, conn_after),
        scheduler is LowRTT || scheduler is RoundRobin || scheduler is EarliestCompletionFirst
            || scheduler is StreamAwareEarliestCompletionFirst,
        conn.preferred() is None,
    ensures
        exists|path: PathStats<A>|
            {
                &&& #[trigger] conn.paths@.contains(path)
                &&& goes_over(decision, path)
                &&& path.usable()
                &&& path.available()
            },
{
    lemma_fastest_is_member(conn.usable_paths());
    lemma_fastest_is_member(conn.available_paths());
    assert forall|p: PathStats<A>| #[trigger] conn.usable_paths().contains(p) implies conn.paths@.contains(p)
        && p.usable() by {
        lemma_filtered(conn, p);
    }
    assert forall|p: PathStats<A>| #[trigger] conn.available_paths().contains(p) implies conn.paths@.contains(
        p,
    ) && p.usable() && p.available() by {
        lemma_filtered(conn, p);
    }
    if let BoxedScheduler::RoundRobin(s) = scheduler {
        let paths = conn.available_paths();
        let i = s.current_index as int % paths.len() as int;
        assert(paths.contains(paths[i]));
    }
}

/// Where the count of a round robin scheduler stands after deciding `turns` times on the same state.
pub open spec fn round_robin_index<A>(index: usize, conn: ConnectionState<A>, turns: nat) -> usize
    decreases turns,
{
    if turns == 0 {
        index
    } else {
        turns::round_robin_decision(round_robin_index(index, conn, (turns - 1) as nat), conn).1
    }
}

/// While the paths with room stay the same, round robin goes through all of them in their order
/// and then starts over: after `turns` decisions it stands that many paths further on. It does so
/// wherever its count stood before, short of the largest, after which the count starts over.
pub proof fn law_round_robin_cycles<A>(index: usize, conn: ConnectionState<A>, turns: nat)
    requires
        conn.preferred() is None,
        conn.available_paths().len() > 0,
        index < usize::MAX,
    ensures
        ({
            let paths = conn.available_paths();
            let next = round_robin_index(index, conn, turns);
            &&& turns > 0 ==> next == (index + turns) % paths.len() as int
            &&& turns::round_robin_decision(next, conn).0 == Some(
                paths[(index + turns) % paths.len() as int].decision(),
            )
        }),
    decreases turns,
{
    let n = conn.available_paths().len() as int;
    lemma_available_fits(conn);
    if turns > 0 {
        law_round_robin_cycles(index, conn, (turns - 1) as nat);
        let before = round_robin_index(index, conn, (turns - 1) as nat);
        let total = index + turns - 1;
        vstd::arithmetic::div_mod::lemma_mod_bound(total, n);
        assert((before + 1) % n == (total + 1) % n) by {
            if turns > 1 {
                vstd::arithmetic::div_mod::lemma_add_mod_noop(total, 1, n);
                vstd::arithmetic::div_mod::lemma_add_mod_noop(before as int, 1, n);
                vstd::arithmetic::div_mod::lemma_mod_twice(total, n);
            }
        }
        vstd::arithmetic::div_mod::lemma_mod_bound(index + turns, n);
        vstd::arithmetic::div_mod::lemma_mod_twice(index + turns, n);
    }
}

proof fn lemma_available_fits<A>(conn: ConnectionState<A>)
    ensures
        conn.available_paths().len() <= usize::MAX,
{
    conn.paths@.lemma_filter_len(|p: PathStats<A>| p.usable());
    conn.usable_paths().lemma_filter_len(|p: PathStats<A>| p.available());
    assert(conn.paths@.len() == conn.paths.len());
}

/// ECF never waits while the fastest path has room: it sends over it.
pub proof fn law_ecf_uses_fastest_path<A: Copy>(
    scheduler: EarliestCompletionFirstScheduler,
    conn: ConnectionState<A>,
    decision: Option<SchedulerDecision<A>>,
    after: EarliestCompletionFirstScheduler,
    conn_after: ConnectionState<A>,
)
    requires
        scheduler.decides(conn, decision, after, conn_after),
        conn.preferred() is None,
        scheduler::fastest(conn.usable_paths()) matches Some(fast) && fast.available(),
    ensures
        decision == Some(scheduler::fastest(conn.usable_paths())->0.decision()),
        after.waiting == scheduler.waiting,
{
}

/// Stream-aware ECF changes no more of a stream than whether it waits. It makes those in front of
/// the one that it sends from wait, or all of them where it sends from none. It does not make the
/// one that it sends from wait, and leaves those behind it alone.
pub proof fn law_sa_ecf_streams<A>(conn: ConnectionState<A>, i: int)
    requires
        0 <= i < conn.streams@.len(),
    ensures
        ({
            let before = conn.streams@[i];
            let after = ecf::sa_ecf_streams(conn)[i];
            let first = ecf::waiting_streams(conn.verdicts@.take(conn.streams@.len() as int));
            &&& ecf::sa_ecf_streams(conn).len() == conn.streams@.len()
            &&& after == (StreamKey { waiting: after.waiting, ..before })
            &&& conn.contest() is None ==> after == before
            &&& conn.contest() is Some && i < first ==> after.waiting
            &&& conn.contest() is Some && i == first ==> (after.waiting ==> before.waiting)
            &&& conn.contest() is Some && i > first ==> after == before
            &&& conn.contest() is Some && ecf::sa_ecf_decision(conn) is None ==> after.waiting
        }),
{
}

/// A stream is never done before its own bytes are sent, and a stream that takes turns with others
/// waits for no more than theirs.
pub proof fn law_backlog_covers_stream(streams: Seq<StreamKey>, stream: StreamKey)
    ensures
        stream.bytes_left <= ecf::bytes_until_completion(streams, stream),
        ecf::bytes_until_completion(streams, stream) <= stream.bytes_left * if ecf::interleaved(
            streams,
            stream.urgency,
        ) > 1 {
            ecf::interleaved(streams, stream.urgency)
        } else {
            1
        },
{
    let n = ecf::interleaved(streams, stream.urgency) as int;
    let left = stream.bytes_left as int;
    if left > INTERLEAVE_BYTES && n > 1 {
        assert(left * n - (n - 1) * 1300 >= left && left * n - (n - 1) * 1300 <= left * n)
            by (nonlinear_arith)
            requires
                left > 1300,
                n > 1,
        ;
    }
    assert(left <= left * n || n <= 1) by (nonlinear_arith)
        requires
            left >= 0,
    ;
}

/// Whether packets may go over a path, and whether it has room where it needs room.
pub open spec fn takes<A>(path: PathStats<A>, needs_room: bool) -> bool {
    path.active && !path.closed && (needs_room ==> path.cwnd_available > 0)
}

/// How long a path takes: its round-trip time, with twice its variation where that counts too.
pub open spec fn delay<A>(path: PathStats<A>, with_variation: bool) -> int {
    if with_variation {
        path.rtt + 2 * path.rttvar
    } else {
        path.rtt as int
    }
}

/// Whether path number `i` takes packets and is the first of those with the least delay.
pub open spec fn is_best<A>(
    paths: Seq<PathStats<A>>,
    needs_room: bool,
    with_variation: bool,
    i: int,
) -> bool {
    &&& 0 <= i < paths.len()
    &&& takes(paths[i], needs_room)
    &&& forall|j: int|
        0 <= j < paths.len() && takes(#[trigger] paths[j], needs_room) ==> {
            &&& delay(paths[i], with_variation) <= delay(paths[j], with_variation)
            &&& j < i ==> delay(paths[i], with_variation) < delay(paths[j], with_variation)
        }
}

/// Whether path number `i` is the one that the connection itself asks for.
pub open spec fn is_asked_for<A>(conn: ConnectionState<A>, i: int) -> bool {
    &&& 0 <= i < conn.paths@.len()
    &&& conn.next_send_path_id == Some(conn.paths@[i].path_id)
    &&& forall|j: int| 0 <= j < i ==> #[trigger] conn.paths@[j].path_id != conn.paths@[i].path_id
}

/// Whether the connection itself asks for none of its paths.
pub open spec fn asks_for_none<A>(conn: ConnectionState<A>) -> bool {
    forall|j: int|
        0 <= j < conn.paths@.len() ==> conn.next_send_path_id != Some(
            (#[trigger] conn.paths@[j]).path_id,
        )
}

/// Whether a decision is for this path and names this stream.
pub open spec fn sends<A>(
    decision: SchedulerDecision<A>,
    path: PathStats<A>,
    stream_id: Option<u64>,
) -> bool {
    &&& decision.path.0 == path.local_addr
    &&& decision.path.1 == path.peer_addr
    &&& decision.stream_id == stream_id
}

proof fn lemma_asked_for<A>(conn: ConnectionState<A>)
    ensures
        conn.preferred() is None <==> asks_for_none(conn),
        forall|i: int| #[trigger] is_asked_for(conn, i) ==> conn.preferred() == Some(conn.paths@[i]),
{
    if let Some(path_id) = conn.next_send_path_id {
        lemma_find_first(conn.paths@, path_id);
        if asks_for_none(conn) {
            if let Some(p) = scheduler::find_path(conn.paths@, path_id) {
                let i = conn.paths@.index_of(p);
                assert(conn.paths@[i].path_id == path_id);
            }
        }
        assert forall|i: int| #[trigger] is_asked_for(conn, i) implies conn.preferred() == Some(
            conn.paths@[i],
        ) by {
            assert(conn.paths@[i].path_id == path_id);
        }
    }
}

proof fn lemma_find_first<A>(paths: Seq<PathStats<A>>, path_id: u64)
    ensures
        scheduler::find_path(paths, path_id) is None <==> forall|j: int|
            0 <= j < paths.len() ==> #[trigger] paths[j].path_id != path_id,
        scheduler::find_path(paths, path_id) matches Some(p) ==> paths.contains(p) && p.path_id
            == path_id,
        forall|i: int|
            0 <= i < paths.len() && #[trigger] paths[i].path_id == path_id && (forall|j: int|
                0 <= j < i ==> #[trigger] paths[j].path_id != path_id) ==> scheduler::find_path(
                paths,
                path_id,
            ) == Some(paths[i]),
    decreases paths.len(),
{
    lemma_find_path(paths, path_id);
    if paths.len() > 0 {
        let rest = paths.drop_first();
        assert(forall|j: int| 0 <= j < rest.len() ==> #[trigger] rest[j] == paths[j + 1]);
        lemma_find_first(rest, path_id);
        if paths[0].path_id != path_id {
            if scheduler::find_path(paths, path_id) is None {
                assert forall|j: int| 0 <= j < paths.len() implies #[trigger] paths[j].path_id
                    != path_id by {
                    if j > 0 {
                        assert(rest[j - 1].path_id != path_id);
                    }
                }
            }
            assert forall|i: int|
                0 <= i < paths.len() && #[trigger] paths[i].path_id == path_id && (forall|j: int|
                    0 <= j < i ==> #[trigger] paths[j].path_id
                        != path_id) implies scheduler::find_path(paths, path_id) == Some(
                paths[i],
            ) by {
                assert(i > 0);
                assert(rest[i - 1].path_id == path_id);
                assert forall|j: int| 0 <= j < i - 1 implies #[trigger] rest[j].path_id
                    != path_id by {
                    assert(paths[j + 1].path_id != path_id);
                }
            }
        }
    }
}

proof fn lemma_least_of_filter<A>(
    paths: Seq<PathStats<A>>,
    pred: spec_fn(PathStats<A>) -> bool,
    key: spec_fn(PathStats<A>) -> nat,
) -> (i: int)
    ensures
        scheduler::least(paths.filter(pred), key) is None <==> forall|j: int|
            0 <= j < paths.len() ==> !pred(#[trigger] paths[j]),
        scheduler::least(paths.filter(pred), key) matches Some(p) ==> {
            &&& 0 <= i < paths.len()
            &&& p == paths[i]
            &&& pred(paths[i])
            &&& forall|j: int|
                0 <= j < paths.len() && pred(#[trigger] paths[j]) ==> key(paths[i]) <= key(paths[j])
                    && (j < i ==> key(paths[i]) < key(paths[j]))
        },
    decreases paths.len(),
{
    reveal(Seq::filter);
    if paths.len() == 0 {
        assert(paths.filter(pred) =~= Seq::empty());
        0
    } else {
        let shorter = paths.drop_last();
        let last = paths.len() - 1;
        let kept = shorter.filter(pred);
        assert(forall|j: int| 0 <= j < last ==> #[trigger] shorter[j] == paths[j]);
        let before = lemma_least_of_filter(shorter, pred, key);
        assert(kept.push(paths.last()).drop_last() =~= kept);
        assert(kept.push(paths.last()).last() == paths[last]);
        let best = scheduler::least(paths.filter(pred), key);
        if best is None {
            assert forall|j: int| 0 <= j < paths.len() implies !pred(#[trigger] paths[j]) by {
                if j < last {
                    assert(!pred(shorter[j]));
                }
            }
            0
        } else if pred(paths[last]) && (scheduler::least(kept, key) is None || key(paths[last])
            < key(scheduler::least(kept, key)->0)) {
            assert(best == Some(paths[last]));
            assert forall|j: int| 0 <= j < paths.len() && pred(#[trigger] paths[j]) implies key(
                paths[last],
            ) <= key(paths[j]) && (j < last ==> key(paths[last]) < key(paths[j])) by {
                if j < last {
                    assert(pred(shorter[j]));
                }
            }
            last
        } else {
            assert(best == scheduler::least(kept, key));
            assert(paths[before] == shorter[before]);
            assert forall|j: int| 0 <= j < paths.len() && pred(#[trigger] paths[j]) implies key(
                paths[before],
            ) <= key(paths[j]) && (j < before ==> key(paths[before]) < key(paths[j])) by {
                if j < last {
                    assert(pred(shorter[j]));
                }
            }
            before
        }
    }
}

proof fn lemma_filter_twice<A>(
    paths: Seq<PathStats<A>>,
    first: spec_fn(PathStats<A>) -> bool,
    second: spec_fn(PathStats<A>) -> bool,
    both: spec_fn(PathStats<A>) -> bool,
)
    requires
        forall|p: PathStats<A>| #[trigger] both(p) <==> first(p) && second(p),
    ensures
        paths.filter(first).filter(second) == paths.filter(both),
    decreases paths.len(),
{
    reveal(Seq::filter);
    if paths.len() > 0 {
        let shorter = paths.drop_last();
        lemma_filter_twice(shorter, first, second, both);
        assert(both(paths.last()) <==> first(paths.last()) && second(paths.last()));
        let kept = shorter.filter(first);
        assert(kept.push(paths.last()).drop_last() =~= kept);
    }
}

proof fn lemma_best<A>(conn: ConnectionState<A>, needs_room: bool, with_variation: bool) -> (i: int)
    ensures
        ({
            let found = if needs_room {
                conn.available_paths()
            } else {
                conn.usable_paths()
            };
            let best = if with_variation {
                scheduler::least(found, |p: PathStats<A>| p.score())
            } else {
                scheduler::fastest(found)
            };
            &&& best is None <==> forall|j: int|
                0 <= j < conn.paths@.len() ==> !takes(#[trigger] conn.paths@[j], needs_room)
            &&& best matches Some(p) ==> is_best(conn.paths@, needs_room, with_variation, i)
                && conn.paths@[i] == p
            &&& forall|k: int|
                #[trigger] is_best(conn.paths@, needs_room, with_variation, k) ==> best == Some(
                    conn.paths@[k],
                )
        }),
{
    let usable = |p: PathStats<A>| p.usable();
    let available = |p: PathStats<A>| p.available();
    let both = |p: PathStats<A>| p.usable() && p.available();
    lemma_filter_twice(conn.paths@, usable, available, both);
    let pred = if needs_room {
        both
    } else {
        usable
    };
    let rtt_key = |p: PathStats<A>| p.rtt as nat;
    let score_key = |p: PathStats<A>| p.score();
    let key = if with_variation {
        score_key
    } else {
        rtt_key
    };
    let i = lemma_least_of_filter(conn.paths@, pred, key);
    assert(forall|j: int|
        0 <= j < conn.paths@.len() ==> (pred(#[trigger] conn.paths@[j]) <==> takes(
            conn.paths@[j],
            needs_room,
        )));
    assert(forall|j: int|
        0 <= j < conn.paths@.len() ==> key(#[trigger] conn.paths@[j]) == delay(
            conn.paths@[j],
            with_variation,
        ));
    let best = scheduler::least(conn.paths@.filter(pred), key);
    if best is Some {
        assert(is_best(conn.paths@, needs_room, with_variation, i));
    }
    assert forall|k: int| #[trigger]
        is_best(conn.paths@, needs_room, with_variation, k) implies best == Some(
        conn.paths@[k],
    ) by {
        assert(takes(conn.paths@[k], needs_room));
        assert(pred(conn.paths@[k]));
        assert(takes(conn.paths@[i], needs_room));
    }
    i
}

/// The path that the connection itself asks for is taken, whether it has room, is in use or is
/// fast, and nothing is remembered of that decision. Lowest latency alone does not ask.
pub proof fn law_asked_path_is_taken<A: Copy>(
    scheduler: BoxedScheduler,
    conn: ConnectionState<A>,
    decision: Option<SchedulerDecision<A>>,
    after: BoxedScheduler,
    conn_after: ConnectionState<A>,
    i: int,
)
    requires
        scheduler.decides(conn, decision, after, conn_after),
        !(scheduler is LowestLatency),
        is_asked_for(conn, i),
    ensures
        decision matches Some(d) && sends(d, conn.paths@[i], None),
        after == scheduler,
        conn_after.streams@ == conn.streams@,
{
    lemma_asked_for(conn);
}

/// Where the connection asks for no path, MinRTT takes the first usable path with the lowest
/// round-trip time, whether it has room or not. It takes none only where none is usable.
pub proof fn law_min_rtt_takes_fastest<A: Copy>(
    scheduler: BoxedScheduler,
    conn: ConnectionState<A>,
    decision: Option<SchedulerDecision<A>>,
    after: BoxedScheduler,
    conn_after: ConnectionState<A>,
)
    requires
        scheduler is MinRTT,
        scheduler.decides(conn, decision, after, conn_after),
        asks_for_none(conn),
    ensures
        decision matches Some(d) ==> exists|i: int| #[trigger]
            is_best(conn.paths@, false, false, i) && sends(d, conn.paths@[i], None),
        decision is None <==> forall|j: int|
            0 <= j < conn.paths@.len() ==> !takes(#[trigger] conn.paths@[j], false),
        conn_after == conn,
{
    lemma_asked_for(conn);
    let i = lemma_best(conn, false, false);
    assert(decision is Some ==> is_best(conn.paths@, false, false, i));
}

/// Where the connection asks for no path, LowRTT takes the first usable path with the lowest
/// round-trip time among those with room. It takes none only where none has room.
pub proof fn law_low_rtt_takes_fastest_with_room<A: Copy>(
    scheduler: BoxedScheduler,
    conn: ConnectionState<A>,
    decision: Option<SchedulerDecision<A>>,
    after: BoxedScheduler,
    conn_after: ConnectionState<A>,
)
    requires
        scheduler is LowRTT,
        scheduler.decides(conn, decision, after, conn_after),
        asks_for_none(conn),
    ensures
        decision matches Some(d) ==> exists|i: int| #[trigger]
            is_best(conn.paths@, true, false, i) && sends(d, conn.paths@[i], None),
        decision is None <==> forall|j: int|
            0 <= j < conn.paths@.len() ==> !takes(#[trigger] conn.paths@[j], true),
        conn_after == conn,
{
    lemma_asked_for(conn);
    let i = lemma_best(conn, true, false);
    assert(decision is Some ==> is_best(conn.paths@, true, false, i));
}

/// Lowest latency takes the first usable path with the least sum of its round-trip time and twice
/// its variation, whatever the connection asks for. It takes none only where none is usable.
pub proof fn law_lowest_latency_takes_least_delay<A: Copy>(
    scheduler: BoxedScheduler,
    conn: ConnectionState<A>,
    decision: Option<SchedulerDecision<A>>,
    after: BoxedScheduler,
    conn_after: ConnectionState<A>,
)
    requires
        scheduler is LowestLatency,
        scheduler.decides(conn, decision, after, conn_after),
    ensures
        decision matches Some(d) ==> exists|i: int| #[trigger]
            is_best(conn.paths@, false, true, i) && sends(d, conn.paths@[i], None),
        decision is None <==> forall|j: int|
            0 <= j < conn.paths@.len() ==> !takes(#[trigger] conn.paths@[j], false),
        conn_after == conn,
{
    let i = lemma_best(conn, false, true);
    assert(decision is Some ==> is_best(conn.paths@, false, true, i));
}

/// Where the connection asks for no path, the random scheduler takes a usable path, with or without
/// room. It takes none only where none is usable.
pub proof fn law_random_takes_usable_path<A: Copy>(
    scheduler: BoxedScheduler,
    conn: ConnectionState<A>,
    decision: Option<SchedulerDecision<A>>,
    after: BoxedScheduler,
    conn_after: ConnectionState<A>,
)
    requires
        scheduler is Random,
        scheduler.decides(conn, decision, after, conn_after),
        asks_for_none(conn),
    ensures
        decision matches Some(d) ==> exists|i: int|
            0 <= i < conn.paths@.len() && takes(#[trigger] conn.paths@[i], false) && sends(
                d,
                conn.paths@[i],
                None,
            ),
        decision is None <==> forall|j: int|
            0 <= j < conn.paths@.len() ==> !takes(#[trigger] conn.paths@[j], false),
        conn_after == conn,
{
    lemma_asked_for(conn);
    let _ = lemma_best(conn, false, false);
    let paths = conn.usable_paths();
    law_least(paths, |p: PathStats<A>| p.rtt as nat);
    if let Some(d) = decision {
        let k = choose|k: int|
            0 <= k < paths.len() && Some(d) == Some((#[trigger] paths[k]).decision());
        assert(paths.contains(paths[k]));
        lemma_filtered(conn, paths[k]);
        let i = conn.paths@.index_of(paths[k]);
        assert(takes(conn.paths@[i], false));
    }
}

/// Where the connection asks for no path, the random scheduler may take each usable path.
pub proof fn law_random_may_take_each_usable_path<A: Copy>(
    scheduler: BoxedScheduler,
    conn: ConnectionState<A>,
    decision: SchedulerDecision<A>,
    i: int,
)
    requires
        scheduler is Random,
        asks_for_none(conn),
        0 <= i < conn.paths@.len(),
        takes(conn.paths@[i], false),
        sends(decision, conn.paths@[i], None),
    ensures
        scheduler.decides(conn, Some(decision), scheduler, conn),
{
    lemma_asked_for(conn);
    let numbers = lemma_filter_numbers(conn.paths@, |p: PathStats<A>| p.usable());
    let k = numbers.index_of(i);
    assert(conn.paths@[i].usable());
    assert(numbers[k] == i);
    assert(conn.usable_paths()[k] == conn.paths@[i]);
    assert(decision == conn.usable_paths()[k].decision());
}

/// The paths with room are those of the connection that are in use, not closed and have room, in
/// the order of the connection: there is a rising list of their numbers that leaves none out.
pub proof fn law_paths_with_room<A>(conn: ConnectionState<A>) -> (numbers: Seq<int>)
    ensures
        numbers.len() == conn.available_paths().len(),
        forall|k: int|
            0 <= k < numbers.len() ==> 0 <= #[trigger] numbers[k] < conn.paths@.len() && takes(
                conn.paths@[numbers[k]],
                true,
            ) && conn.available_paths()[k] == conn.paths@[numbers[k]],
        forall|k: int, l: int|
            0 <= k < l < numbers.len() ==> #[trigger] numbers[k] < #[trigger] numbers[l],
        forall|i: int|
            0 <= i < conn.paths@.len() && takes(#[trigger] conn.paths@[i], true)
                ==> numbers.contains(i),
{
    let usable = |p: PathStats<A>| p.usable();
    let available = |p: PathStats<A>| p.available();
    let both = |p: PathStats<A>| p.usable() && p.available();
    lemma_filter_twice(conn.paths@, usable, available, both);
    let numbers = lemma_filter_numbers(conn.paths@, both);
    assert forall|i: int|
        0 <= i < conn.paths@.len() && takes(#[trigger] conn.paths@[i], true) implies numbers.contains(
        i,
    ) by {
        assert(both(conn.paths@[i]));
    }
    numbers
}

proof fn lemma_filter_numbers<A>(
    paths: Seq<PathStats<A>>,
    pred: spec_fn(PathStats<A>) -> bool,
) -> (numbers: Seq<int>)
    ensures
        numbers.len() == paths.filter(pred).len(),
        forall|k: int|
            0 <= k < numbers.len() ==> 0 <= #[trigger] numbers[k] < paths.len() && pred(
                paths[numbers[k]],
            ) && paths.filter(pred)[k] == paths[numbers[k]],
        forall|k: int, l: int|
            0 <= k < l < numbers.len() ==> #[trigger] numbers[k] < #[trigger] numbers[l],
        forall|i: int| 0 <= i < paths.len() && pred(#[trigger] paths[i]) ==> numbers.contains(i),
    decreases paths.len(),
{
    reveal(Seq::filter);
    if paths.len() == 0 {
        Seq::empty()
    } else {
        let shorter = paths.drop_last();
        let last = paths.len() - 1;
        assert(forall|j: int| 0 <= j < last ==> #[trigger] shorter[j] == paths[j]);
        let before = lemma_filter_numbers(shorter, pred);
        let numbers = if pred(paths.last()) {
            before.push(last)
        } else {
            before
        };
        assert forall|k: int| 0 <= k < numbers.len() implies 0 <= #[trigger] numbers[k]
            < paths.len() && pred(paths[numbers[k]]) && paths.filter(pred)[k]
            == paths[numbers[k]] by {
            if k < before.len() {
                assert(numbers[k] == before[k]);
            }
        }
        assert forall|k: int, l: int| 0 <= k < l < numbers.len() implies #[trigger] numbers[k]
            < #[trigger] numbers[l] by {
            assert(numbers[k] == before[k]);
            if l < before.len() {
                assert(numbers[l] == before[l]);
            }
        }
        assert forall|i: int| 0 <= i < paths.len() && pred(
            #[trigger] paths[i],
        ) implies numbers.contains(i) by {
            if i < last {
                assert(pred(shorter[i]));
                let k = before.index_of(i);
                assert(numbers[k] == i);
            } else {
                assert(numbers[before.len() as int] == i);
            }
        }
        numbers
    }
}

/// Where the connection asks for no path, round robin takes a usable path with room. It takes none
/// only where none has room.
pub proof fn law_round_robin_takes_path_with_room<A: Copy>(
    scheduler: BoxedScheduler,
    conn: ConnectionState<A>,
    decision: Option<SchedulerDecision<A>>,
    after: BoxedScheduler,
    conn_after: ConnectionState<A>,
)
    requires
        scheduler is RoundRobin,
        scheduler.decides(conn, decision, after, conn_after),
        asks_for_none(conn),
    ensures
        decision matches Some(d) ==> exists|i: int|
            0 <= i < conn.paths@.len() && takes(#[trigger] conn.paths@[i], true) && sends(
                d,
                conn.paths@[i],
                None,
            ),
        decision is None <==> forall|j: int|
            0 <= j < conn.paths@.len() ==> !takes(#[trigger] conn.paths@[j], true),
        conn_after == conn,
{
    lemma_asked_for(conn);
    let numbers = law_paths_with_room(conn);
    if let BoxedScheduler::RoundRobin(s) = scheduler {
        let paths = conn.available_paths();
        if paths.len() > 0 {
            let k = s.current_index as int % paths.len() as int;
            assert(takes(conn.paths@[numbers[k]], true));
        }
    }
    if decision is None {
        assert forall|j: int| 0 <= j < conn.paths@.len() implies !takes(
            #[trigger] conn.paths@[j],
            true,
        ) by {
            if takes(conn.paths@[j], true) {
                assert(numbers.contains(j));
            }
        }
    }
}

/// In as many decisions as there are paths with room, one after another on the same state, round
/// robin takes each of them once: it comes back to a path only after a full round.
pub proof fn law_round_robin_is_fair<A>(
    index: usize,
    conn: ConnectionState<A>,
    first: nat,
    second: nat,
)
    requires
        asks_for_none(conn),
        conn.available_paths().len() > 0,
        index < usize::MAX,
        first < second < first + conn.available_paths().len(),
    ensures
        ({
            let n = conn.available_paths().len() as int;
            let a = round_robin_index(index, conn, first) as int % n;
            let b = round_robin_index(index, conn, second) as int % n;
            &&& a != b
            &&& turns::round_robin_decision(round_robin_index(index, conn, first), conn).0 == Some(
                conn.available_paths()[a].decision(),
            )
            &&& turns::round_robin_decision(round_robin_index(index, conn, second), conn).0 == Some(
                conn.available_paths()[b].decision(),
            )
        }),
{
    lemma_asked_for(conn);
    law_round_robin_cycles(index, conn, first);
    law_round_robin_cycles(index, conn, second);
    let n = conn.available_paths().len() as int;
    let x = index + first;
    let y = index + second;
    vstd::arithmetic::div_mod::lemma_mod_twice(x, n);
    vstd::arithmetic::div_mod::lemma_mod_twice(y, n);
    if x % n == y % n {
        vstd::arithmetic::div_mod::lemma_fundamental_div_mod(x, n);
        vstd::arithmetic::div_mod::lemma_fundamental_div_mod(y, n);
        let q = y / n - x / n;
        assert(n * q == y - x) by (nonlinear_arith)
            requires
                x == n * (x / n) + x % n,
                y == n * (y / n) + y % n,
                x % n == y % n,
                q == y / n - x / n,
        ;
        assert(q <= 0 || q >= 1);
        assert(false) by (nonlinear_arith)
            requires
                n * q == y - x,
                0 < y - x < n,
        ;
    }
}

/// ECF and stream-aware ECF send over the fastest usable path where it has room, whatever the
/// verdicts say, and remember nothing of that.
pub proof fn law_ecf_sends_over_fastest_with_room<A: Copy>(
    scheduler: BoxedScheduler,
    conn: ConnectionState<A>,
    decision: Option<SchedulerDecision<A>>,
    after: BoxedScheduler,
    conn_after: ConnectionState<A>,
    fast: int,
)
    requires
        scheduler is EarliestCompletionFirst || scheduler is StreamAwareEarliestCompletionFirst,
        scheduler.decides(conn, decision, after, conn_after),
        asks_for_none(conn),
        is_best(conn.paths@, false, false, fast),
        conn.paths@[fast].cwnd_available > 0,
    ensures
        decision matches Some(d) && sends(d, conn.paths@[fast], None),
        after == scheduler,
        conn_after.streams@ == conn.streams@,
{
    lemma_asked_for(conn);
    let _ = lemma_best(conn, false, false);
}

/// ECF and stream-aware ECF send nothing where no usable path has room.
pub proof fn law_ecf_needs_room<A: Copy>(
    scheduler: BoxedScheduler,
    conn: ConnectionState<A>,
    decision: Option<SchedulerDecision<A>>,
    after: BoxedScheduler,
    conn_after: ConnectionState<A>,
)
    requires
        scheduler is EarliestCompletionFirst || scheduler is StreamAwareEarliestCompletionFirst,
        scheduler.decides(conn, decision, after, conn_after),
        asks_for_none(conn),
        forall|j: int| 0 <= j < conn.paths@.len() ==> !takes(#[trigger] conn.paths@[j], true),
    ensures
        decision is None,
        after == scheduler,
        conn_after.streams@ == conn.streams@,
{
    lemma_asked_for(conn);
    let i = lemma_best(conn, false, false);
    let _ = lemma_best(conn, true, false);
    if let Some(p) = scheduler::fastest(conn.usable_paths()) {
        assert(is_best(conn.paths@, false, false, i));
        assert(!takes(conn.paths@[i], true));
    }
}

/// Where the fastest usable path has no room and another one has, ECF sends over the fastest path
/// with room, unless the verdict says both that the fastest path completes first and that the other
/// one is late. It begins to wait exactly then, and stops waiting where the fastest path does not
/// complete first.
pub proof fn law_ecf_weighs_fastest_with_room<A: Copy>(
    scheduler: EarliestCompletionFirstScheduler,
    conn: ConnectionState<A>,
    decision: Option<SchedulerDecision<A>>,
    after: EarliestCompletionFirstScheduler,
    conn_after: ConnectionState<A>,
    fast: int,
    slow: int,
)
    requires
        BoxedScheduler::EarliestCompletionFirst(scheduler).decides(
            conn,
            decision,
            BoxedScheduler::EarliestCompletionFirst(after),
            conn_after,
        ),
        asks_for_none(conn),
        is_best(conn.paths@, false, false, fast),
        conn.paths@[fast].cwnd_available == 0,
        is_best(conn.paths@, true, false, slow),
    ensures
        ({
            let verdict = conn.verdicts@[0];
            if verdict.fast_completes_first && verdict.slow_is_late {
                decision is None && after.waiting
            } else {
                &&& decision matches Some(d) && sends(d, conn.paths@[slow], None)
                &&& after.waiting == (scheduler.waiting && verdict.fast_completes_first)
            }
        }),
        conn_after == conn,
{
    lemma_asked_for(conn);
    let _ = lemma_best(conn, false, false);
    let _ = lemma_best(conn, true, false);
}

/// Where the fastest usable path has no room and another one has, stream-aware ECF sends the first
/// stream over the fastest path with room of which the verdict does not say both that the fastest
/// path completes first and that the other one is late. All streams before it wait from then on; it
/// stops waiting itself where the fastest path does not complete first; those behind it stay as
/// they were. Nothing is sent exactly where both is said of every stream, and then all wait.
pub proof fn law_sa_ecf_sends_first_stream_that_need_not_wait<A: Copy>(
    scheduler: BoxedScheduler,
    conn: ConnectionState<A>,
    decision: Option<SchedulerDecision<A>>,
    after: BoxedScheduler,
    conn_after: ConnectionState<A>,
    fast: int,
    slow: int,
)
    requires
        scheduler is StreamAwareEarliestCompletionFirst,
        conn.verdicts@.len() >= conn.streams@.len(),
        scheduler.decides(conn, decision, after, conn_after),
        asks_for_none(conn),
        is_best(conn.paths@, false, false, fast),
        conn.paths@[fast].cwnd_available == 0,
        is_best(conn.paths@, true, false, slow),
    ensures
        decision is None <==> forall|k: int|
            0 <= k < conn.streams@.len() ==> (#[trigger] conn.verdicts@[k]).fast_completes_first
                && conn.verdicts@[k].slow_is_late,
        decision is None ==> forall|k: int|
            0 <= k < conn.streams@.len() ==> (#[trigger] conn_after.streams@[k]).waiting,
        decision matches Some(d) ==> exists|k: int|
            {
                &&& 0 <= k < conn.streams@.len()
                &&& sends(d, conn.paths@[slow], Some((#[trigger] conn.streams@[k]).id))
                &&& !(conn.verdicts@[k].fast_completes_first && conn.verdicts@[k].slow_is_late)
                &&& conn_after.streams@[k].waiting == (conn.streams@[k].waiting
                    && conn.verdicts@[k].fast_completes_first)
                &&& forall|j: int|
                    0 <= j < k ==> (#[trigger] conn.verdicts@[j]).fast_completes_first
                        && conn.verdicts@[j].slow_is_late && conn_after.streams@[j].waiting
                &&& forall|j: int|
                    k < j < conn.streams@.len() ==> #[trigger] conn_after.streams@[j]
                        == conn.streams@[j]
            },
        conn_after.streams@.len() == conn.streams@.len(),
        forall|k: int|
            0 <= k < conn.streams@.len() ==> {
                let stream = #[trigger] conn_after.streams@[k];
                &&& stream.id == conn.streams@[k].id
                &&& stream.urgency == conn.streams@[k].urgency
                &&& stream.incremental == conn.streams@[k].incremental
                &&& stream.bytes_left == conn.streams@[k].bytes_left
            },
{
    lemma_asked_for(conn);
    let _ = lemma_best(conn, false, false);
    let _ = lemma_best(conn, true, false);
    let verdicts = conn.verdicts@.take(conn.streams@.len() as int);
    lemma_waiting_streams(verdicts);
    let first = ecf::waiting_streams(verdicts) as int;
    assert(forall|k: int| 0 <= k < verdicts.len() ==> #[trigger] verdicts[k] == conn.verdicts@[k]);
    if first < conn.streams@.len() {
        assert(!(verdicts[first].fast_completes_first && verdicts[first].slow_is_late));
        assert(conn.verdicts@[first] == verdicts[first]);
        assert forall|j: int| 0 <= j < first implies (
        #[trigger] conn.verdicts@[j]).fast_completes_first && conn.verdicts@[j].slow_is_late
            && conn_after.streams@[j].waiting by {
            assert(verdicts[j].fast_completes_first && verdicts[j].slow_is_late);
        }
        assert(sends(decision->0, conn.paths@[slow], Some(conn.streams@[first].id)));
    } else {
        assert forall|k: int| 0 <= k < conn.streams@.len() implies (
        #[trigger] conn.verdicts@[k]).fast_completes_first && conn.verdicts@[k].slow_is_late by {
            assert(verdicts[k].fast_completes_first && verdicts[k].slow_is_late);
        }
    }
}

proof fn lemma_waiting_streams(verdicts: Seq<Verdict>)
    ensures
        ecf::waiting_streams(verdicts) <= verdicts.len(),
        forall|j: int|
            0 <= j < ecf::waiting_streams(verdicts) ==> (
            #[trigger] verdicts[j]).fast_completes_first && verdicts[j].slow_is_late,
        ecf::waiting_streams(verdicts) < verdicts.len() ==> {
            let chosen = verdicts[ecf::waiting_streams(verdicts) as int];
            !(chosen.fast_completes_first && chosen.slow_is_late)
        },
    decreases verdicts.len(),
{
    if verdicts.len() > 0 && verdicts[0].fast_completes_first && verdicts[0].slow_is_late {
        let rest = verdicts.drop_first();
        lemma_waiting_streams(rest);
        assert(forall|j: int| 0 <= j < rest.len() ==> #[trigger] rest[j] == verdicts[j + 1]);
        assert forall|j: int| 0 <= j < ecf::waiting_streams(verdicts) implies (
        #[trigger] verdicts[j]).fast_completes_first && verdicts[j].slow_is_late by {
            if j > 0 {
                assert(rest[j - 1].fast_completes_first);
            }
        }
    }
}

/// Another stream that takes turns with a stream puts its completion off by what is left of it
/// beyond one turn of 1300 bytes; a stream that does not take turns with it changes nothing, and
/// neither does any stream where it is not incremental or has no more than one turn left.
pub proof fn law_backlog_grows_with_each_turn(
    streams: Seq<StreamKey>,
    stream: StreamKey,
    other: StreamKey,
)
    requires
        streams.contains(stream),
    ensures
        !stream.incremental || stream.bytes_left <= 1300 ==> ecf::bytes_until_completion(
            streams,
            stream,
        ) == stream.bytes_left,
        ecf::bytes_until_completion(seq![stream], stream) == stream.bytes_left,
        ecf::bytes_until_completion(streams.push(other), stream) == ecf::bytes_until_completion(
            streams,
            stream,
        ) + if stream.incremental && other.incremental && other.urgency == stream.urgency
            && stream.bytes_left > 1300 {
            stream.bytes_left - 1300
        } else {
            0
        },
{
    let alone = seq![stream];
    assert(alone.drop_last() =~= Seq::<StreamKey>::empty());
    assert(ecf::interleaved(alone.drop_last(), stream.urgency) == 0);
    assert(streams.push(other).drop_last() =~= streams);
    if stream.incremental {
        lemma_interleaved_member(streams, stream);
        let n = ecf::interleaved(streams, stream.urgency) as int;
        let left = stream.bytes_left as int;
        assert(left * (n + 1) - n * 1300 == left * n - (n - 1) * 1300 + (left - 1300))
            by (nonlinear_arith);
        assert(left * 1 - 0 * 1300 == left);
    }
}

proof fn lemma_interleaved_member(streams: Seq<StreamKey>, stream: StreamKey)
    requires
        streams.contains(stream),
        stream.incremental,
    ensures
        ecf::interleaved(streams, stream.urgency) >= 1,
    decreases streams.len(),
{
    if streams.last() != stream {
        let i = streams.index_of(stream);
        assert(streams.drop_last()[i] == stream);
        lemma_interleaved_member(streams.drop_last(), stream);
    }
}

/// A round robin scheduler that has counted up to `index` takes the path with room at that place,
/// where it starts over behind the last of them, and counts on by one. It counts on, too, where no
/// path has room. After the largest count comes 0.
pub proof fn law_round_robin_takes_next<A: Copy>(
    scheduler: BoxedScheduler,
    conn: ConnectionState<A>,
    decision: Option<SchedulerDecision<A>>,
    after: BoxedScheduler,
    conn_after: ConnectionState<A>,
)
    requires
        scheduler.decides(conn, decision, after, conn_after),
        scheduler is RoundRobin,
        asks_for_none(conn),
    ensures
        ({
            let n = conn.available_paths().len() as int;
            let index = scheduler->RoundRobin_0.current_index as int;
            let count = after->RoundRobin_0.current_index as int;
            &&& after is RoundRobin
            &&& n > 0 ==> {
                decision matches Some(d) && sends(d, conn.available_paths()[index % n], None)
            }
            &&& n > 0 && index < usize::MAX ==> count == (index + 1) % n
            &&& n == 0 && index < usize::MAX ==> count == index + 1
            &&& index == usize::MAX ==> count == 0
        }),
{
    lemma_asked_for(conn);
    lemma_available_fits(conn);
    let n = conn.available_paths().len() as int;
    if n > 0 {
        let index = scheduler->RoundRobin_0.current_index as int;
        vstd::arithmetic::div_mod::lemma_mod_bound(index + 1, n);
        vstd::arithmetic::div_mod::lemma_small_mod(0, n as nat);
    }
}

/// Every scheduler can decide on every state, with three exceptions. Lowest latency needs sums of
/// times that are no longer than the longest time, where there are several to compare. ECF needs a
/// verdict, and stream-aware ECF one for each stream, where two paths are weighed.
pub proof fn law_schedulers_are_ready<A: Copy>(scheduler: BoxedScheduler, conn: ConnectionState<A>)
    ensures
        scheduler is MinRTT || scheduler is LowRTT || scheduler is RoundRobin || scheduler is Random
            ==> scheduler.ready(conn),
        scheduler is LowestLatency && (forall|i: int|
            0 <= i < conn.paths@.len() && takes(#[trigger] conn.paths@[i], false) ==> delay(
                conn.paths@[i],
                true,
            ) <= 18_446_744_073_709_551_615_999_999_999) ==> scheduler.ready(conn),
        scheduler is LowestLatency && (forall|i: int, j: int|
            0 <= i < conn.paths@.len() && 0 <= j < conn.paths@.len() && takes(
                #[trigger] conn.paths@[i],
                false,
            ) && takes(#[trigger] conn.paths@[j], false) ==> i == j) ==> scheduler.ready(conn),
        scheduler is EarliestCompletionFirst && conn.verdicts@.len() >= 1 ==> scheduler.ready(conn),
        scheduler is StreamAwareEarliestCompletionFirst && conn.verdicts@.len()
            >= conn.streams@.len() ==> scheduler.ready(conn),
        scheduler is EarliestCompletionFirst || scheduler is StreamAwareEarliestCompletionFirst ==> {
            ||| scheduler.ready(conn)
            ||| asks_for_none(conn) && exists|i: int| #[trigger]
                is_best(conn.paths@, true, false, i)
        },
{
    lemma_asked_for(conn);
    let i = lemma_best(conn, true, false);
    if conn.contest() is Some {
        assert(is_best(conn.paths@, true, false, i));
    }
    let paths = conn.usable_paths();
    let numbers = lemma_filter_numbers(conn.paths@, |p: PathStats<A>| p.usable());
    if paths.len() > 1 {
        assert(takes(conn.paths@[numbers[0]], false) && takes(conn.paths@[numbers[1]], false));
        assert(numbers[0] < numbers[1]);
    }
    if scheduler is LowestLatency && (forall|i: int|
        0 <= i < conn.paths@.len() && takes(#[trigger] conn.paths@[i], false) ==> delay(
            conn.paths@[i],
            true,
        ) <= 18_446_744_073_709_551_615_999_999_999) {
        assert forall|k: int| 0 <= k < paths.len() implies #[trigger] paths[k].score()
            <= rtt::MAX_TIME by {
            assert(paths.contains(paths[k]));
            lemma_filtered(conn, paths[k]);
            let i = conn.paths@.index_of(paths[k]);
            assert(takes(conn.paths@[i], false));
        }
    }
}

/// Each algorithm has its names and no others, and every other name is refused.
pub proof fn law_names_of_algorithms(name: Seq<char>)
    ensures
        ({
            let found = PacketSchedulingAlgorithm::named(name);
            &&& found == Ok::<_, SchedulerError>(PacketSchedulingAlgorithm::MinRTT) <==> name
                == "minrtt"@
            &&& found == Ok::<_, SchedulerError>(PacketSchedulingAlgorithm::LowRTT) <==> name
                == "lowrtt"@
            &&& found == Ok::<_, SchedulerError>(PacketSchedulingAlgorithm::RoundRobin) <==> name
                == "roundrobin"@ || name == "rr"@
            &&& found == Ok::<_, SchedulerError>(PacketSchedulingAlgorithm::Random) <==> name
                == "random"@ || name == "rand"@
            &&& found == Ok::<_, SchedulerError>(PacketSchedulingAlgorithm::LowestLatency) <==> name
                == "lowestlatency"@ || name == "ll"@
            &&& found == Ok::<_, SchedulerError>(
                PacketSchedulingAlgorithm::EarliestCompletionFirst,
            ) <==> name == "ecf"@
            &&& found == Ok::<_, SchedulerError>(
                PacketSchedulingAlgorithm::StreamAwareEarliestCompletionFirst,
            ) <==> name == "sa-ecf"@ || name == "eps-aware-ecf"@ || name == "stream-aware-ecf"@
        }),
{
    scheduler::lemma_names_differ();
}

/// A scheduler that is made for an algorithm is one of that algorithm. It has handed out no path
/// and waits for none.
pub proof fn law_fresh_scheduler(algorithm: PacketSchedulingAlgorithm)
    ensures
        ({
            let made = PacketSchedulerFactory::fresh(algorithm);
            match algorithm {
                PacketSchedulingAlgorithm::MinRTT => made is MinRTT,
                PacketSchedulingAlgorithm::LowRTT => made is LowRTT,
                PacketSchedulingAlgorithm::RoundRobin => made matches BoxedScheduler::RoundRobin(s)
                    && s.current_index == 0,
                PacketSchedulingAlgorithm::Random => made is Random,
                PacketSchedulingAlgorithm::LowestLatency => made is LowestLatency,
                PacketSchedulingAlgorithm::EarliestCompletionFirst => made matches BoxedScheduler::EarliestCompletionFirst(
                s) && !s.waiting,
                PacketSchedulingAlgorithm::StreamAwareEarliestCompletionFirst => made is StreamAwareEarliestCompletionFirst,
            }
        }),
        PacketSchedulerFactory::fresh(algorithm).of_algorithm() == algorithm,
{
}

/// Deciding changes nothing about the connection but which streams wait, and that only with
/// stream-aware ECF. A scheduler keeps its algorithm, and only round robin and ECF remember anything.
pub proof fn law_deciding_leaves_connection_alone<A: Copy>(
    scheduler: BoxedScheduler,
    conn: ConnectionState<A>,
    decision: Option<SchedulerDecision<A>>,
    after: BoxedScheduler,
    conn_after: ConnectionState<A>,
)
    requires
        scheduler.decides(conn, decision, after, conn_after),
    ensures
        conn_after.next_send_path_id == conn.next_send_path_id,
        conn_after.paths@ == conn.paths@,
        conn_after.send_buffer_size == conn.send_buffer_size,
        conn_after.verdicts@ == conn.verdicts@,
        !(scheduler is StreamAwareEarliestCompletionFirst) ==> conn_after.streams@
            == conn.streams@,
        conn_after.streams@.len() == conn.streams@.len(),
        forall|k: int|
            0 <= k < conn.streams@.len() ==> (#[trigger] conn_after.streams@[k]).id
                == conn.streams@[k].id,
        scheduler is RoundRobin <==> after is RoundRobin,
        scheduler is EarliestCompletionFirst <==> after is EarliestCompletionFirst,
        !(scheduler is RoundRobin || scheduler is EarliestCompletionFirst) ==> after == scheduler,
{
}

} // verus!
