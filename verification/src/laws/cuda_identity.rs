//! Who owns a CUDA activity.
use crate::cuda_identity::{
    distance, evidence_of, least_distance, native_pid, no_evidence, ContextRow, CudaEvidence,
    ProcessRow, RuntimeAnchor, RuntimeCallRow,
};
use vstd::prelude::*;

verus! {

/// The row gives the global number to a process.
pub open spec fn is_bridge(processes: Seq<ProcessRow>, global_pid: i64, i: int) -> bool {
    0 <= i < processes.len() && processes[i].global_pid == global_pid
}

/// The row is the last that gives the global number to a process.
pub open spec fn is_last_bridge(processes: Seq<ProcessRow>, global_pid: i64, i: int) -> bool {
    is_bridge(processes, global_pid, i) && forall|j: int|
        i < j < processes.len() ==> (#[trigger] processes[j]).global_pid != global_pid
}

/// A row of the context table gives the context to the process.
pub open spec fn owns(contexts: Seq<ContextRow>, device_id: i32, context_id: i64, pid: i64) -> bool {
    exists|i: int|
        0 <= i < contexts.len() && (#[trigger] contexts[i]).device_id == device_id
            && contexts[i].context_id == context_id && contexts[i].process_id == pid
}

/// The call is of the process and has the correlation. The process of a call is
/// in bits 24 to 47 of its thread.
pub open spec fn is_call(calls: Seq<RuntimeCallRow>, pid: i64, correlation_id: i64, i: int) -> bool {
    0 <= i < calls.len() && calls[i].correlation_id == correlation_id && (calls[i].global_tid >> 24)
        & 0xFF_FFFF == pid
}

/// Some row mentions the process: as a process, as the owner of a context or as
/// the caller of a runtime call.
pub open spec fn mentioned(
    processes: Seq<ProcessRow>,
    contexts: Seq<ContextRow>,
    calls: Seq<RuntimeCallRow>,
    pid: i64,
) -> bool {
    ||| exists|i: int| 0 <= i < processes.len() && (#[trigger] processes[i]).native_pid == pid
    ||| exists|i: int| 0 <= i < contexts.len() && (#[trigger] contexts[i]).process_id == pid
    ||| exists|i: int|
        0 <= i < calls.len() && ((#[trigger] calls[i]).global_tid >> 24) & 0xFF_FFFF == pid
}

/// Time between the end of the call and the start of the activity, whichever is
/// first. A call that ends before it starts ends where it starts.
pub open spec fn gap(call: RuntimeCallRow, start_ns: i64) -> int {
    let end = if call.end_ns < call.start_ns {
        call.start_ns
    } else {
        call.end_ns
    };
    if end < start_ns {
        start_ns - end
    } else {
        end - start_ns
    }
}

/// Of the owners of the context that made a call with the correlation, this one
/// made the closest, and no other made one as close.
pub open spec fn called_closest(
    contexts: Seq<ContextRow>,
    calls: Seq<RuntimeCallRow>,
    device_id: i32,
    context_id: i64,
    correlation_id: i64,
    start_ns: i64,
    pid: i64,
) -> bool {
    owns(contexts, device_id, context_id, pid) && exists|i: int|
        #![trigger calls[i]]
        is_call(calls, pid, correlation_id, i) && forall|other: i64, j: int|
            #![trigger is_call(calls, other, correlation_id, j)]
            other != pid && owns(contexts, device_id, context_id, other) && is_call(
                calls,
                other,
                correlation_id,
                j,
            ) ==> gap(calls[i], start_ns) < gap(calls[j], start_ns)
}

/// The one process that owns the context.
pub open spec fn sole_owner(contexts: Seq<ContextRow>, device_id: i32, context_id: i64, pid: i64) -> bool {
    owns(contexts, device_id, context_id, pid) && forall|other: i64|
        #[trigger] owns(contexts, device_id, context_id, other) ==> other == pid
}

/// The one process that is mentioned.
pub open spec fn sole_process(
    processes: Seq<ProcessRow>,
    contexts: Seq<ContextRow>,
    calls: Seq<RuntimeCallRow>,
    pid: i64,
) -> bool {
    mentioned(processes, contexts, calls, pid) && forall|other: i64|
        #[trigger] mentioned(processes, contexts, calls, other) ==> other == pid
}

/// The global number of the activity tells its process: it is bridged to one, or
/// it is the number of a process itself.
pub open spec fn told_by_number(
    processes: Seq<ProcessRow>,
    contexts: Seq<ContextRow>,
    calls: Seq<RuntimeCallRow>,
    global_pid: Option<i64>,
) -> bool {
    global_pid matches Some(g) && ((exists|i: int| is_bridge(processes, g, i)) || mentioned(
        processes,
        contexts,
        calls,
        g,
    ))
}


spec fn process_fold(processes: Seq<ProcessRow>) -> CudaEvidence {
    processes.fold_left(no_evidence(), |e: CudaEvidence, r: ProcessRow| e.with_process(r))
}

spec fn context_fold(start: CudaEvidence, contexts: Seq<ContextRow>) -> CudaEvidence {
    contexts.fold_left(start, |e: CudaEvidence, r: ContextRow| e.with_context(r))
}

spec fn call_fold(start: CudaEvidence, calls: Seq<RuntimeCallRow>) -> CudaEvidence {
    calls.fold_left(start, |e: CudaEvidence, r: RuntimeCallRow| e.with_call(r))
}

proof fn of_processes(processes: Seq<ProcessRow>)
    ensures
        ({
            let e = process_fold(processes);
            &&& e.context_processes == Map::<(i64, i64), Set<i64>>::empty()
            &&& e.runtime_anchors == Map::<(i64, i64), Seq<RuntimeAnchor>>::empty()
            &&& e.known_processes.finite()
            &&& forall|p: i64| #[trigger] e.known_processes.contains(p) <==> exists|i: int|
                0 <= i < processes.len() && (#[trigger] processes[i]).native_pid == p
            &&& forall|g: i64| #[trigger]
                e.global_to_native.contains_key(g) <==> exists|i: int| is_bridge(processes, g, i)
            &&& forall|g: i64, i: int| #[trigger]
                is_last_bridge(processes, g, i) ==> e.global_to_native[g] == processes[i].native_pid
        }),
    decreases processes.len(),
{
    reveal_with_fuel(Seq::fold_left, 2);
    let e = process_fold(processes);
    if processes.len() > 0 {
        let less = processes.drop_last();
        let row = processes.last();
        of_processes(less);
        let b = process_fold(less);
        let n = processes.len() - 1;
        assert(e == b.with_process(row));
        assert forall|p: i64| #[trigger] e.known_processes.contains(p) <==> exists|i: int|
            0 <= i < processes.len() && (#[trigger] processes[i]).native_pid == p by {
            if b.known_processes.contains(p) {
                let i: int = choose|i: int| 0 <= i < less.len() && (#[trigger] less[i]).native_pid == p;
                assert(processes[i].native_pid == p);
            }
            if p == row.native_pid {
                assert(processes[n].native_pid == p);
            }
            if exists|i: int| 0 <= i < processes.len() && (#[trigger] processes[i]).native_pid == p {
                let i: int = choose|i: int|
                    0 <= i < processes.len() && (#[trigger] processes[i]).native_pid == p;
                if i < n {
                    assert(less[i].native_pid == p);
                }
            }
        }
        assert forall|g: i64| #[trigger] e.global_to_native.contains_key(g) <==> exists|i: int|
            is_bridge(processes, g, i) by {
            if b.global_to_native.contains_key(g) {
                let i: int = choose|i: int| is_bridge(less, g, i);
                assert(is_bridge(processes, g, i));
            }
            if g == row.global_pid {
                assert(is_bridge(processes, g, n));
            }
            if exists|i: int| is_bridge(processes, g, i) {
                let i: int = choose|i: int| is_bridge(processes, g, i);
                if i < n {
                    assert(is_bridge(less, g, i));
                }
            }
        }
        assert forall|g: i64, i: int| #[trigger] is_last_bridge(processes, g, i) implies e.global_to_native[g]
            == processes[i].native_pid by {
            if i < n {
                assert(processes[n].global_pid != g);
                assert forall|j: int| i < j < less.len() implies (#[trigger] less[j]).global_pid != g by {
                    assert(processes[j].global_pid != g);
                }
                assert(is_last_bridge(less, g, i));
            }
        }
    }
}

proof fn of_contexts(start: CudaEvidence, contexts: Seq<ContextRow>)
    requires
        start.context_processes == Map::<(i64, i64), Set<i64>>::empty(),
        start.known_processes.finite(),
    ensures
        ({
            let e = context_fold(start, contexts);
            &&& e.global_to_native == start.global_to_native
            &&& e.runtime_anchors == start.runtime_anchors
            &&& e.known_processes.finite()
            &&& forall|p: i64| #[trigger]
                e.known_processes.contains(p) <==> start.known_processes.contains(p) || exists|i: int|
                    0 <= i < contexts.len() && (#[trigger] contexts[i]).process_id == p
            &&& forall|d: i32, x: i64, p: i64| #[trigger]
                e.owners(d, x).contains(p) <==> owns(contexts, d, x, p)
            &&& forall|d: i32, x: i64| (#[trigger] e.owners(d, x)).finite()
        }),
    decreases contexts.len(),
{
    reveal_with_fuel(Seq::fold_left, 2);
    let e = context_fold(start, contexts);
    if contexts.len() > 0 {
        let less = contexts.drop_last();
        let row = contexts.last();
        of_contexts(start, less);
        let b = context_fold(start, less);
        let n = contexts.len() - 1;
        assert(e == b.with_context(row));
        assert forall|p: i64| #[trigger] e.known_processes.contains(p) <==> start.known_processes.contains(p)
            || exists|i: int| 0 <= i < contexts.len() && (#[trigger] contexts[i]).process_id == p by {
            if b.known_processes.contains(p) && !start.known_processes.contains(p) {
                let i: int = choose|i: int| 0 <= i < less.len() && (#[trigger] less[i]).process_id == p;
                assert(contexts[i].process_id == p);
            }
            if p == row.process_id {
                assert(contexts[n].process_id == p);
            }
            if exists|i: int| 0 <= i < contexts.len() && (#[trigger] contexts[i]).process_id == p {
                let i: int = choose|i: int|
                    0 <= i < contexts.len() && (#[trigger] contexts[i]).process_id == p;
                if i < n {
                    assert(less[i].process_id == p);
                }
            }
        }
        assert forall|d: i32, x: i64| (#[trigger] e.owners(d, x)) == if d == row.device_id && x
            == row.context_id {
            b.owners(d, x).insert(row.process_id)
        } else {
            b.owners(d, x)
        } by {
            assert((d as i64, x) == (row.device_id as i64, row.context_id) <==> d == row.device_id && x
                == row.context_id);
        }
        assert forall|d: i32, x: i64, p: i64| #[trigger] e.owners(d, x).contains(p) <==> owns(
            contexts,
            d,
            x,
            p,
        ) by {
            if b.owners(d, x).contains(p) {
                let i: int = choose|i: int|
                    0 <= i < less.len() && (#[trigger] less[i]).device_id == d && less[i].context_id == x
                        && less[i].process_id == p;
                assert(contexts[i] == less[i]);
            }
            if d == row.device_id && x == row.context_id && p == row.process_id {
                assert(contexts[n] == row);
            }
            if owns(contexts, d, x, p) {
                let i: int = choose|i: int|
                    0 <= i < contexts.len() && (#[trigger] contexts[i]).device_id == d
                        && contexts[i].context_id == x && contexts[i].process_id == p;
                if i < n {
                    assert(less[i] == contexts[i]);
                    assert(owns(less, d, x, p));
                    assert(b.owners(d, x).contains(p));
                }
            }
        }
        assert forall|d: i32, x: i64| (#[trigger] e.owners(d, x)).finite() by {
            assert(b.owners(d, x).finite());
        }
    } else {
        assert forall|d: i32, x: i64, p: i64| #[trigger] e.owners(d, x).contains(p) <==> owns(
            contexts,
            d,
            x,
            p,
        ) by {
        }
    }
}

/// The anchor is that of the call.
spec fn anchors(a: RuntimeAnchor, r: RuntimeCallRow) -> bool {
    a.start_ns == r.start_ns && a.end_ns == r.end_ns
}

spec fn of_call(calls: Seq<RuntimeCallRow>, p: i64, c: i64, a: RuntimeAnchor, i: int) -> bool {
    is_call(calls, p, c, i) && anchors(a, calls[i])
}

spec fn has_call(calls: Seq<RuntimeCallRow>, p: i64, c: i64, a: RuntimeAnchor) -> bool {
    exists|i: int| of_call(calls, p, c, a, i)
}

proof fn of_calls(start: CudaEvidence, calls: Seq<RuntimeCallRow>)
    requires
        start.runtime_anchors == Map::<(i64, i64), Seq<RuntimeAnchor>>::empty(),
        start.known_processes.finite(),
    ensures
        ({
            let e = call_fold(start, calls);
            &&& e.global_to_native == start.global_to_native
            &&& e.context_processes == start.context_processes
            &&& e.known_processes.finite()
            &&& forall|p: i64| #[trigger]
                e.known_processes.contains(p) <==> start.known_processes.contains(p) || exists|i: int|
                    0 <= i < calls.len() && ((#[trigger] calls[i]).global_tid >> 24) & 0xFF_FFFF == p
            &&& forall|p: i64, c: i64, i: int| #[trigger]
                is_call(calls, p, c, i) ==> exists|k: int|
                    0 <= k < e.calls(p, c).len() && anchors(#[trigger] e.calls(p, c)[k], calls[i])
            &&& forall|p: i64, c: i64, k: int|
                0 <= k < e.calls(p, c).len() ==> has_call(calls, p, c, #[trigger] e.calls(p, c)[k])
        }),
    decreases calls.len(),
{
    reveal_with_fuel(Seq::fold_left, 2);
    let e = call_fold(start, calls);
    if calls.len() > 0 {
        let less = calls.drop_last();
        let row = calls.last();
        of_calls(start, less);
        let b = call_fold(start, less);
        let n = calls.len() - 1;
        let pid = native_pid(row.global_tid);
        assert(e == b.with_call(row));
        assert forall|p: i64| #[trigger] e.known_processes.contains(p) <==> start.known_processes.contains(p)
            || exists|i: int|
            0 <= i < calls.len() && ((#[trigger] calls[i]).global_tid >> 24) & 0xFF_FFFF == p by {
            if b.known_processes.contains(p) && !start.known_processes.contains(p) {
                let i: int = choose|i: int|
                    0 <= i < less.len() && ((#[trigger] less[i]).global_tid >> 24) & 0xFF_FFFF == p;
                assert((calls[i].global_tid >> 24) & 0xFF_FFFF == p);
            }
            if p == pid {
                assert((calls[n].global_tid >> 24) & 0xFF_FFFF == p);
            }
            if exists|i: int|
                0 <= i < calls.len() && ((#[trigger] calls[i]).global_tid >> 24) & 0xFF_FFFF == p {
                let i: int = choose|i: int|
                    0 <= i < calls.len() && ((#[trigger] calls[i]).global_tid >> 24) & 0xFF_FFFF == p;
                if i < n {
                    assert((less[i].global_tid >> 24) & 0xFF_FFFF == p);
                }
            }
        }
        assert forall|p: i64, c: i64| (#[trigger] e.calls(p, c)) == if p == pid && c
            == row.correlation_id {
            b.calls(p, c).push(RuntimeAnchor { start_ns: row.start_ns, end_ns: row.end_ns })
        } else {
            b.calls(p, c)
        } by {
        }
        assert forall|p: i64, c: i64, i: int| #[trigger] is_call(calls, p, c, i) implies exists|k: int|
            0 <= k < e.calls(p, c).len() && anchors(#[trigger] e.calls(p, c)[k], calls[i]) by {
            if i < n {
                assert(is_call(less, p, c, i));
                let k: int = choose|k: int|
                    0 <= k < b.calls(p, c).len() && anchors(#[trigger] b.calls(p, c)[k], less[i]);
                assert(e.calls(p, c)[k] == b.calls(p, c)[k]);
                assert(anchors(e.calls(p, c)[k], calls[i]));
            } else {
                let k = e.calls(p, c).len() - 1;
                assert(anchors(e.calls(p, c)[k], calls[i]));
            }
        }
        assert forall|p: i64, c: i64, k: int| 0 <= k < e.calls(p, c).len() implies has_call(
            calls,
            p,
            c,
            #[trigger] e.calls(p, c)[k],
        ) by {
            if k < b.calls(p, c).len() {
                assert(e.calls(p, c)[k] == b.calls(p, c)[k]);
                assert(has_call(less, p, c, b.calls(p, c)[k]));
                let i: int = choose|i: int| of_call(less, p, c, b.calls(p, c)[k], i);
                assert(less[i] == calls[i]);
                assert(of_call(calls, p, c, e.calls(p, c)[k], i));
            } else {
                assert(of_call(calls, p, c, e.calls(p, c)[k], n));
            }
        }
    }
}

proof fn nearest_of(anchors: Seq<RuntimeAnchor>, start_ns: i64)
    requires
        anchors.len() > 0,
    ensures
        forall|k: int|
            0 <= k < anchors.len() ==> least_distance(anchors, start_ns) <= distance(
                #[trigger] anchors[k],
                start_ns,
            ),
        exists|k: int|
            0 <= k < anchors.len() && least_distance(anchors, start_ns) == distance(
                #[trigger] anchors[k],
                start_ns,
            ),
    decreases anchors.len(),
{
    if anchors.len() > 1 {
        let less = anchors.drop_last();
        nearest_of(less, start_ns);
        let n = anchors.len() - 1;
        assert forall|k: int| 0 <= k < anchors.len() implies least_distance(anchors, start_ns)
            <= distance(#[trigger] anchors[k], start_ns) by {
            if k < n {
                assert(less[k] == anchors[k]);
            }
        }
        let j: int = choose|k: int|
            0 <= k < less.len() && least_distance(less, start_ns) == distance(
                #[trigger] less[k],
                start_ns,
            );
        assert(anchors[j] == less[j]);
        assert(anchors[n] == anchors.last());
    } else {
        assert(least_distance(anchors, start_ns) == distance(anchors[0], start_ns));
    }
}

proof fn distance_is_gap(a: RuntimeAnchor, r: RuntimeCallRow, start_ns: i64)
    requires
        anchors(a, r),
    ensures
        distance(a, start_ns) == gap(r, start_ns),
{
}

proof fn closest_is_called_closest(
    processes: Seq<ProcessRow>,
    contexts: Seq<ContextRow>,
    calls: Seq<RuntimeCallRow>,
    device_id: i32,
    context_id: i64,
    correlation_id: i64,
    start_ns: i64,
    pid: i64,
)
    ensures
        ({
            let e = evidence_of(processes, contexts, calls);
            e.is_closest(e.owners(device_id, context_id), correlation_id, start_ns, pid)
        }) <==> called_closest(
            contexts,
            calls,
            device_id,
            context_id,
            correlation_id,
            start_ns,
            pid,
        ),
{
    let a = process_fold(processes);
    let b = context_fold(a, contexts);
    let e = evidence_of(processes, contexts, calls);
    let c = correlation_id;
    of_processes(processes);
    of_contexts(a, contexts);
    of_calls(b, calls);
    assert(e == call_fold(b, calls));
    assert(e.owners(device_id, context_id) == b.owners(device_id, context_id));
    let owners = e.owners(device_id, context_id);
    if e.is_closest(owners, c, start_ns, pid) {
        nearest_of(e.calls(pid, c), start_ns);
        let k: int = choose|k: int|
            0 <= k < e.calls(pid, c).len() && least_distance(e.calls(pid, c), start_ns) == distance(
                #[trigger] e.calls(pid, c)[k],
                start_ns,
            );
        assert(has_call(calls, pid, c, e.calls(pid, c)[k]));
        let i: int = choose|i: int| of_call(calls, pid, c, e.calls(pid, c)[k], i);
        assert(of_call(calls, pid, c, e.calls(pid, c)[k], i));
        distance_is_gap(e.calls(pid, c)[k], calls[i], start_ns);
        assert forall|other: i64, j: int|
            #![trigger is_call(calls, other, c, j)]
            other != pid && owns(contexts, device_id, context_id, other) && is_call(
                calls,
                other,
                c,
                j,
            ) implies gap(calls[i], start_ns) < gap(calls[j], start_ns) by {
            assert(owners.contains(other));
            let m: int = choose|m: int|
                0 <= m < e.calls(other, c).len() && anchors(#[trigger] e.calls(other, c)[m], calls[j]);
            nearest_of(e.calls(other, c), start_ns);
            distance_is_gap(e.calls(other, c)[m], calls[j], start_ns);
        }
        assert(owners.contains(pid));
        assert(called_closest(contexts, calls, device_id, context_id, c, start_ns, pid));
    }
    if called_closest(contexts, calls, device_id, context_id, c, start_ns, pid) {
        assert(owners.contains(pid));
        let i: int = choose|i: int|
            #![trigger calls[i]]
            is_call(calls, pid, c, i) && forall|other: i64, j: int|
                #![trigger is_call(calls, other, c, j)]
                other != pid && owns(contexts, device_id, context_id, other) && is_call(
                    calls,
                    other,
                    c,
                    j,
                ) ==> gap(calls[i], start_ns) < gap(calls[j], start_ns);
        assert(is_call(calls, pid, c, i));
        let k: int = choose|k: int|
            0 <= k < e.calls(pid, c).len() && anchors(#[trigger] e.calls(pid, c)[k], calls[i]);
        nearest_of(e.calls(pid, c), start_ns);
        distance_is_gap(e.calls(pid, c)[k], calls[i], start_ns);
        assert forall|other: i64|
            #![trigger owners.contains(other)]
            owners.contains(other) && other != pid && e.calls(other, c).len() > 0 implies least_distance(
            e.calls(pid, c),
            start_ns,
        ) < least_distance(e.calls(other, c), start_ns) by {
            nearest_of(e.calls(other, c), start_ns);
            let m: int = choose|m: int|
                0 <= m < e.calls(other, c).len() && least_distance(e.calls(other, c), start_ns)
                    == distance(#[trigger] e.calls(other, c)[m], start_ns);
            assert(has_call(calls, other, c, e.calls(other, c)[m]));
            let j: int = choose|j: int| of_call(calls, other, c, e.calls(other, c)[m], j);
            assert(of_call(calls, other, c, e.calls(other, c)[m], j));
            assert(is_call(calls, other, c, j));
            distance_is_gap(e.calls(other, c)[m], calls[j], start_ns);
        }
    }
}

proof fn one_member(s: Set<i64>, p: i64)
    requires
        s.finite(),
    ensures
        (s.len() == 1 && s.contains(p)) ==> s.choose() == p,
        (s.contains(p) && forall|q: i64| #[trigger] s.contains(q) ==> q == p) ==> s.len() == 1,
        s.len() == 1 ==> s.contains(s.choose()),
        s.len() == 1 ==> forall|q: i64| #[trigger] s.contains(q) ==> q == s.choose(),
{
    if s.len() == 1 {
        let x = s.choose();
        assert(s.contains(x)) by {
            if forall|y: i64| !s.contains(y) {
                assert(s =~= Set::empty());
            }
        }
        assert forall|q: i64| #[trigger] s.contains(q) implies q == x by {
            if q != x {
                let rest = s.remove(x);
                assert(rest.contains(q));
                assert(rest.len() == 0);
                assert(rest =~= Set::empty());
            }
        }
    }
    if s.contains(p) && forall|q: i64| #[trigger] s.contains(q) ==> q == p {
        assert(s =~= Set::<i64>::empty().insert(p));
    }
}

/// Whom a CUDA activity belongs to, told of the rows that a resolver was built
/// from.
///
/// A global number that a process row bridges gives the process of the last such
/// row; one that is itself mentioned as a process gives that. Otherwise the sole
/// owner of the context; otherwise the owner whose call with the correlation ended
/// closest to the start, if one is closer than all others; otherwise the only
/// process that is mentioned at all. In all other cases nobody is found.
pub proof fn activities_have_their_owners(
    processes: Seq<ProcessRow>,
    contexts: Seq<ContextRow>,
    calls: Seq<RuntimeCallRow>,
    device_id: i32,
    context_id: i64,
    correlation_id: Option<i64>,
    start_ns: i64,
    global_pid: Option<i64>,
    owner: Option<i64>,
)
    requires
        owner == evidence_of(processes, contexts, calls).owner(
            device_id,
            context_id,
            correlation_id,
            start_ns,
            global_pid,
        ),
    ensures
        forall|g: i64, i: int|
            global_pid == Some(g) && #[trigger] is_last_bridge(processes, g, i) ==> owner == Some(
                processes[i].native_pid,
            ),
        forall|g: i64|
            global_pid == Some(g) && #[trigger] mentioned(processes, contexts, calls, g) && !(exists|
                i: int,
            | is_bridge(processes, g, i)) ==> owner == Some(g),
        forall|p: i64|
            !told_by_number(processes, contexts, calls, global_pid) && #[trigger] sole_owner(
                contexts,
                device_id,
                context_id,
                p,
            ) ==> owner == Some(p),
        forall|p: i64, c: i64|
            !told_by_number(processes, contexts, calls, global_pid) && correlation_id == Some(c)
                && !(exists|q: i64| sole_owner(contexts, device_id, context_id, q))
                && #[trigger] called_closest(
                contexts,
                calls,
                device_id,
                context_id,
                c,
                start_ns,
                p,
            ) ==> owner == Some(p),
        forall|p: i64|
            !told_by_number(processes, contexts, calls, global_pid) && !(exists|q: i64|
                sole_owner(contexts, device_id, context_id, q)) && !(correlation_id matches Some(c)
                && exists|q: i64|
                called_closest(contexts, calls, device_id, context_id, c, start_ns, q))
                && #[trigger] sole_process(processes, contexts, calls, p) ==> owner == Some(p),
        !told_by_number(processes, contexts, calls, global_pid) && !(exists|q: i64|
            sole_owner(contexts, device_id, context_id, q)) && !(correlation_id matches Some(c)
            && exists|q: i64|
            called_closest(contexts, calls, device_id, context_id, c, start_ns, q)) && !(exists|
            q: i64,
        | sole_process(processes, contexts, calls, q)) ==> owner is None,
{
    let a = process_fold(processes);
    let b = context_fold(a, contexts);
    let e = evidence_of(processes, contexts, calls);
    of_processes(processes);
    of_contexts(a, contexts);
    of_calls(b, calls);
    assert(e == call_fold(b, calls));
    assert(e.owners(device_id, context_id) == b.owners(device_id, context_id));
    let owners = e.owners(device_id, context_id);
    assert forall|p: i64| #[trigger] e.known_processes.contains(p) <==> mentioned(
        processes,
        contexts,
        calls,
        p,
    ) by {
    }
    assert forall|p: i64| #[trigger] owners.contains(p) <==> owns(contexts, device_id, context_id, p) by {
    }
    assert(owners.finite());
    assert(owners.len() == 1 <==> exists|q: i64| sole_owner(contexts, device_id, context_id, q)) by {
        one_member(owners, owners.choose());
        if owners.len() == 1 {
            assert(owners.contains(owners.choose()));
            assert forall|other: i64| #[trigger] owns(contexts, device_id, context_id, other) implies other
                == owners.choose() by {
                assert(owners.contains(other));
            }
            assert(sole_owner(contexts, device_id, context_id, owners.choose()));
        }
        if exists|q: i64| sole_owner(contexts, device_id, context_id, q) {
            let q: i64 = choose|q: i64| sole_owner(contexts, device_id, context_id, q);
            one_member(owners, q);
            assert(owners.contains(q));
        }
    }
    assert forall|p: i64| #[trigger] sole_owner(contexts, device_id, context_id, p) implies owners.choose()
        == p by {
        one_member(owners, p);
        assert(owners.contains(p));
    }
    assert(e.known_processes.len() == 1 <==> exists|q: i64|
        sole_process(processes, contexts, calls, q)) by {
        let known = e.known_processes;
        one_member(known, known.choose());
        if known.len() == 1 {
            assert(known.contains(known.choose()));
            assert forall|other: i64| #[trigger] mentioned(processes, contexts, calls, other) implies other
                == known.choose() by {
                assert(known.contains(other));
            }
            assert(sole_process(processes, contexts, calls, known.choose()));
        }
        if exists|q: i64| sole_process(processes, contexts, calls, q) {
            let q: i64 = choose|q: i64| sole_process(processes, contexts, calls, q);
            one_member(known, q);
            assert(known.contains(q));
        }
    }
    assert forall|p: i64| #[trigger] sole_process(processes, contexts, calls, p) implies e.known_processes.choose()
        == p by {
        one_member(e.known_processes, p);
        assert(e.known_processes.contains(p));
    }
    if correlation_id is Some {
        let c = correlation_id->0;
        assert forall|p: i64| #[trigger] e.is_closest(owners, c, start_ns, p) <==> called_closest(
            contexts,
            calls,
            device_id,
            context_id,
            c,
            start_ns,
            p,
        ) by {
            closest_is_called_closest(
                processes,
                contexts,
                calls,
                device_id,
                context_id,
                c,
                start_ns,
                p,
            );
        }
        assert forall|p: i64| #[trigger] called_closest(
            contexts,
            calls,
            device_id,
            context_id,
            c,
            start_ns,
            p,
        ) implies e.closest(owners, c, start_ns) == Some(p) by {
            assert(e.is_closest(owners, c, start_ns, p));
            let q: i64 = choose|q: i64| e.is_closest(owners, c, start_ns, q);
            assert(e.is_closest(owners, c, start_ns, q));
            if q != p {
                assert(owners.contains(q) && owners.contains(p));
            }
        }
        if e.closest(owners, c, start_ns) is Some {
            let q: i64 = choose|q: i64| e.is_closest(owners, c, start_ns, q);
            assert(e.is_closest(owners, c, start_ns, q));
            assert(called_closest(contexts, calls, device_id, context_id, c, start_ns, q));
        }
    }
    if global_pid is Some {
        let g = global_pid->0;
        assert(e.global_to_native.contains_key(g) <==> exists|i: int| is_bridge(processes, g, i));
        assert(e.known_processes.contains(g) <==> mentioned(processes, contexts, calls, g));
        assert forall|i: int| #[trigger] is_last_bridge(processes, g, i) implies is_bridge(
            processes,
            g,
            i,
        ) by {
        }
    }
}

} // verus!
