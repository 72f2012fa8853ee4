//! Process-aware identity for CUDA activity rows.
//!
//! CUDA ordinals and handles are process-local. In particular, two rank
//! processes that each expose one physical GPU through `CUDA_VISIBLE_DEVICES`
//! can both emit `(device=0, context=1, stream=7, correlation=42)`. This
//! module resolves the owning native PID before callers group or correlate
//! those rows.
use crate::error::{NsysDataError, NsysDataResult};
use crate::keymap::PairMap;
use crate::schema::TraceSchema;
use crate::text::{join, joined, strings};
use std::collections::{HashMap, HashSet};
use vstd::prelude::*;
use vstd::string::StringExecFns;

verus! {

broadcast use vstd::std_specs::hash::group_hash_axioms;

/// One row of `PROCESSES`.
#[derive(Debug, Clone, Copy)]
pub struct ProcessRow {
    pub global_pid: i64,
    pub native_pid: i64,
}

/// One row of `TARGET_INFO_CUDA_CONTEXT_INFO`.
#[derive(Debug, Clone, Copy)]
pub struct ContextRow {
    pub device_id: i32,
    pub context_id: i64,
    pub process_id: i64,
}

/// One correlated row of `CUPTI_ACTIVITY_KIND_RUNTIME`.
#[derive(Debug, Clone, Copy)]
pub struct RuntimeCallRow {
    pub correlation_id: i64,
    pub global_tid: i64,
    pub start_ns: i64,
    pub end_ns: i64,
}

/// When a runtime call started and ended.
#[derive(Debug, Clone, Copy)]
pub struct RuntimeAnchor {
    pub start_ns: i64,
    pub end_ns: i64,
}

/// What a trace tells about the owners of CUDA activity.
#[verifier::ext_equal]
pub struct CudaEvidence {
    /// Native PID of each global PID.
    pub global_to_native: Map<i64, i64>,
    /// Processes that own a `(device, context)`.
    pub context_processes: Map<(i64, i64), Set<i64>>,
    /// Runtime calls of a `(native PID, correlation)`.
    pub runtime_anchors: Map<(i64, i64), Seq<RuntimeAnchor>>,
    /// All processes that the trace mentions.
    pub known_processes: Set<i64>,
}

/// No evidence.
pub open spec fn no_evidence() -> CudaEvidence {
    CudaEvidence {
        global_to_native: Map::empty(),
        context_processes: Map::empty(),
        runtime_anchors: Map::empty(),
        known_processes: Set::empty(),
    }
}

impl CudaEvidence {
    /// Processes that own the `(device, context)`.
    pub open spec fn owners(self, device_id: i32, context_id: i64) -> Set<i64> {
        if self.context_processes.contains_key((device_id as i64, context_id)) {
            self.context_processes[(device_id as i64, context_id)]
        } else {
            Set::empty()
        }
    }

    /// Runtime calls of the process with the correlation.
    pub open spec fn calls(self, pid: i64, correlation_id: i64) -> Seq<RuntimeAnchor> {
        if self.runtime_anchors.contains_key((pid, correlation_id)) {
            self.runtime_anchors[(pid, correlation_id)]
        } else {
            Seq::empty()
        }
    }

    /// The evidence with one more row of `PROCESSES`.
    pub open spec fn with_process(self, row: ProcessRow) -> CudaEvidence {
        CudaEvidence {
            global_to_native: self.global_to_native.insert(row.global_pid, row.native_pid),
            known_processes: self.known_processes.insert(row.native_pid),
            ..self
        }
    }

    /// The evidence with one more row of `TARGET_INFO_CUDA_CONTEXT_INFO`.
    pub open spec fn with_context(self, row: ContextRow) -> CudaEvidence {
        CudaEvidence {
            context_processes: self.context_processes.insert(
                (row.device_id as i64, row.context_id),
                self.owners(row.device_id, row.context_id).insert(row.process_id),
            ),
            known_processes: self.known_processes.insert(row.process_id),
            ..self
        }
    }

    /// The evidence with one more runtime call.
    pub open spec fn with_call(self, row: RuntimeCallRow) -> CudaEvidence {
        let pid = native_pid(row.global_tid);
        CudaEvidence {
            runtime_anchors: self.runtime_anchors.insert(
                (pid, row.correlation_id),
                self.calls(pid, row.correlation_id).push(
                    RuntimeAnchor { start_ns: row.start_ns, end_ns: row.end_ns },
                ),
            ),
            known_processes: self.known_processes.insert(pid),
            ..self
        }
    }

    /// The process of an activity row.
    ///
    /// 1. the activity's `globalPid` bridged through `PROCESSES`, or taken as
    ///    a native PID where the trace knows it as one;
    /// 2. the sole owner of the `(device, context)`;
    /// 3. the owner whose same-correlation runtime call is closest in time;
    /// 4. the sole process known to the trace.
    pub open spec fn owner(
        self,
        device_id: i32,
        context_id: i64,
        correlation_id: Option<i64>,
        start_ns: i64,
        global_pid: Option<i64>,
    ) -> Option<i64> {
        let owners = self.owners(device_id, context_id);
        if global_pid is Some && self.global_to_native.contains_key(global_pid->0) {
            Some(self.global_to_native[global_pid->0])
        } else if global_pid is Some && self.known_processes.contains(global_pid->0) {
            global_pid
        } else if owners.len() == 1 {
            Some(owners.choose())
        } else if correlation_id is Some && self.closest(owners, correlation_id->0, start_ns)
            is Some {
            self.closest(owners, correlation_id->0, start_ns)
        } else if self.known_processes.len() == 1 {
            Some(self.known_processes.choose())
        } else {
            None
        }
    }

    /// `pid` has a runtime call with the correlation that is strictly closer to
    /// `start_ns` than those of every other candidate.
    pub open spec fn is_closest(
        self,
        candidates: Set<i64>,
        correlation_id: i64,
        start_ns: i64,
        pid: i64,
    ) -> bool {
        &&& candidates.contains(pid)
        &&& self.calls(pid, correlation_id).len() > 0
        &&& forall|other: i64|
            #![trigger candidates.contains(other)]
            candidates.contains(other) && other != pid && self.calls(other, correlation_id).len()
                > 0 ==> least_distance(self.calls(pid, correlation_id), start_ns) < least_distance(
                self.calls(other, correlation_id),
                start_ns,
            )
    }

    /// The candidate with the closest runtime call; none where two are equally
    /// close.
    pub open spec fn closest(
        self,
        candidates: Set<i64>,
        correlation_id: i64,
        start_ns: i64,
    ) -> Option<i64> {
        if exists|pid: i64| self.is_closest(candidates, correlation_id, start_ns, pid) {
            Some(choose|pid: i64| self.is_closest(candidates, correlation_id, start_ns, pid))
        } else {
            None
        }
    }
}

/// How far the end of a runtime call is from an activity's start. A call whose
/// end lies before its start ends where it starts.
pub open spec fn distance(anchor: RuntimeAnchor, start_ns: i64) -> nat {
    let launch_end = if anchor.end_ns >= anchor.start_ns {
        anchor.end_ns
    } else {
        anchor.start_ns
    };
    if launch_end >= start_ns {
        (launch_end - start_ns) as nat
    } else {
        (start_ns - launch_end) as nat
    }
}

/// The distance of the closest of the calls.
pub open spec fn least_distance(anchors: Seq<RuntimeAnchor>, start_ns: i64) -> nat
    decreases anchors.len(),
{
    if anchors.len() <= 1 {
        distance(anchors[0], start_ns)
    } else {
        let rest = least_distance(anchors.drop_last(), start_ns);
        let last = distance(anchors.last(), start_ns);
        if last < rest {
            last
        } else {
            rest
        }
    }
}

/// In-memory resolver shared by sidecar and correlation-index builders.
pub struct CudaProcessResolver {
    global_to_native: HashMap<i64, i64>,
    context_processes: PairMap<Vec<i64>>,
    runtime_anchors: PairMap<Vec<RuntimeAnchor>>,
    known_processes: HashSet<i64>,
    /// The first process that became known.
    first_known: Option<i64>,
}

impl View for CudaProcessResolver {
    type V = CudaEvidence;

    closed spec fn view(&self) -> CudaEvidence {
        CudaEvidence {
            global_to_native: self.global_to_native@,
            context_processes: self.context_processes@.map_values(|v: Vec<i64>| v@.to_set()),
            runtime_anchors: self.runtime_anchors@.map_values(|v: Vec<RuntimeAnchor>| v@),
            known_processes: self.known_processes@,
        }
    }
}

impl Default for CudaProcessResolver {
    fn default() -> (resolver: Self)
        ensures
            resolver@ == no_evidence(),
            resolver.wf(),
    {
        let resolver = CudaProcessResolver {
            global_to_native: HashMap::new(),
            context_processes: PairMap::new(),
            runtime_anchors: PairMap::new(),
            known_processes: HashSet::new(),
            first_known: None,
        };
        assert(resolver@ =~= no_evidence());
        resolver
    }
}

/// The evidence of all rows.
pub open spec fn evidence_of(
    processes: Seq<ProcessRow>,
    contexts: Seq<ContextRow>,
    calls: Seq<RuntimeCallRow>,
) -> CudaEvidence {
    let a = processes.fold_left(no_evidence(), |e: CudaEvidence, r: ProcessRow| e.with_process(r));
    let b = contexts.fold_left(a, |e: CudaEvidence, r: ContextRow| e.with_context(r));
    calls.fold_left(b, |e: CudaEvidence, r: RuntimeCallRow| e.with_call(r))
}

/// One more element of a left fold.
proof fn fold_step<A, B>(s: Seq<A>, start: B, f: spec_fn(B, A) -> B, i: int)
    requires
        0 <= i < s.len(),
    ensures
        s.subrange(0, i + 1).fold_left(start, f) == f(s.subrange(0, i).fold_left(start, f), s[i]),
{
    let more = s.subrange(0, i + 1);
    assert(more.drop_last() =~= s.subrange(0, i));
    assert(more.last() == s[i]);
    reveal_with_fuel(Seq::fold_left, 2);
}

impl CudaProcessResolver {
    /// Candidate lists hold no process twice, and the first known process is
    /// there as soon as any process is known.
    pub closed spec fn wf(&self) -> bool {
        &&& forall|k: (i64, i64)|
            #![trigger self.context_processes@[k]]
            self.context_processes@.contains_key(k)
                ==> self.context_processes@[k]@.no_duplicates()
        &&& self.known_processes@.finite()
        &&& self.first_known is Some <==> self.known_processes@.len() > 0
        &&& self.first_known matches Some(pid) ==> self.known_processes@.contains(pid)
    }

    /// The resolver over the rows of a trace.
    pub fn build(
        processes: &Vec<ProcessRow>,
        contexts: &Vec<ContextRow>,
        calls: &Vec<RuntimeCallRow>,
    ) -> (resolver: Self)
        ensures
            resolver@ == evidence_of(processes@, contexts@, calls@),
            resolver.wf(),
    {
        let mut resolver = CudaProcessResolver::default();
        let ghost pf = |e: CudaEvidence, r: ProcessRow| e.with_process(r);
        let ghost cf = |e: CudaEvidence, r: ContextRow| e.with_context(r);
        let ghost rf = |e: CudaEvidence, r: RuntimeCallRow| e.with_call(r);
        let ghost start = no_evidence();
        let mut i: usize = 0;
        assert(processes@.subrange(0, 0).fold_left(start, pf) == start);
        while i < processes.len()
            invariant
                i <= processes.len(),
                resolver.wf(),
                pf == (|e: CudaEvidence, r: ProcessRow| e.with_process(r)),
                resolver@ == processes@.subrange(0, i as int).fold_left(start, pf),
            decreases processes.len() - i,
        {
            resolver.add_process(processes[i]);
            proof {
                fold_step(processes@, start, pf, i as int);
            }
            i = i + 1;
        }
        assert(processes@.subrange(0, i as int) =~= processes@);
        let ghost a = resolver@;
        let mut i: usize = 0;
        assert(contexts@.subrange(0, 0).fold_left(a, cf) == a);
        while i < contexts.len()
            invariant
                i <= contexts.len(),
                resolver.wf(),
                cf == (|e: CudaEvidence, r: ContextRow| e.with_context(r)),
                resolver@ == contexts@.subrange(0, i as int).fold_left(a, cf),
            decreases contexts.len() - i,
        {
            resolver.add_context(contexts[i]);
            proof {
                fold_step(contexts@, a, cf, i as int);
            }
            i = i + 1;
        }
        assert(contexts@.subrange(0, i as int) =~= contexts@);
        let ghost b = resolver@;
        let mut i: usize = 0;
        assert(calls@.subrange(0, 0).fold_left(b, rf) == b);
        while i < calls.len()
            invariant
                i <= calls.len(),
                resolver.wf(),
                rf == (|e: CudaEvidence, r: RuntimeCallRow| e.with_call(r)),
                resolver@ == calls@.subrange(0, i as int).fold_left(b, rf),
            decreases calls.len() - i,
        {
            resolver.add_runtime_call(calls[i]);
            proof {
                fold_step(calls@, b, rf, i as int);
            }
            i = i + 1;
        }
        assert(calls@.subrange(0, i as int) =~= calls@);
        resolver
    }

    /// Adds one row of `PROCESSES`.
    fn add_process(&mut self, row: ProcessRow)
        requires
            old(self).wf(),
        ensures
            final(self).wf(),
            final(self)@ == old(self)@.with_process(row),
    {
        self.global_to_native.insert(row.global_pid, row.native_pid);
        self.remember(row.native_pid);
        assert(self@ =~= old(self)@.with_process(row));
    }

    /// Notes that the trace mentions the process.
    fn remember(&mut self, pid: i64)
        requires
            old(self).wf(),
        ensures
            final(self).wf(),
            final(self)@ == (CudaEvidence {
                known_processes: old(self)@.known_processes.insert(pid),
                ..old(self)@
            }),
    {
        self.known_processes.insert(pid);
        if self.first_known.is_none() {
            self.first_known = Some(pid);
        }
        assert(self.known_processes@.contains(pid));
        assert(self.known_processes@.len() > 0) by {
            if self.known_processes@.len() == 0 {
                assert(self.known_processes@ =~= Set::empty());
            }
        }
        assert(self@ =~= (CudaEvidence {
            known_processes: old(self)@.known_processes.insert(pid),
            ..old(self)@
        }));
    }

    /// Adds one row of `TARGET_INFO_CUDA_CONTEXT_INFO`.
    fn add_context(&mut self, row: ContextRow)
        requires
            old(self).wf(),
        ensures
            final(self).wf(),
            final(self)@ == old(self)@.with_context(row),
    {
        let device: i64 = row.device_id as i64;
        let ghost key = (device, row.context_id);
        let mut pids: Vec<i64> = match self.context_processes.remove(device, row.context_id) {
            Some(pids) => pids,
            None => Vec::new(),
        };
        let ghost before = pids@;
        assert(before.to_set() =~= old(self)@.owners(row.device_id, row.context_id)) by {
            if old(self).context_processes@.contains_key(key) {
            } else {
                assert(before.to_set() =~= Set::empty());
            }
        }
        if !holds(&pids, row.process_id) {
            pids.push(row.process_id);
            assert(pids@.no_duplicates());
        }
        proof {
            assert(pids@.to_set() =~= before.to_set().insert(row.process_id)) by {
                assert forall|v: i64| pids@.to_set().contains(v) <==> before.to_set().insert(
                    row.process_id,
                ).contains(v) by {
                    if before.contains(v) {
                        let i: int = choose|i: int| 0 <= i < before.len() && before[i] == v;
                        assert(pids@[i] == v);
                    }
                    if v == row.process_id && !before.contains(v) {
                        assert(pids@[pids.len() - 1] == v);
                    }
                }
            }
        }
        self.context_processes.insert(device, row.context_id, pids);
        assert(self.context_processes@ =~= old(self).context_processes@.insert(key, pids));
        self.remember(row.process_id);
        assert(self@ =~= old(self)@.with_context(row));
    }

    /// Adds one runtime call.
    fn add_runtime_call(&mut self, row: RuntimeCallRow)
        requires
            old(self).wf(),
        ensures
            final(self).wf(),
            final(self)@ == old(self)@.with_call(row),
    {
        let pid: i64 = native_pid_from_global_tid(row.global_tid);
        let ghost key = (pid, row.correlation_id);
        let mut anchors: Vec<RuntimeAnchor> = match self.runtime_anchors.remove(
            pid,
            row.correlation_id,
        ) {
            Some(anchors) => anchors,
            None => Vec::new(),
        };
        assert(anchors@ =~= old(self)@.calls(pid, row.correlation_id));
        anchors.push(RuntimeAnchor { start_ns: row.start_ns, end_ns: row.end_ns });
        self.runtime_anchors.insert(pid, row.correlation_id, anchors);
        assert(self.runtime_anchors@ =~= old(self).runtime_anchors@.insert(key, anchors));
        self.remember(pid);
        assert(self@ =~= old(self)@.with_call(row));
    }

    /// Resolve a CUDA activity row to its native PID.
    ///
    /// Resolution order is:
    /// 1. the activity's `globalPid` bridged through `PROCESSES`;
    /// 2. a unique `(device, context) -> process` mapping;
    /// 3. the process whose same-correlation runtime call is temporally
    ///    closest to the activity;
    /// 4. the sole process known to the trace;
    /// 5. unresolved (`None`) when the trace does not contain enough
    ///    ownership evidence.
    pub fn resolve(
        &self,
        device_id: i32,
        context_id: i64,
        correlation_id: Option<i64>,
        start_ns: i64,
        global_pid: Option<i64>,
    ) -> (pid: Option<i64>)
        requires
            self.wf(),
        ensures
            pid == self@.owner(device_id, context_id, correlation_id, start_ns, global_pid),
    {
        if let Some(global) = global_pid {
            if let Some(native) = self.global_to_native.get(&global) {
                return Some(*native);
            }
            // Some partial exports carry a native pid directly but omit
            // PROCESSES. Accept it only when another trace table confirms
            // that pid, avoiding an ungrounded global-id interpretation.
            if self.known_processes.contains(&global) {
                return Some(global);
            }
        }
        let ghost owners = self@.owners(device_id, context_id);
        let found: Option<i64> = match self.context_processes.get(device_id as i64, context_id) {
            Some(candidates) => {
                assert(owners =~= candidates@.to_set());
                proof {
                    candidates@.unique_seq_to_set();
                }
                if candidates.len() == 1 {
                    assert(owners.contains(candidates@[0]));
                    assert(owners.contains(owners.choose()));
                    return Some(candidates[0]);
                }
                match correlation_id {
                    Some(correlation) => self.closest_runtime_process(
                        candidates,
                        correlation,
                        start_ns,
                    ),
                    None => None,
                }
            },
            None => {
                assert(owners =~= Set::empty());
                assert(correlation_id is Some ==> self@.closest(
                    owners,
                    correlation_id->0,
                    start_ns,
                ) is None);
                None
            },
        };
        if found.is_some() {
            return found;
        }
        if self.known_processes.len() == 1 {
            proof {
                assert(self@.known_processes.contains(self@.known_processes.choose()));
                let only = self.first_known->0;
                let rest = self@.known_processes.remove(only);
                assert(rest.len() == 0);
                assert(rest =~= Set::empty());
                assert(!rest.contains(self@.known_processes.choose()));
            }
            return self.first_known;
        }
        None
    }

    /// Resolve an activity row whose downstream identity requires a native PID.
    pub fn resolve_required(
        &self,
        table: &str,
        device_id: i32,
        context_id: i64,
        correlation_id: Option<i64>,
        start_ns: i64,
        global_pid: Option<i64>,
    ) -> (pid: NsysDataResult<i64>)
        requires
            self.wf(),
        ensures
            match self@.owner(device_id, context_id, correlation_id, start_ns, global_pid) {
                Some(owner) => pid == Ok::<i64, NsysDataError>(owner),
                None => pid matches Err(NsysDataError::CudaProcessUnresolved {
                    table: t,
                    device_id: d,
                    context_id: c,
                    correlation_id: r,
                }) && t@ == table@ && d == device_id && c == context_id && r == correlation_id,
            },
    {
        match self.resolve(device_id, context_id, correlation_id, start_ns, global_pid) {
            Some(pid) => Ok(pid),
            None => Err(
                NsysDataError::cuda_process_unresolved(
                    table,
                    device_id,
                    context_id,
                    correlation_id,
                ),
            ),
        }
    }

    /// The candidate with the closest runtime call; none where two are equally
    /// close.
    fn closest_runtime_process(
        &self,
        candidates: &Vec<i64>,
        correlation_id: i64,
        activity_start_ns: i64,
    ) -> (pid: Option<i64>)
        requires
            candidates@.no_duplicates(),
        ensures
            pid == self@.closest(candidates@.to_set(), correlation_id, activity_start_ns),
    {
        let ghost set = candidates@.to_set();
        let ghost ev = self@;
        // The best candidate so far, its distance, and whether another one is
        // as close.
        let mut best: Option<(i64, u64)> = None;
        let mut tied: bool = false;
        let ghost mut best_at: int = 0;
        let ghost mut tie_at: int = 0;
        let mut i: usize = 0;
        while i < candidates.len()
            invariant
                i <= candidates.len(),
                ev == self@,
                candidates@.no_duplicates(),
                best is None ==> !tied && forall|x: int|
                    0 <= x < i ==> ev.calls(#[trigger] candidates@[x], correlation_id).len() == 0,
                best matches Some((pid, gap)) ==> {
                    &&& 0 <= best_at < i
                    &&& candidates@[best_at] == pid
                    &&& ev.calls(pid, correlation_id).len() > 0
                    &&& least_distance(ev.calls(pid, correlation_id), activity_start_ns) == gap
                    &&& forall|x: int|
                        0 <= x < i && x != best_at && ev.calls(
                            #[trigger] candidates@[x],
                            correlation_id,
                        ).len() > 0 ==> {
                            let other = least_distance(
                                ev.calls(candidates@[x], correlation_id),
                                activity_start_ns,
                            );
                            gap < other || (tied && gap == other)
                        }
                },
                tied ==> best is Some && 0 <= tie_at < i && tie_at != best_at && ev.calls(
                    candidates@[tie_at],
                    correlation_id,
                ).len() > 0 && least_distance(
                    ev.calls(candidates@[tie_at], correlation_id),
                    activity_start_ns,
                ) == (best->0).1,
            decreases candidates.len() - i,
        {
            let pid: i64 = candidates[i];
            if let Some(anchors) = self.runtime_anchors.get(pid, correlation_id) {
                assert(ev.calls(pid, correlation_id) == anchors@);
                if anchors.len() > 0 {
                    let gap: u64 = least_of(anchors, activity_start_ns);
                    match best {
                        None => {
                            best = Some((pid, gap));
                            proof {
                                best_at = i as int;
                            }
                        },
                        Some((_, best_gap)) => {
                            if gap < best_gap {
                                best = Some((pid, gap));
                                tied = false;
                                proof {
                                    best_at = i as int;
                                }
                            } else if gap == best_gap {
                                tied = true;
                                proof {
                                    tie_at = i as int;
                                }
                            }
                        },
                    }
                }
            }
            i = i + 1;
        }
        proof {
            assert forall|v: i64| set.contains(v) implies exists|x: int|
                0 <= x < candidates@.len() && candidates@[x] == v by {}
            if best is None {
                assert forall|pid: i64| !ev.is_closest(
                    set,
                    correlation_id,
                    activity_start_ns,
                    pid,
                ) by {
                    if set.contains(pid) {
                        let x: int = choose|x: int| 0 <= x < candidates@.len() && candidates@[x] == pid;
                        assert(ev.calls(candidates@[x], correlation_id).len() == 0);
                    }
                }
            } else {
                let pid = (best->0).0;
                assert(set.contains(candidates@[best_at]));
                if tied {
                    let rival = candidates@[tie_at];
                    assert(set.contains(rival));
                    assert(rival != pid);
                    assert forall|q: i64| !ev.is_closest(
                        set,
                        correlation_id,
                        activity_start_ns,
                        q,
                    ) by {
                        if ev.is_closest(set, correlation_id, activity_start_ns, q) {
                            if q != pid {
                                assert(set.contains(pid));
                                let x: int = choose|x: int|
                                    0 <= x < candidates@.len() && candidates@[x] == q;
                                assert(ev.calls(candidates@[x], correlation_id).len() > 0);
                            }
                        }
                    }
                } else {
                    assert(ev.is_closest(set, correlation_id, activity_start_ns, pid)) by {
                        assert forall|other: i64|
                            #![trigger set.contains(other)]
                            set.contains(other) && other != pid && ev.calls(
                                other,
                                correlation_id,
                            ).len() > 0 implies least_distance(
                            ev.calls(pid, correlation_id),
                            activity_start_ns,
                        ) < least_distance(ev.calls(other, correlation_id), activity_start_ns) by {
                            let x: int = choose|x: int|
                                0 <= x < candidates@.len() && candidates@[x] == other;
                            assert(ev.calls(candidates@[x], correlation_id).len() > 0);
                        }
                    }
                    let q: i64 = choose|q: i64|
                        ev.is_closest(set, correlation_id, activity_start_ns, q);
                    assert(ev.is_closest(set, correlation_id, activity_start_ns, q));
                    if q != pid {
                        assert(set.contains(pid) && set.contains(q));
                    }
                }
            }
        }
        match best {
            Some((pid, _)) if !tied => Some(pid),
            _ => None,
        }
    }
}

/// Whether `list` holds `value`.
fn holds(list: &Vec<i64>, value: i64) -> (held: bool)
    ensures
        held == list@.contains(value),
{
    let mut i: usize = 0;
    while i < list.len()
        invariant
            i <= list.len(),
            forall|x: int| 0 <= x < i ==> (#[trigger] list@[x]) != value,
        decreases list.len() - i,
    {
        if list[i] == value {
            return true;
        }
        i = i + 1;
    }
    false
}

/// The distance of one call.
fn distance_of(anchor: RuntimeAnchor, start_ns: i64) -> (gap: u64)
    ensures
        gap == distance(anchor, start_ns),
{
    let launch_end: i64 = if anchor.end_ns >= anchor.start_ns {
        anchor.end_ns
    } else {
        anchor.start_ns
    };
    let gap: i128 = if launch_end >= start_ns {
        launch_end as i128 - start_ns as i128
    } else {
        start_ns as i128 - launch_end as i128
    };
    gap as u64
}

/// The distance of the closest of the calls.
fn least_of(anchors: &Vec<RuntimeAnchor>, start_ns: i64) -> (gap: u64)
    requires
        anchors.len() > 0,
    ensures
        gap == least_distance(anchors@, start_ns),
{
    let mut best: u64 = distance_of(anchors[0], start_ns);
    let mut i: usize = 1;
    while i < anchors.len()
        invariant
            1 <= i <= anchors.len(),
            best == least_distance(anchors@.subrange(0, i as int), start_ns),
        decreases anchors.len() - i,
    {
        let next: u64 = distance_of(anchors[i], start_ns);
        proof {
            let more = anchors@.subrange(0, i + 1);
            assert(more.drop_last() =~= anchors@.subrange(0, i as int));
            assert(more.last() == anchors@[i as int]);
        }
        if next < best {
            best = next;
        }
        i = i + 1;
    }
    assert(anchors@.subrange(0, anchors.len() as int) =~= anchors@);
    best
}

/// Native PID encoded in an NSys `globalTid`: bits 24 to 47.
pub open spec fn native_pid(global_tid: i64) -> i64 {
    (global_tid >> 24) & 0xFF_FFFF
}

/// Native PID encoded in an NSys `globalTid`.
#[inline]
pub fn native_pid_from_global_tid(global_tid: i64) -> (pid: i64)
    ensures
        pid == native_pid(global_tid),
        0 <= pid <= 0xFF_FFFF,
{
    assert(0 <= ((global_tid >> 24) & 0xFF_FFFF) <= 0xFF_FFFF) by (bit_vector);
    (global_tid >> 24) & 0xFF_FFFF
}

/// SQL for the native PID in a `globalTid` expression.
pub open spec fn native_pid_sql_text(global_tid_expr: Seq<char>) -> Seq<char> {
    "CAST((("@
        + global_tid_expr
        + " >> 24) & 16777215) AS BIGINT)"@
}

/// SQL for the native PID in a `globalTid` expression.
pub fn native_pid_sql(global_tid_expr: &str) -> (text: String)
    ensures
        text@ == native_pid_sql_text(global_tid_expr@),
{
    let mut text = "CAST(((".to_owned();
    text.append(global_tid_expr);
    text.append(" >> 24) & 16777215) AS BIGINT)");
    text
}

/// Candidates by the event's `globalPid`.
pub open spec fn global_pid_candidate_text(event_alias: Seq<char>) -> Seq<char> {
    "SELECT CAST(p.pid AS BIGINT) AS process_id, 0 AS priority, 0 AS \
        after_activity, 0::BIGINT AS distance FROM nsight.PROCESSES p WHERE \
        p.globalPid = "@
        + event_alias
        + ".globalPid"@
}

/// Candidates by the event's `globalPid`.
fn global_pid_candidate(event_alias: &str) -> (text: String)
    ensures
        text@ == global_pid_candidate_text(event_alias@),
{
    let mut text = "SELECT CAST(p.pid AS BIGINT) AS process_id, 0 AS priority, 0 AS \
        after_activity, 0::BIGINT AS distance FROM nsight.PROCESSES p WHERE \
        p.globalPid = ".to_owned();
    text.append(event_alias);
    text.append(".globalPid");
    text
}

/// Candidates by the runtime call with the event's correlation.
pub open spec fn runtime_candidate_text(event_alias: Seq<char>, start_expr: Seq<char>, runtime_pid: Seq<char>) -> Seq<char> {
    "SELECT CAST(c.processId AS BIGINT) AS process_id, 1 AS priority, CASE WHEN \
        COALESCE(r.\"end\", r.start) > "@
        + start_expr
        + " THEN 1 ELSE 0 END AS after_activity, ABS(CAST(COALESCE(r.\"end\", r.start) AS \
        BIGINT) - CAST("@
        + start_expr
        + " AS BIGINT)) AS distance FROM nsight.TARGET_INFO_CUDA_CONTEXT_INFO c JOIN \
        nsight.CUPTI_ACTIVITY_KIND_RUNTIME r ON r.correlationId = "@
        + event_alias
        + ".correlationId AND "@
        + runtime_pid
        + " = CAST(c.processId AS BIGINT) WHERE CAST(c.deviceId AS INTEGER) = CAST("@
        + event_alias
        + ".deviceId AS INTEGER) AND CAST(c.contextId AS BIGINT) = CAST("@
        + event_alias
        + ".contextId AS BIGINT)"@
}

/// Candidates by the runtime call with the event's correlation.
fn runtime_candidate(event_alias: &str, start_expr: &str, runtime_pid: &str) -> (text: String)
    ensures
        text@ == runtime_candidate_text(event_alias@, start_expr@, runtime_pid@),
{
    let mut text = "SELECT CAST(c.processId AS BIGINT) AS process_id, 1 AS priority, CASE WHEN \
        COALESCE(r.\"end\", r.start) > ".to_owned();
    text.append(start_expr);
    text.append(" THEN 1 ELSE 0 END AS after_activity, ABS(CAST(COALESCE(r.\"end\", r.start) AS \
        BIGINT) - CAST(");
    text.append(start_expr);
    text.append(" AS BIGINT)) AS distance FROM nsight.TARGET_INFO_CUDA_CONTEXT_INFO c JOIN \
        nsight.CUPTI_ACTIVITY_KIND_RUNTIME r ON r.correlationId = ");
    text.append(event_alias);
    text.append(".correlationId AND ");
    text.append(runtime_pid);
    text.append(" = CAST(c.processId AS BIGINT) WHERE CAST(c.deviceId AS INTEGER) = CAST(");
    text.append(event_alias);
    text.append(".deviceId AS INTEGER) AND CAST(c.contextId AS BIGINT) = CAST(");
    text.append(event_alias);
    text.append(".contextId AS BIGINT)");
    text
}

/// The sole process of the event's context.
pub open spec fn context_candidate_text(event_alias: Seq<char>) -> Seq<char> {
    "SELECT MIN(CAST(c.processId AS BIGINT)) AS process_id, 2 AS priority, 0 AS \
        after_activity, 0::BIGINT AS distance FROM \
        nsight.TARGET_INFO_CUDA_CONTEXT_INFO c WHERE CAST(c.deviceId AS INTEGER) = \
        CAST("@
        + event_alias
        + ".deviceId AS INTEGER) AND CAST(c.contextId AS BIGINT) = CAST("@
        + event_alias
        + ".contextId AS BIGINT) HAVING COUNT(DISTINCT CAST(c.processId AS BIGINT)) = 1"@
}

/// The sole process of the event's context.
fn context_candidate(event_alias: &str) -> (text: String)
    ensures
        text@ == context_candidate_text(event_alias@),
{
    let mut text = "SELECT MIN(CAST(c.processId AS BIGINT)) AS process_id, 2 AS priority, 0 AS \
        after_activity, 0::BIGINT AS distance FROM \
        nsight.TARGET_INFO_CUDA_CONTEXT_INFO c WHERE CAST(c.deviceId AS INTEGER) = \
        CAST(".to_owned();
    text.append(event_alias);
    text.append(".deviceId AS INTEGER) AND CAST(c.contextId AS BIGINT) = CAST(");
    text.append(event_alias);
    text.append(".contextId AS BIGINT) HAVING COUNT(DISTINCT CAST(c.processId AS BIGINT)) = 1");
    text
}

/// A join that leaves the process unknown.
pub open spec fn null_join_text(join_alias: Seq<char>) -> Seq<char> {
    "LEFT JOIN LATERAL (SELECT CAST(NULL AS BIGINT) AS process_id) "@
        + join_alias
        + " ON TRUE"@
}

/// A join that leaves the process unknown.
fn null_join(join_alias: &str) -> (text: String)
    ensures
        text@ == null_join_text(join_alias@),
{
    let mut text = "LEFT JOIN LATERAL (SELECT CAST(NULL AS BIGINT) AS process_id) ".to_owned();
    text.append(join_alias);
    text.append(" ON TRUE");
    text
}

/// A join with the one candidate of the best rank.
pub open spec fn ranked_join_text(union: Seq<char>, join_alias: Seq<char>) -> Seq<char> {
    "LEFT JOIN LATERAL (WITH process_candidates AS ("@
        + union
        + "), ranked AS (SELECT process_id, DENSE_RANK() OVER (ORDER BY priority, \
        after_activity, distance) AS score_rank FROM process_candidates WHERE \
        process_id IS NOT NULL) SELECT MIN(process_id) AS process_id FROM ranked WHERE \
        score_rank = 1 HAVING COUNT(DISTINCT process_id) = 1) "@
        + join_alias
        + " ON TRUE"@
}

/// A join with the one candidate of the best rank.
fn ranked_join(union: &str, join_alias: &str) -> (text: String)
    ensures
        text@ == ranked_join_text(union@, join_alias@),
{
    let mut text = "LEFT JOIN LATERAL (WITH process_candidates AS (".to_owned();
    text.append(union);
    text.append("), ranked AS (SELECT process_id, DENSE_RANK() OVER (ORDER BY priority, \
        after_activity, distance) AS score_rank FROM process_candidates WHERE \
        process_id IS NOT NULL) SELECT MIN(process_id) AS process_id FROM ranked WHERE \
        score_rank = 1 HAVING COUNT(DISTINCT process_id) = 1) ");
    text.append(join_alias);
    text.append(" ON TRUE");
    text
}

/// A join with `PROCESSES` by `globalPid`.
pub open spec fn bridged_join_text(join_alias: Seq<char>, event_alias: Seq<char>) -> Seq<char> {
    "LEFT JOIN nsight.PROCESSES "@
        + join_alias
        + " ON "@
        + join_alias
        + ".globalPid = "@
        + event_alias
        + ".globalPid"@
}

/// A join with `PROCESSES` by `globalPid`.
fn bridged_join(join_alias: &str, event_alias: &str) -> (text: String)
    ensures
        text@ == bridged_join_text(join_alias@, event_alias@),
{
    let mut text = "LEFT JOIN nsight.PROCESSES ".to_owned();
    text.append(join_alias);
    text.append(" ON ");
    text.append(join_alias);
    text.append(".globalPid = ");
    text.append(event_alias);
    text.append(".globalPid");
    text
}

/// `PROCESSES` can bridge global and native PIDs.
pub open spec fn bridges_processes(schema: &TraceSchema) -> bool {
    schema.has("PROCESSES"@) && schema.has_column("PROCESSES"@, "globalPid"@) && schema.has_column(
        "PROCESSES"@,
        "pid"@,
    )
}

/// Whether `PROCESSES` can bridge global and native PIDs.
fn can_bridge_processes(schema: &TraceSchema) -> (b: bool)
    ensures
        b == bridges_processes(schema),
{
    schema.has_table("PROCESSES") && schema.table_has_column("PROCESSES", "globalPid")
        && schema.table_has_column("PROCESSES", "pid")
}

/// The candidate queries for the process of an event, best first.
pub open spec fn process_candidates(
    schema: &TraceSchema,
    table: Seq<char>,
    event_alias: Seq<char>,
    start_expr: Seq<char>,
) -> Seq<Seq<char>> {
    let by_pid = if schema.has_column(table, "globalPid"@) && bridges_processes(schema) {
        seq![global_pid_candidate_text(event_alias)]
    } else {
        Seq::empty()
    };
    let by_call = if schema.has("TARGET_INFO_CUDA_CONTEXT_INFO"@) && schema.has(
        "CUPTI_ACTIVITY_KIND_RUNTIME"@,
    ) && schema.has_column(table, "correlationId"@) {
        seq![runtime_candidate_text(event_alias, start_expr, native_pid_sql_text("r.globalTid"@))]
    } else {
        Seq::empty()
    };
    let by_context = if schema.has("TARGET_INFO_CUDA_CONTEXT_INFO"@) {
        seq![context_candidate_text(event_alias)]
    } else {
        Seq::empty()
    };
    by_pid + by_call + by_context
}

/// The join that resolves the process of an event.
pub open spec fn lateral_join_text(
    schema: &TraceSchema,
    table: Seq<char>,
    event_alias: Seq<char>,
    join_alias: Seq<char>,
    start_expr: Seq<char>,
) -> Seq<char> {
    let candidates = process_candidates(schema, table, event_alias, start_expr);
    if candidates.len() == 0 {
        null_join_text(join_alias)
    } else {
        ranked_join_text(joined(candidates, " UNION ALL "@), join_alias)
    }
}

/// SQL `LEFT JOIN LATERAL` that resolves one CUDA activity row, aliased
/// `event_alias`, to `join_alias.process_id`.
///
/// The join ranks its evidence on its own: runtime calls count before the sole
/// process of a context, and those that ended by the start of the event before
/// those that ended later.
///
/// All identifiers are internal constants; no user input is interpolated.
pub fn process_lateral_join_sql(
    schema: &TraceSchema,
    table: &str,
    event_alias: &str,
    join_alias: &str,
    start_expr: &str,
) -> (sql: String)
    ensures
        sql@ == lateral_join_text(schema, table@, event_alias@, join_alias@, start_expr@),
{
    let mut candidates: Vec<String> = Vec::new();
    if schema.table_has_column(table, "globalPid") && can_bridge_processes(schema) {
        candidates.push(global_pid_candidate(event_alias));
    }
    if schema.has_table("TARGET_INFO_CUDA_CONTEXT_INFO") {
        if schema.has_table("CUPTI_ACTIVITY_KIND_RUNTIME") && schema.table_has_column(
            table,
            "correlationId",
        ) {
            let runtime_pid = native_pid_sql("r.globalTid");
            candidates.push(runtime_candidate(event_alias, start_expr, runtime_pid.as_str()));
        }
        candidates.push(context_candidate(event_alias));
    }
    assert(strings(candidates@) =~= process_candidates(schema, table@, event_alias@, start_expr@));
    if candidates.len() == 0 {
        return null_join(join_alias);
    }
    let union_sql = join(&candidates, " UNION ALL ");
    ranked_join(union_sql.as_str(), join_alias)
}

/// SQL projection of an event row's native process identity.
///
/// `expr` is always a BIGINT-compatible expression and `join` is the
/// optional relation needed by that expression. CUDA activity tables use
/// the process-aware resolver; host-thread tables decode `globalTid`;
/// process tables with `globalPid` bridge through `PROCESSES`.
#[derive(Debug)]
pub struct ProcessSqlProjection {
    pub expr: String,
    pub join: String,
}

/// Expression and join that project the process of an event.
pub open spec fn projection_text(
    schema: &TraceSchema,
    table: Seq<char>,
    event_alias: Seq<char>,
    join_alias: Seq<char>,
    start_expr: Seq<char>,
) -> (Seq<char>, Seq<char>) {
    if schema.has_column(table, "deviceId"@) && schema.has_column(table, "contextId"@) {
        (
            join_alias + ".process_id"@,
            lateral_join_text(schema, table, event_alias, join_alias, start_expr),
        )
    } else if schema.has_column(table, "globalTid"@) {
        (native_pid_sql_text(event_alias + ".globalTid"@), Seq::empty())
    } else if schema.has_column(table, "globalPid"@) && bridges_processes(schema) {
        (
            "CAST("@ + join_alias + ".pid AS BIGINT)"@,
            bridged_join_text(join_alias, event_alias),
        )
    } else {
        ("CAST(NULL AS BIGINT)"@, Seq::empty())
    }
}

/// Projects the native process of the rows of `table`.
pub fn process_sql_projection(
    schema: &TraceSchema,
    table: &str,
    event_alias: &str,
    join_alias: &str,
    start_expr: &str,
) -> (projection: ProcessSqlProjection)
    ensures
        (projection.expr@, projection.join@) == projection_text(
            schema,
            table@,
            event_alias@,
            join_alias@,
            start_expr@,
        ),
{
    if schema.table_has_column(table, "deviceId") && schema.table_has_column(table, "contextId") {
        let mut expr = join_alias.to_owned();
        expr.append(".process_id");
        return ProcessSqlProjection {
            expr,
            join: process_lateral_join_sql(schema, table, event_alias, join_alias, start_expr),
        };
    }
    if schema.table_has_column(table, "globalTid") {
        let mut tid = event_alias.to_owned();
        tid.append(".globalTid");
        return ProcessSqlProjection { expr: native_pid_sql(tid.as_str()), join: String::new() };
    }
    if schema.table_has_column(table, "globalPid") && can_bridge_processes(schema) {
        let mut expr = "CAST(".to_owned();
        expr.append(join_alias);
        expr.append(".pid AS BIGINT)");
        return ProcessSqlProjection { expr, join: bridged_join(join_alias, event_alias) };
    }
    ProcessSqlProjection { expr: "CAST(NULL AS BIGINT)".to_owned(), join: String::new() }
}

/// Every process that the evidence could name is one that the trace mentions.
pub open spec fn grounded(e: CudaEvidence) -> bool {
    &&& forall|g: i64| #[trigger]
        e.global_to_native.contains_key(g) ==> e.known_processes.contains(e.global_to_native[g])
    &&& forall|k: (i64, i64), pid: i64|
        e.context_processes.contains_key(k) && #[trigger] e.context_processes[k].contains(pid)
            ==> e.known_processes.contains(pid)
}

proof fn fold_keeps_grounded<R>(rows: Seq<R>, start: CudaEvidence, f: spec_fn(CudaEvidence, R) -> CudaEvidence)
    requires
        grounded(start),
        forall|e: CudaEvidence, r: R| grounded(e) ==> grounded(#[trigger] f(e, r)),
    ensures
        grounded(rows.fold_left(start, f)),
    decreases rows.len(),
{
    reveal_with_fuel(Seq::fold_left, 2);
    if rows.len() > 0 {
        fold_keeps_grounded(rows.drop_last(), start, f);
    }
}

/// The evidence of a trace names only processes that the trace mentions.
pub proof fn evidence_is_grounded(
    processes: Seq<ProcessRow>,
    contexts: Seq<ContextRow>,
    calls: Seq<RuntimeCallRow>,
)
    ensures
        grounded(evidence_of(processes, contexts, calls)),
{
    let pf = |e: CudaEvidence, r: ProcessRow| e.with_process(r);
    let cf = |e: CudaEvidence, r: ContextRow| e.with_context(r);
    let rf = |e: CudaEvidence, r: RuntimeCallRow| e.with_call(r);
    let a = processes.fold_left(no_evidence(), pf);
    let b = contexts.fold_left(a, cf);
    fold_keeps_grounded(processes, no_evidence(), pf);
    assert forall|e: CudaEvidence, r: ContextRow| grounded(e) implies grounded(
        #[trigger] cf(e, r),
    ) by {
        let n = e.with_context(r);
        let at = (r.device_id as i64, r.context_id);
        assert forall|k: (i64, i64), pid: i64|
            n.context_processes.contains_key(k) && #[trigger] n.context_processes[k].contains(
                pid,
            ) implies n.known_processes.contains(pid) by {
            if k == at {
                if pid != r.process_id {
                    assert(e.owners(r.device_id, r.context_id).contains(pid));
                    assert(e.context_processes[at].contains(pid));
                }
            } else {
                assert(e.context_processes[k].contains(pid));
            }
        }
    }
    fold_keeps_grounded(contexts, a, cf);
    fold_keeps_grounded(calls, b, rf);
}

/// An identity is never made up: the process of an activity is one that the
/// trace mentions, and where the trace mentions none there is no answer.
pub proof fn owner_is_known(
    e: CudaEvidence,
    device_id: i32,
    context_id: i64,
    correlation_id: Option<i64>,
    start_ns: i64,
    global_pid: Option<i64>,
)
    requires
        grounded(e),
    ensures
        e.owner(device_id, context_id, correlation_id, start_ns, global_pid) matches Some(pid)
            ==> e.known_processes.contains(pid),
{
    let owners = e.owners(device_id, context_id);
    let at = (device_id as i64, context_id);
    assert forall|pid: i64| owners.contains(pid) implies e.known_processes.contains(pid) by {
        assert(e.context_processes[at].contains(pid));
    }
    if e.known_processes.len() == 1 {
        assert(e.known_processes.contains(e.known_processes.choose())) by {
            if forall|x: i64| !e.known_processes.contains(x) {
                assert(e.known_processes =~= Set::empty());
            }
        }
    }
    if owners.len() == 1 {
        assert(owners.contains(owners.choose())) by {
            if forall|x: i64| !owners.contains(x) {
                assert(owners =~= Set::empty());
            }
        }
    }
}

/// Where two owners of a `(device, context)` made equally close calls and no
/// other owner's is closer, the activity stays without an owner, unless the
/// trace knows one process only.
pub proof fn equal_calls_stay_unresolved(
    e: CudaEvidence,
    device_id: i32,
    context_id: i64,
    correlation_id: i64,
    start_ns: i64,
    a: i64,
    b: i64,
)
    requires
        e.owners(device_id, context_id).finite(),
        e.owners(device_id, context_id).contains(a),
        e.owners(device_id, context_id).contains(b),
        a != b,
        e.calls(a, correlation_id).len() > 0,
        e.calls(b, correlation_id).len() > 0,
        least_distance(e.calls(a, correlation_id), start_ns) == least_distance(
            e.calls(b, correlation_id),
            start_ns,
        ),
        forall|other: i64|
            #![trigger e.calls(other, correlation_id)]
            e.owners(device_id, context_id).contains(other) && e.calls(other, correlation_id).len()
                > 0 ==> least_distance(e.calls(a, correlation_id), start_ns) <= least_distance(
                e.calls(other, correlation_id),
                start_ns,
            ),
        e.known_processes.len() != 1,
    ensures
        e.owner(device_id, context_id, Some(correlation_id), start_ns, None) is None,
{
    let owners = e.owners(device_id, context_id);
    assert(owners.len() != 1) by {
        let rest = owners.remove(a);
        assert(rest.contains(b));
        if rest.len() == 0 {
            assert(rest =~= Set::empty());
        }
    }
    assert forall|pid: i64| !e.is_closest(owners, correlation_id, start_ns, pid) by {
        if e.is_closest(owners, correlation_id, start_ns, pid) {
            assert(owners.contains(a) && owners.contains(b));
            if pid == a {
                assert(least_distance(e.calls(a, correlation_id), start_ns) < least_distance(
                    e.calls(b, correlation_id),
                    start_ns,
                ));
            } else {
                assert(least_distance(e.calls(pid, correlation_id), start_ns) < least_distance(
                    e.calls(a, correlation_id),
                    start_ns,
                ));
            }
        }
    }
}

} // verus!
