//! Scope-ambiguity resolver for list verbs.
//!
//! Every list verb that operates on event rows takes the same scope filters,
//! `--process <PID>` and `--device <N>`, plus the `--all-devices` aggregator
//! opt-in. This module owns the rule:
//!
//! 1. *Single process/device scope:* both values are resolved automatically.
//!    No flag required.
//! 2. *Multiple devices, `--device` unset, `--all-devices` unset:* refused
//!    with [`AmbiguityError`].
//! 3. *Colliding logical ordinals:* `--device <id>` alone is refused when
//!    multiple processes expose that same ordinal; `--process <PID>`
//!    disambiguates it.
//! 4. *Multiple devices, `--all-devices` set:* aggregate response;
//!    `applied_scope.aggregated_over = ["device"]`.
//! 5. *Multiple devices, command opts into implicit all-device scope:* same
//!    outcome as `--all-devices`.
//! 6. *Multiple processes on one device, all devices asked for or implied:*
//!    `applied_scope.aggregated_over = ["process", "device"]`, without the
//!    device where `--device` names it.
//!
//! `--stream` is valid only once a single device is locked: CUDA stream
//! identifiers are not a useful cross-device scope axis.
use crate::cuda_identity::{CudaEvidence, CudaProcessResolver};
use crate::error::{NsysDataError, NsysDataResult};
use crate::order::{
    is_sort_order, keys_of, lex_lt_pair, placed_before, positions, sort_order, sort_order_covers,
    Key2, SortKey,
};
use crate::schema::TraceSchema;
use crate::text::{decimal, u64_text};
use vstd::prelude::*;
use vstd::string::StringExecFns;

verus! {

/// Caller-supplied scope inputs.
#[derive(Debug, Clone, Copy)]
pub struct ScopeRequest {
    pub process: Option<i64>,
    pub device: Option<i32>,
    pub stream: Option<i64>,
    pub all_devices: bool,
    /// For commands whose response shape is already trace-wide or per-device.
    pub implicit_all_devices: bool,
}

impl Default for ScopeRequest {
    fn default() -> (req: Self)
        ensures
            req == (ScopeRequest {
                process: None,
                device: None,
                stream: None,
                all_devices: false,
                implicit_all_devices: false,
            }),
    {
        ScopeRequest {
            process: None,
            device: None,
            stream: None,
            all_devices: false,
            implicit_all_devices: false,
        }
    }
}

/// The scope that a query runs under. The resolver fills everything but
/// `kind`, `nvtx_pattern` and `time_window_ns`, which take no part in it.
#[derive(Debug)]
pub struct AppliedScope {
    pub device: Option<i32>,
    pub stream: Option<i64>,
    pub native_pid: Option<i64>,
    pub kind: Option<String>,
    pub nvtx_pattern: Option<String>,
    pub time_window_ns: Option<(i64, i64)>,
    /// Axes that the response aggregates over.
    pub aggregated_over: Vec<String>,
}

/// Outcome of [`resolve_scope`].
#[derive(Debug)]
pub struct ResolvedScope {
    pub applied: AppliedScope,
}

#[derive(Debug, Clone, Copy, PartialEq, Eq, Structural)]
pub enum WarningSeverity {
    Warn,
}

#[derive(Debug, Clone, Copy, PartialEq, Eq, Structural)]
pub enum WarningCode {
    MultiDeviceAmbiguous,
}

/// A structured warning.
#[derive(Debug)]
pub struct Warning {
    pub severity: WarningSeverity,
    pub code: WarningCode,
    pub message: String,
}

/// Refusal payload for a query matching multiple process/device scopes
/// without an exact selector or all-device opt-in. Holds a human-readable
/// message, structured warning, and exact recovery candidates.
#[derive(Debug)]
pub struct AmbiguityError {
    pub message: String,
    pub warning: Warning,
    /// Stable process-local CUDA scopes that matched the request.
    pub candidate_scopes: Vec<(i64, i32)>,
    /// Preserve a caller-supplied process when suggesting an intentional
    /// all-device aggregate.
    pub requested_process: Option<i64>,
}

/// Tells a structured refusal from a failure to read the trace.
#[derive(Debug)]
pub enum ResolveError {
    Ambiguous(AmbiguityError),
    Probe(Box<NsysDataError>),
}

/// What is said of an ambiguous scope.
pub open spec fn ambiguity_message_text(n: Seq<char>) -> Seq<char> {
    "trace has "@
        + n
        + " CUDA process/device scopes; pass `--process <pid>` with `--device <id>`, or \
        `--all-devices` to scope the query"@
}

/// What is said of an ambiguous scope.
fn ambiguity_message(n: &str) -> (text: String)
    ensures
        text@ == ambiguity_message_text(n@),
{
    let mut text = "trace has ".to_owned();
    text.append(n);
    text.append(" CUDA process/device scopes; pass `--process <pid>` with `--device <id>`, or \
        `--all-devices` to scope the query");
    text
}

/// Each scope comes before all that follow it, by process and then device.
pub open spec fn strictly_sorted(scopes: Seq<(i64, i32)>) -> bool {
    forall|i: int, j: int|
        #![trigger scopes[i], scopes[j]]
        0 <= i < j < scopes.len() ==> scopes[i].0 < scopes[j].0 || (scopes[i].0 == scopes[j].0
            && scopes[i].1 < scopes[j].1)
}

/// The refusal of a request that matches `scopes`.
pub open spec fn is_refusal(
    e: AmbiguityError,
    scopes: Set<(i64, i32)>,
    requested_process: Option<i64>,
) -> bool {
    &&& strictly_sorted(e.candidate_scopes@)
    &&& e.candidate_scopes@.to_set() == scopes
    &&& e.requested_process == requested_process
    &&& e.message@ == ambiguity_message_text(decimal(e.candidate_scopes@.len() as int))
    &&& e.warning.message@ == e.message@
    &&& e.warning.code == WarningCode::MultiDeviceAmbiguous
    &&& e.warning.severity == WarningSeverity::Warn
}

/// The scopes in order, each once.
fn sorted_scopes(scopes: &Vec<(i64, i32)>) -> (sorted: Vec<(i64, i32)>)
    ensures
        strictly_sorted(sorted@),
        sorted@.to_set() == scopes@.to_set(),
{
    let mut keys: Vec<Key2> = Vec::with_capacity(scopes.len());
    let mut i: usize = 0;
    while i < scopes.len()
        invariant
            i <= scopes.len(),
            keys.len() == i,
            forall|x: int|
                0 <= x < i ==> (#[trigger] keys[x]).first == scopes@[x].0 && keys[x].second
                    == scopes@[x].1,
        decreases scopes.len() - i,
    {
        keys.push(Key2 { first: scopes[i].0, second: scopes[i].1 as i64 });
        i = i + 1;
    }
    let order = sort_order(keys.as_slice());
    let ghost p = positions(order@);
    let ghost ks = keys_of(keys@);
    proof {
        sort_order_covers(ks, p);
    }
    let mut sorted: Vec<(i64, i32)> = Vec::with_capacity(scopes.len());
    let mut k: usize = 0;
    while k < order.len()
        invariant
            k <= order.len(),
            order.len() == scopes.len(),
            keys.len() == scopes.len(),
            p == positions(order@),
            ks == keys_of(keys@),
            is_sort_order(ks, p),
            forall|x: int|
                0 <= x < scopes.len() ==> (#[trigger] keys[x]).first == scopes@[x].0
                    && keys[x].second == scopes@[x].1,
            strictly_sorted(sorted@),
            forall|x: int| 0 <= x < sorted.len() ==> scopes@.contains(#[trigger] sorted@[x]),
            forall|x: int| 0 <= x < k ==> sorted@.contains(scopes@[#[trigger] p[x]]),
            k > 0 ==> sorted.len() > 0 && sorted@.last() == scopes@[p[k - 1]],
            k == 0 ==> sorted.len() == 0,
        decreases order.len() - k,
    {
        assert(0 <= p[k as int] < ks.len());
        let next = scopes[order[k]];
        let fresh: bool = if sorted.len() == 0 {
            true
        } else {
            let last = sorted[sorted.len() - 1];
            !(last.0 == next.0 && last.1 == next.1)
        };
        let ghost before = sorted@;
        proof {
            if k > 0 {
                let a = p[k - 1];
                let b = p[k as int];
                assert(placed_before(ks, a, b));
                assert(ks[a] == keys@[a].sort_key() && ks[b] == keys@[b].sort_key());
                lex_lt_pair(ks[a], ks[b]);
                assert(ks[a][0] == scopes@[a].0 && ks[a][1] == scopes@[a].1);
                assert(ks[b][0] == scopes@[b].0 && ks[b][1] == scopes@[b].1);
            }
        }
        if fresh {
            sorted.push(next);
        }
        proof {
            assert(sorted@.contains(next)) by {
                assert(sorted@[sorted.len() - 1] == next);
            }
            assert forall|x: int| 0 <= x < sorted.len() implies scopes@.contains(
                #[trigger] sorted@[x],
            ) by {
                if x < before.len() {
                    assert(sorted@[x] == before[x]);
                } else {
                    assert(scopes@[p[k as int]] == next);
                }
            }
            assert forall|x: int| 0 <= x < k + 1 implies sorted@.contains(
                scopes@[#[trigger] p[x]],
            ) by {
                if x < k {
                    let y: int = choose|y: int| 0 <= y < before.len() && before[y] == scopes@[p[x]];
                    assert(before.contains(scopes@[p[x]]));
                    assert(sorted@[y] == scopes@[p[x]]);
                }
            }
            assert forall|i: int, j: int|
                #![trigger sorted@[i], sorted@[j]]
                0 <= i < j < sorted.len() implies sorted@[i].0 < sorted@[j].0 || (sorted@[i].0
                == sorted@[j].0 && sorted@[i].1 < sorted@[j].1) by {
                if j < before.len() {
                    assert(sorted@[i] == before[i] && sorted@[j] == before[j]);
                } else {
                    assert(sorted@[i] == before[i]);
                    if i < before.len() - 1 {
                        assert(before[i].0 < before[before.len() - 1].0 || (before[i].0
                            == before[before.len() - 1].0 && before[i].1
                            < before[before.len() - 1].1));
                    }
                }
            }
        }
        k = k + 1;
    }
    proof {
        assert forall|v: (i64, i32)| sorted@.to_set().contains(v) <==> scopes@.to_set().contains(v) by {
            if sorted@.contains(v) {
                let x: int = choose|x: int| 0 <= x < sorted@.len() && sorted@[x] == v;
                assert(scopes@.contains(sorted@[x]));
            }
            if scopes@.contains(v) {
                let i: int = choose|i: int| 0 <= i < scopes@.len() && scopes@[i] == v;
                assert(p.contains(i));
                let x: int = choose|x: int| 0 <= x < p.len() && p[x] == i;
                assert(sorted@.contains(scopes@[p[x]]));
            }
        }
        assert(sorted@.to_set() =~= scopes@.to_set());
    }
    sorted
}

impl AmbiguityError {
    /// The refusal of a request that matches several scopes.
    pub fn multi_device(
        candidate_scopes: Vec<(i64, i32)>,
        requested_process: Option<i64>,
    ) -> (error: Self)
        ensures
            is_refusal(error, candidate_scopes@.to_set(), requested_process),
    {
        let candidates = sorted_scopes(&candidate_scopes);
        let message = ambiguity_message(u64_text(candidates.len() as u64).as_str());
        AmbiguityError {
            warning: Warning {
                severity: WarningSeverity::Warn,
                code: WarningCode::MultiDeviceAmbiguous,
                message: message.clone(),
            },
            message,
            candidate_scopes: candidates,
            requested_process,
        }
    }
}

/// The scopes that a request matches.
pub open spec fn matching(scopes: Set<(i64, i32)>, req: ScopeRequest) -> Set<(i64, i32)> {
    scopes.filter(
        |s: (i64, i32)|
            (req.process matches Some(pid) ==> s.0 == pid) && (req.device matches Some(d) ==> s.1
                == d),
    )
}

/// What a request resolves to.
pub enum Resolution {
    /// Process, device and aggregated axes.
    Applied(Option<i64>, Option<i32>, Seq<Seq<char>>),
    /// `--device` and `--all-devices` were both given.
    Conflict(i32),
    /// A stream was given without a single device.
    StreamNeedsDevice(i64),
    /// Several scopes match.
    Ambiguous,
}

/// There are several scopes and they are all of one device: they differ by
/// process alone.
pub open spec fn share_one_device(found: Set<(i64, i32)>) -> bool {
    found.len() > 1 && forall|a: (i64, i32), b: (i64, i32)|
        found.contains(a) && found.contains(b) ==> a.1 == b.1
}

/// The axes that are aggregated over where all devices are meant.
pub open spec fn device_axes(found: Set<(i64, i32)>) -> Seq<Seq<char>> {
    if share_one_device(found) {
        seq!["process"@, "device"@]
    } else {
        seq!["device"@]
    }
}

/// The resolution of a request against the scopes of a trace.
///
/// Several scopes that match a named device differ by process, so a command that
/// implies all scopes aggregates over processes there.
pub open spec fn resolution(scopes: Set<(i64, i32)>, req: ScopeRequest) -> Resolution {
    let found = matching(scopes, req);
    if req.all_devices && req.device is Some {
        Resolution::Conflict(req.device->0)
    } else if req.all_devices {
        if req.stream is Some {
            Resolution::StreamNeedsDevice(req.stream->0)
        } else {
            Resolution::Applied(req.process, None, device_axes(found))
        }
    } else if found.len() == 0 {
        if req.stream is Some && req.device is None {
            Resolution::StreamNeedsDevice(req.stream->0)
        } else {
            Resolution::Applied(req.process, req.device, Seq::empty())
        }
    } else if found.len() == 1 {
        let only = found.choose();
        Resolution::Applied(Some(only.0), Some(only.1), Seq::empty())
    } else if req.stream is Some {
        Resolution::StreamNeedsDevice(req.stream->0)
    } else if req.implicit_all_devices {
        Resolution::Applied(
            req.process,
            req.device,
            if req.device is None {
                device_axes(found)
            } else {
                seq!["process"@]
            },
        )
    } else {
        Resolution::Ambiguous
    }
}

/// Where a stream may not be named.
pub open spec fn stream_error(stream: Option<i64>, device_fixed: bool) -> bool {
    stream is Some && !device_fixed
}

/// The error of a stream that is named without a fixed device.
fn stream_parent_error(stream: Option<i64>, device_fixed: bool) -> (error: Option<NsysDataError>)
    ensures
        error is Some <==> stream_error(stream, device_fixed),
        error matches Some(e) ==> e matches NsysDataError::ScopeStreamRequiresDevice { stream: s }
            && s == stream->0,
{
    match stream {
        Some(stream) if !device_fixed => Some(NsysDataError::scope_stream_requires_device(stream)),
        _ => None,
    }
}

/// The scopes that a request matches, each once.
fn matching_scopes(scopes: &Vec<(i64, i32)>, req: &ScopeRequest) -> (found: Vec<(i64, i32)>)
    ensures
        found@.no_duplicates(),
        found@.to_set() == matching(scopes@.to_set(), *req),
{
    let mut found: Vec<(i64, i32)> = Vec::new();
    let mut i: usize = 0;
    assert(found@.to_set() =~= matching(scopes@.subrange(0, 0).to_set(), *req));
    while i < scopes.len()
        invariant
            i <= scopes.len(),
            found@.no_duplicates(),
            found@.to_set() == matching(scopes@.subrange(0, i as int).to_set(), *req),
        decreases scopes.len() - i,
    {
        let s = scopes[i];
        let process_ok: bool = match req.process {
            Some(pid) => s.0 == pid,
            None => true,
        };
        let device_ok: bool = match req.device {
            Some(d) => s.1 == d,
            None => true,
        };
        if process_ok && device_ok {
            add_scope(&mut found, s);
        }
        proof {
            prefix_set(scopes@, i as int);
            let less = scopes@.subrange(0, i as int).to_set();
            let more = scopes@.subrange(0, i + 1).to_set();
            assert(matching(more, *req) =~= if process_ok && device_ok {
                matching(less, *req).insert(s)
            } else {
                matching(less, *req)
            });
        }
        i = i + 1;
    }
    assert(scopes@.subrange(0, scopes.len() as int) =~= scopes@);
    found
}

/// One more element of a prefix is one more element of its set.
proof fn prefix_set(scopes: Seq<(i64, i32)>, i: int)
    requires
        0 <= i < scopes.len(),
    ensures
        scopes.subrange(0, i + 1).to_set() == scopes.subrange(0, i).to_set().insert(scopes[i]),
{
    let less = scopes.subrange(0, i);
    let more = scopes.subrange(0, i + 1);
    assert forall|v: (i64, i32)| more.to_set().contains(v) <==> less.to_set().insert(
        scopes[i],
    ).contains(v) by {
        if less.contains(v) {
            let x: int = choose|x: int| 0 <= x < less.len() && less[x] == v;
            assert(more[x] == v);
        }
        if v == scopes[i] {
            assert(more[i] == v);
        }
        if more.contains(v) && v != scopes[i] {
            let x: int = choose|x: int| 0 <= x < more.len() && more[x] == v;
            assert(less[x] == v);
        }
    }
    assert(more.to_set() =~= less.to_set().insert(scopes[i]));
}

/// Whether there are several scopes and they are all of one device.
fn have_one_device(found: &Vec<(i64, i32)>) -> (b: bool)
    requires
        found@.no_duplicates(),
    ensures
        b == share_one_device(found@.to_set()),
{
    proof {
        found@.unique_seq_to_set();
    }
    if found.len() < 2 {
        return false;
    }
    let mut i: usize = 1;
    while i < found.len()
        invariant
            1 <= i <= found.len(),
            forall|x: int| 0 <= x < i ==> (#[trigger] found@[x]).1 == found@[0].1,
        decreases found.len() - i,
    {
        if found[i].1 != found[0].1 {
            assert(found@.to_set().contains(found@[i as int]));
            assert(found@.to_set().contains(found@[0]));
            return false;
        }
        i = i + 1;
    }
    assert forall|a: (i64, i32), b: (i64, i32)|
        found@.to_set().contains(a) && found@.to_set().contains(b) implies a.1 == b.1 by {
        let x: int = choose|x: int| 0 <= x < found@.len() && found@[x] == a;
        let y: int = choose|y: int| 0 <= y < found@.len() && found@[y] == b;
        assert(found@[x].1 == found@[y].1);
    }
    true
}

/// The outcome tells the resolution.
pub open spec fn tells(
    outcome: Result<ResolvedScope, ResolveError>,
    scopes: Set<(i64, i32)>,
    req: ScopeRequest,
) -> bool {
    match resolution(scopes, req) {
        Resolution::Applied(pid, device, axes) => outcome matches Ok(r) && {
            &&& r.applied.native_pid == pid
            &&& r.applied.device == device
            &&& r.applied.stream == req.stream
            &&& r.applied.aggregated_over@.map_values(|s: String| s@) == axes
            &&& r.applied.kind is None
            &&& r.applied.nvtx_pattern is None
            &&& r.applied.time_window_ns is None
        },
        Resolution::Conflict(d) => outcome matches Err(ResolveError::Probe(e)) && (*e matches
            NsysDataError::ScopeConflictingDeviceFlags { device } && device == d),
        Resolution::StreamNeedsDevice(s) => outcome matches Err(ResolveError::Probe(e)) && (
        *e matches NsysDataError::ScopeStreamRequiresDevice { stream } && stream == s),
        Resolution::Ambiguous => outcome matches Err(ResolveError::Ambiguous(e)) && is_refusal(
            e,
            matching(scopes, req),
            req.process,
        ),
    }
}

/// The applied scope with these parts.
fn applied(
    req: &ScopeRequest,
    native_pid: Option<i64>,
    device: Option<i32>,
    aggregated_over: Vec<String>,
) -> (scope: ResolvedScope)
    ensures
        scope.applied.native_pid == native_pid,
        scope.applied.device == device,
        scope.applied.stream == req.stream,
        scope.applied.aggregated_over@ == aggregated_over@,
        scope.applied.kind is None,
        scope.applied.nvtx_pattern is None,
        scope.applied.time_window_ns is None,
{
    ResolvedScope {
        applied: AppliedScope {
            device,
            stream: req.stream,
            native_pid,
            kind: None,
            nvtx_pattern: None,
            time_window_ns: None,
            aggregated_over,
        },
    }
}

/// Resolves the scope of a query against the process/device scopes of the
/// trace.
///
/// Returns the applied scope when the query is unambiguous, with or without a
/// flag, and a refusal when it matches more than one scope without all-device
/// aggregation.
pub fn resolve_scope(scopes: &Vec<(i64, i32)>, req: ScopeRequest) -> (outcome: Result<
    ResolvedScope,
    ResolveError,
>)
    ensures
        tells(outcome, scopes@.to_set(), req),
{
    let ghost set = scopes@.to_set();
    if let Some(error) = conflicting_flags(&req) {
        return Err(ResolveError::Probe(Box::new(error)));
    }
    let found = matching_scopes(scopes, &req);
    proof {
        found@.unique_seq_to_set();
    }
    let mut axes: Vec<String> = Vec::new();
    let mut native_pid: Option<i64> = req.process;
    let mut device: Option<i32> = req.device;
    if req.all_devices {
        if have_one_device(&found) {
            axes.push("process".to_owned());
        }
        axes.push("device".to_owned());
        device = None;
    } else if found.len() == 1 {
        let only = found[0];
        proof {
            let m = matching(set, req);
            assert(m.contains(found@[0]));
            assert(m.contains(m.choose()));
            let x: int = choose|x: int| 0 <= x < found@.len() && found@[x] == m.choose();
            assert(x == 0);
        }
        native_pid = Some(only.0);
        device = Some(only.1);
    } else if found.len() > 1 {
        if let Some(error) = stream_parent_error(req.stream, false) {
            return Err(ResolveError::Probe(Box::new(error)));
        }
        if !req.implicit_all_devices {
            return Err(ResolveError::Ambiguous(AmbiguityError::multi_device(found, req.process)));
        }
        if req.device.is_some() || have_one_device(&found) {
            axes.push("process".to_owned());
        }
        if req.device.is_none() {
            axes.push("device".to_owned());
        }
    }
    if let Some(error) = stream_parent_error(req.stream, device.is_some()) {
        return Err(ResolveError::Probe(Box::new(error)));
    }
    proof {
        let names = axes@.map_values(|s: String| s@);
        assert(resolution(set, req) is Applied);
        assert(names =~= resolution(set, req)->Applied_2);
    }
    Ok(applied(&req, native_pid, device, axes))
}

/// The error of a request that names a device and asks for all of them.
pub fn conflicting_flags(req: &ScopeRequest) -> (error: Option<NsysDataError>)
    ensures
        match error {
            Some(e) => req.all_devices && (req.device matches Some(d) && (e matches
                NsysDataError::ScopeConflictingDeviceFlags { device } && device == d)),
            None => !(req.all_devices && req.device is Some),
        },
{
    match req.device {
        Some(device) if req.all_devices => Some(
            NsysDataError::scope_conflicting_device_flags(device),
        ),
        _ => None,
    }
}

/// Adds a scope, unless it is there already.
fn add_scope(scopes: &mut Vec<(i64, i32)>, scope: (i64, i32))
    requires
        old(scopes)@.no_duplicates(),
    ensures
        final(scopes)@.no_duplicates(),
        final(scopes)@.to_set() == old(scopes)@.to_set().insert(scope),
{
    let ghost before = scopes@;
    let mut i: usize = 0;
    while i < scopes.len()
        invariant
            i <= scopes.len(),
            scopes@ == before,
            before.no_duplicates(),
            forall|x: int| 0 <= x < i ==> (#[trigger] scopes@[x]) != scope,
        decreases scopes.len() - i,
    {
        if scopes[i].0 == scope.0 && scopes[i].1 == scope.1 {
            proof {
                assert(before[i as int] == scope);
                assert(before.to_set() =~= before.to_set().insert(scope));
            }
            return;
        }
        i = i + 1;
    }
    scopes.push(scope);
    proof {
        assert forall|v: (i64, i32)| scopes@.to_set().contains(v) <==> before.to_set().insert(
            scope,
        ).contains(v) by {
            if before.contains(v) {
                let x: int = choose|x: int| 0 <= x < before.len() && before[x] == v;
                assert(scopes@[x] == v);
            }
            if v == scope {
                assert(scopes@[scopes.len() - 1] == v);
            }
        }
        assert(scopes@.to_set() =~= before.to_set().insert(scope));
    }
}

/// One location of an activity table.
#[derive(Debug, Clone, Copy)]
pub struct ActivityScopeRow {
    pub device: i32,
    pub context: i64,
    pub correlation: Option<i64>,
    pub start: i64,
    pub global_pid: Option<i64>,
}

impl ActivityScopeRow {
    /// The process that the activity belongs to.
    pub open spec fn owner(self, evidence: CudaEvidence) -> Option<i64> {
        evidence.owner(self.device, self.context, self.correlation, self.start, self.global_pid)
    }
}

/// The locations of one activity table.
#[derive(Debug)]
pub struct ActivityScopeTable {
    pub table: String,
    pub rows: Vec<ActivityScopeRow>,
}

/// Row `i` of the table has an owner.
pub open spec fn row_owned(t: ActivityScopeTable, evidence: CudaEvidence, i: int) -> bool {
    t.rows@[i].owner(evidence) is Some
}

/// Every row of the table has an owner.
pub open spec fn table_owned(t: ActivityScopeTable, evidence: CudaEvidence) -> bool {
    forall|i: int| 0 <= i < t.rows@.len() ==> #[trigger] row_owned(t, evidence, i)
}

/// The scope is that of a row of one of the tables.
pub open spec fn is_active(
    tables: Seq<ActivityScopeTable>,
    evidence: CudaEvidence,
    scope: (i64, i32),
) -> bool {
    exists|t: int, i: int|
        0 <= t < tables.len() && 0 <= i < tables[t].rows@.len() && #[trigger] row_scope(
            tables[t],
            evidence,
            i,
        ) == scope
}

/// The scope of a row.
pub open spec fn row_scope(t: ActivityScopeTable, evidence: CudaEvidence, i: int) -> (i64, i32) {
    (t.rows@[i].owner(evidence)->0, t.rows@[i].device)
}

/// Row `i` of table `t` is the first without an owner.
pub open spec fn first_unowned(
    tables: Seq<ActivityScopeTable>,
    evidence: CudaEvidence,
    t: int,
    i: int,
) -> bool {
    &&& 0 <= t < tables.len()
    &&& 0 <= i < tables[t].rows@.len()
    &&& !row_owned(tables[t], evidence, i)
    &&& forall|j: int| 0 <= j < i ==> #[trigger] row_owned(tables[t], evidence, j)
    &&& forall|u: int| 0 <= u < t ==> table_owned(#[trigger] tables[u], evidence)
}

/// Distinct process-local CUDA scopes `(native_pid, deviceId)`.
///
/// Context metadata is authoritative where it names any scope; activity rows
/// are the fallback, and their process has to be resolved. Physical devices
/// are never made into process-local scopes.
pub fn cuda_scope_set(
    contexts: &Vec<(i64, i32)>,
    activity: &Vec<ActivityScopeTable>,
    resolver: &CudaProcessResolver,
) -> (scopes: NsysDataResult<Vec<(i64, i32)>>)
    requires
        resolver.wf(),
    ensures
        if contexts.len() > 0 {
            scopes matches Ok(s) && s@.no_duplicates() && s@.to_set() == contexts@.to_set()
        } else {
            match scopes {
                Ok(s) => {
                    &&& s@.no_duplicates()
                    &&& forall|t: int|
                        0 <= t < activity.len() ==> table_owned(
                            #[trigger] activity@[t],
                            resolver@,
                        )
                    &&& forall|scope: (i64, i32)|
                        s@.to_set().contains(scope) <==> #[trigger] is_active(
                            activity@,
                            resolver@,
                            scope,
                        )
                },
                Err(error) => exists|t: int, i: int| #[trigger]
                    first_unowned(activity@, resolver@, t, i) && is_unresolved(
                        error,
                        activity@[t].table@,
                        activity@[t].rows@[i],
                    ),
            }
        },
{
    let mut out: Vec<(i64, i32)> = Vec::new();
    let mut i: usize = 0;
    assert(out@.to_set() =~= contexts@.subrange(0, 0).to_set());
    while i < contexts.len()
        invariant
            i <= contexts.len(),
            out@.no_duplicates(),
            out@.to_set() == contexts@.subrange(0, i as int).to_set(),
        decreases contexts.len() - i,
    {
        add_scope(&mut out, contexts[i]);
        proof {
            prefix_set(contexts@, i as int);
        }
        i = i + 1;
    }
    assert(contexts@.subrange(0, contexts.len() as int) =~= contexts@);
    if contexts.len() > 0 {
        return Ok(out);
    }
    let ghost ev = resolver@;
    let mut t: usize = 0;
    while t < activity.len()
        invariant
            t <= activity.len(),
            contexts.len() == 0,
            ev == resolver@,
            resolver.wf(),
            out@.no_duplicates(),
            forall|u: int| 0 <= u < t ==> table_owned(#[trigger] activity@[u], ev),
            forall|scope: (i64, i32)|
                out@.to_set().contains(scope) <==> #[trigger] is_active(
                    activity@.subrange(0, t as int),
                    ev,
                    scope,
                ),
        decreases activity.len() - t,
    {
        let entry = &activity[t];
        let ghost base = out@.to_set();
        let mut i: usize = 0;
        while i < entry.rows.len()
            invariant
                i <= entry.rows.len(),
                t < activity.len(),
                contexts.len() == 0,
                ev == resolver@,
                resolver.wf(),
                *entry == activity@[t as int],
                out@.no_duplicates(),
                forall|u: int| 0 <= u < t ==> table_owned(#[trigger] activity@[u], ev),
                forall|j: int| 0 <= j < i ==> #[trigger] row_owned(*entry, ev, j),
                forall|scope: (i64, i32)|
                    #![trigger out@.to_set().contains(scope)]
                    out@.to_set().contains(scope) <==> base.contains(scope) || exists|j: int|
                        0 <= j < i && #[trigger] row_scope(*entry, ev, j) == scope,
            decreases entry.rows.len() - i,
        {
            let row = entry.rows[i];
            let resolved = resolver.resolve_required(
                entry.table.as_str(),
                row.device,
                row.context,
                row.correlation,
                row.start,
                row.global_pid,
            );
            match resolved {
                Ok(process) => {
                    let ghost before = out@.to_set();
                    add_scope(&mut out, (process, row.device));
                    proof {
                        assert(row_scope(*entry, ev, i as int) == (process, row.device));
                        assert(row_owned(*entry, ev, i as int));
                        assert forall|scope: (i64, i32)|
                            #![trigger out@.to_set().contains(scope)]
                            out@.to_set().contains(scope) <==> base.contains(scope) || exists|j: int|
                                0 <= j < i + 1 && #[trigger] row_scope(*entry, ev, j) == scope by {
                            assert(before.contains(scope) <==> base.contains(scope) || exists|j: int|
                                0 <= j < i && #[trigger] row_scope(*entry, ev, j) == scope);
                        }
                    }
                },
                Err(error) => {
                    assert(first_unowned(activity@, ev, t as int, i as int));
                    return Err(error);
                },
            }
            i = i + 1;
        }
        proof {
            let less = activity@.subrange(0, t as int);
            let more = activity@.subrange(0, t + 1);
            assert(table_owned(activity@[t as int], ev));
            assert forall|scope: (i64, i32)| out@.to_set().contains(scope)
                <==> #[trigger] is_active(more, ev, scope) by {
                assert(base.contains(scope) <==> is_active(less, ev, scope));
                if is_active(less, ev, scope) {
                    let (u, j): (int, int) = choose|u: int, j: int|
                        0 <= u < less.len() && 0 <= j < less[u].rows@.len() && #[trigger] row_scope(
                            less[u],
                            ev,
                            j,
                        ) == scope;
                    assert(row_scope(more[u], ev, j) == scope);
                }
                if exists|j: int|
                    0 <= j < entry.rows@.len() && #[trigger] row_scope(*entry, ev, j) == scope {
                    let j: int = choose|j: int|
                        0 <= j < entry.rows@.len() && #[trigger] row_scope(*entry, ev, j) == scope;
                    assert(row_scope(more[t as int], ev, j) == scope);
                }
                if is_active(more, ev, scope) {
                    let (u, j): (int, int) = choose|u: int, j: int|
                        0 <= u < more.len() && 0 <= j < more[u].rows@.len() && #[trigger] row_scope(
                            more[u],
                            ev,
                            j,
                        ) == scope;
                    if u < t {
                        assert(row_scope(less[u], ev, j) == scope);
                    } else {
                        assert(row_scope(*entry, ev, j) == scope);
                    }
                }
            }
        }
        t = t + 1;
    }
    assert(activity@.subrange(0, activity.len() as int) =~= activity@);
    Ok(out)
}

/// `error` says that the owner of `row` of `table` is unknown.
pub open spec fn is_unresolved(
    error: NsysDataError,
    table: Seq<char>,
    row: ActivityScopeRow,
) -> bool {
    error matches NsysDataError::CudaProcessUnresolved {
        table: t,
        device_id,
        context_id,
        correlation_id,
    } && t@ == table && device_id == row.device && context_id == row.context && correlation_id
        == row.correlation
}

/// SQL for the distinct locations of an activity table.
pub open spec fn activity_scope_sql_text(context_col: Seq<char>, corr_col: Seq<char>, start_col: Seq<char>, global_pid_col: Seq<char>, table: Seq<char>) -> Seq<char> {
    "SELECT DISTINCT CAST(deviceId AS INTEGER), "@
        + context_col
        + ", "@
        + corr_col
        + ", "@
        + start_col
        + ", "@
        + global_pid_col
        + " FROM nsight.\""@
        + table
        + "\" WHERE deviceId IS NOT NULL"@
}

/// SQL for the distinct locations of an activity table.
fn activity_scope_sql(context_col: &str, corr_col: &str, start_col: &str, global_pid_col: &str, table: &str) -> (text: String)
    ensures
        text@ == activity_scope_sql_text(context_col@, corr_col@, start_col@, global_pid_col@, table@),
{
    let mut text = "SELECT DISTINCT CAST(deviceId AS INTEGER), ".to_owned();
    text.append(context_col);
    text.append(", ");
    text.append(corr_col);
    text.append(", ");
    text.append(start_col);
    text.append(", ");
    text.append(global_pid_col);
    text.append(" FROM nsight.\"");
    text.append(table);
    text.append("\" WHERE deviceId IS NOT NULL");
    text
}

/// `yes` where the column is there, `no` otherwise.
fn column_or(
    schema: &TraceSchema,
    table: &str,
    column: &str,
    yes: &'static str,
    no: &'static str,
) -> (text: &'static str)
    ensures
        text@ == if schema.has_column(table@, column@) {
            yes@
        } else {
            no@
        },
{
    if schema.table_has_column(table, column) {
        yes
    } else {
        no
    }
}

/// The query for the locations of an activity table; none where the table is
/// not there, or where it lacks the device column while the target info
/// supplies a usable device inventory.
pub open spec fn probe_text(
    schema: &TraceSchema,
    table: Seq<char>,
    has_target_devices: bool,
) -> Option<Seq<char>> {
    if !schema.has(table) || (!schema.has_column(table, "deviceId"@) && has_target_devices) {
        None
    } else {
        Some(
            activity_scope_sql_text(
                if schema.has_column(table, "contextId"@) {
                    "CAST(contextId AS BIGINT)"@
                } else {
                    "0::BIGINT"@
                },
                if schema.has_column(table, "correlationId"@) {
                    "CAST(correlationId AS BIGINT)"@
                } else {
                    "CAST(NULL AS BIGINT)"@
                },
                if schema.has_column(table, "start"@) {
                    "CAST(start AS BIGINT)"@
                } else {
                    "0::BIGINT"@
                },
                if schema.has_column(table, "globalPid"@) {
                    "CAST(globalPid AS BIGINT)"@
                } else {
                    "CAST(NULL AS BIGINT)"@
                },
                table,
            ),
        )
    }
}

/// The query for the scopes that context metadata names.
pub fn context_probe_sql() -> (sql: String)
    ensures
        sql@ == "SELECT DISTINCT CAST(processId AS BIGINT), CAST(deviceId AS INTEGER) \
            FROM nsight.TARGET_INFO_CUDA_CONTEXT_INFO"@,
{
    "SELECT DISTINCT CAST(processId AS BIGINT), CAST(deviceId AS INTEGER) \
            FROM nsight.TARGET_INFO_CUDA_CONTEXT_INFO".to_owned()
}

/// The query for the physical devices.
pub fn device_probe_sql() -> (sql: String)
    ensures
        sql@ == "SELECT DISTINCT CAST(cuDevice AS INTEGER) FROM nsight.TARGET_INFO_GPU"@,
{
    "SELECT DISTINCT CAST(cuDevice AS INTEGER) FROM nsight.TARGET_INFO_GPU".to_owned()
}

/// The query for the locations of an activity table, if it is to be probed.
pub fn activity_probe_sql(
    schema: &TraceSchema,
    table: &str,
    has_target_devices: bool,
) -> (sql: Option<String>)
    ensures
        match probe_text(schema, table@, has_target_devices) {
            Some(text) => sql matches Some(s) && s@ == text,
            None => sql is None,
        },
{
    if !schema.has_table(table) {
        return None;
    }
    if !schema.table_has_column(table, "deviceId") && has_target_devices {
        return None;
    }
    let start_col = column_or(schema, table, "start", "CAST(start AS BIGINT)", "0::BIGINT");
    let corr_col = column_or(
        schema,
        table,
        "correlationId",
        "CAST(correlationId AS BIGINT)",
        "CAST(NULL AS BIGINT)",
    );
    let global_pid_col = column_or(
        schema,
        table,
        "globalPid",
        "CAST(globalPid AS BIGINT)",
        "CAST(NULL AS BIGINT)",
    );
    let context_col = column_or(
        schema,
        table,
        "contextId",
        "CAST(contextId AS BIGINT)",
        "0::BIGINT",
    );
    Some(activity_scope_sql(context_col, corr_col, start_col, global_pid_col, table))
}

/// Naming the process and the device of a scope of the trace always resolves
/// to that scope.
pub proof fn exact_request_resolves(scopes: Set<(i64, i32)>, req: ScopeRequest)
    requires
        scopes.finite(),
        req.process is Some,
        req.device is Some,
        !req.all_devices,
        scopes.contains((req.process->0, req.device->0)),
    ensures
        resolution(scopes, req) == Resolution::Applied(req.process, req.device, Seq::empty()),
{
    let only = (req.process->0, req.device->0);
    let found = matching(scopes, req);
    assert(found =~= Set::empty().insert(only));
    assert(found.len() == 1);
    assert(found.contains(found.choose()));
}

/// A request without flags resolves to the only scope of a trace.
pub proof fn single_scope_needs_no_flags(scopes: Set<(i64, i32)>, only: (i64, i32), req: ScopeRequest)
    requires
        scopes == Set::<(i64, i32)>::empty().insert(only),
        req.process is None,
        req.device is None,
        !req.all_devices,
    ensures
        resolution(scopes, req) == Resolution::Applied(Some(only.0), Some(only.1), Seq::empty()),
{
    let found = matching(scopes, req);
    assert(found =~= scopes);
    assert(found.len() == 1);
    assert(found.contains(found.choose()));
}

/// Where several scopes match and nothing says that all are meant, the request
/// is refused.
pub proof fn several_scopes_are_refused(scopes: Set<(i64, i32)>, req: ScopeRequest)
    requires
        matching(scopes, req).len() > 1,
        !req.all_devices,
        !req.implicit_all_devices,
        req.stream is None,
    ensures
        resolution(scopes, req) == Resolution::Ambiguous,
{
}

/// A device alone does not tell processes apart that number it the same; the
/// process does.
pub proof fn process_tells_devices_apart(
    scopes: Set<(i64, i32)>,
    pid: i64,
    other: i64,
    device: i32,
    req: ScopeRequest,
)
    requires
        scopes.finite(),
        pid != other,
        scopes.contains((pid, device)),
        scopes.contains((other, device)),
        req.process is None,
        req.device == Some(device),
        !req.all_devices,
        !req.implicit_all_devices,
        req.stream is None,
    ensures
        resolution(scopes, req) == Resolution::Ambiguous,
        resolution(scopes, ScopeRequest { process: Some(pid), ..req }) == Resolution::Applied(
            Some(pid),
            Some(device),
            Seq::empty(),
        ),
{
    let found = matching(scopes, req);
    assert(found.contains((pid, device)) && found.contains((other, device)));
    let rest = found.remove((pid, device));
    assert(rest.contains((other, device)));
    assert(rest.len() > 0) by {
        if rest.len() == 0 {
            assert(rest =~= Set::empty());
        }
    }
    assert(found.len() == rest.len() + 1);
    exact_request_resolves(scopes, ScopeRequest { process: Some(pid), ..req });
}

/// Asking for all devices locks none and aggregates over the devices; over the
/// processes too where they share the only device.
pub proof fn all_devices_are_aggregated(scopes: Set<(i64, i32)>, req: ScopeRequest)
    requires
        req.all_devices,
        req.device is None,
        req.stream is None,
    ensures
        resolution(scopes, req) matches Resolution::Applied(process, device, axes) && process
            == req.process && device is None && axes == if share_one_device(matching(scopes, req)) {
            seq!["process"@, "device"@]
        } else {
            seq!["device"@]
        },
{
}

/// A stream never survives without a single device.
pub proof fn stream_implies_device(scopes: Set<(i64, i32)>, req: ScopeRequest)
    requires
        req.stream is Some,
    ensures
        resolution(scopes, req) matches Resolution::Applied(_, device, _) ==> device is Some,
{
}

/// Where several scopes match and no device or stream is named, a request that
/// implies all devices resolves as one that asks for them.
pub proof fn implied_devices_act_as_asked(scopes: Set<(i64, i32)>, req: ScopeRequest)
    requires
        req.implicit_all_devices,
        !req.all_devices,
        req.device is None,
        req.stream is None,
        matching(scopes, req).len() > 1,
    ensures
        resolution(scopes, req) == resolution(scopes, ScopeRequest { all_devices: true, ..req }),
{
    let asked = ScopeRequest { all_devices: true, ..req };
    assert(matching(scopes, req) =~= matching(scopes, asked));
}

/// A request is ambiguous only where several scopes match and nothing says that
/// all of them are meant.
pub proof fn ambiguous_only_among_several(scopes: Set<(i64, i32)>, req: ScopeRequest)
    requires
        resolution(scopes, req) == Resolution::Ambiguous,
    ensures
        matching(scopes, req).len() > 1,
        !req.all_devices,
        !req.implicit_all_devices,
        req.stream is None,
{
}

} // verus!
