//! What a request for a scope resolves to.
use crate::cuda_identity::CudaEvidence;
use crate::error::NsysDataError;
use crate::scope::{
    first_unowned, is_active, is_unresolved, matching, row_owned, row_scope, share_one_device,
    table_owned, tells, ActivityScopeRow, ActivityScopeTable, AmbiguityError, ResolveError,
    ResolvedScope, ScopeRequest, WarningCode, WarningSeverity,
};
use crate::text::decimal;
use vstd::prelude::*;

verus! {

/// The request asks for the scope: it names no other process and no other device.
pub open spec fn asks_for(req: ScopeRequest, s: (i64, i32)) -> bool {
    (req.process is None || req.process == Some(s.0)) && (req.device is None || req.device == Some(
        s.1,
    ))
}

/// The scope is one of the trace that the request asks for.
pub open spec fn is_match(scopes: Seq<(i64, i32)>, req: ScopeRequest, s: (i64, i32)) -> bool {
    scopes.contains(s) && asks_for(req, s)
}

/// The scope is the only one that the request asks for.
pub open spec fn is_only_match(scopes: Seq<(i64, i32)>, req: ScopeRequest, s: (i64, i32)) -> bool {
    is_match(scopes, req, s) && forall|o: (i64, i32)| #[trigger] is_match(scopes, req, o) ==> o == s
}

/// The request asks for no scope of the trace.
pub open spec fn has_no_match(scopes: Seq<(i64, i32)>, req: ScopeRequest) -> bool {
    forall|s: (i64, i32)| !#[trigger] is_match(scopes, req, s)
}

/// The request asks for at least two scopes of the trace.
pub open spec fn has_several(scopes: Seq<(i64, i32)>, req: ScopeRequest) -> bool {
    exists|a: (i64, i32), b: (i64, i32)|
        a != b && #[trigger] is_match(scopes, req, a) && #[trigger] is_match(scopes, req, b)
}

/// The scopes that the request asks for are on at least two devices.
pub open spec fn on_several_devices(scopes: Seq<(i64, i32)>, req: ScopeRequest) -> bool {
    exists|a: (i64, i32), b: (i64, i32)|
        a.1 != b.1 && #[trigger] is_match(scopes, req, a) && #[trigger] is_match(scopes, req, b)
}

/// Nothing but the scope is filled in.
pub open spec fn applies(
    r: ResolvedScope,
    process: Option<i64>,
    device: Option<i32>,
    stream: Option<i64>,
) -> bool {
    &&& r.applied.native_pid == process
    &&& r.applied.device == device
    &&& r.applied.stream == stream
    &&& r.applied.kind is None
    &&& r.applied.nvtx_pattern is None
    &&& r.applied.time_window_ns is None
}

/// The response aggregates over the devices alone; over the processes too where
/// several share the only device.
pub open spec fn over_devices(
    r: ResolvedScope,
    scopes: Seq<(i64, i32)>,
    req: ScopeRequest,
) -> bool {
    let axes = r.applied.aggregated_over@;
    if has_several(scopes, req) && !on_several_devices(scopes, req) {
        axes.len() == 2 && axes[0]@ == "process"@ && axes[1]@ == "device"@
    } else {
        axes.len() == 1 && axes[0]@ == "device"@
    }
}

/// The refusal names the scopes that the request asks for, all of them and each
/// once, by process and device.
pub open spec fn refuses(
    e: AmbiguityError,
    scopes: Seq<(i64, i32)>,
    req: ScopeRequest,
) -> bool {
    let named = e.candidate_scopes@;
    &&& forall|s: (i64, i32)| #[trigger] named.contains(s) <==> is_match(scopes, req, s)
    &&& forall|i: int, j: int|
        #![trigger named[i], named[j]]
        0 <= i < j < named.len() ==> named[i].0 < named[j].0 || (named[i].0 == named[j].0
            && named[i].1 < named[j].1)
    &&& e.requested_process == req.process
    &&& e.message@ == "trace has "@ + decimal(named.len() as int)
        + " CUDA process/device scopes; pass `--process <pid>` with `--device <id>`, or `--all-devices` to scope the query"@
    &&& e.warning.message@ == e.message@
    &&& e.warning.code == WarningCode::MultiDeviceAmbiguous
    &&& e.warning.severity == WarningSeverity::Warn
}

proof fn found_are_matches(scopes: Seq<(i64, i32)>, req: ScopeRequest)
    ensures
        ({
            let found = matching(scopes.to_set(), req);
            &&& found.finite()
            &&& forall|s: (i64, i32)| #[trigger] found.contains(s) <==> is_match(scopes, req, s)
            &&& found.len() == 0 <==> has_no_match(scopes, req)
            &&& found.len() > 1 <==> has_several(scopes, req)
            &&& found.len() == 1 ==> is_only_match(scopes, req, found.choose())
            &&& share_one_device(found) <==> has_several(scopes, req) && !on_several_devices(
                scopes,
                req,
            )
        }),
{
    let found = matching(scopes.to_set(), req);
    assert(found.finite()) by {
        vstd::set_lib::lemma_len_subset(found, scopes.to_set());
    }
    assert forall|s: (i64, i32)| #[trigger] found.contains(s) <==> is_match(scopes, req, s) by {
        assert(scopes.to_set().contains(s) <==> scopes.contains(s));
    }
    if has_no_match(scopes, req) {
        assert(found =~= Set::empty()) by {
            assert forall|s: (i64, i32)| !found.contains(s) by {
                assert(!is_match(scopes, req, s));
            }
        }
    }
    if found.len() == 0 {
        assert forall|s: (i64, i32)| !#[trigger] is_match(scopes, req, s) by {
            if is_match(scopes, req, s) {
                assert(found.contains(s));
                assert(found =~= Set::empty());
            }
        }
    }
    if found.len() > 0 {
        let a = found.choose();
        assert(found.contains(a)) by {
            if forall|x: (i64, i32)| !found.contains(x) {
                assert(found =~= Set::empty());
            }
        }
        let rest = found.remove(a);
        if found.len() > 1 {
            let b = rest.choose();
            assert(rest.contains(b)) by {
                if forall|x: (i64, i32)| !rest.contains(x) {
                    assert(rest =~= Set::empty());
                }
            }
            assert(found.contains(b));
            assert(is_match(scopes, req, a) && is_match(scopes, req, b));
        } else {
            assert(rest =~= Set::empty());
            assert forall|o: (i64, i32)| #[trigger] is_match(scopes, req, o) implies o == a by {
                assert(found.contains(o));
                assert(!rest.contains(o));
            }
        }
    }
    if has_several(scopes, req) {
        let (a, b): ((i64, i32), (i64, i32)) = choose|a: (i64, i32), b: (i64, i32)|
            a != b && #[trigger] is_match(scopes, req, a) && #[trigger] is_match(scopes, req, b);
        assert(found.contains(a) && found.contains(b));
        let rest = found.remove(a);
        assert(rest.contains(b));
        assert(rest.len() > 0) by {
            if rest.len() == 0 {
                assert(rest =~= Set::empty());
            }
        }
    }
    if on_several_devices(scopes, req) {
        let (a, b): ((i64, i32), (i64, i32)) = choose|a: (i64, i32), b: (i64, i32)|
            a.1 != b.1 && #[trigger] is_match(scopes, req, a) && #[trigger] is_match(scopes, req, b);
        assert(found.contains(a) && found.contains(b));
    }
    if found.len() > 1 && !on_several_devices(scopes, req) {
        assert forall|a: (i64, i32), b: (i64, i32)| found.contains(a) && found.contains(
            b,
        ) implies a.1 == b.1 by {
            assert(is_match(scopes, req, a) && is_match(scopes, req, b));
        }
    }
}

/// What a request resolves to, told of the scopes that it asks for.
///
/// A device and all devices exclude each other. A stream needs a single device.
/// All devices lock none and keep the process that was named. One scope is
/// resolved to its process and device; where there is none, what was named
/// stands. Several are refused, unless the command means all of them.
pub proof fn scopes_are_resolved(
    scopes: Seq<(i64, i32)>,
    req: ScopeRequest,
    outcome: Result<ResolvedScope, ResolveError>,
)
    requires
        tells(outcome, scopes.to_set(), req),
    ensures
        req.all_devices && req.device is Some ==> (outcome matches Err(ResolveError::Probe(e)) && (
        *e matches NsysDataError::ScopeConflictingDeviceFlags { device } && Some(device)
            == req.device)),
        req.all_devices && req.device is None && req.stream is None ==> (outcome matches Ok(r)
            && applies(r, req.process, None, None) && over_devices(r, scopes, req)),
        req.all_devices && req.device is None && req.stream is Some ==> (outcome matches Err(
            ResolveError::Probe(e),
        ) && (*e matches NsysDataError::ScopeStreamRequiresDevice { stream } && Some(stream)
            == req.stream)),
        forall|s: (i64, i32)|
            !req.all_devices && #[trigger] is_only_match(scopes, req, s) ==> (outcome matches Ok(r)
                && applies(r, Some(s.0), Some(s.1), req.stream)
                && r.applied.aggregated_over@.len() == 0),
        !req.all_devices && has_no_match(scopes, req) && (req.stream is None || req.device is Some)
            ==> (outcome matches Ok(r) && applies(r, req.process, req.device, req.stream)
            && r.applied.aggregated_over@.len() == 0),
        !req.all_devices && has_no_match(scopes, req) && req.stream is Some && req.device is None
            ==> (outcome matches Err(ResolveError::Probe(e)) && (
        *e matches NsysDataError::ScopeStreamRequiresDevice { stream } && Some(stream)
            == req.stream)),
        !req.all_devices && has_several(scopes, req) && req.stream is Some ==> (outcome matches Err(
            ResolveError::Probe(e),
        ) && (*e matches NsysDataError::ScopeStreamRequiresDevice { stream } && Some(stream)
            == req.stream)),
        !req.all_devices && has_several(scopes, req) && req.stream is None
            && req.implicit_all_devices && req.device is None ==> (outcome matches Ok(r) && applies(
            r,
            req.process,
            None,
            None,
        ) && over_devices(r, scopes, req)),
        !req.all_devices && has_several(scopes, req) && req.stream is None
            && req.implicit_all_devices && req.device is Some ==> (outcome matches Ok(r) && applies(
            r,
            req.process,
            req.device,
            None,
        ) && r.applied.aggregated_over@.len() == 1 && r.applied.aggregated_over@[0]@ == "process"@),
        !req.all_devices && has_several(scopes, req) && req.stream is None
            && !req.implicit_all_devices ==> (outcome matches Err(ResolveError::Ambiguous(e))
            && refuses(e, scopes, req)),
{
    found_are_matches(scopes, req);
    let found = matching(scopes.to_set(), req);
    if outcome is Ok {
        let axes = outcome->Ok_0.applied.aggregated_over@;
        let told = axes.map_values(|s: String| s@);
        assert(told.len() == axes.len());
        if axes.len() > 0 {
            assert(told[0] == axes[0]@);
        }
        if axes.len() > 1 {
            assert(told[1] == axes[1]@);
        }
    }
    assert forall|s: (i64, i32)| #[trigger] is_only_match(scopes, req, s) implies found.len() == 1
        && found.choose() == s by {
        assert(found.contains(s));
        assert(found =~= Set::<(i64, i32)>::empty().insert(s)) by {
            assert forall|o: (i64, i32)| found.contains(o) implies o == s by {
                assert(is_match(scopes, req, o));
            }
        }
        assert(is_only_match(scopes, req, found.choose()));
        assert(is_match(scopes, req, found.choose()));
    }
    if let Err(ResolveError::Ambiguous(e)) = outcome {
        assert forall|s: (i64, i32)| #[trigger] e.candidate_scopes@.contains(s) <==> is_match(
            scopes,
            req,
            s,
        ) by {
            assert(e.candidate_scopes@.to_set().contains(s) <==> found.contains(s));
        }
    }
}

/// The row of an activity is on the device, and its owner, told of its own device,
/// context, correlation, start and global number, is the process.
pub open spec fn is_activity_of(row: ActivityScopeRow, evidence: CudaEvidence, s: (i64, i32)) -> bool {
    row.device == s.1 && evidence.owner(
        row.device,
        row.context,
        row.correlation,
        row.start,
        row.global_pid,
    ) == Some(s.0)
}

/// Where every row has an owner, the active scopes are the owners and devices of
/// the rows.
pub proof fn active_scopes_have_rows(
    tables: Seq<ActivityScopeTable>,
    evidence: CudaEvidence,
    scope: (i64, i32),
)
    requires
        forall|t: int| 0 <= t < tables.len() ==> table_owned(#[trigger] tables[t], evidence),
    ensures
        is_active(tables, evidence, scope) <==> exists|t: int, i: int|
            0 <= t < tables.len() && 0 <= i < tables[t].rows@.len() && is_activity_of(
                #[trigger] tables[t].rows@[i],
                evidence,
                scope,
            ),
        forall|t: int, i: int|
            0 <= t < tables.len() && 0 <= i < tables[t].rows@.len() ==> evidence.owner(
                (#[trigger] tables[t].rows@[i]).device,
                tables[t].rows@[i].context,
                tables[t].rows@[i].correlation,
                tables[t].rows@[i].start,
                tables[t].rows@[i].global_pid,
            ) is Some,
{
    assert forall|t: int, i: int|
        0 <= t < tables.len() && 0 <= i < tables[t].rows@.len() implies evidence.owner(
        (#[trigger] tables[t].rows@[i]).device,
        tables[t].rows@[i].context,
        tables[t].rows@[i].correlation,
        tables[t].rows@[i].start,
        tables[t].rows@[i].global_pid,
    ) is Some by {
        assert(table_owned(tables[t], evidence));
        assert(row_owned(tables[t], evidence, i));
    }
    if is_active(tables, evidence, scope) {
        let (t, i): (int, int) = choose|t: int, i: int|
            0 <= t < tables.len() && 0 <= i < tables[t].rows@.len() && #[trigger] row_scope(
                tables[t],
                evidence,
                i,
            ) == scope;
        assert(is_activity_of(tables[t].rows@[i], evidence, scope));
    }
    if exists|t: int, i: int|
        0 <= t < tables.len() && 0 <= i < tables[t].rows@.len() && is_activity_of(
            #[trigger] tables[t].rows@[i],
            evidence,
            scope,
        ) {
        let (t, i): (int, int) = choose|t: int, i: int|
            0 <= t < tables.len() && 0 <= i < tables[t].rows@.len() && is_activity_of(
                #[trigger] tables[t].rows@[i],
                evidence,
                scope,
            );
        assert(row_scope(tables[t], evidence, i) == scope);
    }
}

/// Where activity has no owner, the error names the table and the place of the
/// first row without one: all rows before it, in its table and in those before,
/// have owners.
pub proof fn unowned_activity_is_named(
    tables: Seq<ActivityScopeTable>,
    evidence: CudaEvidence,
    error: NsysDataError,
    t: int,
    i: int,
)
    requires
        first_unowned(tables, evidence, t, i),
        is_unresolved(error, tables[t].table@, tables[t].rows@[i]),
    ensures
        0 <= t < tables.len(),
        0 <= i < tables[t].rows@.len(),
        error is CudaProcessUnresolved,
        error->CudaProcessUnresolved_table@ == tables[t].table@,
        error->CudaProcessUnresolved_device_id == tables[t].rows@[i].device,
        error->CudaProcessUnresolved_context_id == tables[t].rows@[i].context,
        error->CudaProcessUnresolved_correlation_id == tables[t].rows@[i].correlation,
        forall|u: int, j: int|
            #![trigger tables[u].rows@[j]]
            0 <= u <= t && 0 <= j < tables[u].rows@.len() && (u < t || j <= i) ==> {
                let r = tables[u].rows@[j];
                evidence.owner(r.device, r.context, r.correlation, r.start, r.global_pid) is None
                    <==> u == t && j == i
            },
{
    assert forall|u: int, j: int|
        #![trigger tables[u].rows@[j]]
        0 <= u <= t && 0 <= j < tables[u].rows@.len() && (u < t || j <= i) implies {
        let r = tables[u].rows@[j];
        evidence.owner(r.device, r.context, r.correlation, r.start, r.global_pid) is None <==> u == t
            && j == i
    } by {
        if u < t {
            assert(table_owned(tables[u], evidence));
            assert(row_owned(tables[u], evidence, j));
        } else if j < i {
            assert(row_owned(tables[t], evidence, j));
        }
    }
}

} // verus!
