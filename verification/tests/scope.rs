use veloq_nsys_data::cuda_identity::{ContextRow, ProcessRow, RuntimeCallRow};
use veloq_nsys_data::schema::{TableColumns, TraceSchema};
use veloq_nsys_data::scope::{
    activity_probe_sql, conflicting_flags, context_probe_sql, cuda_scope_set, device_probe_sql,
    resolve_scope, ActivityScopeRow, ActivityScopeTable, AmbiguityError, ResolveError,
    ScopeRequest, WarningCode, WarningSeverity,
};
use veloq_nsys_data::{CudaProcessResolver, NsysDataError};

fn kernel_row(start: i64, global_pid: Option<i64>) -> ActivityScopeRow {
    ActivityScopeRow { device: 0, context: 1, correlation: Some(42), start, global_pid }
}

fn kernels(rows: Vec<ActivityScopeRow>) -> Vec<ActivityScopeTable> {
    vec![ActivityScopeTable { table: "CUPTI_ACTIVITY_KIND_KERNEL".to_string(), rows }]
}

fn process(pid: i64) -> ProcessRow {
    ProcessRow { global_pid: pid * 16777216, native_pid: pid }
}

#[test]
fn ambiguity_error_carries_multi_device_warning_code() {
    let e = AmbiguityError::multi_device(vec![(1001, 0), (2002, 0), (3003, 1), (4004, 1)], None);
    assert_eq!(
        e.warning.code as u8,
        WarningCode::MultiDeviceAmbiguous as u8,
        "code variant must be MultiDeviceAmbiguous"
    );
    assert!(matches!(e.warning.severity, WarningSeverity::Warn));
    assert!(e.message.contains("4 CUDA process/device scopes"), "message: {}", e.message);
    assert!(
        e.message.contains("--device") && e.message.contains("--all-devices"),
        "message must mention both flags: {}",
        e.message
    );
    assert_eq!(e.candidate_scopes.first(), Some(&(1001, 0)));
}

#[test]
fn conflicting_device_scope_flags_have_typed_data_error() {
    let err = NsysDataError::scope_conflicting_device_flags(7);
    assert_eq!(err.code().as_str(), "nsys.data.scope-conflicting-device-flags");
    assert!(err.message().contains("--device 7"));
    assert!(err.message().contains("--all-devices"));
}

#[test]
fn implicit_all_devices_resolves_multi_device_trace() {
    let scopes =
        cuda_scope_set(&vec![(1001, 0), (1001, 1)], &Vec::new(), &CudaProcessResolver::default())
            .expect("contexts name the scopes");

    let strict = resolve_scope(&scopes, ScopeRequest::default());
    assert!(
        matches!(strict, Err(ResolveError::Ambiguous(_))),
        "strict multi-device request should still refuse: {strict:?}",
    );

    let resolved = resolve_scope(
        &scopes,
        ScopeRequest { implicit_all_devices: true, ..ScopeRequest::default() },
    )
    .expect("all devices");
    assert!(
        resolved.applied.device.is_none(),
        "implicit all-device scope must not lock one device: {resolved:?}",
    );
    let axis =
        resolved.applied.aggregated_over.first().expect("expected aggregated_over device axis");
    assert_eq!(axis, "device");
}

#[test]
fn stream_requires_single_resolved_device_scope() {
    let scopes = cuda_scope_set(&Vec::new(), &kernels(Vec::new()), &CudaProcessResolver::default())
        .expect("no activity");

    let err = match resolve_scope(
        &scopes,
        ScopeRequest { stream: Some(7), all_devices: true, ..ScopeRequest::default() },
    ) {
        Ok(scope) => panic!("stream across all devices should fail: {scope:?}"),
        Err(ResolveError::Probe(err)) => *err,
        Err(other) => panic!("expected scope probe error, got {other:?}"),
    };
    assert_eq!(err.code().as_str(), "nsys.data.scope-stream-requires-device");

    let scoped = resolve_scope(
        &scopes,
        ScopeRequest { device: Some(0), stream: Some(7), ..ScopeRequest::default() },
    )
    .expect("one device");
    assert_eq!(scoped.applied.device, Some(0));
    assert_eq!(scoped.applied.stream, Some(7));
}

#[test]
fn activity_global_pid_recovers_process_collision_without_context_table() {
    let pid0 = 1001_i64;
    let resolver = CudaProcessResolver::build(
        &vec![process(1001), process(2002)],
        &Vec::new(),
        &Vec::new(),
    );
    let activity =
        kernels(vec![kernel_row(10, Some(1001 * 16777216)), kernel_row(20, Some(2002 * 16777216))]);
    let scopes = cuda_scope_set(&Vec::new(), &activity, &resolver).expect("owned");

    assert!(matches!(
        resolve_scope(&scopes, ScopeRequest { device: Some(0), ..ScopeRequest::default() }),
        Err(ResolveError::Ambiguous(_))
    ));
    let exact = resolve_scope(
        &scopes,
        ScopeRequest { process: Some(pid0), device: Some(0), ..ScopeRequest::default() },
    )
    .expect("exact");
    assert_eq!(exact.applied.native_pid, Some(pid0));
    assert_eq!(exact.applied.device, Some(0));
}

#[test]
fn inactive_physical_device_is_not_fabricated_into_logical_scope() {
    let pid = 1001_i64;
    let resolver = CudaProcessResolver::build(&vec![process(pid)], &Vec::new(), &Vec::new());
    let activity = kernels(vec![kernel_row(10, Some(1001 * 16777216))]);
    let scopes = cuda_scope_set(&Vec::new(), &activity, &resolver).expect("owned");
    assert_eq!(
        scopes,
        vec![(pid, 0)],
        "logical scopes require ownership evidence; physical inventory is separate"
    );
}

#[test]
fn unresolved_activity_process_is_a_typed_error() {
    let activity = kernels(vec![kernel_row(10, None)]);
    let err = match cuda_scope_set(&Vec::new(), &activity, &CudaProcessResolver::default()) {
        Ok(scopes) => panic!("unresolved CUDA ownership should fail: {scopes:?}"),
        Err(err) => err,
    };
    assert_eq!(err.code().as_str(), "nsys.data.cuda-process-unresolved");
    assert!(matches!(
        err,
        NsysDataError::CudaProcessUnresolved {
            device_id: 0,
            context_id: 1,
            correlation_id: Some(42),
            ..
        }
    ));
}

#[test]
fn single_scope_needs_no_flags() {
    let resolved = resolve_scope(&vec![(1001, 3)], ScopeRequest::default()).expect("single");
    assert_eq!(resolved.applied.native_pid, Some(1001));
    assert_eq!(resolved.applied.device, Some(3));
    assert!(resolved.applied.aggregated_over.is_empty());
}

#[test]
fn all_devices_of_several_processes_are_one_axis() {
    let axes = |scopes: Vec<(i64, i32)>, req: ScopeRequest| {
        resolve_scope(&scopes, req).expect("all").applied.aggregated_over
    };
    let asked = ScopeRequest { all_devices: true, ..ScopeRequest::default() };
    let implied = ScopeRequest { implicit_all_devices: true, ..ScopeRequest::default() };
    for req in [asked, implied] {
        assert_eq!(axes(vec![(1001, 0), (2002, 1)], req), vec!["device"]);
        assert_eq!(axes(vec![(1001, 0), (1001, 1)], req), vec!["device"]);
        assert_eq!(axes(vec![(1001, 0), (2002, 0), (2002, 1)], req), vec!["device"]);
    }
    assert_eq!(axes(vec![(1001, 0)], asked), vec!["device"]);
    assert_eq!(axes(Vec::new(), asked), vec!["device"]);
}

#[test]
fn processes_that_share_the_only_device_are_an_axis_too() {
    let scopes = vec![(1001, 0), (2002, 0), (1001, 0)];
    let asked = ScopeRequest { all_devices: true, ..ScopeRequest::default() };
    let implied = ScopeRequest { implicit_all_devices: true, ..ScopeRequest::default() };
    for req in [asked, implied] {
        let applied = resolve_scope(&scopes, req).expect("all").applied;
        assert_eq!((applied.native_pid, applied.device), (None, None));
        assert_eq!(applied.aggregated_over, vec!["process", "device"]);
    }
    let named = ScopeRequest { process: Some(1001), ..asked };
    let applied = resolve_scope(&scopes, named).expect("all").applied;
    assert_eq!(applied.native_pid, Some(1001));
    assert_eq!(applied.aggregated_over, vec!["device"]);
}

#[test]
fn scope_probes_are_exact() {
    assert_eq!(
        context_probe_sql(),
        "SELECT DISTINCT CAST(processId AS BIGINT), CAST(deviceId AS INTEGER) \
         FROM nsight.TARGET_INFO_CUDA_CONTEXT_INFO"
    );
    assert_eq!(
        device_probe_sql(),
        "SELECT DISTINCT CAST(cuDevice AS INTEGER) FROM nsight.TARGET_INFO_GPU"
    );
}

#[test]
fn a_device_and_all_devices_exclude_each_other() {
    let req = ScopeRequest { device: Some(7), all_devices: true, ..ScopeRequest::default() };
    let err = conflicting_flags(&req).expect("conflict");
    assert_eq!(err.code().as_str(), "nsys.data.scope-conflicting-device-flags");
    assert!(conflicting_flags(&ScopeRequest::default()).is_none());
    assert!(matches!(resolve_scope(&Vec::new(), req), Err(ResolveError::Probe(_))));
}

#[test]
fn probes_read_the_columns_that_are_there() {
    let table = |name: &str, columns: &[&str]| TableColumns {
        name: name.to_string(),
        columns: columns.iter().map(|c| c.to_string()).collect(),
    };
    let schema = TraceSchema {
        tables: vec![
            table("CUPTI_ACTIVITY_KIND_KERNEL", &["start", "deviceId", "globalPid"]),
            table("CUPTI_ACTIVITY_KIND_MEMCPY", &["start"]),
        ],
    };
    let sql = activity_probe_sql(&schema, "CUPTI_ACTIVITY_KIND_KERNEL", true).expect("probed");
    assert_eq!(
        sql,
        "SELECT DISTINCT CAST(deviceId AS INTEGER), 0::BIGINT, CAST(NULL AS BIGINT), \
         CAST(start AS BIGINT), CAST(globalPid AS BIGINT) \
         FROM nsight.\"CUPTI_ACTIVITY_KIND_KERNEL\" WHERE deviceId IS NOT NULL"
    );
    assert!(activity_probe_sql(&schema, "CUPTI_ACTIVITY_KIND_MEMCPY", true).is_none());
    assert!(activity_probe_sql(&schema, "CUPTI_ACTIVITY_KIND_MEMCPY", false).is_some());
    assert!(activity_probe_sql(&schema, "CUPTI_ACTIVITY_KIND_MEMSET", false).is_none());
}

#[test]
fn unresolved_identity_is_not_fabricated_as_pid_zero() {
    let resolver = CudaProcessResolver::default();
    assert_eq!(resolver.resolve(0, 1, Some(42), 100, None), None);
}

fn call(pid: i64, start_ns: i64, end_ns: i64) -> RuntimeCallRow {
    RuntimeCallRow { correlation_id: 42, global_tid: pid << 24, start_ns, end_ns }
}

fn context(pid: i64) -> ContextRow {
    ContextRow { device_id: 0, context_id: 1, process_id: pid }
}

#[test]
fn equal_candidates_remain_unresolved_in_memory() {
    let resolver = CudaProcessResolver::build(
        &Vec::new(),
        &vec![context(1001), context(2002)],
        &vec![call(1001, 90, 95), call(2002, 90, 95)],
    );
    assert_eq!(resolver.resolve(0, 1, Some(42), 100, None), None);
}

#[test]
fn nearest_call_decides_between_processes() {
    let resolver = CudaProcessResolver::build(
        &Vec::new(),
        &vec![context(1001), context(2002)],
        &vec![call(1001, 10, 15), call(2002, 90, 95)],
    );
    assert_eq!(resolver.resolve(0, 1, Some(42), 100, None), Some(2002));
    let err = match resolver.resolve_required("T", 5, 6, None, 0, None) {
        Ok(pid) => panic!("nobody owns device 5: {pid}"),
        Err(err) => err,
    };
    assert_eq!(err.code().as_str(), "nsys.data.cuda-process-unresolved");
}

#[test]
fn a_closer_call_wins_whichever_side_it_is_on() {
    let resolver = CudaProcessResolver::build(
        &Vec::new(),
        &vec![context(1001), context(2002)],
        &vec![call(1001, 80, 90), call(2002, 100, 101)],
    );
    assert_eq!(resolver.resolve(0, 1, Some(42), 100, None), Some(2002));
}

#[test]
fn far_calls_keep_their_distance() {
    let resolver = CudaProcessResolver::build(
        &Vec::new(),
        &vec![context(1001), context(2002)],
        &vec![call(1001, i64::MIN, i64::MIN), call(2002, 0, 0)],
    );
    assert_eq!(resolver.resolve(0, 1, Some(42), i64::MAX, None), Some(2002));
}

#[test]
fn equally_far_calls_on_both_sides_stay_unresolved() {
    let resolver = CudaProcessResolver::build(
        &Vec::new(),
        &vec![context(1001), context(2002)],
        &vec![call(1001, 80, 95), call(2002, 100, 105)],
    );
    assert_eq!(resolver.resolve(0, 1, Some(42), 100, None), None);
}

#[test]
fn implied_scopes_of_one_device_are_told_by_process() {
    let req = ScopeRequest {
        device: Some(0),
        implicit_all_devices: true,
        ..ScopeRequest::default()
    };
    let resolved = resolve_scope(&vec![(1001, 0), (2002, 0)], req).expect("implied");
    assert_eq!(resolved.applied.device, Some(0));
    assert_eq!(resolved.applied.aggregated_over, vec!["process"]);
}
