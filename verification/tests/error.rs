use veloq_nsys_data::{DuckdbPhase, NsysDataError};

#[test]
fn codes_and_messages_part_0() {
    let cases: Vec<(NsysDataError, &str, &str)> = vec![
        (
            NsysDataError::TraceNotFound { path: "<path>".to_string() },
            "nsys.data.trace-not-found",
            "trace not found: <path>",
        ),
        (
            NsysDataError::GeneratedParquetdirSourceMissing { source_path: "<source_path>".to_string() },
            "nsys.data.generated-parquetdir-source-missing",
            "generated parquetdir belongs to missing .nsys-rep source: <source_path>",
        ),
        (
            NsysDataError::ParquetdirNotFound { path: "<path>".to_string() },
            "nsys.data.parquetdir-not-found",
            "parquetdir not found: <path>",
        ),
        (
            NsysDataError::DuckdbThreadConfig { source: "cause".to_string() },
            "nsys.data.duckdb-thread-config",
            "duckdb thread count could not be configured",
        ),
        (
            NsysDataError::DuckdbOpenInMemory { source: "cause".to_string() },
            "nsys.data.duckdb-open-in-memory",
            "duckdb in-memory connection could not be opened",
        ),
        (
            NsysDataError::DuckdbSchemaCreate { source: "cause".to_string() },
            "nsys.data.duckdb-schema-create",
            "duckdb nsight schema could not be created",
        ),
        (
            NsysDataError::ParquetdirRead { path: "<path>".to_string(), source: "cause".to_string() },
            "nsys.data.parquetdir-read",
            "parquetdir could not be read: <path>",
        ),
        (
            NsysDataError::ParquetPathInvalidUtf8 { path: "<path>".to_string() },
            "nsys.data.parquet-path-invalid-utf8",
            "parquet path is not valid UTF-8: <path>",
        ),
        (
            NsysDataError::ParquetViewCreate { table: "<table>".to_string(), path: "<path>".to_string(), source: "cause".to_string() },
            "nsys.data.parquet-view-create",
            "parquet table view could not be created for <table>",
        ),
        (
            NsysDataError::NvtxTreeViewRegister { path: "<path>".to_string(), source: "cause".to_string() },
            "nsys.data.nvtx-tree-view-register",
            "nvtx-tree view could not be registered from <path>",
        ),
        (
            NsysDataError::GpuWorkEventsViewRegister { path: "<path>".to_string(), source: "cause".to_string() },
            "nsys.data.gpu-work-events-view-register",
            "gpu-work-events view could not be registered from <path>",
        ),
        (
            NsysDataError::SidecarCache { source: "cause".to_string() },
            "nsys.data.sidecar-cache",
            "sidecar cache operation failed",
        ),
        (
            NsysDataError::SidecarOperation { source: "cause".to_string() },
            "nsys.data.sidecar-operation",
            "sidecar operation failed",
        ),
        (
            NsysDataError::SidecarHeader { source: "cause".to_string() },
            "nsys.data.sidecar-header",
            "sidecar cache header operation failed",
        ),
        (
            NsysDataError::TraceFingerprintRead { path: "<path>".to_string(), source: "cause".to_string() },
            "nsys.data.trace-fingerprint-read",
            "trace artifact fingerprint could not be read: <path>",
        ),
        (
            NsysDataError::SqliteInputUnsupported { path: "<path>".to_string() },
            "nsys.data.sqlite-input-unsupported",
            "veloq does not read .sqlite traces directly: <path>; pass the original .nsys-rep instead",
        ),
        (
            NsysDataError::NsysExportSpawn { command: "<command>".to_string(), source: "cause".to_string() },
            "nsys.data.nsys-export-spawn",
            "running `<command>` failed to start: cause",
        ),
        (
            NsysDataError::NsysExportFailed { command: "<command>".to_string(), exit_code: Some(7), source_path: "<source_path>".to_string() },
            "nsys.data.nsys-export-failed",
            "running `<command>` failed (exit Some(7)) for <source_path>",
        ),
        (
            NsysDataError::NsysExportOutputMissing { expected: "<expected>".to_string() },
            "nsys.data.nsys-export-output-missing",
            "`nsys export -t parquetdir` reported success but produced no directory at <expected>",
        ),
        (
            NsysDataError::ArtifactDirCreate { path: "<path>".to_string(), source: "cause".to_string() },
            "nsys.data.artifact-dir-create",
            "artifact directory could not be created: <path>",
        ),
        (
            NsysDataError::NsysExportLockfileOpen { path: "<path>".to_string(), source: "cause".to_string() },
            "nsys.data.nsys-export-lockfile-open",
            "parquetdir export lockfile could not be opened: <path>",
        ),
        (
            NsysDataError::NsysExportLockAcquire { path: "<path>".to_string(), source: "cause".to_string() },
            "nsys.data.nsys-export-lock-acquire",
            "parquetdir export lock could not be acquired: <path>",
        ),
    ];
    for (error, code, message) in cases {
        assert_eq!(error.code().as_str(), code);
        assert_eq!(error.message(), message);
    }
}

#[test]
fn codes_and_messages_part_1() {
    let cases: Vec<(NsysDataError, &str, &str)> = vec![
        (
            NsysDataError::NsysParquetdirStaleRemove { path: "<path>".to_string(), source: "cause".to_string() },
            "nsys.data.nsys-parquetdir-stale-remove",
            "stale parquetdir could not be removed: <path>",
        ),
        (
            NsysDataError::NsysParquetdirPublish { from: "<from>".to_string(), to: "<to>".to_string(), source: "cause".to_string() },
            "nsys.data.nsys-parquetdir-publish",
            "parquetdir could not be published from <from> to <to>",
        ),
        (
            NsysDataError::NsysCacheSourceStat { path: "<path>".to_string(), source: "cause".to_string() },
            "nsys.data.nsys-cache-source-stat",
            ".nsys-rep source could not be stat'ed: <path>",
        ),
        (
            NsysDataError::NsysCacheSentinelStat { path: "<path>".to_string(), source: "cause".to_string() },
            "nsys.data.nsys-cache-sentinel-stat",
            "parquetdir sentinel could not be stat'ed: <path>",
        ),
        (
            NsysDataError::NsysParquetdirHelpSpawn { command: "<command>".to_string(), source: "cause".to_string() },
            "nsys.data.nsys-parquetdir-help-spawn",
            "running `<command>` failed to start: cause",
        ),
        (
            NsysDataError::NsysVersionSpawn { command: "<command>".to_string(), source: "cause".to_string() },
            "nsys.data.nsys-version-spawn",
            "running `<command>` failed to start: cause",
        ),
        (
            NsysDataError::NsysExportGeneratedPathRemove { path: "<path>".to_string(), source: "cause".to_string() },
            "nsys.data.nsys-export-generated-path-remove",
            "stale generated parquetdir path could not be removed: <path>",
        ),
        (
            NsysDataError::NsysExportSourceCanonicalize { path: "<path>".to_string(), source: "cause".to_string() },
            "nsys.data.nsys-export-source-canonicalize",
            ".nsys-rep source could not be canonicalized: <path>",
        ),
        (
            NsysDataError::NsysParquetdirUnsupported { detected: "<detected>".to_string() },
            "nsys.data.nsys-parquetdir-unsupported",
            "veloq requires nsys >= 2024.6 because this nsys does not support parquetdir export; detected: <detected>; upgrade nsys to 2024.6 or newer",
        ),
        (
            NsysDataError::NsysParquetdirProbeFailed { message: "<message>".to_string() },
            "nsys.data.nsys-parquetdir-probe-failed",
            "could not probe `nsys export --help type` for parquetdir support: <message>; ensure the Nsight Systems CLI is installed and on PATH",
        ),
        (
            NsysDataError::ScopeConflictingDeviceFlags { device: -9 },
            "nsys.data.scope-conflicting-device-flags",
            "internal: --device -9 and --all-devices are mutually exclusive but both were supplied",
        ),
        (
            NsysDataError::ScopeStreamRequiresDevice { stream: -9 },
            "nsys.data.scope-stream-requires-device",
            "--stream -9 requires a single device scope; pass --device <id> or drop --stream",
        ),
        (
            NsysDataError::CudaProcessUnresolved { table: "<table>".to_string(), device_id: -9, context_id: -9, correlation_id: Some(-8) },
            "nsys.data.cuda-process-unresolved",
            "CUDA process identity could not be resolved for <table> (device=-9, context=-9, correlation=Some(-8)); capture process/runtime metadata or use a complete Nsight Systems export",
        ),
        (
            NsysDataError::ScopeDeviceProbeColumnMissing { table: "<table>".to_string(), column: "<column>".to_string(), source: "cause".to_string() },
            "nsys.data.scope-device-probe-column-missing",
            "scope device probe requires <table>.<column>, which is not present in this trace",
        ),
        (
            NsysDataError::Duckdb { area: "<area>", phase: DuckdbPhase::Query, label: "<label>".to_string(), source: "cause".to_string() },
            "nsys.data.duckdb-query",
            "<area> failed to execute <label> DuckDB query",
        ),
        (
            NsysDataError::MetaCacheSlotUninitialised,
            "nsys.data.meta-cache-slot-uninitialised",
            "internal: meta cache slot was not initialised after set/race",
        ),
        (
            NsysDataError::TraceMapProbeColumnMissing { table: "<table>".to_string(), column: "<column>".to_string(), source: "cause".to_string() },
            "nsys.data.trace-map-probe-column-missing",
            "trace map probe requires <table>.<column>, which is not present in this trace",
        ),
        (
            NsysDataError::TimeRangeEmpty { source: "cause".to_string() },
            "nsys.data.time-range-empty",
            "--time-range resolves to an empty or inverted window: cause",
        ),
        (
            NsysDataError::CorrelationTraceFingerprint { path: "<path>".to_string(), source: "cause".to_string() },
            "nsys.data.correlation-trace-fingerprint",
            "correlation cache could not fingerprint trace: <path>",
        ),
        (
            NsysDataError::HardwareInvalidU64Id { label: "<label>".to_string(), value: "<value>".to_string(), source: "cause".to_string() },
            "nsys.data.hardware-invalid-u64-id",
            "<label> is not an unsigned 64-bit integer: <value>",
        ),
        (
            NsysDataError::NvtxParentUnsupportedIntegerType { path: "<path>".to_string(), column: "<column>".to_string(), data_type: "<data_type>".to_string() },
            "nsys.data.nvtx-parent-unsupported-integer-type",
            "<path>: <column> has unsupported integer type <data_type>",
        ),
        (
            NsysDataError::NvtxParentIntegerOverflow { path: "<path>".to_string(), column: "<column>".to_string(), value: 11 },
            "nsys.data.nvtx-parent-integer-overflow",
            "<path>: <column> value 11 does not fit Int64",
        ),
    ];
    for (error, code, message) in cases {
        assert_eq!(error.code().as_str(), code);
        assert_eq!(error.message(), message);
    }
}

#[test]
fn codes_and_messages_part_2() {
    let cases: Vec<(NsysDataError, &str, &str)> = vec![
        (
            NsysDataError::NvtxParentListLengthMismatch { row: 11, rowids_len: 11, names_len: 11 },
            "nsys.data.nvtx-parent-list-length-mismatch",
            "nvtx-parent: row 11: nvtx_rowids (11) and nvtx_names (11) length mismatch",
        ),
        (
            NsysDataError::NvtxParentColumnMissing { path: "<path>".to_string(), column: "<column>".to_string() },
            "nsys.data.nvtx-parent-column-missing",
            "nvtx-parent sidecar missing <column> column in <path>",
        ),
        (
            NsysDataError::NvtxParentColumnTypeMismatch { path: "<path>".to_string(), column: "<column>".to_string(), expected: "<expected>".to_string(), actual: "<actual>".to_string() },
            "nsys.data.nvtx-parent-column-type-mismatch",
            "nvtx-parent sidecar column <column> in <path> has type <actual>; expected <expected>",
        ),
        (
            NsysDataError::NvtxParentGpuActivityColumnMissing { path: "<path>".to_string(), column: "<column>".to_string() },
            "nsys.data.nvtx-parent-gpu-activity-column-missing",
            "nvtx-parent GPU activity parquet missing <column> column in <path>",
        ),
        (
            NsysDataError::NvtxParentGpuActivityOpen { path: "<path>".to_string(), source: "cause".to_string() },
            "nsys.data.nvtx-parent-gpu-activity-open",
            "nvtx-parent GPU activity parquet could not be opened: <path>",
        ),
        (
            NsysDataError::NvtxParentGpuActivityReaderOpen { path: "<path>".to_string(), source: "cause".to_string() },
            "nsys.data.nvtx-parent-gpu-activity-reader-open",
            "nvtx-parent GPU activity parquet reader could not be opened for <path>",
        ),
        (
            NsysDataError::NvtxParentGpuActivityReaderBuild { path: "<path>".to_string(), source: "cause".to_string() },
            "nsys.data.nvtx-parent-gpu-activity-reader-build",
            "nvtx-parent GPU activity parquet reader could not be built for <path>",
        ),
        (
            NsysDataError::NvtxParentGpuActivityBatchRead { path: "<path>".to_string(), source: "cause".to_string() },
            "nsys.data.nvtx-parent-gpu-activity-batch-read",
            "nvtx-parent GPU activity parquet reader could not read batch from <path>",
        ),
        (
            NsysDataError::NvtxParentInt32Overflow { path: "<path>".to_string(), column: "<column>".to_string(), value: -9 },
            "nsys.data.nvtx-parent-int32-overflow",
            "<path>: <column> value -9 does not fit Int32",
        ),
        (
            NsysDataError::NvtxParentTraceFingerprint { path: "<path>".to_string(), source: "cause".to_string() },
            "nsys.data.nvtx-parent-trace-fingerprint",
            "nvtx-parent could not fingerprint trace: <path>",
        ),
        (
            NsysDataError::NvtxParentRecordBatch { source: "cause".to_string() },
            "nsys.data.nvtx-parent-record-batch",
            "nvtx-parent sidecar RecordBatch could not be assembled",
        ),
        (
            NsysDataError::NvtxParentSidecarCreate { path: "<path>".to_string(), source: "cause".to_string() },
            "nsys.data.nvtx-parent-sidecar-create",
            "nvtx-parent sidecar temp file could not be created: <path>",
        ),
        (
            NsysDataError::NvtxParentWriterOpen { path: "<path>".to_string(), source: "cause".to_string() },
            "nsys.data.nvtx-parent-writer-open",
            "nvtx-parent parquet writer could not be opened for <path>",
        ),
        (
            NsysDataError::NvtxParentWriterWrite { path: "<path>".to_string(), source: "cause".to_string() },
            "nsys.data.nvtx-parent-writer-write",
            "nvtx-parent parquet writer could not write batch to <path>",
        ),
        (
            NsysDataError::NvtxParentWriterClose { path: "<path>".to_string(), source: "cause".to_string() },
            "nsys.data.nvtx-parent-writer-close",
            "nvtx-parent parquet writer could not close <path>",
        ),
        (
            NsysDataError::NvtxParentSidecarOpen { path: "<path>".to_string(), source: "cause".to_string() },
            "nsys.data.nvtx-parent-sidecar-open",
            "nvtx-parent sidecar could not be opened: <path>",
        ),
        (
            NsysDataError::NvtxParentReaderOpen { path: "<path>".to_string(), source: "cause".to_string() },
            "nsys.data.nvtx-parent-reader-open",
            "nvtx-parent parquet reader could not be opened for <path>",
        ),
        (
            NsysDataError::NvtxParentReaderBuild { path: "<path>".to_string(), source: "cause".to_string() },
            "nsys.data.nvtx-parent-reader-build",
            "nvtx-parent parquet reader could not be built for <path>",
        ),
        (
            NsysDataError::NvtxParentBatchRead { path: "<path>".to_string(), source: "cause".to_string() },
            "nsys.data.nvtx-parent-batch-read",
            "nvtx-parent parquet reader could not read batch from <path>",
        ),
        (
            NsysDataError::NvtxTreeColumnMissing { path: "<path>".to_string(), column: "<column>".to_string() },
            "nsys.data.nvtx-tree-column-missing",
            "nvtx-tree sidecar missing <column> column in <path>",
        ),
        (
            NsysDataError::NvtxTreeColumnTypeMismatch { path: "<path>".to_string(), column: "<column>".to_string(), expected: "<expected>".to_string(), actual: "<actual>".to_string() },
            "nsys.data.nvtx-tree-column-type-mismatch",
            "nvtx-tree sidecar column <column> in <path> has type <actual>; expected <expected>",
        ),
        (
            NsysDataError::NvtxTreeTraceFingerprint { path: "<path>".to_string(), source: "cause".to_string() },
            "nsys.data.nvtx-tree-trace-fingerprint",
            "nvtx-tree could not fingerprint trace: <path>",
        ),
    ];
    for (error, code, message) in cases {
        assert_eq!(error.code().as_str(), code);
        assert_eq!(error.message(), message);
    }
}

#[test]
fn codes_and_messages_part_3() {
    let cases: Vec<(NsysDataError, &str, &str)> = vec![
        (
            NsysDataError::NvtxTreeRecordBatch { source: "cause".to_string() },
            "nsys.data.nvtx-tree-record-batch",
            "nvtx-tree sidecar RecordBatch could not be assembled",
        ),
        (
            NsysDataError::NvtxTreeSidecarCreate { path: "<path>".to_string(), source: "cause".to_string() },
            "nsys.data.nvtx-tree-sidecar-create",
            "nvtx-tree sidecar temp file could not be created: <path>",
        ),
        (
            NsysDataError::NvtxTreeWriterOpen { path: "<path>".to_string(), source: "cause".to_string() },
            "nsys.data.nvtx-tree-writer-open",
            "nvtx-tree parquet writer could not be opened for <path>",
        ),
        (
            NsysDataError::NvtxTreeWriterWrite { path: "<path>".to_string(), source: "cause".to_string() },
            "nsys.data.nvtx-tree-writer-write",
            "nvtx-tree parquet writer could not write batch to <path>",
        ),
        (
            NsysDataError::NvtxTreeWriterClose { path: "<path>".to_string(), source: "cause".to_string() },
            "nsys.data.nvtx-tree-writer-close",
            "nvtx-tree parquet writer could not close <path>",
        ),
        (
            NsysDataError::NvtxTreeSidecarOpen { path: "<path>".to_string(), source: "cause".to_string() },
            "nsys.data.nvtx-tree-sidecar-open",
            "nvtx-tree sidecar could not be opened: <path>",
        ),
        (
            NsysDataError::NvtxTreeReaderOpen { path: "<path>".to_string(), source: "cause".to_string() },
            "nsys.data.nvtx-tree-reader-open",
            "nvtx-tree parquet reader could not be opened for <path>",
        ),
        (
            NsysDataError::NvtxTreeReaderBuild { path: "<path>".to_string(), source: "cause".to_string() },
            "nsys.data.nvtx-tree-reader-build",
            "nvtx-tree parquet reader could not be built for <path>",
        ),
        (
            NsysDataError::NvtxTreeBatchRead { path: "<path>".to_string(), source: "cause".to_string() },
            "nsys.data.nvtx-tree-batch-read",
            "nvtx-tree parquet reader could not read batch from <path>",
        ),
        (
            NsysDataError::GpuWorkEventsColumnMissing { path: "<path>".to_string(), column: "<column>".to_string() },
            "nsys.data.gpu-work-events-column-missing",
            "gpu-work-events sidecar missing <column> column in <path>",
        ),
        (
            NsysDataError::GpuWorkEventsColumnTypeMismatch { path: "<path>".to_string(), column: "<column>".to_string(), expected: "<expected>".to_string(), actual: "<actual>".to_string() },
            "nsys.data.gpu-work-events-column-type-mismatch",
            "gpu-work-events sidecar column <column> in <path> has type <actual>; expected <expected>",
        ),
        (
            NsysDataError::GpuWorkEventsTraceFingerprint { path: "<path>".to_string(), source: "cause".to_string() },
            "nsys.data.gpu-work-events-trace-fingerprint",
            "gpu-work-events could not fingerprint trace: <path>",
        ),
        (
            NsysDataError::GpuWorkEventsRecordBatch { source: "cause".to_string() },
            "nsys.data.gpu-work-events-record-batch",
            "gpu-work-events sidecar RecordBatch could not be assembled",
        ),
        (
            NsysDataError::GpuWorkEventsSidecarCreate { path: "<path>".to_string(), source: "cause".to_string() },
            "nsys.data.gpu-work-events-sidecar-create",
            "gpu-work-events sidecar temp file could not be created: <path>",
        ),
        (
            NsysDataError::GpuWorkEventsWriterOpen { path: "<path>".to_string(), source: "cause".to_string() },
            "nsys.data.gpu-work-events-writer-open",
            "gpu-work-events parquet writer could not be opened for <path>",
        ),
        (
            NsysDataError::GpuWorkEventsWriterWrite { path: "<path>".to_string(), source: "cause".to_string() },
            "nsys.data.gpu-work-events-writer-write",
            "gpu-work-events parquet writer could not write batch to <path>",
        ),
        (
            NsysDataError::GpuWorkEventsWriterClose { path: "<path>".to_string(), source: "cause".to_string() },
            "nsys.data.gpu-work-events-writer-close",
            "gpu-work-events parquet writer could not close <path>",
        ),
        (
            NsysDataError::GpuWorkEventsSidecarOpen { path: "<path>".to_string(), source: "cause".to_string() },
            "nsys.data.gpu-work-events-sidecar-open",
            "gpu-work-events sidecar could not be opened: <path>",
        ),
        (
            NsysDataError::GpuWorkEventsReaderOpen { path: "<path>".to_string(), source: "cause".to_string() },
            "nsys.data.gpu-work-events-reader-open",
            "gpu-work-events parquet reader could not be opened for <path>",
        ),
        (
            NsysDataError::GpuWorkEventsReaderBuild { path: "<path>".to_string(), source: "cause".to_string() },
            "nsys.data.gpu-work-events-reader-build",
            "gpu-work-events parquet reader could not be built for <path>",
        ),
        (
            NsysDataError::GpuWorkEventsBatchRead { path: "<path>".to_string(), source: "cause".to_string() },
            "nsys.data.gpu-work-events-batch-read",
            "gpu-work-events parquet reader could not read batch from <path>",
        ),
        (
            NsysDataError::SchemaAdapterUnmatched,
            "nsys.data.schema-adapter-unmatched",
            "no schema adapter matched the trace; StandardAdapter did not recognise the canonical 3.x columns",
        ),
    ];
    for (error, code, message) in cases {
        assert_eq!(error.code().as_str(), code);
        assert_eq!(error.message(), message);
    }
}

#[test]
fn count_rows_read_error_code_is_stable() {
    let err = NsysDataError::meta_cache_count_read("CUPTI_ACTIVITY_KIND_KERNEL", "test");
    assert_eq!(err.code().as_str(), "nsys.data.duckdb-read");
    assert!(err.message().contains("CUPTI_ACTIVITY_KIND_KERNEL"));
}

#[test]
fn duckdb_errors_name_area_phase_and_table() {
    let cases: Vec<(NsysDataError, &str, DuckdbPhase, &str)> = vec![
        (
            NsysDataError::export_metadata_prepare("META_DATA_EXPORT", "x"),
            "export metadata",
            DuckdbPhase::Prepare,
            "META_DATA_EXPORT",
        ),
        (
            NsysDataError::export_metadata_read("META_DATA_EXPORT", "x"),
            "export metadata",
            DuckdbPhase::Read,
            "META_DATA_EXPORT",
        ),
        (
            NsysDataError::trace_origins_prepare("OSRT_API", "x"),
            "trace origins",
            DuckdbPhase::Prepare,
            "OSRT_API",
        ),
        (
            NsysDataError::trace_origins_read("OSRT_API", "x"),
            "trace origins",
            DuckdbPhase::Read,
            "OSRT_API",
        ),
        (
            NsysDataError::trace_sample_span_prepare("GPU_METRICS", "x"),
            "trace sample span",
            DuckdbPhase::Prepare,
            "GPU_METRICS",
        ),
        (
            NsysDataError::trace_sample_span_read("GPU_METRICS", "x"),
            "trace sample span",
            DuckdbPhase::Read,
            "GPU_METRICS",
        ),
        (
            NsysDataError::meta_cache_count_prepare("MISSING_TABLE", "x"),
            "meta cache",
            DuckdbPhase::Prepare,
            "MISSING_TABLE",
        ),
        (
            NsysDataError::scope_device_probe_query("TARGET_INFO_GPU", "x"),
            "scope device probe",
            DuckdbPhase::Query,
            "TARGET_INFO_GPU",
        ),
        (
            NsysDataError::hardware_rows_query("TARGET_INFO_SYSTEM_ENV", "x"),
            "hardware rows",
            DuckdbPhase::Query,
            "TARGET_INFO_SYSTEM_ENV",
        ),
    ];
    for (error, area, phase, label) in cases {
        assert_eq!(error.duckdb_parts(), Some((area, phase, label)));
        assert_eq!(error.code().as_str(), phase.code().as_str());
    }
    assert_eq!(NsysDataError::trace_not_found("/x").duckdb_parts(), None);
}

#[test]
fn phases_have_codes_and_names() {
    assert_eq!(DuckdbPhase::Prepare.code().as_str(), "nsys.data.duckdb-prepare");
    assert_eq!(DuckdbPhase::Query.code().as_str(), "nsys.data.duckdb-query");
    assert_eq!(DuckdbPhase::Read.code().as_str(), "nsys.data.duckdb-read");
    assert_eq!(DuckdbPhase::Prepare.as_str(), "prepare");
    assert_eq!(DuckdbPhase::Query.as_str(), "execute");
    assert_eq!(DuckdbPhase::Read.as_str(), "read");
}

#[test]
fn codes_depend_on_variant_and_phase_alone() {
    let a = NsysDataError::trace_not_found("/a");
    let b = NsysDataError::trace_not_found("/b");
    assert_eq!(a.code().as_str(), b.code().as_str());
    assert!(a.code().as_str().starts_with("nsys.data."));
    assert_ne!(a.code().as_str(), NsysDataError::parquetdir_not_found("/a").code().as_str());
    let codes = [DuckdbPhase::Prepare, DuckdbPhase::Query, DuckdbPhase::Read]
        .map(|phase| phase.code().as_str());
    assert!(codes[0] != codes[1] && codes[1] != codes[2] && codes[0] != codes[2]);
}
