//! Errors of the data layer.
//!
//! Every failure has a stable code and a message. Where a failure comes out of
//! a file, a query or a process, the text of the underlying error is kept as
//! `source`.
use crate::text::{i64_text, u64_text};
use crate::text::decimal;
use vstd::prelude::*;
use vstd::string::StringExecFns;

verus! {

pub type NsysDataResult<T> = Result<T, NsysDataError>;

/// A stable, machine-readable error code.
#[derive(Debug, Clone, Copy)]
pub struct ErrorCode {
    code: &'static str,
}

impl View for ErrorCode {
    type V = Seq<char>;

    closed spec fn view(&self) -> Seq<char> {
        self.code@
    }
}

impl ErrorCode {
    pub fn new(code: &'static str) -> (c: Self)
        ensures
            c@ == code@,
    {
        ErrorCode { code }
    }

    pub fn as_str(&self) -> (text: &'static str)
        ensures
            text@ == self@,
    {
        self.code
    }
}

/// The step at which a DuckDB query failed.
#[derive(Debug, Clone, Copy, PartialEq, Eq, Structural)]
pub enum DuckdbPhase {
    Prepare,
    Query,
    Read,
}

impl DuckdbPhase {
    /// The error code of a failure in this phase.
    pub open spec fn code_text(self) -> Seq<char> {
        match self {
            DuckdbPhase::Prepare => "nsys.data.duckdb-prepare"@,
            DuckdbPhase::Query => "nsys.data.duckdb-query"@,
            DuckdbPhase::Read => "nsys.data.duckdb-read"@,
        }
    }

    /// The verb of the phase.
    pub open spec fn verb(self) -> Seq<char> {
        match self {
            DuckdbPhase::Prepare => "prepare"@,
            DuckdbPhase::Query => "execute"@,
            DuckdbPhase::Read => "read"@,
        }
    }

    pub fn code(self) -> (code: ErrorCode)
        ensures
            code@ == self.code_text(),
    {
        match self {
            DuckdbPhase::Prepare => ErrorCode::new("nsys.data.duckdb-prepare"),
            DuckdbPhase::Query => ErrorCode::new("nsys.data.duckdb-query"),
            DuckdbPhase::Read => ErrorCode::new("nsys.data.duckdb-read"),
        }
    }

    /// The verb of the phase, as messages show it.
    pub fn as_str(self) -> (verb: &'static str)
        ensures
            verb@ == self.verb(),
    {
        match self {
            DuckdbPhase::Prepare => "prepare",
            DuckdbPhase::Query => "execute",
            DuckdbPhase::Read => "read",
        }
    }
}

/// An optional integer as `Some(n)` or `None`.
pub open spec fn optional_text(value: Option<int>) -> Seq<char> {
    match value {
        Some(n) => "Some("@ + decimal(n) + ")"@,
        None => "None"@,
    }
}

/// An optional 32-bit integer as an unbounded one.
pub open spec fn widened32(value: Option<i32>) -> Option<int> {
    match value {
        Some(n) => Some(n as int),
        None => None,
    }
}

/// An optional 64-bit integer as an unbounded one.
pub open spec fn widened64(value: Option<i64>) -> Option<int> {
    match value {
        Some(n) => Some(n as int),
        None => None,
    }
}

/// An optional integer as `Some(n)` or `None`.
fn optional_string(value: Option<i64>) -> (text: String)
    ensures
        text@ == optional_text(widened64(value)),
{
    match value {
        Some(n) => {
            let mut text = "Some(".to_owned();
            text.append(i64_text(n).as_str());
            text.append(")");
            text
        },
        None => "None".to_owned(),
    }
}


/// A failure of the data layer.
#[allow(inconsistent_fields)]
#[derive(Debug)]
pub enum NsysDataError {
    /// trace not found: {path}
    TraceNotFound {
        path: String,
    },
    /// generated parquetdir belongs to missing .nsys-rep source: {source_path}
    GeneratedParquetdirSourceMissing {
        source_path: String,
    },
    /// parquetdir not found: {path}
    ParquetdirNotFound {
        path: String,
    },
    /// duckdb thread count could not be configured
    DuckdbThreadConfig {
        source: String,
    },
    /// duckdb in-memory connection could not be opened
    DuckdbOpenInMemory {
        source: String,
    },
    /// duckdb nsight schema could not be created
    DuckdbSchemaCreate {
        source: String,
    },
    /// parquetdir could not be read: {path}
    ParquetdirRead {
        path: String,
        source: String,
    },
    /// parquet path is not valid UTF-8: {path}
    ParquetPathInvalidUtf8 {
        path: String,
    },
    /// parquet table view could not be created for {table}
    ParquetViewCreate {
        table: String,
        path: String,
        source: String,
    },
    /// nvtx-tree view could not be registered from {path}
    NvtxTreeViewRegister {
        path: String,
        source: String,
    },
    /// gpu-work-events view could not be registered from {path}
    GpuWorkEventsViewRegister {
        path: String,
        source: String,
    },
    /// sidecar cache operation failed
    SidecarCache {
        source: String,
    },
    /// sidecar operation failed
    SidecarOperation {
        source: String,
    },
    /// sidecar cache header operation failed
    SidecarHeader {
        source: String,
    },
    /// trace artifact fingerprint could not be read: {path}
    TraceFingerprintRead {
        path: String,
        source: String,
    },
    /// veloq does not read .sqlite traces directly: {path}; pass the original .nsys-rep instead
    SqliteInputUnsupported {
        path: String,
    },
    /// running `{command}` failed to start: {source}
    NsysExportSpawn {
        command: String,
        source: String,
    },
    /// running `{command}` failed (exit {exit_code:?}) for {source_path}
    NsysExportFailed {
        command: String,
        exit_code: Option<i32>,
        source_path: String,
    },
    /// `nsys export -t parquetdir` reported success but produced no directory at {expected}
    NsysExportOutputMissing {
        expected: String,
    },
    /// artifact directory could not be created: {path}
    ArtifactDirCreate {
        path: String,
        source: String,
    },
    /// parquetdir export lockfile could not be opened: {path}
    NsysExportLockfileOpen {
        path: String,
        source: String,
    },
    /// parquetdir export lock could not be acquired: {path}
    NsysExportLockAcquire {
        path: String,
        source: String,
    },
    /// stale parquetdir could not be removed: {path}
    NsysParquetdirStaleRemove {
        path: String,
        source: String,
    },
    /// parquetdir could not be published from {from} to {to}
    NsysParquetdirPublish {
        from: String,
        to: String,
        source: String,
    },
    /// .nsys-rep source could not be stat'ed: {path}
    NsysCacheSourceStat {
        path: String,
        source: String,
    },
    /// parquetdir sentinel could not be stat'ed: {path}
    NsysCacheSentinelStat {
        path: String,
        source: String,
    },
    /// running `{command}` failed to start: {source}
    NsysParquetdirHelpSpawn {
        command: String,
        source: String,
    },
    /// running `{command}` failed to start: {source}
    NsysVersionSpawn {
        command: String,
        source: String,
    },
    /// stale generated parquetdir path could not be removed: {path}
    NsysExportGeneratedPathRemove {
        path: String,
        source: String,
    },
    /// .nsys-rep source could not be canonicalized: {path}
    NsysExportSourceCanonicalize {
        path: String,
        source: String,
    },
    /// veloq requires nsys >= 2024.6 because this nsys does not support parquetdir export; detected: {detected}; upgrade nsys to 2024.6 or newer
    NsysParquetdirUnsupported {
        detected: String,
    },
    /// could not probe `nsys export --help type` for parquetdir support: {message}; ensure the Nsight Systems CLI is installed and on PATH
    NsysParquetdirProbeFailed {
        message: String,
    },
    /// internal: --device {device} and --all-devices are mutually exclusive but both were supplied
    ScopeConflictingDeviceFlags {
        device: i32,
    },
    /// --stream {stream} requires a single device scope; pass --device <id> or drop --stream
    ScopeStreamRequiresDevice {
        stream: i64,
    },
    /// CUDA process identity could not be resolved for {table} (device={device_id}, context={context_id}, correlation={correlation_id:?}); capture process/runtime metadata or use a complete Nsight Systems export
    CudaProcessUnresolved {
        table: String,
        device_id: i32,
        context_id: i64,
        correlation_id: Option<i64>,
    },
    /// scope device probe requires {table}.{column}, which is not present in this trace
    ScopeDeviceProbeColumnMissing {
        table: String,
        column: String,
        source: String,
    },
    /// {area} failed to {phase} {label} DuckDB query
    Duckdb {
        area: &'static str,
        phase: DuckdbPhase,
        label: String,
        source: String,
    },
    /// internal: meta cache slot was not initialised after set/race
    MetaCacheSlotUninitialised,
    /// trace map probe requires {table}.{column}, which is not present in this trace
    TraceMapProbeColumnMissing {
        table: String,
        column: String,
        source: String,
    },
    /// --time-range resolves to an empty or inverted window: {source}
    TimeRangeEmpty {
        source: String,
    },
    /// correlation cache could not fingerprint trace: {path}
    CorrelationTraceFingerprint {
        path: String,
        source: String,
    },
    /// {label} is not an unsigned 64-bit integer: {value}
    HardwareInvalidU64Id {
        label: String,
        value: String,
        source: String,
    },
    /// {path}: {column} has unsupported integer type {data_type}
    NvtxParentUnsupportedIntegerType {
        path: String,
        column: String,
        data_type: String,
    },
    /// {path}: {column} value {value} does not fit Int64
    NvtxParentIntegerOverflow {
        path: String,
        column: String,
        value: u64,
    },
    /// nvtx-parent: row {row}: nvtx_rowids ({rowids_len}) and nvtx_names ({names_len}) length mismatch
    NvtxParentListLengthMismatch {
        row: usize,
        rowids_len: usize,
        names_len: usize,
    },
    /// nvtx-parent sidecar missing {column} column in {path}
    NvtxParentColumnMissing {
        path: String,
        column: String,
    },
    /// nvtx-parent sidecar column {column} in {path} has type {actual}; expected {expected}
    NvtxParentColumnTypeMismatch {
        path: String,
        column: String,
        expected: String,
        actual: String,
    },
    /// nvtx-parent GPU activity parquet missing {column} column in {path}
    NvtxParentGpuActivityColumnMissing {
        path: String,
        column: String,
    },
    /// nvtx-parent GPU activity parquet could not be opened: {path}
    NvtxParentGpuActivityOpen {
        path: String,
        source: String,
    },
    /// nvtx-parent GPU activity parquet reader could not be opened for {path}
    NvtxParentGpuActivityReaderOpen {
        path: String,
        source: String,
    },
    /// nvtx-parent GPU activity parquet reader could not be built for {path}
    NvtxParentGpuActivityReaderBuild {
        path: String,
        source: String,
    },
    /// nvtx-parent GPU activity parquet reader could not read batch from {path}
    NvtxParentGpuActivityBatchRead {
        path: String,
        source: String,
    },
    /// {path}: {column} value {value} does not fit Int32
    NvtxParentInt32Overflow {
        path: String,
        column: String,
        value: i64,
    },
    /// nvtx-parent could not fingerprint trace: {path}
    NvtxParentTraceFingerprint {
        path: String,
        source: String,
    },
    /// nvtx-parent sidecar RecordBatch could not be assembled
    NvtxParentRecordBatch {
        source: String,
    },
    /// nvtx-parent sidecar temp file could not be created: {path}
    NvtxParentSidecarCreate {
        path: String,
        source: String,
    },
    /// nvtx-parent parquet writer could not be opened for {path}
    NvtxParentWriterOpen {
        path: String,
        source: String,
    },
    /// nvtx-parent parquet writer could not write batch to {path}
    NvtxParentWriterWrite {
        path: String,
        source: String,
    },
    /// nvtx-parent parquet writer could not close {path}
    NvtxParentWriterClose {
        path: String,
        source: String,
    },
    /// nvtx-parent sidecar could not be opened: {path}
    NvtxParentSidecarOpen {
        path: String,
        source: String,
    },
    /// nvtx-parent parquet reader could not be opened for {path}
    NvtxParentReaderOpen {
        path: String,
        source: String,
    },
    /// nvtx-parent parquet reader could not be built for {path}
    NvtxParentReaderBuild {
        path: String,
        source: String,
    },
    /// nvtx-parent parquet reader could not read batch from {path}
    NvtxParentBatchRead {
        path: String,
        source: String,
    },
    /// nvtx-tree sidecar missing {column} column in {path}
    NvtxTreeColumnMissing {
        path: String,
        column: String,
    },
    /// nvtx-tree sidecar column {column} in {path} has type {actual}; expected {expected}
    NvtxTreeColumnTypeMismatch {
        path: String,
        column: String,
        expected: String,
        actual: String,
    },
    /// nvtx-tree could not fingerprint trace: {path}
    NvtxTreeTraceFingerprint {
        path: String,
        source: String,
    },
    /// nvtx-tree sidecar RecordBatch could not be assembled
    NvtxTreeRecordBatch {
        source: String,
    },
    /// nvtx-tree sidecar temp file could not be created: {path}
    NvtxTreeSidecarCreate {
        path: String,
        source: String,
    },
    /// nvtx-tree parquet writer could not be opened for {path}
    NvtxTreeWriterOpen {
        path: String,
        source: String,
    },
    /// nvtx-tree parquet writer could not write batch to {path}
    NvtxTreeWriterWrite {
        path: String,
        source: String,
    },
    /// nvtx-tree parquet writer could not close {path}
    NvtxTreeWriterClose {
        path: String,
        source: String,
    },
    /// nvtx-tree sidecar could not be opened: {path}
    NvtxTreeSidecarOpen {
        path: String,
        source: String,
    },
    /// nvtx-tree parquet reader could not be opened for {path}
    NvtxTreeReaderOpen {
        path: String,
        source: String,
    },
    /// nvtx-tree parquet reader could not be built for {path}
    NvtxTreeReaderBuild {
        path: String,
        source: String,
    },
    /// nvtx-tree parquet reader could not read batch from {path}
    NvtxTreeBatchRead {
        path: String,
        source: String,
    },
    /// gpu-work-events sidecar missing {column} column in {path}
    GpuWorkEventsColumnMissing {
        path: String,
        column: String,
    },
    /// gpu-work-events sidecar column {column} in {path} has type {actual}; expected {expected}
    GpuWorkEventsColumnTypeMismatch {
        path: String,
        column: String,
        expected: String,
        actual: String,
    },
    /// gpu-work-events could not fingerprint trace: {path}
    GpuWorkEventsTraceFingerprint {
        path: String,
        source: String,
    },
    /// gpu-work-events sidecar RecordBatch could not be assembled
    GpuWorkEventsRecordBatch {
        source: String,
    },
    /// gpu-work-events sidecar temp file could not be created: {path}
    GpuWorkEventsSidecarCreate {
        path: String,
        source: String,
    },
    /// gpu-work-events parquet writer could not be opened for {path}
    GpuWorkEventsWriterOpen {
        path: String,
        source: String,
    },
    /// gpu-work-events parquet writer could not write batch to {path}
    GpuWorkEventsWriterWrite {
        path: String,
        source: String,
    },
    /// gpu-work-events parquet writer could not close {path}
    GpuWorkEventsWriterClose {
        path: String,
        source: String,
    },
    /// gpu-work-events sidecar could not be opened: {path}
    GpuWorkEventsSidecarOpen {
        path: String,
        source: String,
    },
    /// gpu-work-events parquet reader could not be opened for {path}
    GpuWorkEventsReaderOpen {
        path: String,
        source: String,
    },
    /// gpu-work-events parquet reader could not be built for {path}
    GpuWorkEventsReaderBuild {
        path: String,
        source: String,
    },
    /// gpu-work-events parquet reader could not read batch from {path}
    GpuWorkEventsBatchRead {
        path: String,
        source: String,
    },
    /// no schema adapter matched the trace; StandardAdapter did not recognise the canonical 3.x columns
    SchemaAdapterUnmatched,
}

impl NsysDataError {
    /// The code of the failure.
    pub open spec fn code_text(&self) -> Seq<char> {
        match *self {
            NsysDataError::TraceNotFound { .. } => "nsys.data.trace-not-found"@,
            NsysDataError::GeneratedParquetdirSourceMissing { .. } => {
                "nsys.data.generated-parquetdir-source-missing"@
            },
            NsysDataError::ParquetdirNotFound { .. } => "nsys.data.parquetdir-not-found"@,
            NsysDataError::DuckdbThreadConfig { .. } => "nsys.data.duckdb-thread-config"@,
            NsysDataError::DuckdbOpenInMemory { .. } => "nsys.data.duckdb-open-in-memory"@,
            NsysDataError::DuckdbSchemaCreate { .. } => "nsys.data.duckdb-schema-create"@,
            NsysDataError::ParquetdirRead { .. } => "nsys.data.parquetdir-read"@,
            NsysDataError::ParquetPathInvalidUtf8 { .. } => "nsys.data.parquet-path-invalid-utf8"@,
            NsysDataError::ParquetViewCreate { .. } => "nsys.data.parquet-view-create"@,
            NsysDataError::NvtxTreeViewRegister { .. } => "nsys.data.nvtx-tree-view-register"@,
            NsysDataError::GpuWorkEventsViewRegister { .. } => {
                "nsys.data.gpu-work-events-view-register"@
            },
            NsysDataError::SidecarCache { .. } => "nsys.data.sidecar-cache"@,
            NsysDataError::SidecarOperation { .. } => "nsys.data.sidecar-operation"@,
            NsysDataError::SidecarHeader { .. } => "nsys.data.sidecar-header"@,
            NsysDataError::TraceFingerprintRead { .. } => "nsys.data.trace-fingerprint-read"@,
            NsysDataError::SqliteInputUnsupported { .. } => "nsys.data.sqlite-input-unsupported"@,
            NsysDataError::NsysExportSpawn { .. } => "nsys.data.nsys-export-spawn"@,
            NsysDataError::NsysExportFailed { .. } => "nsys.data.nsys-export-failed"@,
            NsysDataError::NsysExportOutputMissing { .. } => {
                "nsys.data.nsys-export-output-missing"@
            },
            NsysDataError::ArtifactDirCreate { .. } => "nsys.data.artifact-dir-create"@,
            NsysDataError::NsysExportLockfileOpen { .. } => "nsys.data.nsys-export-lockfile-open"@,
            NsysDataError::NsysExportLockAcquire { .. } => "nsys.data.nsys-export-lock-acquire"@,
            NsysDataError::NsysParquetdirStaleRemove { .. } => {
                "nsys.data.nsys-parquetdir-stale-remove"@
            },
            NsysDataError::NsysParquetdirPublish { .. } => "nsys.data.nsys-parquetdir-publish"@,
            NsysDataError::NsysCacheSourceStat { .. } => "nsys.data.nsys-cache-source-stat"@,
            NsysDataError::NsysCacheSentinelStat { .. } => "nsys.data.nsys-cache-sentinel-stat"@,
            NsysDataError::NsysParquetdirHelpSpawn { .. } => {
                "nsys.data.nsys-parquetdir-help-spawn"@
            },
            NsysDataError::NsysVersionSpawn { .. } => "nsys.data.nsys-version-spawn"@,
            NsysDataError::NsysExportGeneratedPathRemove { .. } => {
                "nsys.data.nsys-export-generated-path-remove"@
            },
            NsysDataError::NsysExportSourceCanonicalize { .. } => {
                "nsys.data.nsys-export-source-canonicalize"@
            },
            NsysDataError::NsysParquetdirUnsupported { .. } => {
                "nsys.data.nsys-parquetdir-unsupported"@
            },
            NsysDataError::NsysParquetdirProbeFailed { .. } => {
                "nsys.data.nsys-parquetdir-probe-failed"@
            },
            NsysDataError::ScopeConflictingDeviceFlags { .. } => {
                "nsys.data.scope-conflicting-device-flags"@
            },
            NsysDataError::ScopeStreamRequiresDevice { .. } => {
                "nsys.data.scope-stream-requires-device"@
            },
            NsysDataError::CudaProcessUnresolved { .. } => "nsys.data.cuda-process-unresolved"@,
            NsysDataError::ScopeDeviceProbeColumnMissing { .. } => {
                "nsys.data.scope-device-probe-column-missing"@
            },
            NsysDataError::Duckdb { phase, .. } => phase.code_text(),
            NsysDataError::MetaCacheSlotUninitialised => "nsys.data.meta-cache-slot-uninitialised"@,
            NsysDataError::TraceMapProbeColumnMissing { .. } => {
                "nsys.data.trace-map-probe-column-missing"@
            },
            NsysDataError::TimeRangeEmpty { .. } => "nsys.data.time-range-empty"@,
            NsysDataError::CorrelationTraceFingerprint { .. } => {
                "nsys.data.correlation-trace-fingerprint"@
            },
            NsysDataError::HardwareInvalidU64Id { .. } => "nsys.data.hardware-invalid-u64-id"@,
            NsysDataError::NvtxParentUnsupportedIntegerType { .. } => {
                "nsys.data.nvtx-parent-unsupported-integer-type"@
            },
            NsysDataError::NvtxParentIntegerOverflow { .. } => {
                "nsys.data.nvtx-parent-integer-overflow"@
            },
            NsysDataError::NvtxParentListLengthMismatch { .. } => {
                "nsys.data.nvtx-parent-list-length-mismatch"@
            },
            NsysDataError::NvtxParentColumnMissing { .. } => {
                "nsys.data.nvtx-parent-column-missing"@
            },
            NsysDataError::NvtxParentColumnTypeMismatch { .. } => {
                "nsys.data.nvtx-parent-column-type-mismatch"@
            },
            NsysDataError::NvtxParentGpuActivityColumnMissing { .. } => {
                "nsys.data.nvtx-parent-gpu-activity-column-missing"@
            },
            NsysDataError::NvtxParentGpuActivityOpen { .. } => {
                "nsys.data.nvtx-parent-gpu-activity-open"@
            },
            NsysDataError::NvtxParentGpuActivityReaderOpen { .. } => {
                "nsys.data.nvtx-parent-gpu-activity-reader-open"@
            },
            NsysDataError::NvtxParentGpuActivityReaderBuild { .. } => {
                "nsys.data.nvtx-parent-gpu-activity-reader-build"@
            },
            NsysDataError::NvtxParentGpuActivityBatchRead { .. } => {
                "nsys.data.nvtx-parent-gpu-activity-batch-read"@
            },
            NsysDataError::NvtxParentInt32Overflow { .. } => {
                "nsys.data.nvtx-parent-int32-overflow"@
            },
            NsysDataError::NvtxParentTraceFingerprint { .. } => {
                "nsys.data.nvtx-parent-trace-fingerprint"@
            },
            NsysDataError::NvtxParentRecordBatch { .. } => "nsys.data.nvtx-parent-record-batch"@,
            NsysDataError::NvtxParentSidecarCreate { .. } => {
                "nsys.data.nvtx-parent-sidecar-create"@
            },
            NsysDataError::NvtxParentWriterOpen { .. } => "nsys.data.nvtx-parent-writer-open"@,
            NsysDataError::NvtxParentWriterWrite { .. } => "nsys.data.nvtx-parent-writer-write"@,
            NsysDataError::NvtxParentWriterClose { .. } => "nsys.data.nvtx-parent-writer-close"@,
            NsysDataError::NvtxParentSidecarOpen { .. } => "nsys.data.nvtx-parent-sidecar-open"@,
            NsysDataError::NvtxParentReaderOpen { .. } => "nsys.data.nvtx-parent-reader-open"@,
            NsysDataError::NvtxParentReaderBuild { .. } => "nsys.data.nvtx-parent-reader-build"@,
            NsysDataError::NvtxParentBatchRead { .. } => "nsys.data.nvtx-parent-batch-read"@,
            NsysDataError::NvtxTreeColumnMissing { .. } => "nsys.data.nvtx-tree-column-missing"@,
            NsysDataError::NvtxTreeColumnTypeMismatch { .. } => {
                "nsys.data.nvtx-tree-column-type-mismatch"@
            },
            NsysDataError::NvtxTreeTraceFingerprint { .. } => {
                "nsys.data.nvtx-tree-trace-fingerprint"@
            },
            NsysDataError::NvtxTreeRecordBatch { .. } => "nsys.data.nvtx-tree-record-batch"@,
            NsysDataError::NvtxTreeSidecarCreate { .. } => "nsys.data.nvtx-tree-sidecar-create"@,
            NsysDataError::NvtxTreeWriterOpen { .. } => "nsys.data.nvtx-tree-writer-open"@,
            NsysDataError::NvtxTreeWriterWrite { .. } => "nsys.data.nvtx-tree-writer-write"@,
            NsysDataError::NvtxTreeWriterClose { .. } => "nsys.data.nvtx-tree-writer-close"@,
            NsysDataError::NvtxTreeSidecarOpen { .. } => "nsys.data.nvtx-tree-sidecar-open"@,
            NsysDataError::NvtxTreeReaderOpen { .. } => "nsys.data.nvtx-tree-reader-open"@,
            NsysDataError::NvtxTreeReaderBuild { .. } => "nsys.data.nvtx-tree-reader-build"@,
            NsysDataError::NvtxTreeBatchRead { .. } => "nsys.data.nvtx-tree-batch-read"@,
            NsysDataError::GpuWorkEventsColumnMissing { .. } => {
                "nsys.data.gpu-work-events-column-missing"@
            },
            NsysDataError::GpuWorkEventsColumnTypeMismatch { .. } => {
                "nsys.data.gpu-work-events-column-type-mismatch"@
            },
            NsysDataError::GpuWorkEventsTraceFingerprint { .. } => {
                "nsys.data.gpu-work-events-trace-fingerprint"@
            },
            NsysDataError::GpuWorkEventsRecordBatch { .. } => {
                "nsys.data.gpu-work-events-record-batch"@
            },
            NsysDataError::GpuWorkEventsSidecarCreate { .. } => {
                "nsys.data.gpu-work-events-sidecar-create"@
            },
            NsysDataError::GpuWorkEventsWriterOpen { .. } => {
                "nsys.data.gpu-work-events-writer-open"@
            },
            NsysDataError::GpuWorkEventsWriterWrite { .. } => {
                "nsys.data.gpu-work-events-writer-write"@
            },
            NsysDataError::GpuWorkEventsWriterClose { .. } => {
                "nsys.data.gpu-work-events-writer-close"@
            },
            NsysDataError::GpuWorkEventsSidecarOpen { .. } => {
                "nsys.data.gpu-work-events-sidecar-open"@
            },
            NsysDataError::GpuWorkEventsReaderOpen { .. } => {
                "nsys.data.gpu-work-events-reader-open"@
            },
            NsysDataError::GpuWorkEventsReaderBuild { .. } => {
                "nsys.data.gpu-work-events-reader-build"@
            },
            NsysDataError::GpuWorkEventsBatchRead { .. } => "nsys.data.gpu-work-events-batch-read"@,
            NsysDataError::SchemaAdapterUnmatched => "nsys.data.schema-adapter-unmatched"@,
        }
    }

    /// The message of the failure.
    pub open spec fn message_text(&self) -> Seq<char> {
        match *self {
            NsysDataError::TraceNotFound { path } => "trace not found: "@ + path@,
            NsysDataError::GeneratedParquetdirSourceMissing { source_path } => {
                "generated parquetdir belongs to missing .nsys-rep source: "@ + source_path@
            },
            NsysDataError::ParquetdirNotFound { path } => "parquetdir not found: "@ + path@,
            NsysDataError::DuckdbThreadConfig { .. } => {
                "duckdb thread count could not be configured"@
            },
            NsysDataError::DuckdbOpenInMemory { .. } => {
                "duckdb in-memory connection could not be opened"@
            },
            NsysDataError::DuckdbSchemaCreate { .. } => {
                "duckdb nsight schema could not be created"@
            },
            NsysDataError::ParquetdirRead { path, .. } => "parquetdir could not be read: "@ + path@,
            NsysDataError::ParquetPathInvalidUtf8 { path } => {
                "parquet path is not valid UTF-8: "@ + path@
            },
            NsysDataError::ParquetViewCreate { table, .. } => {
                "parquet table view could not be created for "@ + table@
            },
            NsysDataError::NvtxTreeViewRegister { path, .. } => {
                "nvtx-tree view could not be registered from "@ + path@
            },
            NsysDataError::GpuWorkEventsViewRegister { path, .. } => {
                "gpu-work-events view could not be registered from "@ + path@
            },
            NsysDataError::SidecarCache { .. } => "sidecar cache operation failed"@,
            NsysDataError::SidecarOperation { .. } => "sidecar operation failed"@,
            NsysDataError::SidecarHeader { .. } => "sidecar cache header operation failed"@,
            NsysDataError::TraceFingerprintRead { path, .. } => {
                "trace artifact fingerprint could not be read: "@ + path@
            },
            NsysDataError::SqliteInputUnsupported { path } => {
                "veloq does not read .sqlite traces directly: "@ + path@
                    + "; pass the original .nsys-rep instead"@
            },
            NsysDataError::NsysExportSpawn { command, source } => {
                "running `"@ + command@ + "` failed to start: "@ + source@
            },
            NsysDataError::NsysExportFailed { command, exit_code, source_path } => {
                "running `"@ + command@ + "` failed (exit "@ + optional_text(widened32(exit_code))
                    + ") for "@ + source_path@
            },
            NsysDataError::NsysExportOutputMissing { expected } => {
                "`nsys export -t parquetdir` reported success but produced no directory at "@
                    + expected@
            },
            NsysDataError::ArtifactDirCreate { path, .. } => {
                "artifact directory could not be created: "@ + path@
            },
            NsysDataError::NsysExportLockfileOpen { path, .. } => {
                "parquetdir export lockfile could not be opened: "@ + path@
            },
            NsysDataError::NsysExportLockAcquire { path, .. } => {
                "parquetdir export lock could not be acquired: "@ + path@
            },
            NsysDataError::NsysParquetdirStaleRemove { path, .. } => {
                "stale parquetdir could not be removed: "@ + path@
            },
            NsysDataError::NsysParquetdirPublish { from, to, .. } => {
                "parquetdir could not be published from "@ + from@ + " to "@ + to@
            },
            NsysDataError::NsysCacheSourceStat { path, .. } => {
                ".nsys-rep source could not be stat'ed: "@ + path@
            },
            NsysDataError::NsysCacheSentinelStat { path, .. } => {
                "parquetdir sentinel could not be stat'ed: "@ + path@
            },
            NsysDataError::NsysParquetdirHelpSpawn { command, source } => {
                "running `"@ + command@ + "` failed to start: "@ + source@
            },
            NsysDataError::NsysVersionSpawn { command, source } => {
                "running `"@ + command@ + "` failed to start: "@ + source@
            },
            NsysDataError::NsysExportGeneratedPathRemove { path, .. } => {
                "stale generated parquetdir path could not be removed: "@ + path@
            },
            NsysDataError::NsysExportSourceCanonicalize { path, .. } => {
                ".nsys-rep source could not be canonicalized: "@ + path@
            },
            NsysDataError::NsysParquetdirUnsupported { detected } => {
                "veloq requires nsys >= 2024.6 because this nsys does not support parquetdir export; detected: "@
                    + detected@ + "; upgrade nsys to 2024.6 or newer"@
            },
            NsysDataError::NsysParquetdirProbeFailed { message } => {
                "could not probe `nsys export --help type` for parquetdir support: "@ + message@
                    + "; ensure the Nsight Systems CLI is installed and on PATH"@
            },
            NsysDataError::ScopeConflictingDeviceFlags { device } => {
                "internal: --device "@ + decimal(device as int)
                    + " and --all-devices are mutually exclusive but both were supplied"@
            },
            NsysDataError::ScopeStreamRequiresDevice { stream } => {
                "--stream "@ + decimal(stream as int)
                    + " requires a single device scope; pass --device <id> or drop --stream"@
            },
            NsysDataError::CudaProcessUnresolved { table, device_id, context_id, correlation_id } => {
                "CUDA process identity could not be resolved for "@ + table@ + " (device="@
                    + decimal(device_id as int) + ", context="@ + decimal(context_id as int)
                    + ", correlation="@ + optional_text(widened64(correlation_id))
                    + "); capture process/runtime metadata or use a complete Nsight Systems export"@
            },
            NsysDataError::ScopeDeviceProbeColumnMissing { table, column, .. } => {
                "scope device probe requires "@ + table@ + "."@ + column@
                    + ", which is not present in this trace"@
            },
            NsysDataError::Duckdb { area, phase, label, .. } => {
                area@ + " failed to "@ + phase.verb() + " "@ + label@ + " DuckDB query"@
            },
            NsysDataError::MetaCacheSlotUninitialised => {
                "internal: meta cache slot was not initialised after set/race"@
            },
            NsysDataError::TraceMapProbeColumnMissing { table, column, .. } => {
                "trace map probe requires "@ + table@ + "."@ + column@
                    + ", which is not present in this trace"@
            },
            NsysDataError::TimeRangeEmpty { source } => {
                "--time-range resolves to an empty or inverted window: "@ + source@
            },
            NsysDataError::CorrelationTraceFingerprint { path, .. } => {
                "correlation cache could not fingerprint trace: "@ + path@
            },
            NsysDataError::HardwareInvalidU64Id { label, value, .. } => {
                label@ + " is not an unsigned 64-bit integer: "@ + value@
            },
            NsysDataError::NvtxParentUnsupportedIntegerType { path, column, data_type } => {
                path@ + ": "@ + column@ + " has unsupported integer type "@ + data_type@
            },
            NsysDataError::NvtxParentIntegerOverflow { path, column, value } => {
                path@ + ": "@ + column@ + " value "@ + decimal(value as int)
                    + " does not fit Int64"@
            },
            NsysDataError::NvtxParentListLengthMismatch { row, rowids_len, names_len } => {
                "nvtx-parent: row "@ + decimal(row as int) + ": nvtx_rowids ("@
                    + decimal(rowids_len as int) + ") and nvtx_names ("@ + decimal(names_len as int)
                    + ") length mismatch"@
            },
            NsysDataError::NvtxParentColumnMissing { path, column } => {
                "nvtx-parent sidecar missing "@ + column@ + " column in "@ + path@
            },
            NsysDataError::NvtxParentColumnTypeMismatch { path, column, expected, actual } => {
                "nvtx-parent sidecar column "@ + column@ + " in "@ + path@ + " has type "@ + actual@
                    + "; expected "@ + expected@
            },
            NsysDataError::NvtxParentGpuActivityColumnMissing { path, column } => {
                "nvtx-parent GPU activity parquet missing "@ + column@ + " column in "@ + path@
            },
            NsysDataError::NvtxParentGpuActivityOpen { path, .. } => {
                "nvtx-parent GPU activity parquet could not be opened: "@ + path@
            },
            NsysDataError::NvtxParentGpuActivityReaderOpen { path, .. } => {
                "nvtx-parent GPU activity parquet reader could not be opened for "@ + path@
            },
            NsysDataError::NvtxParentGpuActivityReaderBuild { path, .. } => {
                "nvtx-parent GPU activity parquet reader could not be built for "@ + path@
            },
            NsysDataError::NvtxParentGpuActivityBatchRead { path, .. } => {
                "nvtx-parent GPU activity parquet reader could not read batch from "@ + path@
            },
            NsysDataError::NvtxParentInt32Overflow { path, column, value } => {
                path@ + ": "@ + column@ + " value "@ + decimal(value as int)
                    + " does not fit Int32"@
            },
            NsysDataError::NvtxParentTraceFingerprint { path, .. } => {
                "nvtx-parent could not fingerprint trace: "@ + path@
            },
            NsysDataError::NvtxParentRecordBatch { .. } => {
                "nvtx-parent sidecar RecordBatch could not be assembled"@
            },
            NsysDataError::NvtxParentSidecarCreate { path, .. } => {
                "nvtx-parent sidecar temp file could not be created: "@ + path@
            },
            NsysDataError::NvtxParentWriterOpen { path, .. } => {
                "nvtx-parent parquet writer could not be opened for "@ + path@
            },
            NsysDataError::NvtxParentWriterWrite { path, .. } => {
                "nvtx-parent parquet writer could not write batch to "@ + path@
            },
            NsysDataError::NvtxParentWriterClose { path, .. } => {
                "nvtx-parent parquet writer could not close "@ + path@
            },
            NsysDataError::NvtxParentSidecarOpen { path, .. } => {
                "nvtx-parent sidecar could not be opened: "@ + path@
            },
            NsysDataError::NvtxParentReaderOpen { path, .. } => {
                "nvtx-parent parquet reader could not be opened for "@ + path@
            },
            NsysDataError::NvtxParentReaderBuild { path, .. } => {
                "nvtx-parent parquet reader could not be built for "@ + path@
            },
            NsysDataError::NvtxParentBatchRead { path, .. } => {
                "nvtx-parent parquet reader could not read batch from "@ + path@
            },
            NsysDataError::NvtxTreeColumnMissing { path, column } => {
                "nvtx-tree sidecar missing "@ + column@ + " column in "@ + path@
            },
            NsysDataError::NvtxTreeColumnTypeMismatch { path, column, expected, actual } => {
                "nvtx-tree sidecar column "@ + column@ + " in "@ + path@ + " has type "@ + actual@
                    + "; expected "@ + expected@
            },
            NsysDataError::NvtxTreeTraceFingerprint { path, .. } => {
                "nvtx-tree could not fingerprint trace: "@ + path@
            },
            NsysDataError::NvtxTreeRecordBatch { .. } => {
                "nvtx-tree sidecar RecordBatch could not be assembled"@
            },
            NsysDataError::NvtxTreeSidecarCreate { path, .. } => {
                "nvtx-tree sidecar temp file could not be created: "@ + path@
            },
            NsysDataError::NvtxTreeWriterOpen { path, .. } => {
                "nvtx-tree parquet writer could not be opened for "@ + path@
            },
            NsysDataError::NvtxTreeWriterWrite { path, .. } => {
                "nvtx-tree parquet writer could not write batch to "@ + path@
            },
            NsysDataError::NvtxTreeWriterClose { path, .. } => {
                "nvtx-tree parquet writer could not close "@ + path@
            },
            NsysDataError::NvtxTreeSidecarOpen { path, .. } => {
                "nvtx-tree sidecar could not be opened: "@ + path@
            },
            NsysDataError::NvtxTreeReaderOpen { path, .. } => {
                "nvtx-tree parquet reader could not be opened for "@ + path@
            },
            NsysDataError::NvtxTreeReaderBuild { path, .. } => {
                "nvtx-tree parquet reader could not be built for "@ + path@
            },
            NsysDataError::NvtxTreeBatchRead { path, .. } => {
                "nvtx-tree parquet reader could not read batch from "@ + path@
            },
            NsysDataError::GpuWorkEventsColumnMissing { path, column } => {
                "gpu-work-events sidecar missing "@ + column@ + " column in "@ + path@
            },
            NsysDataError::GpuWorkEventsColumnTypeMismatch { path, column, expected, actual } => {
                "gpu-work-events sidecar column "@ + column@ + " in "@ + path@ + " has type "@
                    + actual@ + "; expected "@ + expected@
            },
            NsysDataError::GpuWorkEventsTraceFingerprint { path, .. } => {
                "gpu-work-events could not fingerprint trace: "@ + path@
            },
            NsysDataError::GpuWorkEventsRecordBatch { .. } => {
                "gpu-work-events sidecar RecordBatch could not be assembled"@
            },
            NsysDataError::GpuWorkEventsSidecarCreate { path, .. } => {
                "gpu-work-events sidecar temp file could not be created: "@ + path@
            },
            NsysDataError::GpuWorkEventsWriterOpen { path, .. } => {
                "gpu-work-events parquet writer could not be opened for "@ + path@
            },
            NsysDataError::GpuWorkEventsWriterWrite { path, .. } => {
                "gpu-work-events parquet writer could not write batch to "@ + path@
            },
            NsysDataError::GpuWorkEventsWriterClose { path, .. } => {
                "gpu-work-events parquet writer could not close "@ + path@
            },
            NsysDataError::GpuWorkEventsSidecarOpen { path, .. } => {
                "gpu-work-events sidecar could not be opened: "@ + path@
            },
            NsysDataError::GpuWorkEventsReaderOpen { path, .. } => {
                "gpu-work-events parquet reader could not be opened for "@ + path@
            },
            NsysDataError::GpuWorkEventsReaderBuild { path, .. } => {
                "gpu-work-events parquet reader could not be built for "@ + path@
            },
            NsysDataError::GpuWorkEventsBatchRead { path, .. } => {
                "gpu-work-events parquet reader could not read batch from "@ + path@
            },
            NsysDataError::SchemaAdapterUnmatched => {
                "no schema adapter matched the trace; StandardAdapter did not recognise the canonical 3.x columns"@
            },
        }
    }

    /// The code of the failure.
    pub fn code(&self) -> (code: ErrorCode)
        ensures
            code@ == self.code_text(),
    {
        match self {
            NsysDataError::TraceNotFound { .. } => ErrorCode::new("nsys.data.trace-not-found"),
            NsysDataError::GeneratedParquetdirSourceMissing { .. } => {
                ErrorCode::new("nsys.data.generated-parquetdir-source-missing")
            },
            NsysDataError::ParquetdirNotFound { .. } => {
                ErrorCode::new("nsys.data.parquetdir-not-found")
            },
            NsysDataError::DuckdbThreadConfig { .. } => {
                ErrorCode::new("nsys.data.duckdb-thread-config")
            },
            NsysDataError::DuckdbOpenInMemory { .. } => {
                ErrorCode::new("nsys.data.duckdb-open-in-memory")
            },
            NsysDataError::DuckdbSchemaCreate { .. } => {
                ErrorCode::new("nsys.data.duckdb-schema-create")
            },
            NsysDataError::ParquetdirRead { .. } => ErrorCode::new("nsys.data.parquetdir-read"),
            NsysDataError::ParquetPathInvalidUtf8 { .. } => {
                ErrorCode::new("nsys.data.parquet-path-invalid-utf8")
            },
            NsysDataError::ParquetViewCreate { .. } => {
                ErrorCode::new("nsys.data.parquet-view-create")
            },
            NsysDataError::NvtxTreeViewRegister { .. } => {
                ErrorCode::new("nsys.data.nvtx-tree-view-register")
            },
            NsysDataError::GpuWorkEventsViewRegister { .. } => {
                ErrorCode::new("nsys.data.gpu-work-events-view-register")
            },
            NsysDataError::SidecarCache { .. } => ErrorCode::new("nsys.data.sidecar-cache"),
            NsysDataError::SidecarOperation { .. } => ErrorCode::new("nsys.data.sidecar-operation"),
            NsysDataError::SidecarHeader { .. } => ErrorCode::new("nsys.data.sidecar-header"),
            NsysDataError::TraceFingerprintRead { .. } => {
                ErrorCode::new("nsys.data.trace-fingerprint-read")
            },
            NsysDataError::SqliteInputUnsupported { .. } => {
                ErrorCode::new("nsys.data.sqlite-input-unsupported")
            },
            NsysDataError::NsysExportSpawn { .. } => ErrorCode::new("nsys.data.nsys-export-spawn"),
            NsysDataError::NsysExportFailed { .. } => {
                ErrorCode::new("nsys.data.nsys-export-failed")
            },
            NsysDataError::NsysExportOutputMissing { .. } => {
                ErrorCode::new("nsys.data.nsys-export-output-missing")
            },
            NsysDataError::ArtifactDirCreate { .. } => {
                ErrorCode::new("nsys.data.artifact-dir-create")
            },
            NsysDataError::NsysExportLockfileOpen { .. } => {
                ErrorCode::new("nsys.data.nsys-export-lockfile-open")
            },
            NsysDataError::NsysExportLockAcquire { .. } => {
                ErrorCode::new("nsys.data.nsys-export-lock-acquire")
            },
            NsysDataError::NsysParquetdirStaleRemove { .. } => {
                ErrorCode::new("nsys.data.nsys-parquetdir-stale-remove")
            },
            NsysDataError::NsysParquetdirPublish { .. } => {
                ErrorCode::new("nsys.data.nsys-parquetdir-publish")
            },
            NsysDataError::NsysCacheSourceStat { .. } => {
                ErrorCode::new("nsys.data.nsys-cache-source-stat")
            },
            NsysDataError::NsysCacheSentinelStat { .. } => {
                ErrorCode::new("nsys.data.nsys-cache-sentinel-stat")
            },
            NsysDataError::NsysParquetdirHelpSpawn { .. } => {
                ErrorCode::new("nsys.data.nsys-parquetdir-help-spawn")
            },
            NsysDataError::NsysVersionSpawn { .. } => {
                ErrorCode::new("nsys.data.nsys-version-spawn")
            },
            NsysDataError::NsysExportGeneratedPathRemove { .. } => {
                ErrorCode::new("nsys.data.nsys-export-generated-path-remove")
            },
            NsysDataError::NsysExportSourceCanonicalize { .. } => {
                ErrorCode::new("nsys.data.nsys-export-source-canonicalize")
            },
            NsysDataError::NsysParquetdirUnsupported { .. } => {
                ErrorCode::new("nsys.data.nsys-parquetdir-unsupported")
            },
            NsysDataError::NsysParquetdirProbeFailed { .. } => {
                ErrorCode::new("nsys.data.nsys-parquetdir-probe-failed")
            },
            NsysDataError::ScopeConflictingDeviceFlags { .. } => {
                ErrorCode::new("nsys.data.scope-conflicting-device-flags")
            },
            NsysDataError::ScopeStreamRequiresDevice { .. } => {
                ErrorCode::new("nsys.data.scope-stream-requires-device")
            },
            NsysDataError::CudaProcessUnresolved { .. } => {
                ErrorCode::new("nsys.data.cuda-process-unresolved")
            },
            NsysDataError::ScopeDeviceProbeColumnMissing { .. } => {
                ErrorCode::new("nsys.data.scope-device-probe-column-missing")
            },
            NsysDataError::Duckdb { phase, .. } => phase.code(),
            NsysDataError::MetaCacheSlotUninitialised => {
                ErrorCode::new("nsys.data.meta-cache-slot-uninitialised")
            },
            NsysDataError::TraceMapProbeColumnMissing { .. } => {
                ErrorCode::new("nsys.data.trace-map-probe-column-missing")
            },
            NsysDataError::TimeRangeEmpty { .. } => ErrorCode::new("nsys.data.time-range-empty"),
            NsysDataError::CorrelationTraceFingerprint { .. } => {
                ErrorCode::new("nsys.data.correlation-trace-fingerprint")
            },
            NsysDataError::HardwareInvalidU64Id { .. } => {
                ErrorCode::new("nsys.data.hardware-invalid-u64-id")
            },
            NsysDataError::NvtxParentUnsupportedIntegerType { .. } => {
                ErrorCode::new("nsys.data.nvtx-parent-unsupported-integer-type")
            },
            NsysDataError::NvtxParentIntegerOverflow { .. } => {
                ErrorCode::new("nsys.data.nvtx-parent-integer-overflow")
            },
            NsysDataError::NvtxParentListLengthMismatch { .. } => {
                ErrorCode::new("nsys.data.nvtx-parent-list-length-mismatch")
            },
            NsysDataError::NvtxParentColumnMissing { .. } => {
                ErrorCode::new("nsys.data.nvtx-parent-column-missing")
            },
            NsysDataError::NvtxParentColumnTypeMismatch { .. } => {
                ErrorCode::new("nsys.data.nvtx-parent-column-type-mismatch")
            },
            NsysDataError::NvtxParentGpuActivityColumnMissing { .. } => {
                ErrorCode::new("nsys.data.nvtx-parent-gpu-activity-column-missing")
            },
            NsysDataError::NvtxParentGpuActivityOpen { .. } => {
                ErrorCode::new("nsys.data.nvtx-parent-gpu-activity-open")
            },
            NsysDataError::NvtxParentGpuActivityReaderOpen { .. } => {
                ErrorCode::new("nsys.data.nvtx-parent-gpu-activity-reader-open")
            },
            NsysDataError::NvtxParentGpuActivityReaderBuild { .. } => {
                ErrorCode::new("nsys.data.nvtx-parent-gpu-activity-reader-build")
            },
            NsysDataError::NvtxParentGpuActivityBatchRead { .. } => {
                ErrorCode::new("nsys.data.nvtx-parent-gpu-activity-batch-read")
            },
            NsysDataError::NvtxParentInt32Overflow { .. } => {
                ErrorCode::new("nsys.data.nvtx-parent-int32-overflow")
            },
            NsysDataError::NvtxParentTraceFingerprint { .. } => {
                ErrorCode::new("nsys.data.nvtx-parent-trace-fingerprint")
            },
            NsysDataError::NvtxParentRecordBatch { .. } => {
                ErrorCode::new("nsys.data.nvtx-parent-record-batch")
            },
            NsysDataError::NvtxParentSidecarCreate { .. } => {
                ErrorCode::new("nsys.data.nvtx-parent-sidecar-create")
            },
            NsysDataError::NvtxParentWriterOpen { .. } => {
                ErrorCode::new("nsys.data.nvtx-parent-writer-open")
            },
            NsysDataError::NvtxParentWriterWrite { .. } => {
                ErrorCode::new("nsys.data.nvtx-parent-writer-write")
            },
            NsysDataError::NvtxParentWriterClose { .. } => {
                ErrorCode::new("nsys.data.nvtx-parent-writer-close")
            },
            NsysDataError::NvtxParentSidecarOpen { .. } => {
                ErrorCode::new("nsys.data.nvtx-parent-sidecar-open")
            },
            NsysDataError::NvtxParentReaderOpen { .. } => {
                ErrorCode::new("nsys.data.nvtx-parent-reader-open")
            },
            NsysDataError::NvtxParentReaderBuild { .. } => {
                ErrorCode::new("nsys.data.nvtx-parent-reader-build")
            },
            NsysDataError::NvtxParentBatchRead { .. } => {
                ErrorCode::new("nsys.data.nvtx-parent-batch-read")
            },
            NsysDataError::NvtxTreeColumnMissing { .. } => {
                ErrorCode::new("nsys.data.nvtx-tree-column-missing")
            },
            NsysDataError::NvtxTreeColumnTypeMismatch { .. } => {
                ErrorCode::new("nsys.data.nvtx-tree-column-type-mismatch")
            },
            NsysDataError::NvtxTreeTraceFingerprint { .. } => {
                ErrorCode::new("nsys.data.nvtx-tree-trace-fingerprint")
            },
            NsysDataError::NvtxTreeRecordBatch { .. } => {
                ErrorCode::new("nsys.data.nvtx-tree-record-batch")
            },
            NsysDataError::NvtxTreeSidecarCreate { .. } => {
                ErrorCode::new("nsys.data.nvtx-tree-sidecar-create")
            },
            NsysDataError::NvtxTreeWriterOpen { .. } => {
                ErrorCode::new("nsys.data.nvtx-tree-writer-open")
            },
            NsysDataError::NvtxTreeWriterWrite { .. } => {
                ErrorCode::new("nsys.data.nvtx-tree-writer-write")
            },
            NsysDataError::NvtxTreeWriterClose { .. } => {
                ErrorCode::new("nsys.data.nvtx-tree-writer-close")
            },
            NsysDataError::NvtxTreeSidecarOpen { .. } => {
                ErrorCode::new("nsys.data.nvtx-tree-sidecar-open")
            },
            NsysDataError::NvtxTreeReaderOpen { .. } => {
                ErrorCode::new("nsys.data.nvtx-tree-reader-open")
            },
            NsysDataError::NvtxTreeReaderBuild { .. } => {
                ErrorCode::new("nsys.data.nvtx-tree-reader-build")
            },
            NsysDataError::NvtxTreeBatchRead { .. } => {
                ErrorCode::new("nsys.data.nvtx-tree-batch-read")
            },
            NsysDataError::GpuWorkEventsColumnMissing { .. } => {
                ErrorCode::new("nsys.data.gpu-work-events-column-missing")
            },
            NsysDataError::GpuWorkEventsColumnTypeMismatch { .. } => {
                ErrorCode::new("nsys.data.gpu-work-events-column-type-mismatch")
            },
            NsysDataError::GpuWorkEventsTraceFingerprint { .. } => {
                ErrorCode::new("nsys.data.gpu-work-events-trace-fingerprint")
            },
            NsysDataError::GpuWorkEventsRecordBatch { .. } => {
                ErrorCode::new("nsys.data.gpu-work-events-record-batch")
            },
            NsysDataError::GpuWorkEventsSidecarCreate { .. } => {
                ErrorCode::new("nsys.data.gpu-work-events-sidecar-create")
            },
            NsysDataError::GpuWorkEventsWriterOpen { .. } => {
                ErrorCode::new("nsys.data.gpu-work-events-writer-open")
            },
            NsysDataError::GpuWorkEventsWriterWrite { .. } => {
                ErrorCode::new("nsys.data.gpu-work-events-writer-write")
            },
            NsysDataError::GpuWorkEventsWriterClose { .. } => {
                ErrorCode::new("nsys.data.gpu-work-events-writer-close")
            },
            NsysDataError::GpuWorkEventsSidecarOpen { .. } => {
                ErrorCode::new("nsys.data.gpu-work-events-sidecar-open")
            },
            NsysDataError::GpuWorkEventsReaderOpen { .. } => {
                ErrorCode::new("nsys.data.gpu-work-events-reader-open")
            },
            NsysDataError::GpuWorkEventsReaderBuild { .. } => {
                ErrorCode::new("nsys.data.gpu-work-events-reader-build")
            },
            NsysDataError::GpuWorkEventsBatchRead { .. } => {
                ErrorCode::new("nsys.data.gpu-work-events-batch-read")
            },
            NsysDataError::SchemaAdapterUnmatched => {
                ErrorCode::new("nsys.data.schema-adapter-unmatched")
            },
        }
    }

    /// The message of the failure.
    pub fn message(&self) -> (message: String)
        ensures
            message@ == self.message_text(),
    {
        match self {
            NsysDataError::TraceNotFound { path } => {
                let mut text = "trace not found: ".to_owned();
                text.append(path.as_str());
                text
            },
            NsysDataError::GeneratedParquetdirSourceMissing { source_path } => {
                let mut text = "generated parquetdir belongs to missing .nsys-rep source: ".to_owned();
                text.append(source_path.as_str());
                text
            },
            NsysDataError::ParquetdirNotFound { path } => {
                let mut text = "parquetdir not found: ".to_owned();
                text.append(path.as_str());
                text
            },
            NsysDataError::DuckdbThreadConfig { .. } => {
                "duckdb thread count could not be configured".to_owned()
            },
            NsysDataError::DuckdbOpenInMemory { .. } => {
                "duckdb in-memory connection could not be opened".to_owned()
            },
            NsysDataError::DuckdbSchemaCreate { .. } => {
                "duckdb nsight schema could not be created".to_owned()
            },
            NsysDataError::ParquetdirRead { path, .. } => {
                let mut text = "parquetdir could not be read: ".to_owned();
                text.append(path.as_str());
                text
            },
            NsysDataError::ParquetPathInvalidUtf8 { path } => {
                let mut text = "parquet path is not valid UTF-8: ".to_owned();
                text.append(path.as_str());
                text
            },
            NsysDataError::ParquetViewCreate { table, .. } => {
                let mut text = "parquet table view could not be created for ".to_owned();
                text.append(table.as_str());
                text
            },
            NsysDataError::NvtxTreeViewRegister { path, .. } => {
                let mut text = "nvtx-tree view could not be registered from ".to_owned();
                text.append(path.as_str());
                text
            },
            NsysDataError::GpuWorkEventsViewRegister { path, .. } => {
                let mut text = "gpu-work-events view could not be registered from ".to_owned();
                text.append(path.as_str());
                text
            },
            NsysDataError::SidecarCache { .. } => "sidecar cache operation failed".to_owned(),
            NsysDataError::SidecarOperation { .. } => "sidecar operation failed".to_owned(),
            NsysDataError::SidecarHeader { .. } => {
                "sidecar cache header operation failed".to_owned()
            },
            NsysDataError::TraceFingerprintRead { path, .. } => {
                let mut text = "trace artifact fingerprint could not be read: ".to_owned();
                text.append(path.as_str());
                text
            },
            NsysDataError::SqliteInputUnsupported { path } => {
                let mut text = "veloq does not read .sqlite traces directly: ".to_owned();
                text.append(path.as_str());
                text.append("; pass the original .nsys-rep instead");
                text
            },
            NsysDataError::NsysExportSpawn { command, source } => {
                let mut text = "running `".to_owned();
                text.append(command.as_str());
                text.append("` failed to start: ");
                text.append(source.as_str());
                text
            },
            NsysDataError::NsysExportFailed { command, exit_code, source_path } => {
                let mut text = "running `".to_owned();
                text.append(command.as_str());
                text.append("` failed (exit ");
                text.append(optional_string(match *exit_code { Some(n) => Some(n as i64), None => None }).as_str());
                text.append(") for ");
                text.append(source_path.as_str());
                text
            },
            NsysDataError::NsysExportOutputMissing { expected } => {
                let mut text = "`nsys export -t parquetdir` reported success but produced no directory at ".to_owned();
                text.append(expected.as_str());
                text
            },
            NsysDataError::ArtifactDirCreate { path, .. } => {
                let mut text = "artifact directory could not be created: ".to_owned();
                text.append(path.as_str());
                text
            },
            NsysDataError::NsysExportLockfileOpen { path, .. } => {
                let mut text = "parquetdir export lockfile could not be opened: ".to_owned();
                text.append(path.as_str());
                text
            },
            NsysDataError::NsysExportLockAcquire { path, .. } => {
                let mut text = "parquetdir export lock could not be acquired: ".to_owned();
                text.append(path.as_str());
                text
            },
            NsysDataError::NsysParquetdirStaleRemove { path, .. } => {
                let mut text = "stale parquetdir could not be removed: ".to_owned();
                text.append(path.as_str());
                text
            },
            NsysDataError::NsysParquetdirPublish { from, to, .. } => {
                let mut text = "parquetdir could not be published from ".to_owned();
                text.append(from.as_str());
                text.append(" to ");
                text.append(to.as_str());
                text
            },
            NsysDataError::NsysCacheSourceStat { path, .. } => {
                let mut text = ".nsys-rep source could not be stat'ed: ".to_owned();
                text.append(path.as_str());
                text
            },
            NsysDataError::NsysCacheSentinelStat { path, .. } => {
                let mut text = "parquetdir sentinel could not be stat'ed: ".to_owned();
                text.append(path.as_str());
                text
            },
            NsysDataError::NsysParquetdirHelpSpawn { command, source } => {
                let mut text = "running `".to_owned();
                text.append(command.as_str());
                text.append("` failed to start: ");
                text.append(source.as_str());
                text
            },
            NsysDataError::NsysVersionSpawn { command, source } => {
                let mut text = "running `".to_owned();
                text.append(command.as_str());
                text.append("` failed to start: ");
                text.append(source.as_str());
                text
            },
            NsysDataError::NsysExportGeneratedPathRemove { path, .. } => {
                let mut text = "stale generated parquetdir path could not be removed: ".to_owned();
                text.append(path.as_str());
                text
            },
            NsysDataError::NsysExportSourceCanonicalize { path, .. } => {
                let mut text = ".nsys-rep source could not be canonicalized: ".to_owned();
                text.append(path.as_str());
                text
            },
            NsysDataError::NsysParquetdirUnsupported { detected } => {
                let mut text = "veloq requires nsys >= 2024.6 because this nsys does not support parquetdir export; detected: ".to_owned();
                text.append(detected.as_str());
                text.append("; upgrade nsys to 2024.6 or newer");
                text
            },
            NsysDataError::NsysParquetdirProbeFailed { message } => {
                let mut text = "could not probe `nsys export --help type` for parquetdir support: ".to_owned();
                text.append(message.as_str());
                text.append("; ensure the Nsight Systems CLI is installed and on PATH");
                text
            },
            NsysDataError::ScopeConflictingDeviceFlags { device } => {
                let mut text = "internal: --device ".to_owned();
                text.append(i64_text(*device as i64).as_str());
                text.append(" and --all-devices are mutually exclusive but both were supplied");
                text
            },
            NsysDataError::ScopeStreamRequiresDevice { stream } => {
                let mut text = "--stream ".to_owned();
                text.append(i64_text(*stream).as_str());
                text.append(" requires a single device scope; pass --device <id> or drop --stream");
                text
            },
            NsysDataError::CudaProcessUnresolved { table, device_id, context_id, correlation_id } => {
                let mut text = "CUDA process identity could not be resolved for ".to_owned();
                text.append(table.as_str());
                text.append(" (device=");
                text.append(i64_text(*device_id as i64).as_str());
                text.append(", context=");
                text.append(i64_text(*context_id).as_str());
                text.append(", correlation=");
                text.append(optional_string(*correlation_id).as_str());
                text.append("); capture process/runtime metadata or use a complete Nsight Systems export");
                text
            },
            NsysDataError::ScopeDeviceProbeColumnMissing { table, column, .. } => {
                let mut text = "scope device probe requires ".to_owned();
                text.append(table.as_str());
                text.append(".");
                text.append(column.as_str());
                text.append(", which is not present in this trace");
                text
            },
            NsysDataError::Duckdb { area, phase, label, .. } => {
                let mut text = (*area).to_owned();
                text.append(" failed to ");
                text.append(phase.as_str());
                text.append(" ");
                text.append(label.as_str());
                text.append(" DuckDB query");
                text
            },
            NsysDataError::MetaCacheSlotUninitialised => {
                "internal: meta cache slot was not initialised after set/race".to_owned()
            },
            NsysDataError::TraceMapProbeColumnMissing { table, column, .. } => {
                let mut text = "trace map probe requires ".to_owned();
                text.append(table.as_str());
                text.append(".");
                text.append(column.as_str());
                text.append(", which is not present in this trace");
                text
            },
            NsysDataError::TimeRangeEmpty { source } => {
                let mut text = "--time-range resolves to an empty or inverted window: ".to_owned();
                text.append(source.as_str());
                text
            },
            NsysDataError::CorrelationTraceFingerprint { path, .. } => {
                let mut text = "correlation cache could not fingerprint trace: ".to_owned();
                text.append(path.as_str());
                text
            },
            NsysDataError::HardwareInvalidU64Id { label, value, .. } => {
                let mut text = label.clone();
                text.append(" is not an unsigned 64-bit integer: ");
                text.append(value.as_str());
                text
            },
            NsysDataError::NvtxParentUnsupportedIntegerType { path, column, data_type } => {
                let mut text = path.clone();
                text.append(": ");
                text.append(column.as_str());
                text.append(" has unsupported integer type ");
                text.append(data_type.as_str());
                text
            },
            NsysDataError::NvtxParentIntegerOverflow { path, column, value } => {
                let mut text = path.clone();
                text.append(": ");
                text.append(column.as_str());
                text.append(" value ");
                text.append(u64_text(*value).as_str());
                text.append(" does not fit Int64");
                text
            },
            NsysDataError::NvtxParentListLengthMismatch { row, rowids_len, names_len } => {
                let mut text = "nvtx-parent: row ".to_owned();
                text.append(u64_text(*row as u64).as_str());
                text.append(": nvtx_rowids (");
                text.append(u64_text(*rowids_len as u64).as_str());
                text.append(") and nvtx_names (");
                text.append(u64_text(*names_len as u64).as_str());
                text.append(") length mismatch");
                text
            },
            NsysDataError::NvtxParentColumnMissing { path, column } => {
                let mut text = "nvtx-parent sidecar missing ".to_owned();
                text.append(column.as_str());
                text.append(" column in ");
                text.append(path.as_str());
                text
            },
            NsysDataError::NvtxParentColumnTypeMismatch { path, column, expected, actual } => {
                let mut text = "nvtx-parent sidecar column ".to_owned();
                text.append(column.as_str());
                text.append(" in ");
                text.append(path.as_str());
                text.append(" has type ");
                text.append(actual.as_str());
                text.append("; expected ");
                text.append(expected.as_str());
                text
            },
            NsysDataError::NvtxParentGpuActivityColumnMissing { path, column } => {
                let mut text = "nvtx-parent GPU activity parquet missing ".to_owned();
                text.append(column.as_str());
                text.append(" column in ");
                text.append(path.as_str());
                text
            },
            NsysDataError::NvtxParentGpuActivityOpen { path, .. } => {
                let mut text = "nvtx-parent GPU activity parquet could not be opened: ".to_owned();
                text.append(path.as_str());
                text
            },
            NsysDataError::NvtxParentGpuActivityReaderOpen { path, .. } => {
                let mut text = "nvtx-parent GPU activity parquet reader could not be opened for ".to_owned();
                text.append(path.as_str());
                text
            },
            NsysDataError::NvtxParentGpuActivityReaderBuild { path, .. } => {
                let mut text = "nvtx-parent GPU activity parquet reader could not be built for ".to_owned();
                text.append(path.as_str());
                text
            },
            NsysDataError::NvtxParentGpuActivityBatchRead { path, .. } => {
                let mut text = "nvtx-parent GPU activity parquet reader could not read batch from ".to_owned();
                text.append(path.as_str());
                text
            },
            NsysDataError::NvtxParentInt32Overflow { path, column, value } => {
                let mut text = path.clone();
                text.append(": ");
                text.append(column.as_str());
                text.append(" value ");
                text.append(i64_text(*value).as_str());
                text.append(" does not fit Int32");
                text
            },
            NsysDataError::NvtxParentTraceFingerprint { path, .. } => {
                let mut text = "nvtx-parent could not fingerprint trace: ".to_owned();
                text.append(path.as_str());
                text
            },
            NsysDataError::NvtxParentRecordBatch { .. } => {
                "nvtx-parent sidecar RecordBatch could not be assembled".to_owned()
            },
            NsysDataError::NvtxParentSidecarCreate { path, .. } => {
                let mut text = "nvtx-parent sidecar temp file could not be created: ".to_owned();
                text.append(path.as_str());
                text
            },
            NsysDataError::NvtxParentWriterOpen { path, .. } => {
                let mut text = "nvtx-parent parquet writer could not be opened for ".to_owned();
                text.append(path.as_str());
                text
            },
            NsysDataError::NvtxParentWriterWrite { path, .. } => {
                let mut text = "nvtx-parent parquet writer could not write batch to ".to_owned();
                text.append(path.as_str());
                text
            },
            NsysDataError::NvtxParentWriterClose { path, .. } => {
                let mut text = "nvtx-parent parquet writer could not close ".to_owned();
                text.append(path.as_str());
                text
            },
            NsysDataError::NvtxParentSidecarOpen { path, .. } => {
                let mut text = "nvtx-parent sidecar could not be opened: ".to_owned();
                text.append(path.as_str());
                text
            },
            NsysDataError::NvtxParentReaderOpen { path, .. } => {
                let mut text = "nvtx-parent parquet reader could not be opened for ".to_owned();
                text.append(path.as_str());
                text
            },
            NsysDataError::NvtxParentReaderBuild { path, .. } => {
                let mut text = "nvtx-parent parquet reader could not be built for ".to_owned();
                text.append(path.as_str());
                text
            },
            NsysDataError::NvtxParentBatchRead { path, .. } => {
                let mut text = "nvtx-parent parquet reader could not read batch from ".to_owned();
                text.append(path.as_str());
                text
            },
            NsysDataError::NvtxTreeColumnMissing { path, column } => {
                let mut text = "nvtx-tree sidecar missing ".to_owned();
                text.append(column.as_str());
                text.append(" column in ");
                text.append(path.as_str());
                text
            },
            NsysDataError::NvtxTreeColumnTypeMismatch { path, column, expected, actual } => {
                let mut text = "nvtx-tree sidecar column ".to_owned();
                text.append(column.as_str());
                text.append(" in ");
                text.append(path.as_str());
                text.append(" has type ");
                text.append(actual.as_str());
                text.append("; expected ");
                text.append(expected.as_str());
                text
            },
            NsysDataError::NvtxTreeTraceFingerprint { path, .. } => {
                let mut text = "nvtx-tree could not fingerprint trace: ".to_owned();
                text.append(path.as_str());
                text
            },
            NsysDataError::NvtxTreeRecordBatch { .. } => {
                "nvtx-tree sidecar RecordBatch could not be assembled".to_owned()
            },
            NsysDataError::NvtxTreeSidecarCreate { path, .. } => {
                let mut text = "nvtx-tree sidecar temp file could not be created: ".to_owned();
                text.append(path.as_str());
                text
            },
            NsysDataError::NvtxTreeWriterOpen { path, .. } => {
                let mut text = "nvtx-tree parquet writer could not be opened for ".to_owned();
                text.append(path.as_str());
                text
            },
            NsysDataError::NvtxTreeWriterWrite { path, .. } => {
                let mut text = "nvtx-tree parquet writer could not write batch to ".to_owned();
                text.append(path.as_str());
                text
            },
            NsysDataError::NvtxTreeWriterClose { path, .. } => {
                let mut text = "nvtx-tree parquet writer could not close ".to_owned();
                text.append(path.as_str());
                text
            },
            NsysDataError::NvtxTreeSidecarOpen { path, .. } => {
                let mut text = "nvtx-tree sidecar could not be opened: ".to_owned();
                text.append(path.as_str());
                text
            },
            NsysDataError::NvtxTreeReaderOpen { path, .. } => {
                let mut text = "nvtx-tree parquet reader could not be opened for ".to_owned();
                text.append(path.as_str());
                text
            },
            NsysDataError::NvtxTreeReaderBuild { path, .. } => {
                let mut text = "nvtx-tree parquet reader could not be built for ".to_owned();
                text.append(path.as_str());
                text
            },
            NsysDataError::NvtxTreeBatchRead { path, .. } => {
                let mut text = "nvtx-tree parquet reader could not read batch from ".to_owned();
                text.append(path.as_str());
                text
            },
            NsysDataError::GpuWorkEventsColumnMissing { path, column } => {
                let mut text = "gpu-work-events sidecar missing ".to_owned();
                text.append(column.as_str());
                text.append(" column in ");
                text.append(path.as_str());
                text
            },
            NsysDataError::GpuWorkEventsColumnTypeMismatch { path, column, expected, actual } => {
                let mut text = "gpu-work-events sidecar column ".to_owned();
                text.append(column.as_str());
                text.append(" in ");
                text.append(path.as_str());
                text.append(" has type ");
                text.append(actual.as_str());
                text.append("; expected ");
                text.append(expected.as_str());
                text
            },
            NsysDataError::GpuWorkEventsTraceFingerprint { path, .. } => {
                let mut text = "gpu-work-events could not fingerprint trace: ".to_owned();
                text.append(path.as_str());
                text
            },
            NsysDataError::GpuWorkEventsRecordBatch { .. } => {
                "gpu-work-events sidecar RecordBatch could not be assembled".to_owned()
            },
            NsysDataError::GpuWorkEventsSidecarCreate { path, .. } => {
                let mut text = "gpu-work-events sidecar temp file could not be created: ".to_owned();
                text.append(path.as_str());
                text
            },
            NsysDataError::GpuWorkEventsWriterOpen { path, .. } => {
                let mut text = "gpu-work-events parquet writer could not be opened for ".to_owned();
                text.append(path.as_str());
                text
            },
            NsysDataError::GpuWorkEventsWriterWrite { path, .. } => {
                let mut text = "gpu-work-events parquet writer could not write batch to ".to_owned();
                text.append(path.as_str());
                text
            },
            NsysDataError::GpuWorkEventsWriterClose { path, .. } => {
                let mut text = "gpu-work-events parquet writer could not close ".to_owned();
                text.append(path.as_str());
                text
            },
            NsysDataError::GpuWorkEventsSidecarOpen { path, .. } => {
                let mut text = "gpu-work-events sidecar could not be opened: ".to_owned();
                text.append(path.as_str());
                text
            },
            NsysDataError::GpuWorkEventsReaderOpen { path, .. } => {
                let mut text = "gpu-work-events parquet reader could not be opened for ".to_owned();
                text.append(path.as_str());
                text
            },
            NsysDataError::GpuWorkEventsReaderBuild { path, .. } => {
                let mut text = "gpu-work-events parquet reader could not be built for ".to_owned();
                text.append(path.as_str());
                text
            },
            NsysDataError::GpuWorkEventsBatchRead { path, .. } => {
                let mut text = "gpu-work-events parquet reader could not read batch from ".to_owned();
                text.append(path.as_str());
                text
            },
            NsysDataError::SchemaAdapterUnmatched => {
                "no schema adapter matched the trace; StandardAdapter did not recognise the canonical 3.x columns".to_owned()
            },
        }
    }

    pub fn trace_not_found(path: &str) -> (error: Self)
        ensures
            error matches NsysDataError::TraceNotFound { path: p_ } && p_@ == path@,
    {
        NsysDataError::TraceNotFound {
            path: path.to_owned(),
        }
    }

    pub fn generated_parquetdir_source_missing(source: &str) -> (error: Self)
        ensures
            error matches NsysDataError::GeneratedParquetdirSourceMissing { source_path: s_ }
                && s_@ == source@,
    {
        NsysDataError::GeneratedParquetdirSourceMissing {
            source_path: source.to_owned(),
        }
    }

    pub fn parquetdir_not_found(path: &str) -> (error: Self)
        ensures
            error matches NsysDataError::ParquetdirNotFound { path: p_ } && p_@ == path@,
    {
        NsysDataError::ParquetdirNotFound {
            path: path.to_owned(),
        }
    }

    pub fn duckdb_thread_config(source: &str) -> (error: Self)
        ensures
            error matches NsysDataError::DuckdbThreadConfig { source: s_ } && s_@ == source@,
    {
        NsysDataError::DuckdbThreadConfig {
            source: source.to_owned(),
        }
    }

    pub fn duckdb_open_in_memory(source: &str) -> (error: Self)
        ensures
            error matches NsysDataError::DuckdbOpenInMemory { source: s_ } && s_@ == source@,
    {
        NsysDataError::DuckdbOpenInMemory {
            source: source.to_owned(),
        }
    }

    pub fn duckdb_schema_create(source: &str) -> (error: Self)
        ensures
            error matches NsysDataError::DuckdbSchemaCreate { source: s_ } && s_@ == source@,
    {
        NsysDataError::DuckdbSchemaCreate {
            source: source.to_owned(),
        }
    }

    pub fn parquetdir_read(path: &str, source: &str) -> (error: Self)
        ensures
            error matches NsysDataError::ParquetdirRead { path: p_, source: s_ } && p_@ == path@
                && s_@ == source@,
    {
        NsysDataError::ParquetdirRead {
            path: path.to_owned(),
            source: source.to_owned(),
        }
    }

    pub fn parquet_path_invalid_utf8(path: &str) -> (error: Self)
        ensures
            error matches NsysDataError::ParquetPathInvalidUtf8 { path: p_ } && p_@ == path@,
    {
        NsysDataError::ParquetPathInvalidUtf8 {
            path: path.to_owned(),
        }
    }

    pub fn parquet_view_create(table: &str, path: &str, source: &str) -> (error: Self)
        ensures
            error matches NsysDataError::ParquetViewCreate { table: t_, path: p_, source: s_ }
                && t_@ == table@ && p_@ == path@ && s_@ == source@,
    {
        NsysDataError::ParquetViewCreate {
            table: table.to_owned(),
            path: path.to_owned(),
            source: source.to_owned(),
        }
    }

    pub fn nvtx_tree_view_register(path: &str, source: &str) -> (error: Self)
        ensures
            error matches NsysDataError::NvtxTreeViewRegister { path: p_, source: s_ }
                && p_@ == path@ && s_@ == source@,
    {
        NsysDataError::NvtxTreeViewRegister {
            path: path.to_owned(),
            source: source.to_owned(),
        }
    }

    pub fn gpu_work_events_view_register(path: &str, source: &str) -> (error: Self)
        ensures
            error matches NsysDataError::GpuWorkEventsViewRegister { path: p_, source: s_ }
                && p_@ == path@ && s_@ == source@,
    {
        NsysDataError::GpuWorkEventsViewRegister {
            path: path.to_owned(),
            source: source.to_owned(),
        }
    }

    pub fn sidecar_cache(source: &str) -> (error: Self)
        ensures
            error matches NsysDataError::SidecarCache { source: s_ } && s_@ == source@,
    {
        NsysDataError::SidecarCache {
            source: source.to_owned(),
        }
    }

    pub fn sidecar_operation(source: &str) -> (error: Self)
        ensures
            error matches NsysDataError::SidecarOperation { source: s_ } && s_@ == source@,
    {
        NsysDataError::SidecarOperation {
            source: source.to_owned(),
        }
    }

    pub fn sidecar_header(source: &str) -> (error: Self)
        ensures
            error matches NsysDataError::SidecarHeader { source: s_ } && s_@ == source@,
    {
        NsysDataError::SidecarHeader {
            source: source.to_owned(),
        }
    }

    pub fn trace_fingerprint_read(path: &str, source: &str) -> (error: Self)
        ensures
            error matches NsysDataError::TraceFingerprintRead { path: p_, source: s_ }
                && p_@ == path@ && s_@ == source@,
    {
        NsysDataError::TraceFingerprintRead {
            path: path.to_owned(),
            source: source.to_owned(),
        }
    }

    pub fn sqlite_input_unsupported(path: &str) -> (error: Self)
        ensures
            error matches NsysDataError::SqliteInputUnsupported { path: p_ } && p_@ == path@,
    {
        NsysDataError::SqliteInputUnsupported {
            path: path.to_owned(),
        }
    }

    pub fn nsys_export_spawn(command: &str, source: &str) -> (error: Self)
        ensures
            error matches NsysDataError::NsysExportSpawn { command: c_, source: s_ }
                && c_@ == command@ && s_@ == source@,
    {
        NsysDataError::NsysExportSpawn {
            command: command.to_owned(),
            source: source.to_owned(),
        }
    }

    pub fn nsys_export_failed(command: &str, exit_code: Option<i32>, source_path: &str) -> (error: Self)
        ensures
            error matches NsysDataError::NsysExportFailed { command: c_, exit_code: e_, source_path: s_ }
                && c_@ == command@ && e_ == exit_code && s_@ == source_path@,
    {
        NsysDataError::NsysExportFailed {
            command: command.to_owned(),
            exit_code,
            source_path: source_path.to_owned(),
        }
    }

    pub fn nsys_export_output_missing(expected: &str) -> (error: Self)
        ensures
            error matches NsysDataError::NsysExportOutputMissing { expected: e_ }
                && e_@ == expected@,
    {
        NsysDataError::NsysExportOutputMissing {
            expected: expected.to_owned(),
        }
    }

    pub fn artifact_dir_create(path: &str, source: &str) -> (error: Self)
        ensures
            error matches NsysDataError::ArtifactDirCreate { path: p_, source: s_ } && p_@ == path@
                && s_@ == source@,
    {
        NsysDataError::ArtifactDirCreate {
            path: path.to_owned(),
            source: source.to_owned(),
        }
    }

    pub fn nsys_export_lockfile_open(path: &str, source: &str) -> (error: Self)
        ensures
            error matches NsysDataError::NsysExportLockfileOpen { path: p_, source: s_ }
                && p_@ == path@ && s_@ == source@,
    {
        NsysDataError::NsysExportLockfileOpen {
            path: path.to_owned(),
            source: source.to_owned(),
        }
    }

    pub fn nsys_export_lock_acquire(path: &str, source: &str) -> (error: Self)
        ensures
            error matches NsysDataError::NsysExportLockAcquire { path: p_, source: s_ }
                && p_@ == path@ && s_@ == source@,
    {
        NsysDataError::NsysExportLockAcquire {
            path: path.to_owned(),
            source: source.to_owned(),
        }
    }

    pub fn nsys_parquetdir_stale_remove(path: &str, source: &str) -> (error: Self)
        ensures
            error matches NsysDataError::NsysParquetdirStaleRemove { path: p_, source: s_ }
                && p_@ == path@ && s_@ == source@,
    {
        NsysDataError::NsysParquetdirStaleRemove {
            path: path.to_owned(),
            source: source.to_owned(),
        }
    }

    pub fn nsys_parquetdir_publish(from: &str, to: &str, source: &str) -> (error: Self)
        ensures
            error matches NsysDataError::NsysParquetdirPublish { from: f_, to: t_, source: s_ }
                && f_@ == from@ && t_@ == to@ && s_@ == source@,
    {
        NsysDataError::NsysParquetdirPublish {
            from: from.to_owned(),
            to: to.to_owned(),
            source: source.to_owned(),
        }
    }

    pub fn nsys_cache_source_stat(path: &str, source: &str) -> (error: Self)
        ensures
            error matches NsysDataError::NsysCacheSourceStat { path: p_, source: s_ }
                && p_@ == path@ && s_@ == source@,
    {
        NsysDataError::NsysCacheSourceStat {
            path: path.to_owned(),
            source: source.to_owned(),
        }
    }

    pub fn nsys_cache_sentinel_stat(path: &str, source: &str) -> (error: Self)
        ensures
            error matches NsysDataError::NsysCacheSentinelStat { path: p_, source: s_ }
                && p_@ == path@ && s_@ == source@,
    {
        NsysDataError::NsysCacheSentinelStat {
            path: path.to_owned(),
            source: source.to_owned(),
        }
    }

    pub fn nsys_parquetdir_help_spawn(command: &str, source: &str) -> (error: Self)
        ensures
            error matches NsysDataError::NsysParquetdirHelpSpawn { command: c_, source: s_ }
                && c_@ == command@ && s_@ == source@,
    {
        NsysDataError::NsysParquetdirHelpSpawn {
            command: command.to_owned(),
            source: source.to_owned(),
        }
    }

    pub fn nsys_version_spawn(command: &str, source: &str) -> (error: Self)
        ensures
            error matches NsysDataError::NsysVersionSpawn { command: c_, source: s_ }
                && c_@ == command@ && s_@ == source@,
    {
        NsysDataError::NsysVersionSpawn {
            command: command.to_owned(),
            source: source.to_owned(),
        }
    }

    pub fn nsys_export_generated_path_remove(path: &str, source: &str) -> (error: Self)
        ensures
            error matches NsysDataError::NsysExportGeneratedPathRemove { path: p_, source: s_ }
                && p_@ == path@ && s_@ == source@,
    {
        NsysDataError::NsysExportGeneratedPathRemove {
            path: path.to_owned(),
            source: source.to_owned(),
        }
    }

    pub fn nsys_export_source_canonicalize(path: &str, source: &str) -> (error: Self)
        ensures
            error matches NsysDataError::NsysExportSourceCanonicalize { path: p_, source: s_ }
                && p_@ == path@ && s_@ == source@,
    {
        NsysDataError::NsysExportSourceCanonicalize {
            path: path.to_owned(),
            source: source.to_owned(),
        }
    }

    pub fn nsys_parquetdir_unsupported(detected: &str) -> (error: Self)
        ensures
            error matches NsysDataError::NsysParquetdirUnsupported { detected: d_ }
                && d_@ == detected@,
    {
        NsysDataError::NsysParquetdirUnsupported {
            detected: detected.to_owned(),
        }
    }

    pub fn nsys_parquetdir_probe_failed(message: &str) -> (error: Self)
        ensures
            error matches NsysDataError::NsysParquetdirProbeFailed { message: m_ }
                && m_@ == message@,
    {
        NsysDataError::NsysParquetdirProbeFailed {
            message: message.to_owned(),
        }
    }

    pub fn scope_conflicting_device_flags(device: i32) -> (error: Self)
        ensures
            error matches NsysDataError::ScopeConflictingDeviceFlags { device: d_ } && d_ == device,
    {
        NsysDataError::ScopeConflictingDeviceFlags {
            device,
        }
    }

    pub fn scope_stream_requires_device(stream: i64) -> (error: Self)
        ensures
            error matches NsysDataError::ScopeStreamRequiresDevice { stream: s_ } && s_ == stream,
    {
        NsysDataError::ScopeStreamRequiresDevice {
            stream,
        }
    }

    pub fn cuda_process_unresolved(table: &str, device_id: i32, context_id: i64, correlation_id: Option<i64>) -> (error: Self)
        ensures
            error matches NsysDataError::CudaProcessUnresolved { table: t_, device_id: d_, context_id: c_, correlation_id: co_ }
                && t_@ == table@ && d_ == device_id && c_ == context_id && co_ == correlation_id,
    {
        NsysDataError::CudaProcessUnresolved {
            table: table.to_owned(),
            device_id,
            context_id,
            correlation_id,
        }
    }

    pub fn scope_device_probe_column_missing(table: &str, column: &str, source: &str) -> (error: Self)
        ensures
            error matches NsysDataError::ScopeDeviceProbeColumnMissing { table: t_, column: c_, source: s_ }
                && t_@ == table@ && c_@ == column@ && s_@ == source@,
    {
        NsysDataError::ScopeDeviceProbeColumnMissing {
            table: table.to_owned(),
            column: column.to_owned(),
            source: source.to_owned(),
        }
    }

    /// The error is a DuckDB failure with these parts.
    pub open spec fn is_duckdb(&self, area: Seq<char>, phase: DuckdbPhase, label: Seq<char>, source: Seq<char>) -> bool {
        self matches NsysDataError::Duckdb { area: a, phase: p, label: l, source: s } && a@ == area
            && p == phase && l@ == label && s@ == source
    }

    pub fn duckdb(area: &'static str, phase: DuckdbPhase, label: &str, source: &str) -> (error: Self)
        ensures
            error.is_duckdb(area@, phase, label@, source@),
    {
        NsysDataError::Duckdb {
            area,
            phase,
            label: label.to_owned(),
            source: source.to_owned(),
        }
    }

    pub fn duckdb_prepare(area: &'static str, label: &str, source: &str) -> (error: Self)
        ensures
            error.is_duckdb(area@, DuckdbPhase::Prepare, label@, source@),
    {
        Self::duckdb(area, DuckdbPhase::Prepare, label, source)
    }

    pub fn duckdb_query(area: &'static str, label: &str, source: &str) -> (error: Self)
        ensures
            error.is_duckdb(area@, DuckdbPhase::Query, label@, source@),
    {
        Self::duckdb(area, DuckdbPhase::Query, label, source)
    }

    pub fn duckdb_read(area: &'static str, label: &str, source: &str) -> (error: Self)
        ensures
            error.is_duckdb(area@, DuckdbPhase::Read, label@, source@),
    {
        Self::duckdb(area, DuckdbPhase::Read, label, source)
    }

    pub fn scope_device_probe_query(table: &str, source: &str) -> (error: Self)
        ensures
            error.is_duckdb("scope device probe"@, DuckdbPhase::Query, table@, source@),
    {
        Self::duckdb("scope device probe", DuckdbPhase::Query, table, source)
    }

    pub fn scope_device_probe_read(table: &str, source: &str) -> (error: Self)
        ensures
            error.is_duckdb("scope device probe"@, DuckdbPhase::Read, table@, source@),
    {
        Self::duckdb("scope device probe", DuckdbPhase::Read, table, source)
    }

    pub fn meta_cache_count_prepare(table: &str, source: &str) -> (error: Self)
        ensures
            error.is_duckdb("meta cache"@, DuckdbPhase::Prepare, table@, source@),
    {
        Self::duckdb("meta cache", DuckdbPhase::Prepare, table, source)
    }

    pub fn meta_cache_count_read(table: &str, source: &str) -> (error: Self)
        ensures
            error.is_duckdb("meta cache"@, DuckdbPhase::Read, table@, source@),
    {
        Self::duckdb("meta cache", DuckdbPhase::Read, table, source)
    }

    pub fn meta_cache_slot_uninitialised() -> (error: Self)
        ensures
            error is MetaCacheSlotUninitialised,
    {
        NsysDataError::MetaCacheSlotUninitialised
    }

    pub fn export_metadata_prepare(table: &str, source: &str) -> (error: Self)
        ensures
            error.is_duckdb("export metadata"@, DuckdbPhase::Prepare, table@, source@),
    {
        Self::duckdb("export metadata", DuckdbPhase::Prepare, table, source)
    }

    pub fn export_metadata_query(table: &str, source: &str) -> (error: Self)
        ensures
            error.is_duckdb("export metadata"@, DuckdbPhase::Query, table@, source@),
    {
        Self::duckdb("export metadata", DuckdbPhase::Query, table, source)
    }

    pub fn export_metadata_read(table: &str, source: &str) -> (error: Self)
        ensures
            error.is_duckdb("export metadata"@, DuckdbPhase::Read, table@, source@),
    {
        Self::duckdb("export metadata", DuckdbPhase::Read, table, source)
    }

    pub fn trace_map_probe_column_missing(table: &str, column: &str, source: &str) -> (error: Self)
        ensures
            error matches NsysDataError::TraceMapProbeColumnMissing { table: t_, column: c_, source: s_ }
                && t_@ == table@ && c_@ == column@ && s_@ == source@,
    {
        NsysDataError::TraceMapProbeColumnMissing {
            table: table.to_owned(),
            column: column.to_owned(),
            source: source.to_owned(),
        }
    }

    pub fn trace_map_rows_query(table: &str, source: &str) -> (error: Self)
        ensures
            error.is_duckdb("trace map"@, DuckdbPhase::Query, table@, source@),
    {
        Self::duckdb("trace map", DuckdbPhase::Query, table, source)
    }

    pub fn trace_map_rows_read(table: &str, source: &str) -> (error: Self)
        ensures
            error.is_duckdb("trace map"@, DuckdbPhase::Read, table@, source@),
    {
        Self::duckdb("trace map", DuckdbPhase::Read, table, source)
    }

    pub fn trace_origins_prepare(table: &str, source: &str) -> (error: Self)
        ensures
            error.is_duckdb("trace origins"@, DuckdbPhase::Prepare, table@, source@),
    {
        Self::duckdb("trace origins", DuckdbPhase::Prepare, table, source)
    }

    pub fn trace_origins_read(table: &str, source: &str) -> (error: Self)
        ensures
            error.is_duckdb("trace origins"@, DuckdbPhase::Read, table@, source@),
    {
        Self::duckdb("trace origins", DuckdbPhase::Read, table, source)
    }

    pub fn trace_sample_span_prepare(table: &str, source: &str) -> (error: Self)
        ensures
            error.is_duckdb("trace sample span"@, DuckdbPhase::Prepare, table@, source@),
    {
        Self::duckdb("trace sample span", DuckdbPhase::Prepare, table, source)
    }

    pub fn trace_sample_span_read(table: &str, source: &str) -> (error: Self)
        ensures
            error.is_duckdb("trace sample span"@, DuckdbPhase::Read, table@, source@),
    {
        Self::duckdb("trace sample span", DuckdbPhase::Read, table, source)
    }

    pub fn time_range_empty(source: &str) -> (error: Self)
        ensures
            error matches NsysDataError::TimeRangeEmpty { source: s_ } && s_@ == source@,
    {
        NsysDataError::TimeRangeEmpty {
            source: source.to_owned(),
        }
    }

    pub fn nvtx_nesting_rows_prepare(source: &str) -> (error: Self)
        ensures
            error.is_duckdb("nvtx nesting"@, DuckdbPhase::Prepare, "rows"@, source@),
    {
        Self::duckdb("nvtx nesting", DuckdbPhase::Prepare, "rows", source)
    }

    pub fn nvtx_nesting_rows_query(source: &str) -> (error: Self)
        ensures
            error.is_duckdb("nvtx nesting"@, DuckdbPhase::Query, "rows"@, source@),
    {
        Self::duckdb("nvtx nesting", DuckdbPhase::Query, "rows", source)
    }

    pub fn nvtx_nesting_rows_read(source: &str) -> (error: Self)
        ensures
            error.is_duckdb("nvtx nesting"@, DuckdbPhase::Read, "rows"@, source@),
    {
        Self::duckdb("nvtx nesting", DuckdbPhase::Read, "rows", source)
    }

    pub fn nvtx_tree_rows_prepare(source: &str) -> (error: Self)
        ensures
            error.is_duckdb("nvtx tree"@, DuckdbPhase::Prepare, "rows"@, source@),
    {
        Self::duckdb("nvtx tree", DuckdbPhase::Prepare, "rows", source)
    }

    pub fn nvtx_tree_rows_query(source: &str) -> (error: Self)
        ensures
            error.is_duckdb("nvtx tree"@, DuckdbPhase::Query, "rows"@, source@),
    {
        Self::duckdb("nvtx tree", DuckdbPhase::Query, "rows", source)
    }

    pub fn nvtx_tree_rows_read(source: &str) -> (error: Self)
        ensures
            error.is_duckdb("nvtx tree"@, DuckdbPhase::Read, "rows"@, source@),
    {
        Self::duckdb("nvtx tree", DuckdbPhase::Read, "rows", source)
    }

    pub fn correlation_trace_fingerprint(path: &str, source: &str) -> (error: Self)
        ensures
            error matches NsysDataError::CorrelationTraceFingerprint { path: p_, source: s_ }
                && p_@ == path@ && s_@ == source@,
    {
        NsysDataError::CorrelationTraceFingerprint {
            path: path.to_owned(),
            source: source.to_owned(),
        }
    }

    pub fn correlation_scan_prepare(table: &str, source: &str) -> (error: Self)
        ensures
            error.is_duckdb("correlation scan"@, DuckdbPhase::Prepare, table@, source@),
    {
        Self::duckdb("correlation scan", DuckdbPhase::Prepare, table, source)
    }

    pub fn correlation_scan_query(table: &str, source: &str) -> (error: Self)
        ensures
            error.is_duckdb("correlation scan"@, DuckdbPhase::Query, table@, source@),
    {
        Self::duckdb("correlation scan", DuckdbPhase::Query, table, source)
    }

    pub fn correlation_scan_read(table: &str, source: &str) -> (error: Self)
        ensures
            error.is_duckdb("correlation scan"@, DuckdbPhase::Read, table@, source@),
    {
        Self::duckdb("correlation scan", DuckdbPhase::Read, table, source)
    }

    pub fn hardware_invalid_u64_id(label: &str, value: &str, source: &str) -> (error: Self)
        ensures
            error matches NsysDataError::HardwareInvalidU64Id { label: l_, value: v_, source: s_ }
                && l_@ == label@ && v_@ == value@ && s_@ == source@,
    {
        NsysDataError::HardwareInvalidU64Id {
            label: label.to_owned(),
            value: value.to_owned(),
            source: source.to_owned(),
        }
    }

    pub fn hardware_rows_prepare(table: &str, source: &str) -> (error: Self)
        ensures
            error.is_duckdb("hardware rows"@, DuckdbPhase::Prepare, table@, source@),
    {
        Self::duckdb("hardware rows", DuckdbPhase::Prepare, table, source)
    }

    pub fn hardware_rows_query(table: &str, source: &str) -> (error: Self)
        ensures
            error.is_duckdb("hardware rows"@, DuckdbPhase::Query, table@, source@),
    {
        Self::duckdb("hardware rows", DuckdbPhase::Query, table, source)
    }

    pub fn hardware_rows_read(table: &str, source: &str) -> (error: Self)
        ensures
            error.is_duckdb("hardware rows"@, DuckdbPhase::Read, table@, source@),
    {
        Self::duckdb("hardware rows", DuckdbPhase::Read, table, source)
    }

    pub fn nvtx_parent_unsupported_integer_type(path: &str, column: &str, data_type: &str) -> (error: Self)
        ensures
            error matches NsysDataError::NvtxParentUnsupportedIntegerType { path: p_, column: c_, data_type: d_ }
                && p_@ == path@ && c_@ == column@ && d_@ == data_type@,
    {
        NsysDataError::NvtxParentUnsupportedIntegerType {
            path: path.to_owned(),
            column: column.to_owned(),
            data_type: data_type.to_owned(),
        }
    }

    pub fn nvtx_parent_integer_overflow(path: &str, column: &str, value: u64) -> (error: Self)
        ensures
            error matches NsysDataError::NvtxParentIntegerOverflow { path: p_, column: c_, value: v_ }
                && p_@ == path@ && c_@ == column@ && v_ == value,
    {
        NsysDataError::NvtxParentIntegerOverflow {
            path: path.to_owned(),
            column: column.to_owned(),
            value,
        }
    }

    pub fn nvtx_parent_list_length_mismatch(row: usize, rowids_len: usize, names_len: usize) -> (error: Self)
        ensures
            error matches NsysDataError::NvtxParentListLengthMismatch { row: r_, rowids_len: ro_, names_len: n_ }
                && r_ == row && ro_ == rowids_len && n_ == names_len,
    {
        NsysDataError::NvtxParentListLengthMismatch {
            row,
            rowids_len,
            names_len,
        }
    }

    pub fn nvtx_parent_column_missing(path: &str, column: &str) -> (error: Self)
        ensures
            error matches NsysDataError::NvtxParentColumnMissing { path: p_, column: c_ }
                && p_@ == path@ && c_@ == column@,
    {
        NsysDataError::NvtxParentColumnMissing {
            path: path.to_owned(),
            column: column.to_owned(),
        }
    }

    pub fn nvtx_parent_column_type_mismatch(path: &str, column: &str, expected: &str, actual: &str) -> (error: Self)
        ensures
            error matches NsysDataError::NvtxParentColumnTypeMismatch { path: p_, column: c_, expected: e_, actual: a_ }
                && p_@ == path@ && c_@ == column@ && e_@ == expected@ && a_@ == actual@,
    {
        NsysDataError::NvtxParentColumnTypeMismatch {
            path: path.to_owned(),
            column: column.to_owned(),
            expected: expected.to_owned(),
            actual: actual.to_owned(),
        }
    }

    pub fn nvtx_parent_gpu_activity_column_missing(path: &str, column: &str) -> (error: Self)
        ensures
            error matches NsysDataError::NvtxParentGpuActivityColumnMissing { path: p_, column: c_ }
                && p_@ == path@ && c_@ == column@,
    {
        NsysDataError::NvtxParentGpuActivityColumnMissing {
            path: path.to_owned(),
            column: column.to_owned(),
        }
    }

    pub fn nvtx_parent_gpu_activity_open(path: &str, source: &str) -> (error: Self)
        ensures
            error matches NsysDataError::NvtxParentGpuActivityOpen { path: p_, source: s_ }
                && p_@ == path@ && s_@ == source@,
    {
        NsysDataError::NvtxParentGpuActivityOpen {
            path: path.to_owned(),
            source: source.to_owned(),
        }
    }

    pub fn nvtx_parent_gpu_activity_reader_open(path: &str, source: &str) -> (error: Self)
        ensures
            error matches NsysDataError::NvtxParentGpuActivityReaderOpen { path: p_, source: s_ }
                && p_@ == path@ && s_@ == source@,
    {
        NsysDataError::NvtxParentGpuActivityReaderOpen {
            path: path.to_owned(),
            source: source.to_owned(),
        }
    }

    pub fn nvtx_parent_gpu_activity_reader_build(path: &str, source: &str) -> (error: Self)
        ensures
            error matches NsysDataError::NvtxParentGpuActivityReaderBuild { path: p_, source: s_ }
                && p_@ == path@ && s_@ == source@,
    {
        NsysDataError::NvtxParentGpuActivityReaderBuild {
            path: path.to_owned(),
            source: source.to_owned(),
        }
    }

    pub fn nvtx_parent_gpu_activity_batch_read(path: &str, source: &str) -> (error: Self)
        ensures
            error matches NsysDataError::NvtxParentGpuActivityBatchRead { path: p_, source: s_ }
                && p_@ == path@ && s_@ == source@,
    {
        NsysDataError::NvtxParentGpuActivityBatchRead {
            path: path.to_owned(),
            source: source.to_owned(),
        }
    }

    pub fn nvtx_parent_int32_overflow(path: &str, column: &str, value: i64) -> (error: Self)
        ensures
            error matches NsysDataError::NvtxParentInt32Overflow { path: p_, column: c_, value: v_ }
                && p_@ == path@ && c_@ == column@ && v_ == value,
    {
        NsysDataError::NvtxParentInt32Overflow {
            path: path.to_owned(),
            column: column.to_owned(),
            value,
        }
    }

    pub fn nvtx_parent_rows_prepare(table: &str, source: &str) -> (error: Self)
        ensures
            error.is_duckdb("nvtx-parent rows"@, DuckdbPhase::Prepare, table@, source@),
    {
        Self::duckdb("nvtx-parent rows", DuckdbPhase::Prepare, table, source)
    }

    pub fn nvtx_parent_rows_query(table: &str, source: &str) -> (error: Self)
        ensures
            error.is_duckdb("nvtx-parent rows"@, DuckdbPhase::Query, table@, source@),
    {
        Self::duckdb("nvtx-parent rows", DuckdbPhase::Query, table, source)
    }

    pub fn nvtx_parent_rows_read(table: &str, source: &str) -> (error: Self)
        ensures
            error.is_duckdb("nvtx-parent rows"@, DuckdbPhase::Read, table@, source@),
    {
        Self::duckdb("nvtx-parent rows", DuckdbPhase::Read, table, source)
    }

    pub fn nvtx_parent_trace_fingerprint(path: &str, source: &str) -> (error: Self)
        ensures
            error matches NsysDataError::NvtxParentTraceFingerprint { path: p_, source: s_ }
                && p_@ == path@ && s_@ == source@,
    {
        NsysDataError::NvtxParentTraceFingerprint {
            path: path.to_owned(),
            source: source.to_owned(),
        }
    }

    pub fn nvtx_parent_record_batch(source: &str) -> (error: Self)
        ensures
            error matches NsysDataError::NvtxParentRecordBatch { source: s_ } && s_@ == source@,
    {
        NsysDataError::NvtxParentRecordBatch {
            source: source.to_owned(),
        }
    }

    pub fn nvtx_parent_sidecar_create(path: &str, source: &str) -> (error: Self)
        ensures
            error matches NsysDataError::NvtxParentSidecarCreate { path: p_, source: s_ }
                && p_@ == path@ && s_@ == source@,
    {
        NsysDataError::NvtxParentSidecarCreate {
            path: path.to_owned(),
            source: source.to_owned(),
        }
    }

    pub fn nvtx_parent_writer_open(path: &str, source: &str) -> (error: Self)
        ensures
            error matches NsysDataError::NvtxParentWriterOpen { path: p_, source: s_ }
                && p_@ == path@ && s_@ == source@,
    {
        NsysDataError::NvtxParentWriterOpen {
            path: path.to_owned(),
            source: source.to_owned(),
        }
    }

    pub fn nvtx_parent_writer_write(path: &str, source: &str) -> (error: Self)
        ensures
            error matches NsysDataError::NvtxParentWriterWrite { path: p_, source: s_ }
                && p_@ == path@ && s_@ == source@,
    {
        NsysDataError::NvtxParentWriterWrite {
            path: path.to_owned(),
            source: source.to_owned(),
        }
    }

    pub fn nvtx_parent_writer_close(path: &str, source: &str) -> (error: Self)
        ensures
            error matches NsysDataError::NvtxParentWriterClose { path: p_, source: s_ }
                && p_@ == path@ && s_@ == source@,
    {
        NsysDataError::NvtxParentWriterClose {
            path: path.to_owned(),
            source: source.to_owned(),
        }
    }

    pub fn nvtx_parent_sidecar_open(path: &str, source: &str) -> (error: Self)
        ensures
            error matches NsysDataError::NvtxParentSidecarOpen { path: p_, source: s_ }
                && p_@ == path@ && s_@ == source@,
    {
        NsysDataError::NvtxParentSidecarOpen {
            path: path.to_owned(),
            source: source.to_owned(),
        }
    }

    pub fn nvtx_parent_reader_open(path: &str, source: &str) -> (error: Self)
        ensures
            error matches NsysDataError::NvtxParentReaderOpen { path: p_, source: s_ }
                && p_@ == path@ && s_@ == source@,
    {
        NsysDataError::NvtxParentReaderOpen {
            path: path.to_owned(),
            source: source.to_owned(),
        }
    }

    pub fn nvtx_parent_reader_build(path: &str, source: &str) -> (error: Self)
        ensures
            error matches NsysDataError::NvtxParentReaderBuild { path: p_, source: s_ }
                && p_@ == path@ && s_@ == source@,
    {
        NsysDataError::NvtxParentReaderBuild {
            path: path.to_owned(),
            source: source.to_owned(),
        }
    }

    pub fn nvtx_parent_batch_read(path: &str, source: &str) -> (error: Self)
        ensures
            error matches NsysDataError::NvtxParentBatchRead { path: p_, source: s_ }
                && p_@ == path@ && s_@ == source@,
    {
        NsysDataError::NvtxParentBatchRead {
            path: path.to_owned(),
            source: source.to_owned(),
        }
    }

    pub fn nvtx_tree_column_missing(path: &str, column: &str) -> (error: Self)
        ensures
            error matches NsysDataError::NvtxTreeColumnMissing { path: p_, column: c_ }
                && p_@ == path@ && c_@ == column@,
    {
        NsysDataError::NvtxTreeColumnMissing {
            path: path.to_owned(),
            column: column.to_owned(),
        }
    }

    pub fn nvtx_tree_column_type_mismatch(path: &str, column: &str, expected: &str, actual: &str) -> (error: Self)
        ensures
            error matches NsysDataError::NvtxTreeColumnTypeMismatch { path: p_, column: c_, expected: e_, actual: a_ }
                && p_@ == path@ && c_@ == column@ && e_@ == expected@ && a_@ == actual@,
    {
        NsysDataError::NvtxTreeColumnTypeMismatch {
            path: path.to_owned(),
            column: column.to_owned(),
            expected: expected.to_owned(),
            actual: actual.to_owned(),
        }
    }

    pub fn nvtx_tree_trace_fingerprint(path: &str, source: &str) -> (error: Self)
        ensures
            error matches NsysDataError::NvtxTreeTraceFingerprint { path: p_, source: s_ }
                && p_@ == path@ && s_@ == source@,
    {
        NsysDataError::NvtxTreeTraceFingerprint {
            path: path.to_owned(),
            source: source.to_owned(),
        }
    }

    pub fn nvtx_tree_record_batch(source: &str) -> (error: Self)
        ensures
            error matches NsysDataError::NvtxTreeRecordBatch { source: s_ } && s_@ == source@,
    {
        NsysDataError::NvtxTreeRecordBatch {
            source: source.to_owned(),
        }
    }

    pub fn nvtx_tree_sidecar_create(path: &str, source: &str) -> (error: Self)
        ensures
            error matches NsysDataError::NvtxTreeSidecarCreate { path: p_, source: s_ }
                && p_@ == path@ && s_@ == source@,
    {
        NsysDataError::NvtxTreeSidecarCreate {
            path: path.to_owned(),
            source: source.to_owned(),
        }
    }

    pub fn nvtx_tree_writer_open(path: &str, source: &str) -> (error: Self)
        ensures
            error matches NsysDataError::NvtxTreeWriterOpen { path: p_, source: s_ } && p_@ == path@
                && s_@ == source@,
    {
        NsysDataError::NvtxTreeWriterOpen {
            path: path.to_owned(),
            source: source.to_owned(),
        }
    }

    pub fn nvtx_tree_writer_write(path: &str, source: &str) -> (error: Self)
        ensures
            error matches NsysDataError::NvtxTreeWriterWrite { path: p_, source: s_ }
                && p_@ == path@ && s_@ == source@,
    {
        NsysDataError::NvtxTreeWriterWrite {
            path: path.to_owned(),
            source: source.to_owned(),
        }
    }

    pub fn nvtx_tree_writer_close(path: &str, source: &str) -> (error: Self)
        ensures
            error matches NsysDataError::NvtxTreeWriterClose { path: p_, source: s_ }
                && p_@ == path@ && s_@ == source@,
    {
        NsysDataError::NvtxTreeWriterClose {
            path: path.to_owned(),
            source: source.to_owned(),
        }
    }

    pub fn nvtx_tree_sidecar_open(path: &str, source: &str) -> (error: Self)
        ensures
            error matches NsysDataError::NvtxTreeSidecarOpen { path: p_, source: s_ }
                && p_@ == path@ && s_@ == source@,
    {
        NsysDataError::NvtxTreeSidecarOpen {
            path: path.to_owned(),
            source: source.to_owned(),
        }
    }

    pub fn nvtx_tree_reader_open(path: &str, source: &str) -> (error: Self)
        ensures
            error matches NsysDataError::NvtxTreeReaderOpen { path: p_, source: s_ } && p_@ == path@
                && s_@ == source@,
    {
        NsysDataError::NvtxTreeReaderOpen {
            path: path.to_owned(),
            source: source.to_owned(),
        }
    }

    pub fn nvtx_tree_reader_build(path: &str, source: &str) -> (error: Self)
        ensures
            error matches NsysDataError::NvtxTreeReaderBuild { path: p_, source: s_ }
                && p_@ == path@ && s_@ == source@,
    {
        NsysDataError::NvtxTreeReaderBuild {
            path: path.to_owned(),
            source: source.to_owned(),
        }
    }

    pub fn nvtx_tree_batch_read(path: &str, source: &str) -> (error: Self)
        ensures
            error matches NsysDataError::NvtxTreeBatchRead { path: p_, source: s_ } && p_@ == path@
                && s_@ == source@,
    {
        NsysDataError::NvtxTreeBatchRead {
            path: path.to_owned(),
            source: source.to_owned(),
        }
    }

    pub fn gpu_work_events_rows_prepare(table: &str, source: &str) -> (error: Self)
        ensures
            error.is_duckdb("gpu work events"@, DuckdbPhase::Prepare, table@, source@),
    {
        Self::duckdb("gpu work events", DuckdbPhase::Prepare, table, source)
    }

    pub fn gpu_work_events_rows_query(table: &str, source: &str) -> (error: Self)
        ensures
            error.is_duckdb("gpu work events"@, DuckdbPhase::Query, table@, source@),
    {
        Self::duckdb("gpu work events", DuckdbPhase::Query, table, source)
    }

    pub fn gpu_work_events_rows_read(table: &str, source: &str) -> (error: Self)
        ensures
            error.is_duckdb("gpu work events"@, DuckdbPhase::Read, table@, source@),
    {
        Self::duckdb("gpu work events", DuckdbPhase::Read, table, source)
    }

    pub fn gpu_work_events_column_missing(path: &str, column: &str) -> (error: Self)
        ensures
            error matches NsysDataError::GpuWorkEventsColumnMissing { path: p_, column: c_ }
                && p_@ == path@ && c_@ == column@,
    {
        NsysDataError::GpuWorkEventsColumnMissing {
            path: path.to_owned(),
            column: column.to_owned(),
        }
    }

    pub fn gpu_work_events_column_type_mismatch(path: &str, column: &str, expected: &str, actual: &str) -> (error: Self)
        ensures
            error matches NsysDataError::GpuWorkEventsColumnTypeMismatch { path: p_, column: c_, expected: e_, actual: a_ }
                && p_@ == path@ && c_@ == column@ && e_@ == expected@ && a_@ == actual@,
    {
        NsysDataError::GpuWorkEventsColumnTypeMismatch {
            path: path.to_owned(),
            column: column.to_owned(),
            expected: expected.to_owned(),
            actual: actual.to_owned(),
        }
    }

    pub fn gpu_work_events_trace_fingerprint(path: &str, source: &str) -> (error: Self)
        ensures
            error matches NsysDataError::GpuWorkEventsTraceFingerprint { path: p_, source: s_ }
                && p_@ == path@ && s_@ == source@,
    {
        NsysDataError::GpuWorkEventsTraceFingerprint {
            path: path.to_owned(),
            source: source.to_owned(),
        }
    }

    pub fn gpu_work_events_record_batch(source: &str) -> (error: Self)
        ensures
            error matches NsysDataError::GpuWorkEventsRecordBatch { source: s_ } && s_@ == source@,
    {
        NsysDataError::GpuWorkEventsRecordBatch {
            source: source.to_owned(),
        }
    }

    pub fn gpu_work_events_sidecar_create(path: &str, source: &str) -> (error: Self)
        ensures
            error matches NsysDataError::GpuWorkEventsSidecarCreate { path: p_, source: s_ }
                && p_@ == path@ && s_@ == source@,
    {
        NsysDataError::GpuWorkEventsSidecarCreate {
            path: path.to_owned(),
            source: source.to_owned(),
        }
    }

    pub fn gpu_work_events_writer_open(path: &str, source: &str) -> (error: Self)
        ensures
            error matches NsysDataError::GpuWorkEventsWriterOpen { path: p_, source: s_ }
                && p_@ == path@ && s_@ == source@,
    {
        NsysDataError::GpuWorkEventsWriterOpen {
            path: path.to_owned(),
            source: source.to_owned(),
        }
    }

    pub fn gpu_work_events_writer_write(path: &str, source: &str) -> (error: Self)
        ensures
            error matches NsysDataError::GpuWorkEventsWriterWrite { path: p_, source: s_ }
                && p_@ == path@ && s_@ == source@,
    {
        NsysDataError::GpuWorkEventsWriterWrite {
            path: path.to_owned(),
            source: source.to_owned(),
        }
    }

    pub fn gpu_work_events_writer_close(path: &str, source: &str) -> (error: Self)
        ensures
            error matches NsysDataError::GpuWorkEventsWriterClose { path: p_, source: s_ }
                && p_@ == path@ && s_@ == source@,
    {
        NsysDataError::GpuWorkEventsWriterClose {
            path: path.to_owned(),
            source: source.to_owned(),
        }
    }

    pub fn gpu_work_events_sidecar_open(path: &str, source: &str) -> (error: Self)
        ensures
            error matches NsysDataError::GpuWorkEventsSidecarOpen { path: p_, source: s_ }
                && p_@ == path@ && s_@ == source@,
    {
        NsysDataError::GpuWorkEventsSidecarOpen {
            path: path.to_owned(),
            source: source.to_owned(),
        }
    }

    pub fn gpu_work_events_reader_open(path: &str, source: &str) -> (error: Self)
        ensures
            error matches NsysDataError::GpuWorkEventsReaderOpen { path: p_, source: s_ }
                && p_@ == path@ && s_@ == source@,
    {
        NsysDataError::GpuWorkEventsReaderOpen {
            path: path.to_owned(),
            source: source.to_owned(),
        }
    }

    pub fn gpu_work_events_reader_build(path: &str, source: &str) -> (error: Self)
        ensures
            error matches NsysDataError::GpuWorkEventsReaderBuild { path: p_, source: s_ }
                && p_@ == path@ && s_@ == source@,
    {
        NsysDataError::GpuWorkEventsReaderBuild {
            path: path.to_owned(),
            source: source.to_owned(),
        }
    }

    pub fn gpu_work_events_batch_read(path: &str, source: &str) -> (error: Self)
        ensures
            error matches NsysDataError::GpuWorkEventsBatchRead { path: p_, source: s_ }
                && p_@ == path@ && s_@ == source@,
    {
        NsysDataError::GpuWorkEventsBatchRead {
            path: path.to_owned(),
            source: source.to_owned(),
        }
    }

    /// Area, phase and label of a DuckDB failure.
    pub fn duckdb_parts(&self) -> (parts: Option<(&'static str, DuckdbPhase, &str)>)
        ensures
            match *self {
                NsysDataError::Duckdb { area, phase, label, .. } => parts matches Some((a, p, l))
                    && a@ == area@ && p == phase && l@ == label@,
                _ => parts is None,
            },
    {
        match self {
            NsysDataError::Duckdb { area, phase, label, .. } => Some(
                (*area, *phase, label.as_str()),
            ),
            _ => None,
        }
    }
}

} // verus!
