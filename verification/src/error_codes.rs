//! Error codes tell failures apart.
use crate::error::{DuckdbPhase, NsysDataError};
use vstd::prelude::*;

verus! {

/// Number of the failure's variant. Failures of queries are numbered by their
/// phase.
pub open spec fn variant_number(e: NsysDataError) -> nat {
    match e {
        NsysDataError::TraceNotFound { .. } => 0,
        NsysDataError::GeneratedParquetdirSourceMissing { .. } => 1,
        NsysDataError::ParquetdirNotFound { .. } => 2,
        NsysDataError::DuckdbThreadConfig { .. } => 3,
        NsysDataError::DuckdbOpenInMemory { .. } => 4,
        NsysDataError::DuckdbSchemaCreate { .. } => 5,
        NsysDataError::ParquetdirRead { .. } => 6,
        NsysDataError::ParquetPathInvalidUtf8 { .. } => 7,
        NsysDataError::ParquetViewCreate { .. } => 8,
        NsysDataError::NvtxTreeViewRegister { .. } => 9,
        NsysDataError::GpuWorkEventsViewRegister { .. } => 10,
        NsysDataError::SidecarCache { .. } => 11,
        NsysDataError::SidecarOperation { .. } => 12,
        NsysDataError::SidecarHeader { .. } => 13,
        NsysDataError::TraceFingerprintRead { .. } => 14,
        NsysDataError::SqliteInputUnsupported { .. } => 15,
        NsysDataError::NsysExportSpawn { .. } => 16,
        NsysDataError::NsysExportFailed { .. } => 17,
        NsysDataError::NsysExportOutputMissing { .. } => 18,
        NsysDataError::ArtifactDirCreate { .. } => 19,
        NsysDataError::NsysExportLockfileOpen { .. } => 20,
        NsysDataError::NsysExportLockAcquire { .. } => 21,
        NsysDataError::NsysParquetdirStaleRemove { .. } => 22,
        NsysDataError::NsysParquetdirPublish { .. } => 23,
        NsysDataError::NsysCacheSourceStat { .. } => 24,
        NsysDataError::NsysCacheSentinelStat { .. } => 25,
        NsysDataError::NsysParquetdirHelpSpawn { .. } => 26,
        NsysDataError::NsysVersionSpawn { .. } => 27,
        NsysDataError::NsysExportGeneratedPathRemove { .. } => 28,
        NsysDataError::NsysExportSourceCanonicalize { .. } => 29,
        NsysDataError::NsysParquetdirUnsupported { .. } => 30,
        NsysDataError::NsysParquetdirProbeFailed { .. } => 31,
        NsysDataError::ScopeConflictingDeviceFlags { .. } => 32,
        NsysDataError::ScopeStreamRequiresDevice { .. } => 33,
        NsysDataError::CudaProcessUnresolved { .. } => 34,
        NsysDataError::ScopeDeviceProbeColumnMissing { .. } => 35,
        NsysDataError::Duckdb { phase: DuckdbPhase::Prepare, .. } => 36,
        NsysDataError::Duckdb { phase: DuckdbPhase::Query, .. } => 37,
        NsysDataError::Duckdb { phase: DuckdbPhase::Read, .. } => 38,
        NsysDataError::MetaCacheSlotUninitialised { .. } => 39,
        NsysDataError::TraceMapProbeColumnMissing { .. } => 40,
        NsysDataError::TimeRangeEmpty { .. } => 41,
        NsysDataError::CorrelationTraceFingerprint { .. } => 42,
        NsysDataError::HardwareInvalidU64Id { .. } => 43,
        NsysDataError::NvtxParentUnsupportedIntegerType { .. } => 44,
        NsysDataError::NvtxParentIntegerOverflow { .. } => 45,
        NsysDataError::NvtxParentListLengthMismatch { .. } => 46,
        NsysDataError::NvtxParentColumnMissing { .. } => 47,
        NsysDataError::NvtxParentColumnTypeMismatch { .. } => 48,
        NsysDataError::NvtxParentGpuActivityColumnMissing { .. } => 49,
        NsysDataError::NvtxParentGpuActivityOpen { .. } => 50,
        NsysDataError::NvtxParentGpuActivityReaderOpen { .. } => 51,
        NsysDataError::NvtxParentGpuActivityReaderBuild { .. } => 52,
        NsysDataError::NvtxParentGpuActivityBatchRead { .. } => 53,
        NsysDataError::NvtxParentInt32Overflow { .. } => 54,
        NsysDataError::NvtxParentTraceFingerprint { .. } => 55,
        NsysDataError::NvtxParentRecordBatch { .. } => 56,
        NsysDataError::NvtxParentSidecarCreate { .. } => 57,
        NsysDataError::NvtxParentWriterOpen { .. } => 58,
        NsysDataError::NvtxParentWriterWrite { .. } => 59,
        NsysDataError::NvtxParentWriterClose { .. } => 60,
        NsysDataError::NvtxParentSidecarOpen { .. } => 61,
        NsysDataError::NvtxParentReaderOpen { .. } => 62,
        NsysDataError::NvtxParentReaderBuild { .. } => 63,
        NsysDataError::NvtxParentBatchRead { .. } => 64,
        NsysDataError::NvtxTreeColumnMissing { .. } => 65,
        NsysDataError::NvtxTreeColumnTypeMismatch { .. } => 66,
        NsysDataError::NvtxTreeTraceFingerprint { .. } => 67,
        NsysDataError::NvtxTreeRecordBatch { .. } => 68,
        NsysDataError::NvtxTreeSidecarCreate { .. } => 69,
        NsysDataError::NvtxTreeWriterOpen { .. } => 70,
        NsysDataError::NvtxTreeWriterWrite { .. } => 71,
        NsysDataError::NvtxTreeWriterClose { .. } => 72,
        NsysDataError::NvtxTreeSidecarOpen { .. } => 73,
        NsysDataError::NvtxTreeReaderOpen { .. } => 74,
        NsysDataError::NvtxTreeReaderBuild { .. } => 75,
        NsysDataError::NvtxTreeBatchRead { .. } => 76,
        NsysDataError::GpuWorkEventsColumnMissing { .. } => 77,
        NsysDataError::GpuWorkEventsColumnTypeMismatch { .. } => 78,
        NsysDataError::GpuWorkEventsTraceFingerprint { .. } => 79,
        NsysDataError::GpuWorkEventsRecordBatch { .. } => 80,
        NsysDataError::GpuWorkEventsSidecarCreate { .. } => 81,
        NsysDataError::GpuWorkEventsWriterOpen { .. } => 82,
        NsysDataError::GpuWorkEventsWriterWrite { .. } => 83,
        NsysDataError::GpuWorkEventsWriterClose { .. } => 84,
        NsysDataError::GpuWorkEventsSidecarOpen { .. } => 85,
        NsysDataError::GpuWorkEventsReaderOpen { .. } => 86,
        NsysDataError::GpuWorkEventsReaderBuild { .. } => 87,
        NsysDataError::GpuWorkEventsBatchRead { .. } => 88,
        NsysDataError::SchemaAdapterUnmatched => 89,
    }
}

/// Two failures are of one variant and, where they are failures of queries, of
/// one phase.
pub open spec fn same_variant(a: NsysDataError, b: NsysDataError) -> bool {
    variant_number(a) == variant_number(b)
}

/// What tells a code from the others: its length and a few of its characters.
spec fn mark(code: Seq<char>) -> int {
    (((code.len() as int) * 128 + code[10] as int) * 128 + code[code.len() - 2] as int) * 128 + code[code.len() - 10] as int
}

/// The number of the variant whose code has the mark.
spec fn marked(m: int) -> nat {
    if m == 54343469 {
        0
    } else if m == 96073571 {
        1
    } else if m == 64763693 {
        2
    } else if m == 64566501 {
        3
    } else if m == 66664749 {
        4
    } else if m == 64567909 {
        5
    } else if m == 54276325 {
        6
    } else if m == 75248502 {
        7
    } else if m == 62667369 {
        8
    } else if m == 71021303 {
        9
    } else if m == 83489527 {
        10
    } else if m == 50132069 {
        11
    } else if m == 58521517 {
        12
    } else if m == 52228835 {
        13
    } else if m == 69021936 {
        14
    } else if m == 73200366 {
        15
    } else if m == 58440688 {
        16
    } else if m == 60535535 {
        17
    } else if m == 77313909 {
        18
    } else if m == 62421604 {
        19
    } else if m == 75215595 {
        20
    } else if m == 73120099 {
        21
    } else if m == 81509217 {
        22
    } else if m == 71023081 {
        23
    } else if m == 68923631 {
        24
    } else if m == 73117940 {
        25
    } else if m == 77315048 {
        26
    } else if m == 60537843 {
        27
    } else if m == 91994977 {
        28
    } else if m == 87801198 {
        29
    } else if m == 79409902 {
        30
    } else if m == 81507055 {
        31
    } else if m == 85783542 {
        32
    } else if m == 81588722 {
        33
    } else if m == 70841077 {
        34
    } else if m == 92075885 {
        35
    } else if m == 51984740 {
        36
    } else if m == 47790435 {
        37
    } else if m == 45691125 {
        38
    } else if m == 83587822 {
        39
    } else if m == 85800813 {
        40
    } else if m == 56441441 {
        41
    } else if m == 83425129 {
        42
    } else if m == 70923500 {
        43
    } else if m == 98285684 {
        44
    } else if m == 81508338 {
        45
    } else if m == 89895400 {
        46
    } else if m == 77313901 {
        47
    } else if m == 89895397 {
        48
    } else if m == 104576877 {
        49
    } else if m == 83604201 {
        50
    } else if m == 98284261 {
        51
    } else if m == 100382305 {
        52
    } else if m == 96186594 {
        53
    } else if m == 77313970 {
        54
    } else if m == 83605353 {
        55
    } else if m == 73118179 {
        56
    } else if m == 77314659 {
        57
    } else if m == 71021298 {
        58
    } else if m == 73120361 {
        59
    } else if m == 73120233 {
        60
    } else if m == 73118436 {
        61
    } else if m == 71021285 {
        62
    } else if m == 73119329 {
        63
    } else if m == 68923618 {
        64
    } else if m == 73119597 {
        65
    } else if m == 85701093 {
        66
    } else if m == 79411049 {
        67
    } else if m == 68923875 {
        68
    } else if m == 73120355 {
        69
    } else if m == 66826994 {
        70
    } else if m == 68926057 {
        71
    } else if m == 68925929 {
        72
    } else if m == 68924132 {
        73
    } else if m == 66826981 {
        74
    } else if m == 68925025 {
        75
    } else if m == 64729314 {
        76
    } else if m == 85587821 {
        77
    } else if m == 98169317 {
        78
    } else if m == 91879273 {
        79
    } else if m == 81392099 {
        80
    } else if m == 85588579 {
        81
    } else if m == 79295218 {
        82
    } else if m == 81394281 {
        83
    } else if m == 81394153 {
        84
    } else if m == 81392356 {
        85
    } else if m == 79295205 {
        86
    } else if m == 81393249 {
        87
    } else if m == 77197538 {
        88
    } else if m == 73200301 {
        89
    } else {
        90
    }
}

proof fn codes_from_0(e: NsysDataError)
    requires
        0 <= variant_number(e) < 15,
    ensures
        marked(mark(e.code_text())) == variant_number(e),
        e.code_text().take(10) == "nsys.data."@,
{
    reveal_strlit("nsys.data.");
    match e {
        NsysDataError::TraceNotFound { .. } => {
            reveal_strlit("nsys.data.trace-not-found");
            assert(mark("nsys.data.trace-not-found"@) == 54343469);
            assert("nsys.data.trace-not-found"@.take(10) =~= "nsys.data."@);
        },
        NsysDataError::GeneratedParquetdirSourceMissing { .. } => {
            reveal_strlit("nsys.data.generated-parquetdir-source-missing");
            assert(mark("nsys.data.generated-parquetdir-source-missing"@) == 96073571);
            assert("nsys.data.generated-parquetdir-source-missing"@.take(10) =~= "nsys.data."@);
        },
        NsysDataError::ParquetdirNotFound { .. } => {
            reveal_strlit("nsys.data.parquetdir-not-found");
            assert(mark("nsys.data.parquetdir-not-found"@) == 64763693);
            assert("nsys.data.parquetdir-not-found"@.take(10) =~= "nsys.data."@);
        },
        NsysDataError::DuckdbThreadConfig { .. } => {
            reveal_strlit("nsys.data.duckdb-thread-config");
            assert(mark("nsys.data.duckdb-thread-config"@) == 64566501);
            assert("nsys.data.duckdb-thread-config"@.take(10) =~= "nsys.data."@);
        },
        NsysDataError::DuckdbOpenInMemory { .. } => {
            reveal_strlit("nsys.data.duckdb-open-in-memory");
            assert(mark("nsys.data.duckdb-open-in-memory"@) == 66664749);
            assert("nsys.data.duckdb-open-in-memory"@.take(10) =~= "nsys.data."@);
        },
        NsysDataError::DuckdbSchemaCreate { .. } => {
            reveal_strlit("nsys.data.duckdb-schema-create");
            assert(mark("nsys.data.duckdb-schema-create"@) == 64567909);
            assert("nsys.data.duckdb-schema-create"@.take(10) =~= "nsys.data."@);
        },
        NsysDataError::ParquetdirRead { .. } => {
            reveal_strlit("nsys.data.parquetdir-read");
            assert(mark("nsys.data.parquetdir-read"@) == 54276325);
            assert("nsys.data.parquetdir-read"@.take(10) =~= "nsys.data."@);
        },
        NsysDataError::ParquetPathInvalidUtf8 { .. } => {
            reveal_strlit("nsys.data.parquet-path-invalid-utf8");
            assert(mark("nsys.data.parquet-path-invalid-utf8"@) == 75248502);
            assert("nsys.data.parquet-path-invalid-utf8"@.take(10) =~= "nsys.data."@);
        },
        NsysDataError::ParquetViewCreate { .. } => {
            reveal_strlit("nsys.data.parquet-view-create");
            assert(mark("nsys.data.parquet-view-create"@) == 62667369);
            assert("nsys.data.parquet-view-create"@.take(10) =~= "nsys.data."@);
        },
        NsysDataError::NvtxTreeViewRegister { .. } => {
            reveal_strlit("nsys.data.nvtx-tree-view-register");
            assert(mark("nsys.data.nvtx-tree-view-register"@) == 71021303);
            assert("nsys.data.nvtx-tree-view-register"@.take(10) =~= "nsys.data."@);
        },
        NsysDataError::GpuWorkEventsViewRegister { .. } => {
            reveal_strlit("nsys.data.gpu-work-events-view-register");
            assert(mark("nsys.data.gpu-work-events-view-register"@) == 83489527);
            assert("nsys.data.gpu-work-events-view-register"@.take(10) =~= "nsys.data."@);
        },
        NsysDataError::SidecarCache { .. } => {
            reveal_strlit("nsys.data.sidecar-cache");
            assert(mark("nsys.data.sidecar-cache"@) == 50132069);
            assert("nsys.data.sidecar-cache"@.take(10) =~= "nsys.data."@);
        },
        NsysDataError::SidecarOperation { .. } => {
            reveal_strlit("nsys.data.sidecar-operation");
            assert(mark("nsys.data.sidecar-operation"@) == 58521517);
            assert("nsys.data.sidecar-operation"@.take(10) =~= "nsys.data."@);
        },
        NsysDataError::SidecarHeader { .. } => {
            reveal_strlit("nsys.data.sidecar-header");
            assert(mark("nsys.data.sidecar-header"@) == 52228835);
            assert("nsys.data.sidecar-header"@.take(10) =~= "nsys.data."@);
        },
        NsysDataError::TraceFingerprintRead { .. } => {
            reveal_strlit("nsys.data.trace-fingerprint-read");
            assert(mark("nsys.data.trace-fingerprint-read"@) == 69021936);
            assert("nsys.data.trace-fingerprint-read"@.take(10) =~= "nsys.data."@);
        },
        _ => {},
    }
}

proof fn codes_from_15(e: NsysDataError)
    requires
        15 <= variant_number(e) < 30,
    ensures
        marked(mark(e.code_text())) == variant_number(e),
        e.code_text().take(10) == "nsys.data."@,
{
    reveal_strlit("nsys.data.");
    match e {
        NsysDataError::SqliteInputUnsupported { .. } => {
            reveal_strlit("nsys.data.sqlite-input-unsupported");
            assert(mark("nsys.data.sqlite-input-unsupported"@) == 73200366);
            assert("nsys.data.sqlite-input-unsupported"@.take(10) =~= "nsys.data."@);
        },
        NsysDataError::NsysExportSpawn { .. } => {
            reveal_strlit("nsys.data.nsys-export-spawn");
            assert(mark("nsys.data.nsys-export-spawn"@) == 58440688);
            assert("nsys.data.nsys-export-spawn"@.take(10) =~= "nsys.data."@);
        },
        NsysDataError::NsysExportFailed { .. } => {
            reveal_strlit("nsys.data.nsys-export-failed");
            assert(mark("nsys.data.nsys-export-failed"@) == 60535535);
            assert("nsys.data.nsys-export-failed"@.take(10) =~= "nsys.data."@);
        },
        NsysDataError::NsysExportOutputMissing { .. } => {
            reveal_strlit("nsys.data.nsys-export-output-missing");
            assert(mark("nsys.data.nsys-export-output-missing"@) == 77313909);
            assert("nsys.data.nsys-export-output-missing"@.take(10) =~= "nsys.data."@);
        },
        NsysDataError::ArtifactDirCreate { .. } => {
            reveal_strlit("nsys.data.artifact-dir-create");
            assert(mark("nsys.data.artifact-dir-create"@) == 62421604);
            assert("nsys.data.artifact-dir-create"@.take(10) =~= "nsys.data."@);
        },
        NsysDataError::NsysExportLockfileOpen { .. } => {
            reveal_strlit("nsys.data.nsys-export-lockfile-open");
            assert(mark("nsys.data.nsys-export-lockfile-open"@) == 75215595);
            assert("nsys.data.nsys-export-lockfile-open"@.take(10) =~= "nsys.data."@);
        },
        NsysDataError::NsysExportLockAcquire { .. } => {
            reveal_strlit("nsys.data.nsys-export-lock-acquire");
            assert(mark("nsys.data.nsys-export-lock-acquire"@) == 73120099);
            assert("nsys.data.nsys-export-lock-acquire"@.take(10) =~= "nsys.data."@);
        },
        NsysDataError::NsysParquetdirStaleRemove { .. } => {
            reveal_strlit("nsys.data.nsys-parquetdir-stale-remove");
            assert(mark("nsys.data.nsys-parquetdir-stale-remove"@) == 81509217);
            assert("nsys.data.nsys-parquetdir-stale-remove"@.take(10) =~= "nsys.data."@);
        },
        NsysDataError::NsysParquetdirPublish { .. } => {
            reveal_strlit("nsys.data.nsys-parquetdir-publish");
            assert(mark("nsys.data.nsys-parquetdir-publish"@) == 71023081);
            assert("nsys.data.nsys-parquetdir-publish"@.take(10) =~= "nsys.data."@);
        },
        NsysDataError::NsysCacheSourceStat { .. } => {
            reveal_strlit("nsys.data.nsys-cache-source-stat");
            assert(mark("nsys.data.nsys-cache-source-stat"@) == 68923631);
            assert("nsys.data.nsys-cache-source-stat"@.take(10) =~= "nsys.data."@);
        },
        NsysDataError::NsysCacheSentinelStat { .. } => {
            reveal_strlit("nsys.data.nsys-cache-sentinel-stat");
            assert(mark("nsys.data.nsys-cache-sentinel-stat"@) == 73117940);
            assert("nsys.data.nsys-cache-sentinel-stat"@.take(10) =~= "nsys.data."@);
        },
        NsysDataError::NsysParquetdirHelpSpawn { .. } => {
            reveal_strlit("nsys.data.nsys-parquetdir-help-spawn");
            assert(mark("nsys.data.nsys-parquetdir-help-spawn"@) == 77315048);
            assert("nsys.data.nsys-parquetdir-help-spawn"@.take(10) =~= "nsys.data."@);
        },
        NsysDataError::NsysVersionSpawn { .. } => {
            reveal_strlit("nsys.data.nsys-version-spawn");
            assert(mark("nsys.data.nsys-version-spawn"@) == 60537843);
            assert("nsys.data.nsys-version-spawn"@.take(10) =~= "nsys.data."@);
        },
        NsysDataError::NsysExportGeneratedPathRemove { .. } => {
            reveal_strlit("nsys.data.nsys-export-generated-path-remove");
            assert(mark("nsys.data.nsys-export-generated-path-remove"@) == 91994977);
            assert("nsys.data.nsys-export-generated-path-remove"@.take(10) =~= "nsys.data."@);
        },
        NsysDataError::NsysExportSourceCanonicalize { .. } => {
            reveal_strlit("nsys.data.nsys-export-source-canonicalize");
            assert(mark("nsys.data.nsys-export-source-canonicalize"@) == 87801198);
            assert("nsys.data.nsys-export-source-canonicalize"@.take(10) =~= "nsys.data."@);
        },
        _ => {},
    }
}

proof fn codes_from_30(e: NsysDataError)
    requires
        30 <= variant_number(e) < 45,
    ensures
        marked(mark(e.code_text())) == variant_number(e),
        e.code_text().take(10) == "nsys.data."@,
{
    reveal_strlit("nsys.data.");
    match e {
        NsysDataError::NsysParquetdirUnsupported { .. } => {
            reveal_strlit("nsys.data.nsys-parquetdir-unsupported");
            assert(mark("nsys.data.nsys-parquetdir-unsupported"@) == 79409902);
            assert("nsys.data.nsys-parquetdir-unsupported"@.take(10) =~= "nsys.data."@);
        },
        NsysDataError::NsysParquetdirProbeFailed { .. } => {
            reveal_strlit("nsys.data.nsys-parquetdir-probe-failed");
            assert(mark("nsys.data.nsys-parquetdir-probe-failed"@) == 81507055);
            assert("nsys.data.nsys-parquetdir-probe-failed"@.take(10) =~= "nsys.data."@);
        },
        NsysDataError::ScopeConflictingDeviceFlags { .. } => {
            reveal_strlit("nsys.data.scope-conflicting-device-flags");
            assert(mark("nsys.data.scope-conflicting-device-flags"@) == 85783542);
            assert("nsys.data.scope-conflicting-device-flags"@.take(10) =~= "nsys.data."@);
        },
        NsysDataError::ScopeStreamRequiresDevice { .. } => {
            reveal_strlit("nsys.data.scope-stream-requires-device");
            assert(mark("nsys.data.scope-stream-requires-device"@) == 81588722);
            assert("nsys.data.scope-stream-requires-device"@.take(10) =~= "nsys.data."@);
        },
        NsysDataError::CudaProcessUnresolved { .. } => {
            reveal_strlit("nsys.data.cuda-process-unresolved");
            assert(mark("nsys.data.cuda-process-unresolved"@) == 70841077);
            assert("nsys.data.cuda-process-unresolved"@.take(10) =~= "nsys.data."@);
        },
        NsysDataError::ScopeDeviceProbeColumnMissing { .. } => {
            reveal_strlit("nsys.data.scope-device-probe-column-missing");
            assert(mark("nsys.data.scope-device-probe-column-missing"@) == 92075885);
            assert("nsys.data.scope-device-probe-column-missing"@.take(10) =~= "nsys.data."@);
        },
        NsysDataError::Duckdb { phase: DuckdbPhase::Prepare, .. } => {
            reveal_strlit("nsys.data.duckdb-prepare");
            assert(mark("nsys.data.duckdb-prepare"@) == 51984740);
            assert("nsys.data.duckdb-prepare"@.take(10) =~= "nsys.data."@);
        },
        NsysDataError::Duckdb { phase: DuckdbPhase::Query, .. } => {
            reveal_strlit("nsys.data.duckdb-query");
            assert(mark("nsys.data.duckdb-query"@) == 47790435);
            assert("nsys.data.duckdb-query"@.take(10) =~= "nsys.data."@);
        },
        NsysDataError::Duckdb { phase: DuckdbPhase::Read, .. } => {
            reveal_strlit("nsys.data.duckdb-read");
            assert(mark("nsys.data.duckdb-read"@) == 45691125);
            assert("nsys.data.duckdb-read"@.take(10) =~= "nsys.data."@);
        },
        NsysDataError::MetaCacheSlotUninitialised { .. } => {
            reveal_strlit("nsys.data.meta-cache-slot-uninitialised");
            assert(mark("nsys.data.meta-cache-slot-uninitialised"@) == 83587822);
            assert("nsys.data.meta-cache-slot-uninitialised"@.take(10) =~= "nsys.data."@);
        },
        NsysDataError::TraceMapProbeColumnMissing { .. } => {
            reveal_strlit("nsys.data.trace-map-probe-column-missing");
            assert(mark("nsys.data.trace-map-probe-column-missing"@) == 85800813);
            assert("nsys.data.trace-map-probe-column-missing"@.take(10) =~= "nsys.data."@);
        },
        NsysDataError::TimeRangeEmpty { .. } => {
            reveal_strlit("nsys.data.time-range-empty");
            assert(mark("nsys.data.time-range-empty"@) == 56441441);
            assert("nsys.data.time-range-empty"@.take(10) =~= "nsys.data."@);
        },
        NsysDataError::CorrelationTraceFingerprint { .. } => {
            reveal_strlit("nsys.data.correlation-trace-fingerprint");
            assert(mark("nsys.data.correlation-trace-fingerprint"@) == 83425129);
            assert("nsys.data.correlation-trace-fingerprint"@.take(10) =~= "nsys.data."@);
        },
        NsysDataError::HardwareInvalidU64Id { .. } => {
            reveal_strlit("nsys.data.hardware-invalid-u64-id");
            assert(mark("nsys.data.hardware-invalid-u64-id"@) == 70923500);
            assert("nsys.data.hardware-invalid-u64-id"@.take(10) =~= "nsys.data."@);
        },
        NsysDataError::NvtxParentUnsupportedIntegerType { .. } => {
            reveal_strlit("nsys.data.nvtx-parent-unsupported-integer-type");
            assert(mark("nsys.data.nvtx-parent-unsupported-integer-type"@) == 98285684);
            assert("nsys.data.nvtx-parent-unsupported-integer-type"@.take(10) =~= "nsys.data."@);
        },
        _ => {},
    }
}

proof fn codes_from_45(e: NsysDataError)
    requires
        45 <= variant_number(e) < 60,
    ensures
        marked(mark(e.code_text())) == variant_number(e),
        e.code_text().take(10) == "nsys.data."@,
{
    reveal_strlit("nsys.data.");
    match e {
        NsysDataError::NvtxParentIntegerOverflow { .. } => {
            reveal_strlit("nsys.data.nvtx-parent-integer-overflow");
            assert(mark("nsys.data.nvtx-parent-integer-overflow"@) == 81508338);
            assert("nsys.data.nvtx-parent-integer-overflow"@.take(10) =~= "nsys.data."@);
        },
        NsysDataError::NvtxParentListLengthMismatch { .. } => {
            reveal_strlit("nsys.data.nvtx-parent-list-length-mismatch");
            assert(mark("nsys.data.nvtx-parent-list-length-mismatch"@) == 89895400);
            assert("nsys.data.nvtx-parent-list-length-mismatch"@.take(10) =~= "nsys.data."@);
        },
        NsysDataError::NvtxParentColumnMissing { .. } => {
            reveal_strlit("nsys.data.nvtx-parent-column-missing");
            assert(mark("nsys.data.nvtx-parent-column-missing"@) == 77313901);
            assert("nsys.data.nvtx-parent-column-missing"@.take(10) =~= "nsys.data."@);
        },
        NsysDataError::NvtxParentColumnTypeMismatch { .. } => {
            reveal_strlit("nsys.data.nvtx-parent-column-type-mismatch");
            assert(mark("nsys.data.nvtx-parent-column-type-mismatch"@) == 89895397);
            assert("nsys.data.nvtx-parent-column-type-mismatch"@.take(10) =~= "nsys.data."@);
        },
        NsysDataError::NvtxParentGpuActivityColumnMissing { .. } => {
            reveal_strlit("nsys.data.nvtx-parent-gpu-activity-column-missing");
            assert(mark("nsys.data.nvtx-parent-gpu-activity-column-missing"@) == 104576877);
            assert("nsys.data.nvtx-parent-gpu-activity-column-missing"@.take(10) =~= "nsys.data."@);
        },
        NsysDataError::NvtxParentGpuActivityOpen { .. } => {
            reveal_strlit("nsys.data.nvtx-parent-gpu-activity-open");
            assert(mark("nsys.data.nvtx-parent-gpu-activity-open"@) == 83604201);
            assert("nsys.data.nvtx-parent-gpu-activity-open"@.take(10) =~= "nsys.data."@);
        },
        NsysDataError::NvtxParentGpuActivityReaderOpen { .. } => {
            reveal_strlit("nsys.data.nvtx-parent-gpu-activity-reader-open");
            assert(mark("nsys.data.nvtx-parent-gpu-activity-reader-open"@) == 98284261);
            assert("nsys.data.nvtx-parent-gpu-activity-reader-open"@.take(10) =~= "nsys.data."@);
        },
        NsysDataError::NvtxParentGpuActivityReaderBuild { .. } => {
            reveal_strlit("nsys.data.nvtx-parent-gpu-activity-reader-build");
            assert(mark("nsys.data.nvtx-parent-gpu-activity-reader-build"@) == 100382305);
            assert("nsys.data.nvtx-parent-gpu-activity-reader-build"@.take(10) =~= "nsys.data."@);
        },
        NsysDataError::NvtxParentGpuActivityBatchRead { .. } => {
            reveal_strlit("nsys.data.nvtx-parent-gpu-activity-batch-read");
            assert(mark("nsys.data.nvtx-parent-gpu-activity-batch-read"@) == 96186594);
            assert("nsys.data.nvtx-parent-gpu-activity-batch-read"@.take(10) =~= "nsys.data."@);
        },
        NsysDataError::NvtxParentInt32Overflow { .. } => {
            reveal_strlit("nsys.data.nvtx-parent-int32-overflow");
            assert(mark("nsys.data.nvtx-parent-int32-overflow"@) == 77313970);
            assert("nsys.data.nvtx-parent-int32-overflow"@.take(10) =~= "nsys.data."@);
        },
        NsysDataError::NvtxParentTraceFingerprint { .. } => {
            reveal_strlit("nsys.data.nvtx-parent-trace-fingerprint");
            assert(mark("nsys.data.nvtx-parent-trace-fingerprint"@) == 83605353);
            assert("nsys.data.nvtx-parent-trace-fingerprint"@.take(10) =~= "nsys.data."@);
        },
        NsysDataError::NvtxParentRecordBatch { .. } => {
            reveal_strlit("nsys.data.nvtx-parent-record-batch");
            assert(mark("nsys.data.nvtx-parent-record-batch"@) == 73118179);
            assert("nsys.data.nvtx-parent-record-batch"@.take(10) =~= "nsys.data."@);
        },
        NsysDataError::NvtxParentSidecarCreate { .. } => {
            reveal_strlit("nsys.data.nvtx-parent-sidecar-create");
            assert(mark("nsys.data.nvtx-parent-sidecar-create"@) == 77314659);
            assert("nsys.data.nvtx-parent-sidecar-create"@.take(10) =~= "nsys.data."@);
        },
        NsysDataError::NvtxParentWriterOpen { .. } => {
            reveal_strlit("nsys.data.nvtx-parent-writer-open");
            assert(mark("nsys.data.nvtx-parent-writer-open"@) == 71021298);
            assert("nsys.data.nvtx-parent-writer-open"@.take(10) =~= "nsys.data."@);
        },
        NsysDataError::NvtxParentWriterWrite { .. } => {
            reveal_strlit("nsys.data.nvtx-parent-writer-write");
            assert(mark("nsys.data.nvtx-parent-writer-write"@) == 73120361);
            assert("nsys.data.nvtx-parent-writer-write"@.take(10) =~= "nsys.data."@);
        },
        _ => {},
    }
}

proof fn codes_from_60(e: NsysDataError)
    requires
        60 <= variant_number(e) < 75,
    ensures
        marked(mark(e.code_text())) == variant_number(e),
        e.code_text().take(10) == "nsys.data."@,
{
    reveal_strlit("nsys.data.");
    match e {
        NsysDataError::NvtxParentWriterClose { .. } => {
            reveal_strlit("nsys.data.nvtx-parent-writer-close");
            assert(mark("nsys.data.nvtx-parent-writer-close"@) == 73120233);
            assert("nsys.data.nvtx-parent-writer-close"@.take(10) =~= "nsys.data."@);
        },
        NsysDataError::NvtxParentSidecarOpen { .. } => {
            reveal_strlit("nsys.data.nvtx-parent-sidecar-open");
            assert(mark("nsys.data.nvtx-parent-sidecar-open"@) == 73118436);
            assert("nsys.data.nvtx-parent-sidecar-open"@.take(10) =~= "nsys.data."@);
        },
        NsysDataError::NvtxParentReaderOpen { .. } => {
            reveal_strlit("nsys.data.nvtx-parent-reader-open");
            assert(mark("nsys.data.nvtx-parent-reader-open"@) == 71021285);
            assert("nsys.data.nvtx-parent-reader-open"@.take(10) =~= "nsys.data."@);
        },
        NsysDataError::NvtxParentReaderBuild { .. } => {
            reveal_strlit("nsys.data.nvtx-parent-reader-build");
            assert(mark("nsys.data.nvtx-parent-reader-build"@) == 73119329);
            assert("nsys.data.nvtx-parent-reader-build"@.take(10) =~= "nsys.data."@);
        },
        NsysDataError::NvtxParentBatchRead { .. } => {
            reveal_strlit("nsys.data.nvtx-parent-batch-read");
            assert(mark("nsys.data.nvtx-parent-batch-read"@) == 68923618);
            assert("nsys.data.nvtx-parent-batch-read"@.take(10) =~= "nsys.data."@);
        },
        NsysDataError::NvtxTreeColumnMissing { .. } => {
            reveal_strlit("nsys.data.nvtx-tree-column-missing");
            assert(mark("nsys.data.nvtx-tree-column-missing"@) == 73119597);
            assert("nsys.data.nvtx-tree-column-missing"@.take(10) =~= "nsys.data."@);
        },
        NsysDataError::NvtxTreeColumnTypeMismatch { .. } => {
            reveal_strlit("nsys.data.nvtx-tree-column-type-mismatch");
            assert(mark("nsys.data.nvtx-tree-column-type-mismatch"@) == 85701093);
            assert("nsys.data.nvtx-tree-column-type-mismatch"@.take(10) =~= "nsys.data."@);
        },
        NsysDataError::NvtxTreeTraceFingerprint { .. } => {
            reveal_strlit("nsys.data.nvtx-tree-trace-fingerprint");
            assert(mark("nsys.data.nvtx-tree-trace-fingerprint"@) == 79411049);
            assert("nsys.data.nvtx-tree-trace-fingerprint"@.take(10) =~= "nsys.data."@);
        },
        NsysDataError::NvtxTreeRecordBatch { .. } => {
            reveal_strlit("nsys.data.nvtx-tree-record-batch");
            assert(mark("nsys.data.nvtx-tree-record-batch"@) == 68923875);
            assert("nsys.data.nvtx-tree-record-batch"@.take(10) =~= "nsys.data."@);
        },
        NsysDataError::NvtxTreeSidecarCreate { .. } => {
            reveal_strlit("nsys.data.nvtx-tree-sidecar-create");
            assert(mark("nsys.data.nvtx-tree-sidecar-create"@) == 73120355);
            assert("nsys.data.nvtx-tree-sidecar-create"@.take(10) =~= "nsys.data."@);
        },
        NsysDataError::NvtxTreeWriterOpen { .. } => {
            reveal_strlit("nsys.data.nvtx-tree-writer-open");
            assert(mark("nsys.data.nvtx-tree-writer-open"@) == 66826994);
            assert("nsys.data.nvtx-tree-writer-open"@.take(10) =~= "nsys.data."@);
        },
        NsysDataError::NvtxTreeWriterWrite { .. } => {
            reveal_strlit("nsys.data.nvtx-tree-writer-write");
            assert(mark("nsys.data.nvtx-tree-writer-write"@) == 68926057);
            assert("nsys.data.nvtx-tree-writer-write"@.take(10) =~= "nsys.data."@);
        },
        NsysDataError::NvtxTreeWriterClose { .. } => {
            reveal_strlit("nsys.data.nvtx-tree-writer-close");
            assert(mark("nsys.data.nvtx-tree-writer-close"@) == 68925929);
            assert("nsys.data.nvtx-tree-writer-close"@.take(10) =~= "nsys.data."@);
        },
        NsysDataError::NvtxTreeSidecarOpen { .. } => {
            reveal_strlit("nsys.data.nvtx-tree-sidecar-open");
            assert(mark("nsys.data.nvtx-tree-sidecar-open"@) == 68924132);
            assert("nsys.data.nvtx-tree-sidecar-open"@.take(10) =~= "nsys.data."@);
        },
        NsysDataError::NvtxTreeReaderOpen { .. } => {
            reveal_strlit("nsys.data.nvtx-tree-reader-open");
            assert(mark("nsys.data.nvtx-tree-reader-open"@) == 66826981);
            assert("nsys.data.nvtx-tree-reader-open"@.take(10) =~= "nsys.data."@);
        },
        _ => {},
    }
}

proof fn codes_from_75(e: NsysDataError)
    requires
        75 <= variant_number(e) < 90,
    ensures
        marked(mark(e.code_text())) == variant_number(e),
        e.code_text().take(10) == "nsys.data."@,
{
    reveal_strlit("nsys.data.");
    match e {
        NsysDataError::NvtxTreeReaderBuild { .. } => {
            reveal_strlit("nsys.data.nvtx-tree-reader-build");
            assert(mark("nsys.data.nvtx-tree-reader-build"@) == 68925025);
            assert("nsys.data.nvtx-tree-reader-build"@.take(10) =~= "nsys.data."@);
        },
        NsysDataError::NvtxTreeBatchRead { .. } => {
            reveal_strlit("nsys.data.nvtx-tree-batch-read");
            assert(mark("nsys.data.nvtx-tree-batch-read"@) == 64729314);
            assert("nsys.data.nvtx-tree-batch-read"@.take(10) =~= "nsys.data."@);
        },
        NsysDataError::GpuWorkEventsColumnMissing { .. } => {
            reveal_strlit("nsys.data.gpu-work-events-column-missing");
            assert(mark("nsys.data.gpu-work-events-column-missing"@) == 85587821);
            assert("nsys.data.gpu-work-events-column-missing"@.take(10) =~= "nsys.data."@);
        },
        NsysDataError::GpuWorkEventsColumnTypeMismatch { .. } => {
            reveal_strlit("nsys.data.gpu-work-events-column-type-mismatch");
            assert(mark("nsys.data.gpu-work-events-column-type-mismatch"@) == 98169317);
            assert("nsys.data.gpu-work-events-column-type-mismatch"@.take(10) =~= "nsys.data."@);
        },
        NsysDataError::GpuWorkEventsTraceFingerprint { .. } => {
            reveal_strlit("nsys.data.gpu-work-events-trace-fingerprint");
            assert(mark("nsys.data.gpu-work-events-trace-fingerprint"@) == 91879273);
            assert("nsys.data.gpu-work-events-trace-fingerprint"@.take(10) =~= "nsys.data."@);
        },
        NsysDataError::GpuWorkEventsRecordBatch { .. } => {
            reveal_strlit("nsys.data.gpu-work-events-record-batch");
            assert(mark("nsys.data.gpu-work-events-record-batch"@) == 81392099);
            assert("nsys.data.gpu-work-events-record-batch"@.take(10) =~= "nsys.data."@);
        },
        NsysDataError::GpuWorkEventsSidecarCreate { .. } => {
            reveal_strlit("nsys.data.gpu-work-events-sidecar-create");
            assert(mark("nsys.data.gpu-work-events-sidecar-create"@) == 85588579);
            assert("nsys.data.gpu-work-events-sidecar-create"@.take(10) =~= "nsys.data."@);
        },
        NsysDataError::GpuWorkEventsWriterOpen { .. } => {
            reveal_strlit("nsys.data.gpu-work-events-writer-open");
            assert(mark("nsys.data.gpu-work-events-writer-open"@) == 79295218);
            assert("nsys.data.gpu-work-events-writer-open"@.take(10) =~= "nsys.data."@);
        },
        NsysDataError::GpuWorkEventsWriterWrite { .. } => {
            reveal_strlit("nsys.data.gpu-work-events-writer-write");
            assert(mark("nsys.data.gpu-work-events-writer-write"@) == 81394281);
            assert("nsys.data.gpu-work-events-writer-write"@.take(10) =~= "nsys.data."@);
        },
        NsysDataError::GpuWorkEventsWriterClose { .. } => {
            reveal_strlit("nsys.data.gpu-work-events-writer-close");
            assert(mark("nsys.data.gpu-work-events-writer-close"@) == 81394153);
            assert("nsys.data.gpu-work-events-writer-close"@.take(10) =~= "nsys.data."@);
        },
        NsysDataError::GpuWorkEventsSidecarOpen { .. } => {
            reveal_strlit("nsys.data.gpu-work-events-sidecar-open");
            assert(mark("nsys.data.gpu-work-events-sidecar-open"@) == 81392356);
            assert("nsys.data.gpu-work-events-sidecar-open"@.take(10) =~= "nsys.data."@);
        },
        NsysDataError::GpuWorkEventsReaderOpen { .. } => {
            reveal_strlit("nsys.data.gpu-work-events-reader-open");
            assert(mark("nsys.data.gpu-work-events-reader-open"@) == 79295205);
            assert("nsys.data.gpu-work-events-reader-open"@.take(10) =~= "nsys.data."@);
        },
        NsysDataError::GpuWorkEventsReaderBuild { .. } => {
            reveal_strlit("nsys.data.gpu-work-events-reader-build");
            assert(mark("nsys.data.gpu-work-events-reader-build"@) == 81393249);
            assert("nsys.data.gpu-work-events-reader-build"@.take(10) =~= "nsys.data."@);
        },
        NsysDataError::GpuWorkEventsBatchRead { .. } => {
            reveal_strlit("nsys.data.gpu-work-events-batch-read");
            assert(mark("nsys.data.gpu-work-events-batch-read"@) == 77197538);
            assert("nsys.data.gpu-work-events-batch-read"@.take(10) =~= "nsys.data."@);
        },
        NsysDataError::SchemaAdapterUnmatched => {
            reveal_strlit("nsys.data.schema-adapter-unmatched");
            assert(mark("nsys.data.schema-adapter-unmatched"@) == 73200301);
            assert("nsys.data.schema-adapter-unmatched"@.take(10) =~= "nsys.data."@);
        },
        _ => {},
    }
}

/// Two failures have the same code exactly where they are of one variant and
/// phase: nothing else of a failure shows in its code. Every code starts with
/// `nsys.data.`.
pub proof fn codes_tell_variants_apart(a: NsysDataError, b: NsysDataError)
    ensures
        a.code_text() == b.code_text() <==> same_variant(a, b),
        a.code_text().take(10) == "nsys.data."@,
{
    code_is_marked(a);
    code_is_marked(b);
    if same_variant(a, b) {
        numbers_fix_codes(a, b);
    }
}

proof fn code_is_marked(e: NsysDataError)
    ensures
        marked(mark(e.code_text())) == variant_number(e),
        e.code_text().take(10) == "nsys.data."@,
{
    let n = variant_number(e);
    if n < 15 {
        codes_from_0(e);
    } else if n < 30 {
        codes_from_15(e);
    } else if n < 45 {
        codes_from_30(e);
    } else if n < 60 {
        codes_from_45(e);
    } else if n < 75 {
        codes_from_60(e);
    } else {
        codes_from_75(e);
    }
}

proof fn numbers_fix_codes(a: NsysDataError, b: NsysDataError)
    requires
        variant_number(a) == variant_number(b),
    ensures
        a.code_text() == b.code_text(),
{
}

} // verus!
