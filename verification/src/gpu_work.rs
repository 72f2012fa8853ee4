//! Shared NSys GPU work interval semantics.
//!
//! These are duration-bearing device work tables with the same minimal
//! interval shape: `start`, `"end"`, `deviceId`, and `streamId`.
//! Query-side verbs and derived sidecars use this list as the source of
//! truth for "GPU busy" interval inputs.
use vstd::prelude::*;

verus! {

/// Common interval columns used by every GPU work table.
#[derive(Debug, Clone, Copy)]
pub struct GpuWorkIntervalColumns {
    pub start_ns: &'static str,
    pub end_ns: &'static str,
    pub device_id: &'static str,
    pub stream_id: &'static str,
}

/// The interval columns.
pub fn gpu_work_interval_columns() -> (columns: GpuWorkIntervalColumns)
    ensures
        columns.start_ns@ == "start"@,
        columns.end_ns@ == "end"@,
        columns.device_id@ == "deviceId"@,
        columns.stream_id@ == "streamId"@,
{
    GpuWorkIntervalColumns {
        start_ns: "start",
        end_ns: "end",
        device_id: "deviceId",
        stream_id: "streamId",
    }
}

/// One NSys table that represents duration-bearing GPU work.
#[derive(Debug, Clone, Copy)]
pub struct GpuWorkKind {
    /// Stable event kind label.
    pub label: &'static str,
    /// NSys backing table.
    pub table: &'static str,
}

/// Labels and tables of GPU work, in the order in which they are read.
pub open spec fn work_kinds() -> Seq<(Seq<char>, Seq<char>)> {
    seq![
        ("kernel"@, "CUPTI_ACTIVITY_KIND_KERNEL"@),
        ("memcpy"@, "CUPTI_ACTIVITY_KIND_MEMCPY"@),
        ("memset"@, "CUPTI_ACTIVITY_KIND_MEMSET"@),
        ("graph"@, "CUPTI_ACTIVITY_KIND_GRAPH_TRACE"@),
    ]
}

/// The tables of GPU work.
pub fn gpu_work_interval_kinds() -> (kinds: Vec<GpuWorkKind>)
    ensures
        kinds@.map_values(|k: GpuWorkKind| (k.label@, k.table@)) == work_kinds(),
{
    let mut kinds: Vec<GpuWorkKind> = Vec::new();
    kinds.push(GpuWorkKind { label: "kernel", table: "CUPTI_ACTIVITY_KIND_KERNEL" });
    kinds.push(GpuWorkKind { label: "memcpy", table: "CUPTI_ACTIVITY_KIND_MEMCPY" });
    kinds.push(GpuWorkKind { label: "memset", table: "CUPTI_ACTIVITY_KIND_MEMSET" });
    kinds.push(GpuWorkKind { label: "graph", table: "CUPTI_ACTIVITY_KIND_GRAPH_TRACE" });
    assert(kinds@.map_values(|k: GpuWorkKind| (k.label@, k.table@)) =~= work_kinds());
    kinds
}

} // verus!
