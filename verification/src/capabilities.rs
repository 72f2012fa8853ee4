//! Trace-capability self-description.
//!
//! Agents asking about a trace usually want to know *what questions are
//! answerable* before issuing a heavy query. [`CapabilityFlags`] answers that:
//! which event tables exist, and what extra analyses are possible.
use crate::schema::TraceSchema;
use vstd::prelude::*;

verus! {

/// What a trace exposes. Every field is `false` by default.
#[derive(Debug, Clone, Copy, PartialEq, Eq, Structural)]
pub struct CapabilityFlags {
    /// `CUPTI_ACTIVITY_KIND_KERNEL` present.
    pub has_kernels: bool,
    /// `CUPTI_ACTIVITY_KIND_MEMCPY` present.
    pub has_memcpy: bool,
    /// `CUPTI_ACTIVITY_KIND_MEMSET` present.
    pub has_memset: bool,
    /// `CUPTI_ACTIVITY_KIND_SYNCHRONIZATION` present.
    pub has_sync: bool,
    /// `CUPTI_ACTIVITY_KIND_RUNTIME` present: CPU-side CUDA API calls.
    pub has_runtime: bool,
    /// `OSRT_API` present: POSIX/OS runtime calls (pthread, poll, ...).
    pub has_osrt: bool,
    /// `NVTX_EVENTS` present.
    pub has_nvtx: bool,
    /// `CUPTI_ACTIVITY_KIND_GRAPH_TRACE` present: CUDA graph launches
    /// (one row per graph execution).
    pub has_graph_trace: bool,
    /// `CUDA_GRAPH_NODE_EVENTS` present: per-node-within-a-graph metadata.
    pub has_graph_nodes: bool,
    /// `CUDA_GRAPH_EVENTS` present: host-side graph construction events.
    pub has_graph_events: bool,
    /// `CUPTI_ACTIVITY_KIND_CUDA_EVENT` present: `cudaEventRecord`
    /// placements.
    pub has_cuda_event_activity: bool,
    /// `CUPTI_ACTIVITY_KIND_OVERHEAD` present: CUPTI's own profiling
    /// overhead.
    pub has_overhead: bool,
    /// `TARGET_INFO_CUDA_CONTEXT_INFO` present: the
    /// `(device, context)` to `processId` bridge.
    pub has_cuda_contexts: bool,
    /// `SAMPLING_CALLCHAINS` present: per-sample stack frames.
    pub has_sampling: bool,
    /// `COMPOSITE_EVENTS` present: CPU IP samples.
    pub has_composite_events: bool,
    /// `SCHED_EVENTS` present: context-switch transitions.
    pub has_sched_events: bool,
    /// `GPU_METRICS` and its counter dictionary
    /// `TARGET_INFO_GPU_METRICS` both present: GPU metrics can be queried.
    pub has_gpu_metrics: bool,
    /// `NET_NIC_METRIC`, its counter dictionary
    /// `TARGET_INFO_NETWORK_METRICS`, `NIC_ID_MAP` and `TARGET_INFO_NIC_INFO`
    /// all present: NIC metrics can be queried.
    pub has_nic_metrics: bool,
    /// `TARGET_INFO_SYSTEM_ENV` present: the hardware inventory.
    pub has_target_info: bool,
}

impl Default for CapabilityFlags {
    fn default() -> (flags: Self)
        ensures
            !flags.has_kernels,
            !flags.has_memcpy,
            !flags.has_memset,
            !flags.has_sync,
            !flags.has_runtime,
            !flags.has_osrt,
            !flags.has_nvtx,
            !flags.has_graph_trace,
            !flags.has_graph_nodes,
            !flags.has_graph_events,
            !flags.has_cuda_event_activity,
            !flags.has_overhead,
            !flags.has_cuda_contexts,
            !flags.has_sampling,
            !flags.has_composite_events,
            !flags.has_sched_events,
            !flags.has_gpu_metrics,
            !flags.has_nic_metrics,
            !flags.has_target_info,
    {
        CapabilityFlags {
            has_kernels: false,
            has_memcpy: false,
            has_memset: false,
            has_sync: false,
            has_runtime: false,
            has_osrt: false,
            has_nvtx: false,
            has_graph_trace: false,
            has_graph_nodes: false,
            has_graph_events: false,
            has_cuda_event_activity: false,
            has_overhead: false,
            has_cuda_contexts: false,
            has_sampling: false,
            has_composite_events: false,
            has_sched_events: false,
            has_gpu_metrics: false,
            has_nic_metrics: false,
            has_target_info: false,
        }
    }
}

/// The capabilities of a trace with these tables.
pub open spec fn capabilities_of(schema: &TraceSchema) -> CapabilityFlags {
    CapabilityFlags {
        has_kernels: schema.has("CUPTI_ACTIVITY_KIND_KERNEL"@),
        has_memcpy: schema.has("CUPTI_ACTIVITY_KIND_MEMCPY"@),
        has_memset: schema.has("CUPTI_ACTIVITY_KIND_MEMSET"@),
        has_sync: schema.has("CUPTI_ACTIVITY_KIND_SYNCHRONIZATION"@),
        has_runtime: schema.has("CUPTI_ACTIVITY_KIND_RUNTIME"@),
        has_osrt: schema.has("OSRT_API"@),
        has_nvtx: schema.has("NVTX_EVENTS"@),
        has_graph_trace: schema.has("CUPTI_ACTIVITY_KIND_GRAPH_TRACE"@),
        has_graph_nodes: schema.has("CUDA_GRAPH_NODE_EVENTS"@),
        has_graph_events: schema.has("CUDA_GRAPH_EVENTS"@),
        has_cuda_event_activity: schema.has("CUPTI_ACTIVITY_KIND_CUDA_EVENT"@),
        has_overhead: schema.has("CUPTI_ACTIVITY_KIND_OVERHEAD"@),
        has_cuda_contexts: schema.has("TARGET_INFO_CUDA_CONTEXT_INFO"@),
        has_sampling: schema.has("SAMPLING_CALLCHAINS"@),
        has_composite_events: schema.has("COMPOSITE_EVENTS"@),
        has_sched_events: schema.has("SCHED_EVENTS"@),
        has_gpu_metrics: schema.has("GPU_METRICS"@) && schema.has("TARGET_INFO_GPU_METRICS"@),
        has_nic_metrics: schema.has("NET_NIC_METRIC"@) && schema.has("TARGET_INFO_NETWORK_METRICS"@) && schema.has("NIC_ID_MAP"@) && schema.has("TARGET_INFO_NIC_INFO"@),
        has_target_info: schema.has("TARGET_INFO_SYSTEM_ENV"@),
    }
}

impl CapabilityFlags {
    /// Builds the capability map from the tables of the trace.
    ///
    /// The metric flags answer "can the query run?", not raw table presence:
    /// they stand only where every table that the query path requires does.
    pub fn extract(schema: &TraceSchema) -> (flags: Self)
        ensures
            flags == capabilities_of(schema),
    {
        let has_kernels: bool = schema.has_table("CUPTI_ACTIVITY_KIND_KERNEL");
        let has_memcpy: bool = schema.has_table("CUPTI_ACTIVITY_KIND_MEMCPY");
        let has_memset: bool = schema.has_table("CUPTI_ACTIVITY_KIND_MEMSET");
        let has_sync: bool = schema.has_table("CUPTI_ACTIVITY_KIND_SYNCHRONIZATION");
        let has_runtime: bool = schema.has_table("CUPTI_ACTIVITY_KIND_RUNTIME");
        let has_osrt: bool = schema.has_table("OSRT_API");
        let has_nvtx: bool = schema.has_table("NVTX_EVENTS");
        let has_graph_trace: bool = schema.has_table("CUPTI_ACTIVITY_KIND_GRAPH_TRACE");
        let has_graph_nodes: bool = schema.has_table("CUDA_GRAPH_NODE_EVENTS");
        let has_graph_events: bool = schema.has_table("CUDA_GRAPH_EVENTS");
        let has_cuda_event_activity: bool = schema.has_table("CUPTI_ACTIVITY_KIND_CUDA_EVENT");
        let has_overhead: bool = schema.has_table("CUPTI_ACTIVITY_KIND_OVERHEAD");
        let has_cuda_contexts: bool = schema.has_table("TARGET_INFO_CUDA_CONTEXT_INFO");
        let has_sampling: bool = schema.has_table("SAMPLING_CALLCHAINS");
        let has_composite_events: bool = schema.has_table("COMPOSITE_EVENTS");
        let has_sched_events: bool = schema.has_table("SCHED_EVENTS");
        let gpu_metrics: bool = schema.has_table("GPU_METRICS");
        let target_info_gpu_metrics: bool = schema.has_table("TARGET_INFO_GPU_METRICS");
        let has_gpu_metrics: bool = gpu_metrics && target_info_gpu_metrics;
        let net_nic_metric: bool = schema.has_table("NET_NIC_METRIC");
        let target_info_network_metrics: bool = schema.has_table("TARGET_INFO_NETWORK_METRICS");
        let nic_id_map: bool = schema.has_table("NIC_ID_MAP");
        let target_info_nic_info: bool = schema.has_table("TARGET_INFO_NIC_INFO");
        let has_nic_metrics: bool = net_nic_metric && target_info_network_metrics && nic_id_map && target_info_nic_info;
        let has_target_info: bool = schema.has_table("TARGET_INFO_SYSTEM_ENV");
        CapabilityFlags {
            has_kernels,
            has_memcpy,
            has_memset,
            has_sync,
            has_runtime,
            has_osrt,
            has_nvtx,
            has_graph_trace,
            has_graph_nodes,
            has_graph_events,
            has_cuda_event_activity,
            has_overhead,
            has_cuda_contexts,
            has_sampling,
            has_composite_events,
            has_sched_events,
            has_gpu_metrics,
            has_nic_metrics,
            has_target_info,
        }
    }

    /// Quick "any GPU event table exists" predicate.
    pub fn any_gpu_events(&self) -> (b: bool)
        ensures
            b == (self.has_kernels || self.has_memcpy || self.has_memset || self.has_sync
                || self.has_graph_trace),
    {
        self.has_kernels || self.has_memcpy || self.has_memset || self.has_sync
            || self.has_graph_trace
    }
}

} // verus!
