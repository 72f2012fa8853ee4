//! Data layer over Nsight Systems traces.
//!
//! A trace is read through its parquetdir export (`nsys export -t
//! parquetdir`): one parquet file per table, each shown by DuckDB as a view
//! `nsight.<TABLE>`. This crate holds what is computed from those tables, the
//! sidecars derived from them, and the decisions on the way.
pub mod adapter;
pub mod capabilities;
pub mod columns;
pub mod correlation;
pub mod cuda_identity;
pub mod error;
pub mod error_codes;
pub mod fingerprint;
pub mod gpu_work;
pub mod gpu_work_events;
pub mod hardware;
pub mod keymap;
pub mod laws;
pub mod meta_cache;
pub mod nsys_rep;
pub mod nvtx_nesting;
pub mod nvtx_stack;
pub mod nvtx_tree;
pub mod order;
pub mod parquet_file;
pub mod paths;
pub mod queries;
pub mod resident_identity;
pub mod runtime_nvtx_parent;
pub mod schema;
pub mod scope;
pub mod sidecar;
pub mod sidecar_registry;
pub mod sql_expr;
pub mod text;
pub mod trace;
pub mod trace_map;
pub mod views;

pub use adapter::{
    pick_adapter, table_exists, AdapterChoice, AdapterMeta, AdapterStatus, DetectionMethod,
    SchemaAdapter, SchemaVersion,
};
pub use capabilities::CapabilityFlags;
pub use correlation::{CorrelatedRowIds, CorrelationIndex, CorrelationIndexStats, SyntheticId};
pub use cuda_identity::{
    native_pid_from_global_tid, native_pid_sql, process_sql_projection, CudaProcessResolver,
    ProcessSqlProjection,
};
pub use error::{DuckdbPhase, NsysDataError, NsysDataResult};
pub use gpu_work::GpuWorkKind;
pub use gpu_work_events::{GpuWorkEventRecord, GPU_WORK_EVENTS_VERSION};
pub use hardware::{CpuInfo, DriverInfo, GpuInfo, HostInfo, NicInfo, SystemInfo};
pub use meta_cache::{PerTableEntry, TraceMetaCache, META_CACHE_VERSION};
pub use nvtx_nesting::{NvtxEntry, NvtxNesting};
pub use nvtx_tree::{NvtxTree, NvtxTreeRecord, NVTX_TREE_VERSION};
pub use resident_identity::{resident_trace_identity, ResidentTraceIdentity};
pub use runtime_nvtx_parent::{
    EnclosingNvtx, RuntimeNvtxParent, RuntimeParentEntry, RUNTIME_NVTX_PARENT_VERSION,
};
pub use sidecar_registry::{NsysSidecar, NsysSidecarStatus};
pub use trace::{TimeSpan, Trace, TraceOrigins};
