//! On-disk metadata sidecar: `<trace>.veloq/meta.bin`.
//!
//! Caches what a summary computes on a cold open: schema version, tables with
//! their counts and spans, hardware topology, capabilities and the NVTX nesting
//! map. All of it stays constant for a given trace, so later calls read it back
//! and run no query.
use crate::adapter::{MetaDataRow, SchemaVersion};
use crate::capabilities::{capabilities_of, CapabilityFlags};
use crate::hardware::HostInfo;
use crate::nsys_rep::sidecar_source_path;
use crate::nvtx_nesting::NvtxNesting;
use crate::paths::{artifact, artifact_path, text_of};
use crate::resident_identity::source_of;
use crate::text::{str_eq, strings};
use crate::trace::{TableSpan, Trace, TraceOrigins};
use vstd::prelude::*;

verus! {

/// Grows with every breaking change of [`TraceMetaCache`]; a cache of another
/// version is rebuilt.
pub const META_CACHE_VERSION: u32 = 1;

/// Everything that the sidecar caches.
#[derive(Debug)]
pub struct TraceMetaCache {
    /// `None` on older or partial exports.
    pub schema_version: Option<SchemaVersion>,
    /// `EXPORT_PRODUCT_VERSION` (raw, e.g. `"2025.4.1.136"`).
    pub product_version: Option<String>,
    pub capabilities: CapabilityFlags,
    /// Hardware topology, empty when `TARGET_INFO_SYSTEM_ENV` is absent.
    pub hosts: Vec<HostInfo>,
    /// Tables of the trace.
    pub available_tables: Vec<String>,
    /// Rows and span of each event table that has rows.
    pub per_table: Vec<PerTableEntry>,
    pub origins: TraceOrigins,
    /// Empty when the trace has no NVTX events.
    pub nvtx_nesting: NvtxNesting,
}

/// One table of [`TraceMetaCache::per_table`].
#[derive(Debug, Clone)]
pub struct PerTableEntry {
    pub name: String,
    pub row_count: i64,
    pub start_ns: i64,
    pub end_ns: i64,
}

/// Start and length of a trace.
#[derive(Debug, Clone, Copy, PartialEq, Eq, Structural)]
pub struct TraceSpan {
    pub origin_ns: i64,
    pub span_ns: i64,
}

/// Path of the cache. A generated parquetdir has that of its report.
pub fn path_for(trace_path: &str) -> (path: String)
    ensures
        path@ == artifact(source_of(trace_path@), "meta.bin"@),
{
    artifact_path(sidecar_source_path(trace_path).as_str(), "meta.bin")
}

/// The value of the first row with the name.
pub open spec fn first_value(rows: Seq<MetaDataRow>, name: Seq<char>) -> Option<Seq<char>>
    decreases rows.len(),
{
    if rows.len() == 0 {
        None
    } else if rows[0].name@ == name {
        Some(rows[0].value@)
    } else {
        first_value(rows.skip(1), name)
    }
}

/// The product version that the rows name: that of the first row, unless it is
/// empty.
pub open spec fn product_version_of(rows: Seq<MetaDataRow>) -> Option<Seq<char>> {
    match first_value(rows, "EXPORT_PRODUCT_VERSION"@) {
        Some(value) => if value.len() > 0 {
            Some(value)
        } else {
            None
        },
        None => None,
    }
}

fn product_version(rows: &Vec<MetaDataRow>) -> (version: Option<String>)
    ensures
        text_of(version) == product_version_of(rows@),
{
    let ghost key = "EXPORT_PRODUCT_VERSION"@;
    let mut i: usize = 0;
    assert(rows@.skip(0) =~= rows@);
    while i < rows.len()
        invariant
            i <= rows.len(),
            key == "EXPORT_PRODUCT_VERSION"@,
            first_value(rows@, key) == first_value(rows@.skip(i as int), key),
        decreases rows.len() - i,
    {
        assert(rows@.skip(i as int)[0] == rows@[i as int]);
        assert(rows@.skip(i as int).skip(1) =~= rows@.skip(i + 1));
        if str_eq(rows[i].name.as_str(), "EXPORT_PRODUCT_VERSION") {
            if rows[i].value.as_str().is_empty() {
                return None;
            }
            return Some(rows[i].value.clone());
        }
        i = i + 1;
    }
    None
}

/// The entry is that of the table with this span and this count.
pub open spec fn is_table_entry(entry: PerTableEntry, span: TableSpan, count: i64) -> bool {
    entry.name@ == span.table@ && entry.row_count == count && entry.start_ns == span.span.start_ns
        && entry.end_ns == span.span.end_ns
}

/// What is cached of a trace. `metadata` are the rows of `META_DATA_EXPORT`,
/// `spans` the event tables that have rows, and `counts` the rows of each.
pub fn build(
    trace: &Trace,
    metadata: &Vec<MetaDataRow>,
    hosts: Vec<HostInfo>,
    origins: TraceOrigins,
    spans: &Vec<TableSpan>,
    counts: &Vec<i64>,
    nvtx_nesting: NvtxNesting,
) -> (cache: TraceMetaCache)
    requires
        spans@.len() == counts@.len(),
    ensures
        cache.schema_version == trace.schema_version,
        text_of(cache.product_version) == product_version_of(metadata@),
        cache.capabilities == capabilities_of(&trace.schema),
        cache.hosts == hosts,
        strings(cache.available_tables@) == strings(trace.tables@),
        cache.per_table@.len() == spans@.len(),
        forall|i: int|
            0 <= i < spans@.len() ==> is_table_entry(
                #[trigger] cache.per_table@[i],
                spans@[i],
                counts@[i],
            ),
        cache.origins == origins,
        cache.nvtx_nesting == nvtx_nesting,
{
    let schema_version = match &trace.schema_version {
        Some(version) => Some(version.copied()),
        None => None,
    };
    let mut per_table: Vec<PerTableEntry> = Vec::with_capacity(spans.len());
    let mut i: usize = 0;
    while i < spans.len()
        invariant
            i <= spans.len(),
            spans.len() == counts.len(),
            per_table.len() == i,
            forall|x: int|
                0 <= x < i ==> is_table_entry(#[trigger] per_table@[x], spans@[x], counts@[x]),
        decreases spans.len() - i,
    {
        per_table.push(
            PerTableEntry {
                name: spans[i].table.clone(),
                row_count: counts[i],
                start_ns: spans[i].span.start_ns,
                end_ns: spans[i].span.end_ns,
            },
        );
        i = i + 1;
    }
    TraceMetaCache {
        schema_version,
        product_version: product_version(metadata),
        capabilities: CapabilityFlags::extract(&trace.schema),
        hosts,
        available_tables: trace.list_tables(),
        per_table,
        origins,
        nvtx_nesting,
    }
}

/// The primary span of a cached trace; `None` where nothing is cached.
pub fn trace_span(cache: Option<&TraceMetaCache>) -> (span: Option<TraceSpan>)
    requires
        cache matches Some(c) ==> i64::MIN <= c.origins.primary.end_ns
            - c.origins.primary.start_ns <= i64::MAX,
    ensures
        match cache {
            Some(c) => span matches Some(s) && s.origin_ns == c.origins.primary.start_ns
                && s.span_ns == c.origins.primary.end_ns - c.origins.primary.start_ns,
            None => span is None,
        },
{
    match cache {
        Some(c) => Some(
            TraceSpan {
                origin_ns: c.origins.primary.start_ns,
                span_ns: c.origins.primary.duration_ns(),
            },
        ),
        None => None,
    }
}

} // verus!
