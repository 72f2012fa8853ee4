//! Handle to an opened NSys trace, and the span of time that it covers.
use crate::adapter::{
    pick_adapter, DetectionMethod, SchemaAdapter, SchemaVersion, StandardAdapter,
};
use crate::error::{NsysDataError, NsysDataResult};
use crate::nsys_rep::ResolvedTracePath;
use crate::paths::{join_path, joined_path};
use crate::schema::TraceSchema;
use crate::text::{parse_unsigned, parsed_unsigned, str_eq, strings, trim_text, trimmed_text};
use vstd::prelude::*;
use vstd::string::StringExecFns;

verus! {

/// Span of nanoseconds since the session epoch.
#[derive(Debug, Clone, Copy, PartialEq, Eq, Structural)]
pub struct TimeSpan {
    pub start_ns: i64,
    pub end_ns: i64,
}

impl Default for TimeSpan {
    fn default() -> (span: Self)
        ensures
            span.start_ns == 0,
            span.end_ns == 0,
    {
        TimeSpan { start_ns: 0, end_ns: 0 }
    }
}

impl TimeSpan {
    /// Length of the span.
    pub fn duration_ns(&self) -> (ns: i64)
        requires
            i64::MIN <= self.end_ns - self.start_ns <= i64::MAX,
        ensures
            ns == self.end_ns - self.start_ns,
    {
        self.end_ns - self.start_ns
    }
}

/// The spans of time that a trace covers.
#[derive(Debug, Clone, Copy, PartialEq, Eq, Structural)]
pub struct TraceOrigins {
    /// Span of the primary execution tables. Its start is the origin of
    /// times that callers give relative to the trace.
    pub primary: TimeSpan,
    /// Span of all event tables.
    pub full: TimeSpan,
}

impl Default for TraceOrigins {
    fn default() -> (origins: Self)
        ensures
            origins.primary == (TimeSpan { start_ns: 0, end_ns: 0 }),
            origins.full == (TimeSpan { start_ns: 0, end_ns: 0 }),
    {
        TraceOrigins { primary: TimeSpan::default(), full: TimeSpan::default() }
    }
}

/// Tables of primary execution: kernel, memcpy, memset, runtime and sync.
///
/// OSRT and NVTX bootstrap markers are not among them: NSys sometimes anchors
/// those to CUDA driver init, hundreds of seconds before any GPU work.
pub open spec fn primary_tables() -> Seq<Seq<char>> {
    seq![
        "CUPTI_ACTIVITY_KIND_KERNEL"@,
        "CUPTI_ACTIVITY_KIND_MEMCPY"@,
        "CUPTI_ACTIVITY_KIND_MEMSET"@,
        "CUPTI_ACTIVITY_KIND_RUNTIME"@,
        "CUPTI_ACTIVITY_KIND_SYNCHRONIZATION"@,
    ]
}

/// All event tables, in the order in which they are scanned.
pub open spec fn event_tables() -> Seq<Seq<char>> {
    primary_tables() + seq!["OSRT_API"@, "NVTX_EVENTS"@]
}

/// A table of samples, and where its times stand.
#[derive(Debug, Clone, Copy)]
pub struct SampleTable {
    pub table: &'static str,
    pub min_expr: &'static str,
    pub max_expr: &'static str,
}

/// Whether the table is one of primary execution.
pub fn is_primary_table(table: &str) -> (b: bool)
    ensures
        b == primary_tables().contains(table@),
{
    let ghost all = primary_tables();
    let kernel = str_eq(table, "CUPTI_ACTIVITY_KIND_KERNEL");
    let memcpy = str_eq(table, "CUPTI_ACTIVITY_KIND_MEMCPY");
    let memset = str_eq(table, "CUPTI_ACTIVITY_KIND_MEMSET");
    let runtime = str_eq(table, "CUPTI_ACTIVITY_KIND_RUNTIME");
    let sync = str_eq(table, "CUPTI_ACTIVITY_KIND_SYNCHRONIZATION");
    proof {
        if kernel {
            assert(all[0] == table@);
        }
        if memcpy {
            assert(all[1] == table@);
        }
        if memset {
            assert(all[2] == table@);
        }
        if runtime {
            assert(all[3] == table@);
        }
        if sync {
            assert(all[4] == table@);
        }
    }
    kernel || memcpy || memset || runtime || sync
}

/// Whether the table is an event table.
pub fn is_event_table(table: &str) -> (b: bool)
    ensures
        b == event_tables().contains(table@),
{
    let ghost all = event_tables();
    let primary = is_primary_table(table);
    let osrt = str_eq(table, "OSRT_API");
    let nvtx = str_eq(table, "NVTX_EVENTS");
    proof {
        if primary {
            let i = choose|i: int| 0 <= i < primary_tables().len() && primary_tables()[i] == table@;
            assert(all[i] == table@);
        }
        if osrt {
            assert(all[5] == table@);
        }
        if nvtx {
            assert(all[6] == table@);
        }
        if all.contains(table@) {
            let i = choose|i: int| 0 <= i < all.len() && all[i] == table@;
            if i < 5 {
                assert(primary_tables()[i] == table@);
            }
        }
    }
    primary || osrt || nvtx
}

/// All event tables, in the order in which they are scanned.
pub fn all_event_tables() -> (tables: Vec<&'static str>)
    ensures
        tables@.map_values(|t: &'static str| t@) == event_tables(),
{
    let mut tables: Vec<&'static str> = Vec::new();
    tables.push("CUPTI_ACTIVITY_KIND_KERNEL");
    tables.push("CUPTI_ACTIVITY_KIND_MEMCPY");
    tables.push("CUPTI_ACTIVITY_KIND_MEMSET");
    tables.push("CUPTI_ACTIVITY_KIND_RUNTIME");
    tables.push("CUPTI_ACTIVITY_KIND_SYNCHRONIZATION");
    tables.push("OSRT_API");
    tables.push("NVTX_EVENTS");
    assert(tables@.map_values(|t: &'static str| t@) =~= event_tables());
    tables
}

/// Sample and metric tables that carry times but not the columns of event
/// tables. They count only where no event table has a row, as in captures
/// with `--trace=none --nic-metrics=lf`, whose times would start at zero
/// otherwise.
pub fn sample_table_specs() -> (specs: Vec<SampleTable>)
    ensures
        specs@.len() == 4,
        specs@[0].table@ == "GPU_METRICS"@,
        specs@[0].min_expr@ == "timestamp"@,
        specs@[0].max_expr@ == "timestamp"@,
        specs@[1].table@ == "NET_NIC_METRIC"@,
        specs@[1].min_expr@ == "start"@,
        specs@[1].max_expr@ == "COALESCE(\"end\", start)"@,
        specs@[2].table@ == "COMPOSITE_EVENTS"@,
        specs@[2].min_expr@ == "start"@,
        specs@[2].max_expr@ == "start"@,
        specs@[3].table@ == "SCHED_EVENTS"@,
        specs@[3].min_expr@ == "start"@,
        specs@[3].max_expr@ == "start"@,
{
    let mut specs: Vec<SampleTable> = Vec::new();
    specs.push(
        SampleTable { table: "GPU_METRICS", min_expr: "timestamp", max_expr: "timestamp" },
    );
    specs.push(
        SampleTable {
            table: "NET_NIC_METRIC",
            min_expr: "start",
            max_expr: "COALESCE(\"end\", start)",
        },
    );
    specs.push(SampleTable { table: "COMPOSITE_EVENTS", min_expr: "start", max_expr: "start" });
    specs.push(SampleTable { table: "SCHED_EVENTS", min_expr: "start", max_expr: "start" });
    specs
}

/// First and last time of a table; both absent where it has no rows.
#[derive(Debug, Clone)]
pub struct TableExtent {
    pub table: String,
    pub first_ns: Option<i64>,
    pub last_ns: Option<i64>,
}

/// Span of one table.
#[derive(Debug, Clone)]
pub struct TableSpan {
    pub table: String,
    pub span: TimeSpan,
}

/// A table by its name, and its span.
pub type NamedSpan = (Seq<char>, TimeSpan);

/// The spans of the tables among the first `n` that have rows, in order.
pub open spec fn spans_of(extents: Seq<TableExtent>, n: nat) -> Seq<NamedSpan>
    decreases n,
{
    if n == 0 {
        seq![]
    } else {
        let before = spans_of(extents, (n - 1) as nat);
        match (extents[n - 1].first_ns, extents[n - 1].last_ns) {
            (Some(start_ns), Some(end_ns)) => before.push(
                (extents[n - 1].table@, TimeSpan { start_ns, end_ns }),
            ),
            _ => before,
        }
    }
}

/// Table spans by name.
pub open spec fn named(spans: Seq<TableSpan>) -> Seq<NamedSpan> {
    spans.map_values(|s: TableSpan| (s.table@, s.span))
}

/// The least span around both.
pub open spec fn around(a: Option<TimeSpan>, b: TimeSpan) -> TimeSpan {
    match a {
        Some(a) => TimeSpan {
            start_ns: if b.start_ns < a.start_ns {
                b.start_ns
            } else {
                a.start_ns
            },
            end_ns: if b.end_ns > a.end_ns {
                b.end_ns
            } else {
                a.end_ns
            },
        },
        None => b,
    }
}

/// The least span around the spans of those tables that are listed; none
/// where none of them is there.
pub open spec fn hull(spans: Seq<NamedSpan>, tables: Seq<Seq<char>>) -> Option<TimeSpan>
    decreases spans.len(),
{
    if spans.len() == 0 {
        None
    } else {
        let before = hull(spans.drop_last(), tables);
        if tables.contains(spans.last().0) {
            Some(around(before, spans.last().1))
        } else {
            before
        }
    }
}

/// The least span around all of the spans.
pub open spec fn full_hull(spans: Seq<NamedSpan>) -> Option<TimeSpan>
    decreases spans.len(),
{
    if spans.len() == 0 {
        None
    } else {
        Some(around(full_hull(spans.drop_last()), spans.last().1))
    }
}

/// The origins of a trace with these event tables and these sample tables.
pub open spec fn origins_of(events: Seq<NamedSpan>, samples: Seq<NamedSpan>) -> TraceOrigins {
    let full = match hull(events, event_tables()) {
        Some(span) => span,
        None => match full_hull(samples) {
            Some(span) => span,
            None => TimeSpan { start_ns: 0, end_ns: 0 },
        },
    };
    let primary = match hull(events, primary_tables()) {
        Some(span) => span,
        None => full,
    };
    TraceOrigins { primary, full }
}

fn widen(a: Option<TimeSpan>, b: TimeSpan) -> (span: TimeSpan)
    ensures
        span == around(a, b),
{
    match a {
        Some(a) => TimeSpan {
            start_ns: if b.start_ns < a.start_ns {
                b.start_ns
            } else {
                a.start_ns
            },
            end_ns: if b.end_ns > a.end_ns {
                b.end_ns
            } else {
                a.end_ns
            },
        },
        None => b,
    }
}

/// The spans of the tables that have rows, in order.
pub fn table_spans(extents: &Vec<TableExtent>) -> (spans: Vec<TableSpan>)
    ensures
        named(spans@) == spans_of(extents@, extents@.len()),
{
    let mut spans: Vec<TableSpan> = Vec::new();
    let mut i: usize = 0;
    while i < extents.len()
        invariant
            i <= extents.len(),
            named(spans@) =~= spans_of(extents@, i as nat),
        decreases extents.len() - i,
    {
        if let (Some(start_ns), Some(end_ns)) = (extents[i].first_ns, extents[i].last_ns) {
            spans.push(
                TableSpan { table: extents[i].table.clone(), span: TimeSpan { start_ns, end_ns } },
            );
        }
        i = i + 1;
    }
    spans
}

/// The trace's primary and full origins, and the span of each event table
/// that has rows.
///
/// `events` holds the event tables of the trace in the order of
/// [`all_event_tables`], `samples` its sample tables; the samples count only
/// where no event table has a row.
pub fn read_origins(events: &Vec<TableExtent>, samples: &Vec<TableExtent>) -> (found: (
    TraceOrigins,
    Vec<TableSpan>,
))
    ensures
        named(found.1@) == spans_of(events@, events@.len()),
        found.0 == origins_of(
            spans_of(events@, events@.len()),
            spans_of(samples@, samples@.len()),
        ),
{
    let per_table = table_spans(events);
    let ghost spans = named(per_table@);
    let mut primary: Option<TimeSpan> = None;
    let mut full: Option<TimeSpan> = None;
    let mut i: usize = 0;
    assert(spans.take(0) =~= seq![]);
    while i < per_table.len()
        invariant
            i <= per_table.len(),
            spans == named(per_table@),
            primary == hull(spans.take(i as int), primary_tables()),
            full == hull(spans.take(i as int), event_tables()),
        decreases per_table.len() - i,
    {
        assert(spans.take(i + 1).drop_last() =~= spans.take(i as int));
        assert(spans.take(i + 1).last() == (per_table@[i as int].table@, per_table@[i as int].span));
        let table = per_table[i].table.as_str();
        let span = per_table[i].span;
        if is_primary_table(table) {
            primary = Some(widen(primary, span));
        }
        if is_event_table(table) {
            full = Some(widen(full, span));
        }
        i = i + 1;
    }
    assert(spans.take(per_table.len() as int) =~= spans);
    let full = match full {
        Some(span) => span,
        None => match sample_span(samples) {
            Some(span) => span,
            None => TimeSpan { start_ns: 0, end_ns: 0 },
        },
    };
    let primary = match primary {
        Some(span) => span,
        None => full,
    };
    (TraceOrigins { primary, full }, per_table)
}

/// The span of the sample tables.
pub fn sample_span(samples: &Vec<TableExtent>) -> (span: Option<TimeSpan>)
    ensures
        span == full_hull(spans_of(samples@, samples@.len())),
{
    let spans = table_spans(samples);
    let ghost all = named(spans@);
    let mut span: Option<TimeSpan> = None;
    let mut i: usize = 0;
    assert(all.take(0) =~= seq![]);
    while i < spans.len()
        invariant
            i <= spans.len(),
            all == named(spans@),
            span == full_hull(all.take(i as int)),
        decreases spans.len() - i,
    {
        assert(all.take(i + 1).drop_last() =~= all.take(i as int));
        assert(all.take(i + 1).last() == (spans@[i as int].table@, spans@[i as int].span));
        span = Some(widen(span, spans[i].span));
        i = i + 1;
    }
    assert(all.take(spans.len() as int) =~= all);
    span
}

/// The first span lies in the second.
pub open spec fn lies_in(inner: TimeSpan, outer: TimeSpan) -> bool {
    outer.start_ns <= inner.start_ns && inner.end_ns <= outer.end_ns
}

proof fn hull_encloses(spans: Seq<NamedSpan>, tables: Seq<Seq<char>>, i: int)
    requires
        0 <= i < spans.len(),
        tables.contains(spans[i].0),
    ensures
        hull(spans, tables) is Some,
        lies_in(spans[i].1, hull(spans, tables)->0),
    decreases spans.len(),
{
    if i < spans.len() - 1 {
        hull_encloses(spans.drop_last(), tables, i);
    }
}

proof fn hull_grows(spans: Seq<NamedSpan>, some: Seq<Seq<char>>, more: Seq<Seq<char>>)
    requires
        forall|t: Seq<char>| some.contains(t) ==> more.contains(t),
    ensures
        hull(spans, some) is Some ==> hull(spans, more) is Some && lies_in(
            hull(spans, some)->0,
            hull(spans, more)->0,
        ),
    decreases spans.len(),
{
    if spans.len() > 0 {
        hull_grows(spans.drop_last(), some, more);
    }
}

/// The full span of a trace holds the span of every event table and the
/// primary span.
pub proof fn full_span_holds_the_tables(events: Seq<NamedSpan>, samples: Seq<NamedSpan>)
    ensures
        forall|i: int|
            0 <= i < events.len() && event_tables().contains((#[trigger] events[i]).0) ==> lies_in(
                events[i].1,
                origins_of(events, samples).full,
            ),
        forall|i: int|
            0 <= i < events.len() && primary_tables().contains((#[trigger] events[i]).0)
                ==> lies_in(events[i].1, origins_of(events, samples).primary),
        lies_in(origins_of(events, samples).primary, origins_of(events, samples).full),
{
    assert forall|i: int|
        0 <= i < events.len() && event_tables().contains(
            (#[trigger] events[i]).0,
        ) implies lies_in(events[i].1, origins_of(events, samples).full) by {
        hull_encloses(events, event_tables(), i);
    }
    assert forall|i: int|
        0 <= i < events.len() && primary_tables().contains(
            (#[trigger] events[i]).0,
        ) implies lies_in(events[i].1, origins_of(events, samples).primary) by {
        hull_encloses(events, primary_tables(), i);
    }
    assert forall|t: Seq<char>| primary_tables().contains(t) implies event_tables().contains(t) by {
        let i = choose|i: int| 0 <= i < primary_tables().len() && primary_tables()[i] == t;
        assert(event_tables()[i] == t);
    }
    hull_grows(events, primary_tables(), event_tables());
}

/// A caller's window in absolute times: `absolute` is what the window comes to
/// from the primary origin of the trace, or why it is empty. No window stays
/// none.
pub fn resolve_window(absolute: Option<Result<(i64, i64), String>>) -> (window: NsysDataResult<
    Option<(i64, i64)>,
>)
    ensures
        match absolute {
            None => window == Ok::<Option<(i64, i64)>, NsysDataError>(None),
            Some(Ok(span)) => window == Ok::<Option<(i64, i64)>, NsysDataError>(Some(span)),
            Some(Err(why)) => window matches Err(NsysDataError::TimeRangeEmpty { source: s }) && s@
                == why@,
        },
{
    match absolute {
        None => Ok(None),
        Some(Ok(span)) => Ok(Some(span)),
        Some(Err(why)) => Err(NsysDataError::time_range_empty(why.as_str())),
    }
}

/// DuckDB's worker threads: the setting wins where it holds a positive
/// integer, else the default applies.
pub fn resolve_thread_count(setting: Option<&str>, default: usize) -> (threads: usize)
    ensures
        threads == match setting {
            Some(text) => match parsed_unsigned(trimmed_text(text@), usize::MAX as nat) {
                Some(n) => if n >= 1 {
                    n as usize
                } else {
                    default
                },
                None => default,
            },
            None => default,
        },
{
    match setting {
        Some(text) => match parse_unsigned(trim_text(text).as_str(), usize::MAX as u64) {
            Ok(n) => if n >= 1 {
                n as usize
            } else {
                default
            },
            Err(_) => default,
        },
        None => default,
    }
}

/// The memory that DuckDB says it retains, as a size.
pub fn retained_bytes(reported: i64) -> (bytes: u64)
    ensures
        bytes == if reported >= 0 {
            reported as u64
        } else {
            u64::MAX
        },
{
    if reported >= 0 {
        reported as u64
    } else {
        u64::MAX
    }
}

/// Handle to an opened trace.
///
/// `source_path` is the canonical source identity for derived sidecars: a
/// `.nsys-rep` file or a direct `_pqtdir/` input. Generated
/// `<report>.veloq/parquetdir/` aliases resolve back to the owning
/// `.nsys-rep`, so sidecars stay under one artifact root.
#[derive(Debug)]
pub struct Trace {
    pub source_path: String,
    /// For `.nsys-rep`, this is `<source>.veloq/parquetdir`; for a direct
    /// `_pqtdir/` input it equals `source_path`.
    pub pqtdir_path: String,
    pub schema: TraceSchema,
    pub tables: Vec<String>,
    pub adapter: StandardAdapter,
    pub detection_method: DetectionMethod,
    pub schema_version: Option<SchemaVersion>,
    pub query_worker_count: usize,
}

impl Trace {
    /// The tables are those of the schema.
    pub open spec fn wf(&self) -> bool {
        &&& self.tables@.len() == self.schema.tables@.len()
        &&& forall|i: int|
            0 <= i < self.tables@.len() ==> (#[trigger] self.tables@[i])@
                == self.schema.tables@[i].name@
    }

    /// Makes the handle of a trace that was resolved and whose tables were
    /// listed. The schema adapter is picked once and kept on the handle.
    pub fn open(
        resolved: ResolvedTracePath,
        schema: TraceSchema,
        schema_version: Option<SchemaVersion>,
        query_worker_count: usize,
    ) -> (trace: NsysDataResult<Trace>)
        ensures
            match trace {
                Ok(t) => {
                    &&& t.wf()
                    &&& StandardAdapter.accepts(&schema)
                    &&& t.source_path == resolved.source_path
                    &&& t.pqtdir_path == resolved.pqtdir_path
                    &&& t.schema == schema
                    &&& t.schema_version == schema_version
                    &&& t.query_worker_count == query_worker_count
                    &&& t.detection_method == if crate::adapter::is_targeted(schema_version) {
                        DetectionMethod::VersionMatch
                    } else {
                        DetectionMethod::FeatureProbe
                    }
                },
                Err(error) => !StandardAdapter.accepts(&schema) && error is SchemaAdapterUnmatched,
            },
    {
        let choice = match pick_adapter(schema_version, &schema) {
            Ok(choice) => choice,
            Err(error) => {
                return Err(error);
            },
        };
        let mut tables: Vec<String> = Vec::new();
        let mut i: usize = 0;
        while i < schema.tables.len()
            invariant
                i <= schema.tables.len(),
                tables.len() == i,
                forall|x: int|
                    0 <= x < i ==> (#[trigger] tables@[x])@ == schema.tables@[x].name@,
            decreases schema.tables.len() - i,
        {
            tables.push(schema.tables[i].name.clone());
            i = i + 1;
        }
        Ok(
            Trace {
                source_path: resolved.source_path,
                pqtdir_path: resolved.pqtdir_path,
                schema,
                tables,
                adapter: choice.adapter,
                detection_method: choice.method,
                schema_version: choice.schema_version,
                query_worker_count,
            },
        )
    }

    /// Canonical source identity. Derived caches anchor under `<path>.veloq/`.
    pub fn path(&self) -> (path: &str)
        ensures
            path@ == self.source_path@,
    {
        self.source_path.as_str()
    }

    /// Resolved parquetdir directory.
    pub fn pqtdir_path(&self) -> (path: &str)
        ensures
            path@ == self.pqtdir_path@,
    {
        self.pqtdir_path.as_str()
    }

    pub fn query_worker_count(&self) -> (n: usize)
        ensures
            n == self.query_worker_count,
    {
        self.query_worker_count
    }

    /// Tables present in the parquetdir.
    pub fn tables(&self) -> (tables: &Vec<String>)
        ensures
            *tables == self.tables,
    {
        &self.tables
    }

    /// Tables present in the parquetdir, as a list of their own.
    pub fn list_tables(&self) -> (tables: Vec<String>)
        ensures
            strings(tables@) == strings(self.tables@),
    {
        let mut tables: Vec<String> = Vec::new();
        let mut i: usize = 0;
        while i < self.tables.len()
            invariant
                i <= self.tables.len(),
                tables.len() == i,
                forall|x: int| 0 <= x < i ==> (#[trigger] tables@[x])@ == self.tables@[x]@,
            decreases self.tables.len() - i,
        {
            tables.push(self.tables[i].clone());
            i = i + 1;
        }
        assert(strings(tables@) =~= strings(self.tables@));
        tables
    }

    /// Does the trace contain `<table>.parquet`?
    pub fn has_table(&self, table: &str) -> (b: bool)
        requires
            self.wf(),
        ensures
            b == self.schema.has(table@),
            b == strings(self.tables@).contains(table@),
    {
        let b = self.schema.has_table(table);
        proof {
            if b {
                let i = choose|i: int|
                    0 <= i < self.schema.tables.len() && (#[trigger] self.schema.tables@[i]).name@
                        == table@;
                assert(strings(self.tables@)[i] == self.tables@[i]@);
            }
            if strings(self.tables@).contains(table@) {
                let i = choose|i: int|
                    0 <= i < strings(self.tables@).len() && strings(self.tables@)[i] == table@;
                assert(self.tables@[i]@ == self.schema.tables@[i].name@);
            }
        }
        b
    }

    /// Does the trace export this table?
    pub fn table_exists(&self, table: &str) -> (b: bool)
        requires
            self.wf(),
        ensures
            b == self.schema.has(table@),
    {
        self.has_table(table)
    }

    /// Does a table of the trace have the column?
    pub fn table_has_column(&self, table: &str, column: &str) -> (b: bool)
        ensures
            b == self.schema.has_column(table@, column@),
    {
        self.schema.table_has_column(table, column)
    }

    /// Path to `<table>.parquet` in the parquetdir, whether it is there or not.
    pub fn parquet_path(&self, table: &str) -> (path: String)
        ensures
            path@ == joined_path(self.pqtdir_path@, table@ + ".parquet"@),
    {
        let mut file = table.to_owned();
        file.append(".parquet");
        join_path(self.pqtdir_path.as_str(), file.as_str())
    }

    /// Schema adapter picked on open.
    pub fn adapter(&self) -> (adapter: &StandardAdapter)
        ensures
            *adapter == self.adapter,
    {
        &self.adapter
    }

    pub fn adapter_detection_method(&self) -> (method: DetectionMethod)
        ensures
            method == self.detection_method,
    {
        self.detection_method
    }

    /// Heap that decoded source models retain beyond the handle itself.
    /// `retained` is what the metadata cache retains, where it was decoded.
    pub fn additional_resident_memory_estimate_bytes(&self, retained: Option<u64>) -> (bytes: u64)
        ensures
            bytes == match retained {
                Some(of_cache) => of_cache,
                None => 0,
            },
    {
        match retained {
            Some(of_cache) => of_cache,
            None => 0,
        }
    }

    pub fn schema_version(&self) -> (version: Option<&SchemaVersion>)
        ensures
            match version {
                Some(v) => self.schema_version == Some(*v),
                None => self.schema_version is None,
            },
    {
        self.schema_version.as_ref()
    }
}

} // verus!
