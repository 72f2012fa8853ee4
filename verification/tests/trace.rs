use veloq_nsys_data::adapter::{DetectionMethod, MetaDataRow, SchemaVersion};
use veloq_nsys_data::meta_cache::{build, path_for, trace_span};
use veloq_nsys_data::nsys_rep::resolve_trace;
use veloq_nsys_data::schema::{TableColumns, TraceSchema};
use veloq_nsys_data::trace::{
    all_event_tables, is_event_table, is_primary_table, read_origins, resolve_thread_count,
    resolve_window, retained_bytes, sample_span, sample_table_specs, table_spans, TableExtent,
};
use veloq_nsys_data::views::{
    count_sql, event_span_sql, memory_limit_sql, parquet_view_sql, quote_sql_identifier, span_sql,
    table_files, threads_sql,
};
use veloq_nsys_data::{NvtxNesting, TimeSpan, Trace, TraceOrigins};

fn schema(tables: &[(&str, &[&str])]) -> TraceSchema {
    TraceSchema {
        tables: tables
            .iter()
            .map(|(name, columns)| TableColumns {
                name: name.to_string(),
                columns: columns.iter().map(|c| c.to_string()).collect(),
            })
            .collect(),
    }
}

fn opened() -> Trace {
    let resolved = resolve_trace("/data/t.nsys-rep", true).expect("report");
    let version = SchemaVersion {
        major: 3,
        minor: 22,
        micro: 1,
        product_version: None,
        product_date: None,
    };
    Trace::open(
        resolved,
        schema(&[
            ("CUPTI_ACTIVITY_KIND_KERNEL", &["start", "end"]),
            ("StringIds", &["id", "value"]),
        ]),
        Some(version),
        4,
    )
    .expect("canonical columns")
}

fn extent(table: &str, first_ns: Option<i64>, last_ns: Option<i64>) -> TableExtent {
    TableExtent { table: table.to_string(), first_ns, last_ns }
}

#[test]
fn open_parquet_filename_with_quote_creates_quoted_view() {
    let quoted_table = "ODD\"TABLE";
    let files = table_files(&vec![
        "CUPTI_ACTIVITY_KIND_KERNEL.parquet".to_string(),
        format!("{quoted_table}.parquet"),
    ]);
    let tables: Vec<&str> = files.iter().map(|f| f.table.as_str()).collect();
    assert!(tables.contains(&quoted_table));
    assert_eq!(quote_sql_identifier(quoted_table), r#""ODD""TABLE""#);
}

#[test]
fn table_files_are_the_parquet_files_by_name() {
    let names = ["B.parquet", "A_B.parquet", "notes.txt", ".parquet", "A.parquet", "C.parquet.tmp"];
    let files = table_files(&names.iter().map(|n| n.to_string()).collect());
    let got: Vec<(&str, &str)> =
        files.iter().map(|f| (f.file.as_str(), f.table.as_str())).collect();
    assert_eq!(
        got,
        vec![("A.parquet", "A"), ("A_B.parquet", "A_B"), ("B.parquet", "B")]
    );
}

#[test]
fn views_number_their_rows_from_one() {
    assert_eq!(
        parquet_view_sql("T", "/d/it's/T.parquet"),
        "CREATE OR REPLACE VIEW nsight.\"T\" AS SELECT (file_row_number + 1) AS rowid, * \
         FROM read_parquet('/d/it''s/T.parquet', file_row_number = true)"
    );
    assert_eq!(threads_sql(8), "PRAGMA threads=8");
    assert_eq!(memory_limit_sql(1024), "SET memory_limit = '1024B'");
    assert_eq!(
        event_span_sql("OSRT_API"),
        "SELECT MIN(start), MAX(COALESCE(\"end\", start)) FROM nsight.\"OSRT_API\""
    );
    assert_eq!(
        span_sql("timestamp", "timestamp", "GPU_METRICS"),
        "SELECT MIN(timestamp), MAX(timestamp) FROM nsight.\"GPU_METRICS\""
    );
    assert_eq!(count_sql("A\"B"), "SELECT COUNT(*) FROM nsight.\"A\"\"B\"");
}

#[test]
fn opened_traces_know_their_tables() {
    let trace = opened();
    assert_eq!(trace.path(), "/data/t.nsys-rep");
    assert_eq!(trace.pqtdir_path(), "/data/t.nsys-rep.veloq/parquetdir");
    assert_eq!(trace.tables(), &["CUPTI_ACTIVITY_KIND_KERNEL", "StringIds"]);
    assert_eq!(trace.list_tables(), vec!["CUPTI_ACTIVITY_KIND_KERNEL", "StringIds"]);
    assert!(trace.has_table("StringIds"));
    assert!(!trace.table_exists("OSRT_API"));
    assert!(trace.table_has_column("StringIds", "value"));
    assert!(!trace.table_has_column("StringIds", "start"));
    assert_eq!(
        trace.parquet_path("StringIds"),
        "/data/t.nsys-rep.veloq/parquetdir/StringIds.parquet"
    );
    assert_eq!(trace.adapter_detection_method(), DetectionMethod::VersionMatch);
    assert_eq!(trace.schema_version().map(|v| v.major), Some(3));
    assert_eq!(trace.query_worker_count(), 4);
    assert_eq!(trace.additional_resident_memory_estimate_bytes(None), 0);
    assert_eq!(trace.additional_resident_memory_estimate_bytes(Some(77)), 77);
}

#[test]
fn traces_without_canonical_tables_do_not_open() {
    let resolved = resolve_trace("/data/t_pqtdir", true).expect("direct");
    let err = Trace::open(resolved, schema(&[]), None, 1).expect_err("no tables");
    assert_eq!(err.code().as_str(), "nsys.data.schema-adapter-unmatched");
}

#[test]
fn origins_come_from_the_event_tables() {
    let events = vec![
        extent("CUPTI_ACTIVITY_KIND_KERNEL", Some(100), Some(200)),
        extent("CUPTI_ACTIVITY_KIND_MEMCPY", Some(90), Some(150)),
        extent("CUPTI_ACTIVITY_KIND_MEMSET", None, None),
        extent("OSRT_API", Some(5), Some(500)),
    ];
    let samples = vec![extent("GPU_METRICS", Some(1), Some(1000))];
    let (origins, spans) = read_origins(&events, &samples);
    assert_eq!(origins.primary, TimeSpan { start_ns: 90, end_ns: 200 });
    assert_eq!(origins.full, TimeSpan { start_ns: 5, end_ns: 500 });
    assert_eq!(spans.len(), 3);
    assert_eq!(spans[2].table, "OSRT_API");
    assert_eq!(table_spans(&events).len(), 3);
}

#[test]
fn origins_without_primary_events_are_the_full_span() {
    let (origins, _) = read_origins(&vec![extent("NVTX_EVENTS", Some(3), Some(8))], &Vec::new());
    assert_eq!(origins.primary, TimeSpan { start_ns: 3, end_ns: 8 });
    assert_eq!(origins.full, origins.primary);
}

#[test]
fn samples_stand_in_where_no_event_happened() {
    let samples = vec![
        extent("GPU_METRICS", Some(10), Some(20)),
        extent("SCHED_EVENTS", Some(5), Some(15)),
        extent("COMPOSITE_EVENTS", None, None),
    ];
    assert_eq!(sample_span(&samples), Some(TimeSpan { start_ns: 5, end_ns: 20 }));
    let (origins, spans) = read_origins(&Vec::new(), &samples);
    assert_eq!(origins.full, TimeSpan { start_ns: 5, end_ns: 20 });
    assert!(spans.is_empty());
    let (origins, _) = read_origins(&Vec::new(), &Vec::new());
    assert_eq!(origins, TraceOrigins::default());
    assert_eq!(sample_table_specs().len(), 4);
    assert_eq!(sample_table_specs()[1].max_expr, "COALESCE(\"end\", start)");
}

#[test]
fn event_tables_are_listed_primary_first() {
    let tables = all_event_tables();
    assert_eq!(tables.len(), 7);
    assert!(tables.iter().all(|t| is_event_table(t)));
    assert_eq!(tables.iter().filter(|t| is_primary_table(t)).count(), 5);
    assert!(!is_event_table("GPU_METRICS"));
}

#[test]
fn spans_have_lengths() {
    assert_eq!(TimeSpan { start_ns: 10, end_ns: 25 }.duration_ns(), 15);
    assert_eq!(TimeSpan::default().duration_ns(), 0);
}

#[test]
fn empty_windows_are_typed_errors() {
    assert!(resolve_window(None).expect("none").is_none());
    assert_eq!(resolve_window(Some(Ok((10, 20)))).expect("window"), Some((10, 20)));
    let err = resolve_window(Some(Err("10 is past 5".to_string()))).expect_err("empty");
    assert_eq!(err.code().as_str(), "nsys.data.time-range-empty");
}

#[test]
fn thread_counts_follow_the_setting() {
    assert_eq!(resolve_thread_count(Some(" 6 "), 2), 6);
    assert_eq!(resolve_thread_count(Some("0"), 2), 2);
    assert_eq!(resolve_thread_count(Some("many"), 2), 2);
    assert_eq!(resolve_thread_count(None, 2), 2);
    assert_eq!(retained_bytes(5), 5);
    assert_eq!(retained_bytes(-1), u64::MAX);
}

#[test]
fn metadata_is_cached_from_the_rows() {
    let trace = opened();
    let row = |name: &str, value: &str| MetaDataRow {
        name: name.to_string(),
        value: value.to_string(),
    };
    let rows = vec![
        row("OTHER", "x"),
        row("EXPORT_PRODUCT_VERSION", "2025.4.1.136"),
        row("EXPORT_PRODUCT_VERSION", "later"),
    ];
    let (origins, spans) = read_origins(
        &vec![extent("CUPTI_ACTIVITY_KIND_KERNEL", Some(100), Some(200))],
        &Vec::new(),
    );
    let cache =
        build(&trace, &rows, Vec::new(), origins, &spans, &vec![17], NvtxNesting::new());
    assert_eq!(cache.product_version.as_deref(), Some("2025.4.1.136"));
    assert_eq!(cache.schema_version.as_ref().map(|v| v.minor), Some(22));
    assert!(cache.capabilities.has_kernels);
    assert!(!cache.capabilities.has_nvtx);
    assert_eq!(cache.available_tables, vec!["CUPTI_ACTIVITY_KIND_KERNEL", "StringIds"]);
    assert_eq!(cache.per_table.len(), 1);
    assert_eq!(cache.per_table[0].name, "CUPTI_ACTIVITY_KIND_KERNEL");
    assert_eq!(cache.per_table[0].row_count, 17);
    assert_eq!((cache.per_table[0].start_ns, cache.per_table[0].end_ns), (100, 200));
    let span = trace_span(Some(&cache)).expect("cached");
    assert_eq!((span.origin_ns, span.span_ns), (100, 100));
    assert!(trace_span(None).is_none());
    let empty = build(
        &trace,
        &vec![row("EXPORT_PRODUCT_VERSION", "")],
        Vec::new(),
        TraceOrigins::default(),
        &Vec::new(),
        &Vec::new(),
        NvtxNesting::new(),
    );
    assert_eq!(empty.product_version, None);
}

#[test]
fn metadata_of_an_alias_is_that_of_its_report() {
    assert_eq!(path_for("/data/t.nsys-rep"), "/data/t.nsys-rep.veloq/meta.bin");
    assert_eq!(
        path_for("/data/t.nsys-rep.veloq/parquetdir"),
        "/data/t.nsys-rep.veloq/meta.bin"
    );
}
