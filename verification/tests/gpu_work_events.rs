use veloq_nsys_data::columns::Batch;
use veloq_nsys_data::gpu_work::{gpu_work_interval_columns, gpu_work_interval_kinds};
use veloq_nsys_data::gpu_work_events::parquet::{
    decode_records, encode_records, format_version_on_disk, parquet_schema, read_parquet,
    records_fit, sidecar_is_fresh, store_records, stored_version, write_parquet, KV_VERSION,
};
use veloq_nsys_data::gpu_work_events::{
    compute, rows_sql, sidecar_path_for, view_sql_for, GpuWorkRow, GpuWorkTable,
};
use veloq_nsys_data::sidecar::{find_version, freshness_kv};
use veloq_nsys_data::fingerprint::SourceFingerprint;
use veloq_nsys_data::{GpuWorkEventRecord, GPU_WORK_EVENTS_VERSION};

fn row(row_id: i64, device_id: i32, stream_id: i64, start_ns: i64, end_ns: i64) -> GpuWorkRow {
    GpuWorkRow { row_id, device_id, stream_id, start_ns, end_ns }
}

fn tables(rows: Vec<Vec<GpuWorkRow>>) -> Vec<GpuWorkTable> {
    gpu_work_interval_kinds()
        .into_iter()
        .zip(rows)
        .map(|(kind, rows)| GpuWorkTable { kind, rows })
        .collect()
}

fn four_events() -> Vec<GpuWorkEventRecord> {
    compute(&tables(vec![
        vec![row(1, 0, 7, 100, 110)],
        vec![row(1, 0, 0, 120, 130)],
        vec![row(1, 1, 9, 90, 95)],
        vec![row(1, 0, 23, 140, 150)],
    ]))
}

#[test]
fn events_of_every_kind_are_collected_by_start() {
    let records = four_events();
    let kinds: Vec<&str> = records.iter().map(|r| r.kind.as_str()).collect();
    assert_eq!(kinds, vec!["memset", "kernel", "memcpy", "graph"]);
    let memcpy = records.iter().find(|r| r.kind == "memcpy").expect("memcpy");
    assert_eq!(memcpy.stream_id, 0);
    let graph = records.iter().find(|r| r.kind == "graph").expect("graph");
    assert_eq!(graph.device_id, 0);
    assert_eq!(graph.stream_id, 23);
}

#[test]
fn ties_go_by_device_stream_kind_and_row() {
    let records = compute(&tables(vec![
        vec![row(9, 0, 1, 5, 6), row(3, 0, 1, 5, 6)],
        vec![row(1, 0, 1, 5, 6)],
        vec![row(1, 0, 0, 5, 6)],
        vec![row(1, -1, 9, 5, 6), row(2, 0, 1, 5, 6)],
    ]));
    let got: Vec<(&str, i64)> = records.iter().map(|r| (r.kind.as_str(), r.row_id)).collect();
    assert_eq!(
        got,
        vec![
            ("graph", 1),
            ("memset", 1),
            ("graph", 2),
            ("kernel", 3),
            ("kernel", 9),
            ("memcpy", 1),
        ]
    );
}

#[test]
fn events_survive_their_columns() {
    let records = four_events();
    assert!(records_fit(&records));
    let batch: Batch = encode_records(&records).expect("records fit the columns");
    assert_eq!(batch.inner.num_columns(), parquet_schema().len());
    let loaded = decode_records(&vec![batch], "gpu-work-events.parquet").expect("own columns");
    assert_eq!(loaded, records);
}

#[test]
fn written_events_read_back_and_name_their_source() {
    let records = four_events();
    let fp = SourceFingerprint { mtime_secs: 12, size: 34 };
    let bytes = write_parquet(&records, fp, "gpu-work-events.parquet").expect("written");
    assert!(sidecar_is_fresh(bytes.clone(), fp));
    assert!(!sidecar_is_fresh(bytes.clone(), SourceFingerprint { mtime_secs: 12, size: 35 }));
    assert_eq!(format_version_on_disk(bytes.clone()), Some(GPU_WORK_EVENTS_VERSION));
    assert_eq!(read_parquet(bytes, "gpu-work-events.parquet").expect("own columns"), records);
}

#[test]
fn files_that_are_no_parquet_have_no_events() {
    let bytes = || b"not a parquet file".to_vec();
    let err = read_parquet(bytes(), "bad.parquet").expect_err("no parquet");
    assert_eq!(err.code().as_str(), "nsys.data.gpu-work-events-reader-open");
    assert!(err.message().contains("bad.parquet"), "{}", err.message());
    assert_eq!(format_version_on_disk(bytes()), None);
    assert!(!sidecar_is_fresh(bytes(), SourceFingerprint { mtime_secs: 0, size: 0 }));
}

#[test]
fn foreign_columns_are_typed_errors() {
    let tree = veloq_nsys_data::nvtx_tree::parquet::encode_records(&Vec::new()).expect("empty");
    let err = decode_records(&vec![tree], "gpu-work-events.parquet").expect_err("other columns");
    assert_eq!(err.code().as_str(), "nsys.data.gpu-work-events-column-type-mismatch");
    assert!(err.message().contains("kind"), "{}", err.message());
}

#[test]
fn work_tables_and_their_columns() {
    let columns = gpu_work_interval_columns();
    assert_eq!(
        (columns.start_ns, columns.end_ns, columns.device_id, columns.stream_id),
        ("start", "end", "deviceId", "streamId")
    );
    let kinds = gpu_work_interval_kinds();
    let labels: Vec<&str> = kinds.iter().map(|k| k.label).collect();
    assert_eq!(labels, vec!["kernel", "memcpy", "memset", "graph"]);
    assert_eq!(kinds[3].table, "CUPTI_ACTIVITY_KIND_GRAPH_TRACE");
}

#[test]
fn work_sidecar_paths_views_and_queries() {
    assert_eq!(sidecar_path_for("/t_pqtdir"), "/t_pqtdir.veloq/gpu-work-events.parquet");
    assert!(view_sql_for("/x").starts_with("CREATE OR REPLACE VIEW nsight.gpu_work_events AS "));
    let sql = rows_sql("CUPTI_ACTIVITY_KIND_KERNEL");
    assert!(sql.contains("FROM nsight.\"CUPTI_ACTIVITY_KIND_KERNEL\" t"), "{sql}");
    assert!(sql.contains("CAST(COALESCE(t.streamId, 0) AS BIGINT) AS stream_id"), "{sql}");
}

#[test]
fn versions_are_found_in_the_metadata() {
    let fp = SourceFingerprint { mtime_secs: -1, size: 2 };
    let entries = freshness_kv(KV_VERSION, GPU_WORK_EVENTS_VERSION, fp);
    assert_eq!(find_version(&entries, KV_VERSION), Some(1));
    assert_eq!(find_version(&entries, "other"), None);
}

#[test]
fn stored_events_read_back_and_are_fresh() {
    let records = four_events();
    let fp = SourceFingerprint { mtime_secs: 3, size: 4 };
    let stored = store_records(&records, fp, "gpu-work-events.parquet").expect("written");
    assert!(stored.fresh);
    assert_eq!(stored.records, records);
    let version = stored_version(&records, fp, "gpu-work-events.parquet").expect("written");
    assert_eq!(version, Some(GPU_WORK_EVENTS_VERSION));
}
