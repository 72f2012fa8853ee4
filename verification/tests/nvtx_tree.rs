use arrow::array::{Int32Array, Int64Array, StringArray};
use arrow::datatypes::{DataType, Field, Schema};
use arrow::record_batch::RecordBatch;
use parquet::arrow::ArrowWriter;
use parquet::basic::Compression;
use parquet::file::metadata::KeyValue;
use parquet::file::properties::WriterProperties;
use std::sync::Arc;
use veloq_nsys_data::columns::Batch;
use veloq_nsys_data::fingerprint::SourceFingerprint;
use veloq_nsys_data::nvtx_tree::compute::{compute_from_rows, escape_name_for_path, NvtxRow};
use veloq_nsys_data::nvtx_tree::parquet::{
    decode_records, encode_records, parquet_schema, read_parquet, records_fit, sidecar_is_fresh,
    store_records, write_parquet, KV_VERSION,
};
use veloq_nsys_data::nvtx_tree::{sidecar_path_for, view_sql_for};
use veloq_nsys_data::sidecar::{KV_MTIME, KV_SIZE};
use veloq_nsys_data::{NsysDataError, NvtxTree, NvtxTreeRecord, NVTX_TREE_VERSION};

fn r(rowid: i64, start: i64, end: Option<i64>, tid: i64, domain: i64, name: &str) -> NvtxRow {
    NvtxRow { rowid, start, end, global_tid: tid, domain_id: domain, name: name.to_string() }
}

fn tree_record(
    range_id: i64,
    parent_range_id: Option<i64>,
    depth: i32,
    domain_id: i64,
    name: &str,
    start: i64,
    end: i64,
) -> NvtxTreeRecord {
    NvtxTreeRecord {
        range_id,
        parent_range_id,
        depth,
        domain_id,
        name: name.to_string(),
        path: name.to_string(),
        start,
        end: Some(end),
        duration_ns: Some(end - start),
        global_tid: 7,
    }
}

fn find(records: &[NvtxTreeRecord], range_id: i64) -> &NvtxTreeRecord {
    match records.iter().find(|r| r.range_id == range_id) {
        Some(record) => record,
        None => panic!("range_id {range_id} not present in records"),
    }
}

fn file_of(batch: &RecordBatch, entries: Vec<KeyValue>) -> Vec<u8> {
    let props = WriterProperties::builder()
        .set_compression(Compression::SNAPPY)
        .set_key_value_metadata(Some(entries))
        .build();
    let mut writer =
        ArrowWriter::try_new(Vec::new(), batch.schema(), Some(props)).expect("writer");
    writer.write(batch).expect("write");
    writer.into_inner().expect("close")
}

fn three_records() -> Vec<NvtxTreeRecord> {
    vec![
        NvtxTreeRecord {
            range_id: 1,
            parent_range_id: None,
            depth: 0,
            domain_id: 0,
            name: "outer".into(),
            path: "outer".into(),
            start: 0,
            end: Some(100),
            duration_ns: Some(100),
            global_tid: 7,
        },
        NvtxTreeRecord {
            range_id: 2,
            parent_range_id: Some(1),
            depth: 1,
            domain_id: 0,
            name: "inner".into(),
            path: "outer/inner".into(),
            start: 10,
            end: Some(20),
            duration_ns: Some(10),
            global_tid: 7,
        },
        NvtxTreeRecord {
            range_id: 3,
            parent_range_id: Some(1),
            depth: 1,
            domain_id: 0,
            name: "marker".into(),
            path: "outer/marker".into(),
            start: 50,
            end: None,
            duration_ns: None,
            global_tid: 7,
        },
    ]
}

fn encoded(records: &Vec<NvtxTreeRecord>) -> Batch {
    assert!(records_fit(records));
    encode_records(records).expect("records fit the columns")
}

fn nested_stack_emits_parent_and_path() {
    let rows = vec![r(1, 0, Some(100), 7, 0, "outer"), r(2, 40, Some(60), 7, 0, "inner")];
    let out = compute_from_rows(rows);
    let outer = find(&out, 1);
    let inner = find(&out, 2);
    assert_eq!(outer.parent_range_id, None);
    assert_eq!(outer.depth, 0);
    assert_eq!(outer.path, "outer");
    assert_eq!(inner.parent_range_id, Some(1));
    assert_eq!(inner.depth, 1);
    assert_eq!(inner.path, "outer/inner");
}

#[test]
fn nvtx_tree_nested_stack_emits_parent_and_path() {
    nested_stack_emits_parent_and_path();
}

#[test]
fn tests_nested_stack_emits_parent_and_path() {
    nested_stack_emits_parent_and_path();
}

fn unterminated_range_does_not_push() {
    let rows = vec![
        r(1, 0, Some(100), 7, 0, "outer"),
        r(2, 10, None, 7, 0, "marker"),
        r(3, 20, Some(30), 7, 0, "inner"),
    ];
    let out = compute_from_rows(rows);
    assert_eq!(find(&out, 2).end, None);
    assert_eq!(find(&out, 2).duration_ns, None);
    assert_eq!(find(&out, 2).parent_range_id, Some(1));
    assert_eq!(find(&out, 3).depth, 1);
    assert_eq!(find(&out, 3).parent_range_id, Some(1));
    assert_eq!(find(&out, 3).path, "outer/inner");
}

#[test]
fn nvtx_tree_unterminated_range_does_not_push() {
    unterminated_range_does_not_push();
}

#[test]
fn tests_unterminated_range_does_not_push() {
    unterminated_range_does_not_push();
}

fn per_tid_stacks_are_isolated() {
    let rows = vec![
        r(1, 0, Some(100), 7, 0, "tid7_outer"),
        r(2, 50, Some(80), 7, 0, "tid7_inner"),
        r(3, 10, Some(90), 8, 0, "tid8_outer"),
        r(4, 20, Some(40), 8, 0, "tid8_inner"),
    ];
    let out = compute_from_rows(rows);
    assert_eq!(find(&out, 2).parent_range_id, Some(1));
    assert_eq!(find(&out, 4).parent_range_id, Some(3));
    assert_eq!(find(&out, 2).path, "tid7_outer/tid7_inner");
    assert_eq!(find(&out, 4).path, "tid8_outer/tid8_inner");
}

#[test]
fn nvtx_tree_per_tid_stacks_are_isolated() {
    per_tid_stacks_are_isolated();
}

#[test]
fn tests_per_tid_stacks_are_isolated() {
    per_tid_stacks_are_isolated();
}

fn per_domain_stacks_are_isolated() {
    let rows = vec![
        r(1, 0, Some(100), 7, 1, "domain1_outer"),
        r(2, 10, Some(20), 7, 2, "domain2_outer"),
        r(3, 30, Some(40), 7, 2, "domain2_inner"),
    ];
    let out = compute_from_rows(rows);
    assert_eq!(find(&out, 3).parent_range_id, None);
    assert_eq!(find(&out, 3).depth, 0);
}

#[test]
fn nvtx_tree_per_domain_stacks_are_isolated() {
    per_domain_stacks_are_isolated();
}

#[test]
fn tests_per_domain_stacks_are_isolated() {
    per_domain_stacks_are_isolated();
}

fn touching_boundary_does_not_nest() {
    let rows = vec![r(1, 0, Some(10), 1, 0, "a"), r(2, 10, Some(20), 1, 0, "b")];
    let out = compute_from_rows(rows);
    assert_eq!(find(&out, 2).parent_range_id, None);
    assert_eq!(find(&out, 2).depth, 0);
}

#[test]
fn nvtx_tree_touching_boundary_does_not_nest() {
    touching_boundary_does_not_nest();
}

#[test]
fn tests_touching_boundary_does_not_nest() {
    touching_boundary_does_not_nest();
}

fn slashes_in_names_are_escaped() {
    let rows = vec![r(1, 0, Some(100), 1, 0, "a/b"), r(2, 10, Some(20), 1, 0, "c\\d")];
    let out = compute_from_rows(rows);
    assert_eq!(find(&out, 1).path, r"a\/b");
    assert_eq!(find(&out, 2).path, r"a\/b/c\\d");
}

#[test]
fn nvtx_tree_slashes_in_names_are_escaped() {
    slashes_in_names_are_escaped();
}

#[test]
fn tests_slashes_in_names_are_escaped() {
    slashes_in_names_are_escaped();
}

fn domain_id_defaults_to_zero_when_unknown() {
    let rows = vec![r(1, 0, Some(10), 1, 0, "default")];
    let out = compute_from_rows(rows);
    assert_eq!(find(&out, 1).domain_id, 0);
}

#[test]
fn nvtx_tree_domain_id_defaults_to_zero_when_unknown() {
    domain_id_defaults_to_zero_when_unknown();
}

#[test]
fn tests_domain_id_defaults_to_zero_when_unknown() {
    domain_id_defaults_to_zero_when_unknown();
}

fn parquet_roundtrip_preserves_records() {
    let records = three_records();
    let fp = SourceFingerprint { mtime_secs: 1_234_567_890, size: 4096 };
    assert!(records_fit(&records));
    let bytes = write_parquet(&records, fp, "nvtx_tree.parquet").expect("written");
    assert!(sidecar_is_fresh(bytes.clone(), fp));
    let loaded = read_parquet(bytes, "nvtx_tree.parquet").expect("own columns");
    assert_eq!(loaded, records);
}

#[test]
fn nvtx_tree_parquet_roundtrip_preserves_records() {
    parquet_roundtrip_preserves_records();
}

#[test]
fn tests_parquet_roundtrip_preserves_records() {
    parquet_roundtrip_preserves_records();
}

fn mtime_or_size_change_invalidates_sidecar() {
    let fp = SourceFingerprint { mtime_secs: 100, size: 200 };
    let bytes = write_parquet(&Vec::new(), fp, "nvtx_tree.parquet").expect("written");
    assert!(sidecar_is_fresh(bytes.clone(), fp));
    assert!(!sidecar_is_fresh(bytes.clone(), SourceFingerprint { mtime_secs: 101, size: 200 }));
    assert!(!sidecar_is_fresh(bytes, SourceFingerprint { mtime_secs: 100, size: 201 }));
}

#[test]
fn nvtx_tree_mtime_or_size_change_invalidates_sidecar() {
    mtime_or_size_change_invalidates_sidecar();
}

#[test]
fn tests_mtime_or_size_change_invalidates_sidecar() {
    mtime_or_size_change_invalidates_sidecar();
}

fn version_mismatch_invalidates_sidecar() {
    let entry = |key: &str, value: String| KeyValue { key: key.to_string(), value: Some(value) };
    let kv = |version: u32| {
        vec![
            entry(KV_VERSION, version.to_string()),
            entry(KV_MTIME, "100".to_string()),
            entry(KV_SIZE, "200".to_string()),
        ]
    };
    let batch = encoded(&Vec::new());
    let fp = SourceFingerprint { mtime_secs: 100, size: 200 };
    assert!(!sidecar_is_fresh(file_of(&batch.inner, kv(NVTX_TREE_VERSION + 1)), fp));
    assert!(sidecar_is_fresh(file_of(&batch.inner, kv(NVTX_TREE_VERSION)), fp));
}

#[test]
fn nvtx_tree_version_mismatch_invalidates_sidecar() {
    version_mismatch_invalidates_sidecar();
}

#[test]
fn tests_version_mismatch_invalidates_sidecar() {
    version_mismatch_invalidates_sidecar();
}

fn stack_at_returns_outer_to_inner_chain() {
    let rows = vec![
        r(1, 0, Some(100), 7, 0, "outer"),
        r(2, 40, Some(80), 7, 0, "mid"),
        r(3, 50, Some(60), 7, 0, "inner"),
    ];
    let records = compute_from_rows(rows);
    let tree = NvtxTree::from_records(records);

    let stack = tree.stack_at(7, 55);
    let names: Vec<&str> = stack.iter().map(|r| r.name.as_str()).collect();
    assert_eq!(names, vec!["outer", "mid", "inner"]);

    assert!(tree.stack_at(7, 200).is_empty());
    assert!(tree.stack_at(99, 55).is_empty());
}

#[test]
fn nvtx_tree_stack_at_returns_outer_to_inner_chain() {
    stack_at_returns_outer_to_inner_chain();
}

#[test]
fn tests_stack_at_returns_outer_to_inner_chain() {
    stack_at_returns_outer_to_inner_chain();
}

fn stack_at_returns_one_chain_for_unrelated_covering_ranges() {
    let records = vec![
        tree_record(1, None, 0, 1, "domain1_root", 0, 100),
        tree_record(2, None, 0, 2, "domain2_root", 10, 90),
        tree_record(3, Some(2), 1, 2, "domain2_child", 20, 80),
    ];
    let tree = NvtxTree::from_records(records);

    let stack = tree.stack_at(7, 50);
    let names: Vec<&str> = stack.iter().map(|r| r.name.as_str()).collect();
    assert_eq!(names, vec!["domain2_root", "domain2_child"]);
}

#[test]
fn nvtx_tree_stack_at_returns_one_chain_for_unrelated_covering_ranges() {
    stack_at_returns_one_chain_for_unrelated_covering_ranges();
}

#[test]
fn tests_stack_at_returns_one_chain_for_unrelated_covering_ranges() {
    stack_at_returns_one_chain_for_unrelated_covering_ranges();
}

fn ancestors_walks_parent_chain() {
    let rows = vec![
        r(1, 0, Some(100), 7, 0, "outer"),
        r(2, 40, Some(80), 7, 0, "mid"),
        r(3, 50, Some(60), 7, 0, "inner"),
    ];
    let records = compute_from_rows(rows);
    let tree = NvtxTree::from_records(records);

    let names: Vec<&str> = tree.ancestors(3).iter().map(|r| r.name.as_str()).collect();
    assert_eq!(names, vec!["inner", "mid", "outer"]);
}

#[test]
fn nvtx_tree_ancestors_walks_parent_chain() {
    ancestors_walks_parent_chain();
}

#[test]
fn tests_ancestors_walks_parent_chain() {
    ancestors_walks_parent_chain();
}

#[test]
fn tests_read_parquet_rejects_wrong_column_type_with_typed_error() {
    let schema = Arc::new(Schema::new(vec![
        Field::new("range_id", DataType::Int64, false),
        Field::new("parent_range_id", DataType::Int64, true),
        Field::new("depth", DataType::Int32, false),
        Field::new("domain_id", DataType::Int64, false),
        Field::new("name", DataType::Int64, false),
        Field::new("path", DataType::Utf8, false),
        Field::new("start", DataType::Int64, false),
        Field::new("end", DataType::Int64, true),
        Field::new("duration_ns", DataType::Int64, true),
        Field::new("global_tid", DataType::Int64, false),
    ]));
    let inner = RecordBatch::try_new(
        schema,
        vec![
            Arc::new(Int64Array::from(vec![1])),
            Arc::new(Int64Array::from(vec![None::<i64>])),
            Arc::new(Int32Array::from(vec![0])),
            Arc::new(Int64Array::from(vec![0])),
            Arc::new(Int64Array::from(vec![99])),
            Arc::new(StringArray::from(vec!["outer"])),
            Arc::new(Int64Array::from(vec![0])),
            Arc::new(Int64Array::from(vec![Some(100)])),
            Arc::new(Int64Array::from(vec![Some(100)])),
            Arc::new(Int64Array::from(vec![7])),
        ],
    )
    .expect("batch");

    let err = match read_parquet(file_of(&inner, Vec::new()), "nvtx_tree.parquet") {
        Ok(rows) => panic!("wrong-typed nvtx-tree sidecar should not load: {rows:?}"),
        Err(err) => err,
    };

    assert_eq!(err.code().as_str(), "nsys.data.nvtx-tree-column-type-mismatch");
    match err {
        NsysDataError::NvtxTreeColumnTypeMismatch { column, expected, actual, .. } => {
            assert_eq!(column, "name");
            assert_eq!(expected, "Utf8");
            assert!(actual.contains("Int64"));
        }
        other => panic!("expected NvtxTreeColumnTypeMismatch, got {other:?}"),
    }
}

#[test]
fn tests_read_parquet_rejects_missing_column_with_typed_error() {
    let schema = Arc::new(Schema::new(vec![
        Field::new("range_id", DataType::Int64, false),
        Field::new("parent_range_id", DataType::Int64, true),
        Field::new("depth", DataType::Int32, false),
        Field::new("domain_id", DataType::Int64, false),
        Field::new("name", DataType::Utf8, false),
        Field::new("path", DataType::Utf8, false),
        Field::new("start", DataType::Int64, false),
        Field::new("end", DataType::Int64, true),
        Field::new("duration_ns", DataType::Int64, true),
    ]));
    let inner = RecordBatch::try_new(
        schema,
        vec![
            Arc::new(Int64Array::from(vec![1])),
            Arc::new(Int64Array::from(vec![None::<i64>])),
            Arc::new(Int32Array::from(vec![0])),
            Arc::new(Int64Array::from(vec![0])),
            Arc::new(StringArray::from(vec!["outer"])),
            Arc::new(StringArray::from(vec!["outer"])),
            Arc::new(Int64Array::from(vec![0])),
            Arc::new(Int64Array::from(vec![Some(100)])),
            Arc::new(Int64Array::from(vec![Some(100)])),
        ],
    )
    .expect("batch");

    let err = match read_parquet(file_of(&inner, Vec::new()), "nvtx_tree.parquet") {
        Ok(rows) => panic!("truncated nvtx-tree sidecar should not load: {rows:?}"),
        Err(err) => err,
    };

    assert_eq!(err.code().as_str(), "nsys.data.nvtx-tree-column-missing");
    match err {
        NsysDataError::NvtxTreeColumnMissing { column, .. } => {
            assert_eq!(column, "global_tid");
        }
        other => panic!("expected NvtxTreeColumnMissing, got {other:?}"),
    }
}

#[test]
fn tests_read_parquet_invalid_file_error_is_typed() {
    let err = match read_parquet(b"not a parquet file".to_vec(), "/tmp/bad.parquet") {
        Ok(rows) => panic!("invalid nvtx-tree sidecar should not load: {rows:?}"),
        Err(err) => err,
    };

    assert_eq!(err.code().as_str(), "nsys.data.nvtx-tree-reader-open");
    match err {
        NsysDataError::NvtxTreeReaderOpen { path, source } => {
            assert!(path.contains("bad.parquet"));
            assert!(!source.is_empty());
        }
        other => panic!("expected NvtxTreeReaderOpen, got {other:?}"),
    }
    let fp = SourceFingerprint { mtime_secs: 100, size: 200 };
    assert!(!sidecar_is_fresh(b"not a parquet file".to_vec(), fp));
}

#[test]
fn long_trees_read_back_over_several_batches() {
    let records: Vec<NvtxTreeRecord> = (0..3000)
        .map(|i| {
            let mut record = tree_record(i, None, 0, 0, &format!("range {i}"), i, i + 5);
            record.end = if i % 3 == 0 { None } else { record.end };
            record
        })
        .collect();
    let fp = SourceFingerprint { mtime_secs: -5, size: 7 };
    assert!(records_fit(&records));
    let bytes = write_parquet(&records, fp, "nvtx_tree.parquet").expect("written");
    assert!(sidecar_is_fresh(bytes.clone(), fp));
    assert_eq!(read_parquet(bytes, "nvtx_tree.parquet").expect("own columns"), records);
}

#[test]
fn a_damaged_file_is_a_batch_read_error() {
    let records: Vec<NvtxTreeRecord> =
        (0..3000).map(|i| tree_record(i, None, 0, 0, "range", i, i + 5)).collect();
    let fp = SourceFingerprint { mtime_secs: 1, size: 2 };
    let mut bytes = write_parquet(&records, fp, "nvtx_tree.parquet").expect("written");
    for byte in bytes[4..64].iter_mut() {
        *byte = 0xff;
    }
    assert!(sidecar_is_fresh(bytes.clone(), fp));
    let err = read_parquet(bytes, "nvtx_tree.parquet").expect_err("damaged pages");
    assert_eq!(err.code().as_str(), "nsys.data.nvtx-tree-batch-read");
}

#[test]
fn encoded_tree_has_the_columns_of_its_schema() {
    let batch = encoded(&three_records());
    let fields = parquet_schema();
    assert_eq!(batch.inner.num_rows(), 3);
    assert_eq!(batch.inner.num_columns(), fields.len());
    for (i, field) in fields.iter().enumerate() {
        let schema = batch.inner.schema();
        assert_eq!(schema.field(i).name(), &field.name);
        assert_eq!(schema.field(i).is_nullable(), field.nullable);
    }
    let nulls: Vec<usize> = batch.inner.columns().iter().map(|c| c.null_count()).collect();
    assert_eq!(nulls, vec![0, 1, 0, 0, 0, 0, 0, 1, 1, 0]);
}

#[test]
fn several_batches_read_in_order() {
    let records = three_records();
    let first = encoded(&records[..1].to_vec());
    let rest = encoded(&records[1..].to_vec());
    let none = encoded(&Vec::new());
    let loaded =
        decode_records(&vec![first, none, rest], "nvtx_tree.parquet").expect("own columns");
    assert_eq!(loaded, records);
}

#[test]
fn tree_rows_come_by_start_and_depth() {
    let out = compute_from_rows(vec![
        r(5, 50, Some(60), 9, 0, "late"),
        r(1, 0, Some(100), 7, 0, "outer"),
        r(2, 0, Some(40), 7, 0, "inner"),
    ]);
    let ids: Vec<i64> = out.iter().map(|r| r.range_id).collect();
    assert_eq!(ids, vec![1, 2, 5]);
    assert_eq!(find(&out, 2).parent_range_id, Some(1));
    assert_eq!(find(&out, 1).duration_ns, Some(100));
}

#[test]
fn escaped_names_hold_no_bare_separator() {
    assert_eq!(escape_name_for_path("plain"), "plain");
    assert_eq!(escape_name_for_path("a/b\\c"), r"a\/b\\c");
}

#[test]
fn trees_are_found_by_range_id() {
    let tree = NvtxTree::from_records(three_records());
    assert_eq!(tree.len(), 3);
    assert!(!tree.is_empty());
    assert_eq!(tree.get(2).map(|r| r.path.as_str()), Some("outer/inner"));
    assert!(tree.get(9).is_none());
    assert_eq!(tree.records().len(), 3);
    assert!(NvtxTree::empty().is_empty());
    assert!(tree.ancestors(9).is_empty());
}

#[test]
fn tree_sidecar_paths_and_views() {
    assert_eq!(sidecar_path_for("/tmp/t_pqtdir"), "/tmp/t_pqtdir.veloq/nvtx-tree.parquet");
    assert_eq!(
        view_sql_for("/tmp/it's.parquet"),
        "CREATE OR REPLACE VIEW nsight.nvtx_tree AS SELECT (file_row_number + 1) AS rowid, * \
         FROM read_parquet('/tmp/it''s.parquet', file_row_number = true)"
    );
}

#[test]
fn paths_follow_parents_that_are_deeper() {
    let records = compute_from_rows(vec![
        r(1, 0, Some(10), 7, 0, "a"),
        r(2, 1, Some(11), 7, 0, "b"),
        r(3, 2, Some(100), 7, 0, "p"),
        r(4, 50, Some(60), 7, 0, "c"),
    ]);
    let p = find(&records, 3);
    assert_eq!((p.parent_range_id, p.depth, p.path.as_str()), (Some(1), 2, "a/p"));
    let c = find(&records, 4);
    assert_eq!((c.parent_range_id, c.depth, c.path.as_str()), (Some(3), 1, "a/p/c"));
}

#[test]
fn parents_close_together_with_their_own_parents() {
    let records = compute_from_rows(vec![
        r(1, 0, Some(100), 7, 0, "a"),
        r(2, 10, Some(100), 7, 0, "b"),
        r(3, 20, Some(30), 7, 0, "c"),
    ]);
    assert_eq!(find(&records, 3).parent_range_id, Some(2));
    assert_eq!(find(&records, 3).path, "a/b/c");
}

#[test]
fn other_lanes_change_nothing() {
    let lane = vec![r(1, 0, Some(100), 7, 0, "a"), r(2, 10, Some(20), 7, 0, "b")];
    let mut rows = vec![r(8, 5, Some(50), 9, 0, "x")];
    rows.extend(lane.clone());
    rows.push(r(9, 6, Some(60), 7, 3, "y"));
    let mine: Vec<NvtxTreeRecord> = compute_from_rows(rows)
        .into_iter()
        .filter(|r| r.global_tid == 7 && r.domain_id == 0)
        .collect();
    assert_eq!(mine, compute_from_rows(lane));
}

#[test]
fn stored_trees_read_back_and_are_fresh() {
    let records = three_records();
    let fp = SourceFingerprint { mtime_secs: 3, size: 4 };
    let stored = store_records(&records, fp, "nvtx_tree.parquet").expect("written");
    assert!(stored.fresh);
    assert_eq!(stored.records, records);
    assert_eq!(stored.bytes, write_parquet(&records, fp, "elsewhere").expect("written"));
    assert!(stored.bytes.starts_with(b"PAR1") && stored.bytes.ends_with(b"PAR1"));
}
