use arrow::array::{
    ArrayRef, Int32Array, Int64Array, Int64Builder, ListBuilder, StringArray, StringBuilder,
    UInt32Array, UInt64Array,
};
use arrow::datatypes::{DataType, Field, Schema};
use arrow::record_batch::RecordBatch;
use parquet::arrow::ArrowWriter;
use std::collections::HashMap;
use std::sync::Arc;
use veloq_nsys_data::columns::{Batch, Column};
use veloq_nsys_data::cuda_identity::{ContextRow, ProcessRow};
use veloq_nsys_data::fingerprint::SourceFingerprint;
use veloq_nsys_data::keymap::PairMap;
use veloq_nsys_data::runtime_nvtx_parent::compute::{
    compute, group_by_tid, merge_dev_ctx, walk, NvtxRangeRow, NvtxThreadRow, RuntimeRow,
};
use veloq_nsys_data::runtime_nvtx_parent::gpu_activity::{
    collect_runtime_dev_ctx, gpu_activity_tables, parquet_integer_i64, read_gpu_dev_ctx,
    read_gpu_dev_ctx_parquet, stored_gpu_dev_ctx, ActivityTable, DevCtxMap, DevCtxValue,
    GpuActivityRow,
};
use veloq_nsys_data::runtime_nvtx_parent::parquet::{
    decode_records, encode_records, read_parquet, records_fit, sidecar_is_fresh, store_records,
    write_parquet,
};
use veloq_nsys_data::runtime_nvtx_parent::sidecar_path_for;
use veloq_nsys_data::{
    CudaProcessResolver, EnclosingNvtx, NsysDataError, RuntimeNvtxParent, RuntimeParentEntry,
};

fn n(rowid: i64, start: i64, end: i64, name: &str) -> NvtxRangeRow {
    NvtxRangeRow { rowid, start, end, name: name.to_string() }
}

fn rt(rowid: i64, corr: Option<i64>, pid: i64, tid: i64, start: i64, end: i64) -> RuntimeRow {
    RuntimeRow {
        rowid,
        correlation_id: corr,
        native_pid: pid,
        global_tid: tid,
        start,
        end,
        device_id: None,
        context_id: None,
    }
}

fn enclosing(rowid: i64, name: &str) -> EnclosingNvtx {
    EnclosingNvtx { nvtx_rowid: rowid, nvtx_name: name.to_string() }
}

fn batch(fields: Vec<Field>, columns: Vec<ArrayRef>) -> Batch {
    let inner = RecordBatch::try_new(Arc::new(Schema::new(fields)), columns).expect("batch");
    Batch { inner }
}

fn file_of(batch: &Batch) -> Vec<u8> {
    let mut writer =
        ArrowWriter::try_new(Vec::new(), batch.inner.schema(), None).expect("writer");
    writer.write(&batch.inner).expect("write");
    writer.into_inner().expect("close")
}

fn names(batch: &Batch) -> Vec<String> {
    batch.inner.schema().fields().iter().map(|f| f.name().to_string()).collect()
}

fn rowid_lists(lists: Vec<Vec<i64>>) -> ArrayRef {
    let mut builder: ListBuilder<Int64Builder> = ListBuilder::new(Int64Builder::new());
    for list in lists {
        for value in list {
            builder.values().append_value(value);
        }
        builder.append(true);
    }
    Arc::new(builder.finish())
}

fn name_lists(lists: Vec<Vec<&str>>) -> ArrayRef {
    let mut builder: ListBuilder<StringBuilder> = ListBuilder::new(StringBuilder::new());
    for list in lists {
        for value in list {
            builder.values().append_value(value);
        }
        builder.append(true);
    }
    Arc::new(builder.finish())
}

fn list_of(item: DataType) -> DataType {
    DataType::List(Arc::new(Field::new("item", item, true)))
}

fn sidecar_fields() -> Vec<Field> {
    vec![
        Field::new("rt_rowid", DataType::Int64, false),
        Field::new("correlation_id", DataType::Int64, true),
        Field::new("native_pid", DataType::Int64, false),
        Field::new("device_id", DataType::Int32, true),
        Field::new("context_id", DataType::Int64, true),
        Field::new("nvtx_rowids", list_of(DataType::Int64), false),
        Field::new("nvtx_names", list_of(DataType::Utf8), false),
    ]
}

fn walk_collects_outer_to_inner_for_nested_ranges() {
    let mut by_tid = HashMap::new();
    by_tid.insert(7, vec![n(1, 0, 100, "outer"), n(2, 40, 60, "inner")]);
    let out = walk(&by_tid, &[rt(10, Some(999), 42, 7, 45, 55)]);
    let first = out.first().expect("expected one entry");
    assert_eq!(first.enclosing.len(), 2);
    let outer = first.enclosing.first().expect("missing outer");
    assert_eq!(outer.nvtx_name, "outer");
    assert_eq!(outer.nvtx_rowid, 1);
    let innermost = first.innermost().expect("missing inner");
    assert_eq!(innermost.nvtx_name, "inner");
    assert_eq!(innermost.nvtx_rowid, 2);
}

#[test]
fn runtime_nvtx_parent_walk_collects_outer_to_inner_for_nested_ranges() {
    walk_collects_outer_to_inner_for_nested_ranges();
}

#[test]
fn tests_walk_collects_outer_to_inner_for_nested_ranges() {
    walk_collects_outer_to_inner_for_nested_ranges();
}

fn walk_orders_same_start_by_end_desc() {
    let mut by_tid = HashMap::new();
    by_tid.insert(7, vec![n(1, 0, 100, "outer"), n(2, 0, 60, "inner")]);
    let out = walk(&by_tid, &[rt(10, Some(999), 42, 7, 30, 50)]);
    let first = out.first().expect("expected one entry");
    assert_eq!(first.enclosing.len(), 2);
    let outer = first.enclosing.first().expect("missing outer");
    assert_eq!(outer.nvtx_name, "outer", "outer must come first");
    let innermost = first.innermost().expect("missing innermost");
    assert_eq!(innermost.nvtx_name, "inner", "innermost must be tighter range");
}

#[test]
fn runtime_nvtx_parent_walk_orders_same_start_by_end_desc() {
    walk_orders_same_start_by_end_desc();
}

#[test]
fn tests_walk_orders_same_start_by_end_desc() {
    walk_orders_same_start_by_end_desc();
}

fn walk_skips_partial_overlap() {
    let mut by_tid = HashMap::new();
    by_tid.insert(7, vec![n(1, 0, 100, "outer")]);
    let out = walk(&by_tid, &[rt(10, Some(999), 42, 7, 50, 150)]);
    assert!(out.is_empty());
}

#[test]
fn runtime_nvtx_parent_walk_skips_partial_overlap() {
    walk_skips_partial_overlap();
}

#[test]
fn tests_walk_skips_partial_overlap() {
    walk_skips_partial_overlap();
}

fn any_enclosing_name_matches_outer_when_innermost_does_not() {
    let mut by_tid = HashMap::new();
    by_tid.insert(7, vec![n(1, 0, 100, "training_step"), n(2, 40, 60, "fwd_pass")]);
    let out = walk(&by_tid, &[rt(10, Some(999), 42, 7, 45, 55)]);
    let first = out.first().expect("expected one entry");
    assert!(first.any_enclosing_name(|n: &str| n.starts_with("training")));
    assert!(first.any_enclosing_name(|n: &str| n == "fwd_pass"));
    assert!(!first.any_enclosing_name(|n: &str| n.starts_with("eval")));
}

#[test]
fn runtime_nvtx_parent_any_enclosing_name_matches_outer_when_innermost_does_not() {
    any_enclosing_name_matches_outer_when_innermost_does_not();
}

#[test]
fn tests_any_enclosing_name_matches_outer_when_innermost_does_not() {
    any_enclosing_name_matches_outer_when_innermost_does_not();
}

fn parquet_roundtrip_preserves_entries() {
    let records = vec![
        RuntimeParentEntry {
            rt_rowid: 1,
            correlation_id: Some(100),
            native_pid: 42,
            device_id: Some(0),
            context_id: Some(1),
            enclosing: vec![enclosing(11, "iter_42"), enclosing(12, "step_a")],
        },
        RuntimeParentEntry {
            rt_rowid: 2,
            correlation_id: Some(101),
            native_pid: 42,
            device_id: Some(0),
            context_id: Some(1),
            enclosing: vec![enclosing(11, "iter_42")],
        },
        RuntimeParentEntry {
            rt_rowid: 3,
            correlation_id: None,
            native_pid: 99,
            device_id: None,
            context_id: None,
            enclosing: vec![enclosing(21, "step_b")],
        },
    ];
    let fp = SourceFingerprint { mtime_secs: 1234567890, size: 4096 };
    assert!(records_fit(&records));
    let bytes = write_parquet(&records, fp, "rtnvtx.parquet").expect("written");
    assert!(sidecar_is_fresh(bytes.clone(), fp));
    let bumped = SourceFingerprint { mtime_secs: 1234567891, size: 4096 };
    assert!(!sidecar_is_fresh(bytes.clone(), bumped), "mtime-change must invalidate");
    let loaded = read_parquet(bytes, "rtnvtx.parquet").expect("own columns");
    assert_eq!(loaded, records);
    let batch = encode_records(&records).expect("records fit the columns");
    assert_eq!(decode_records(&vec![batch], "rtnvtx.parquet").expect("own columns"), records);
}

#[test]
fn runtime_nvtx_parent_parquet_roundtrip_preserves_records() {
    parquet_roundtrip_preserves_entries();
}

fn gpu_dev_ctx_reader_accepts_unsigned_nsys_integer_columns() {
    let gpu = batch(
        vec![
            Field::new("correlationId", DataType::UInt32, true),
            Field::new("deviceId", DataType::UInt32, true),
            Field::new("contextId", DataType::UInt64, true),
        ],
        vec![
            Arc::new(UInt32Array::from(vec![Some(77_u32), Some(88_u32)])),
            Arc::new(UInt32Array::from(vec![Some(0_u32), Some(1_u32)])),
            Arc::new(UInt64Array::from(vec![Some(123_u64), Some(999_u64)])),
        ],
    );
    let mut ctx_for_pid: PairMap<Vec<i64>> = PairMap::new();
    ctx_for_pid.insert(0, 123, vec![4242]);
    let out = read_gpu_dev_ctx_parquet(file_of(&gpu), "gpu.parquet", &ctx_for_pid)
        .expect("integers of any width");
    assert_eq!(out.get(4242, 77), Some(&DevCtxValue::Single((0, 123))));
    assert!(
        out.get(4242, 88).is_none(),
        "unmapped unsigned context should not produce an entry"
    );
}

#[test]
fn runtime_nvtx_parent_gpu_dev_ctx_reader_accepts_unsigned_nsys_integer_columns() {
    gpu_dev_ctx_reader_accepts_unsigned_nsys_integer_columns();
}

#[test]
fn tests_gpu_dev_ctx_reader_accepts_unsigned_nsys_integer_columns() {
    gpu_dev_ctx_reader_accepts_unsigned_nsys_integer_columns();
}

fn none_correlation_is_absent_from_by_correlation_map() {
    let records = vec![
        RuntimeParentEntry {
            rt_rowid: 1,
            correlation_id: Some(100),
            native_pid: 42,
            device_id: Some(0),
            context_id: Some(1),
            enclosing: vec![enclosing(11, "step")],
        },
        RuntimeParentEntry {
            rt_rowid: 2,
            correlation_id: None,
            native_pid: 42,
            device_id: None,
            context_id: None,
            enclosing: vec![enclosing(11, "step")],
        },
    ];
    let idx = RuntimeNvtxParent::from_records(records);
    assert!(idx.get_by_runtime(1).is_some());
    assert!(idx.get_by_runtime(2).is_some());
    assert!(idx.get_by_correlation(0, 1, 100).is_some());
    assert!(idx.get_by_correlation(0, 1, 0).is_none());
}

#[test]
fn runtime_nvtx_parent_none_correlation_is_absent_from_by_correlation_map() {
    none_correlation_is_absent_from_by_correlation_map();
}

#[test]
fn tests_none_correlation_is_absent_from_by_correlation_map() {
    none_correlation_is_absent_from_by_correlation_map();
}

fn merge_dev_ctx_fans_out_on_ambiguous_correlation() {
    let walked = vec![RuntimeParentEntry {
        rt_rowid: 1,
        correlation_id: Some(42),
        native_pid: 1000,
        device_id: None,
        context_id: None,
        enclosing: vec![enclosing(11, "step")],
    }];
    let mut dev_ctx = DevCtxMap::new();
    dev_ctx.insert(1000, 42, DevCtxValue::Many(vec![(0, 1), (0, 2)]));

    let out = merge_dev_ctx(walked, &dev_ctx);
    assert_eq!(out.len(), 2, "ambiguous (D,X) must fan out");
    let dx_pairs: std::collections::BTreeSet<(i32, i64)> = out
        .iter()
        .map(|e| (e.device_id.unwrap_or(-1), e.context_id.unwrap_or(-1)))
        .collect();
    assert!(dx_pairs.contains(&(0, 1)));
    assert!(dx_pairs.contains(&(0, 2)));
    assert!(out.iter().all(|e| e.rt_rowid == 1));
    assert!(out.iter().all(|e| {
        e.enclosing.len() == 1 && e.enclosing.first().map(|n| n.nvtx_name.as_str()) == Some("step")
    }));
}

#[test]
fn runtime_nvtx_parent_merge_dev_ctx_fans_out_on_ambiguous_correlation() {
    merge_dev_ctx_fans_out_on_ambiguous_correlation();
}

#[test]
fn tests_merge_dev_ctx_fans_out_on_ambiguous_correlation() {
    merge_dev_ctx_fans_out_on_ambiguous_correlation();
}

fn merge_dev_ctx_single_candidate_mutates_in_place() {
    let walked = vec![RuntimeParentEntry {
        rt_rowid: 7,
        correlation_id: Some(100),
        native_pid: 1000,
        device_id: None,
        context_id: None,
        enclosing: vec![enclosing(11, "step")],
    }];
    let mut dev_ctx = DevCtxMap::new();
    dev_ctx.insert(1000, 100, DevCtxValue::Single((0, 1)));
    let out = merge_dev_ctx(walked, &dev_ctx);
    assert_eq!(out.len(), 1);
    let first = out.first().expect("missing entry");
    assert_eq!(first.device_id, Some(0));
    assert_eq!(first.context_id, Some(1));
}

#[test]
fn runtime_nvtx_parent_merge_dev_ctx_single_candidate_mutates_in_place() {
    merge_dev_ctx_single_candidate_mutates_in_place();
}

#[test]
fn tests_merge_dev_ctx_single_candidate_mutates_in_place() {
    merge_dev_ctx_single_candidate_mutates_in_place();
}

fn multi_context_same_correlation_disambiguates_by_device_context() {
    let records = vec![
        RuntimeParentEntry {
            rt_rowid: 1,
            correlation_id: Some(42),
            native_pid: 1000,
            device_id: Some(0),
            context_id: Some(1),
            enclosing: vec![enclosing(11, "ctx1_scope")],
        },
        RuntimeParentEntry {
            rt_rowid: 2,
            correlation_id: Some(42),
            native_pid: 1000,
            device_id: Some(0),
            context_id: Some(2),
            enclosing: vec![enclosing(22, "ctx2_scope")],
        },
    ];
    let idx = RuntimeNvtxParent::from_records(records);
    let e1 = idx.get_by_correlation(0, 1, 42).expect("missing (0,1,42)");
    let e2 = idx.get_by_correlation(0, 2, 42).expect("missing (0,2,42)");
    assert_eq!(e1.innermost().map(|e| e.nvtx_name.as_str()), Some("ctx1_scope"));
    assert_eq!(e2.innermost().map(|e| e.nvtx_name.as_str()), Some("ctx2_scope"));
}

#[test]
fn runtime_nvtx_parent_multi_context_same_correlation_disambiguates_by_device_context() {
    multi_context_same_correlation_disambiguates_by_device_context();
}

#[test]
fn tests_multi_context_same_correlation_disambiguates_by_device_context() {
    multi_context_same_correlation_disambiguates_by_device_context();
}

#[test]
fn gpu_dev_ctx_reader_rejects_missing_column_with_typed_error() {
    let gpu = batch(
        vec![
            Field::new("correlationId", DataType::Int64, true),
            Field::new("deviceId", DataType::Int64, true),
        ],
        vec![
            Arc::new(Int64Array::from(vec![Some(77)])),
            Arc::new(Int64Array::from(vec![Some(0)])),
        ],
    );
    let err = match read_gpu_dev_ctx_parquet(file_of(&gpu), "gpu.parquet", &PairMap::new()) {
        Ok(_) => panic!("missing-column GPU activity parquet should fail"),
        Err(err) => err,
    };

    assert_eq!(err.code().as_str(), "nsys.data.nvtx-parent-gpu-activity-column-missing");
    match err {
        NsysDataError::NvtxParentGpuActivityColumnMissing { column, .. } => {
            assert_eq!(column, "contextId");
        }
        other => panic!("expected NvtxParentGpuActivityColumnMissing, got {other:?}"),
    }
}

#[test]
fn gpu_dev_ctx_reader_rejects_device_id_overflow_with_typed_error() {
    let overflowing_device_id = i64::from(i32::MAX) + 1;
    let gpu = batch(
        vec![
            Field::new("correlationId", DataType::Int64, true),
            Field::new("deviceId", DataType::Int64, true),
            Field::new("contextId", DataType::Int64, true),
        ],
        vec![
            Arc::new(Int64Array::from(vec![Some(77)])),
            Arc::new(Int64Array::from(vec![Some(overflowing_device_id)])),
            Arc::new(Int64Array::from(vec![Some(123)])),
        ],
    );
    let err = match read_gpu_dev_ctx_parquet(file_of(&gpu), "gpu.parquet", &PairMap::new()) {
        Ok(_) => panic!("overflowing deviceId should fail"),
        Err(err) => err,
    };

    assert_eq!(err.code().as_str(), "nsys.data.nvtx-parent-int32-overflow");
    match err {
        NsysDataError::NvtxParentInt32Overflow { column, value, .. } => {
            assert_eq!(column, "deviceId");
            assert_eq!(value, overflowing_device_id);
        }
        other => panic!("expected NvtxParentInt32Overflow, got {other:?}"),
    }
}

#[test]
fn optional_i64_rejects_non_integer_array_with_typed_error() {
    let array = Column { inner: Arc::new(StringArray::from(vec![Some("not-an-integer")])) };
    let err = match parquet_integer_i64(&array, 0, "contextId", "gpu.parquet") {
        Ok(value) => panic!("StringArray should not read as integer: {value:?}"),
        Err(err) => err,
    };

    assert_eq!(err.code().as_str(), "nsys.data.nvtx-parent-unsupported-integer-type");
    match err {
        NsysDataError::NvtxParentUnsupportedIntegerType { column, data_type, .. } => {
            assert_eq!(column, "contextId");
            assert!(data_type.contains("Utf8"));
        }
        other => panic!("expected NvtxParentUnsupportedIntegerType, got {other:?}"),
    }
}

#[test]
fn optional_i64_rejects_uint64_overflow_with_typed_error() {
    let array = Column { inner: Arc::new(UInt64Array::from(vec![Some(u64::MAX)])) };
    let err = match parquet_integer_i64(&array, 0, "contextId", "gpu.parquet") {
        Ok(value) => panic!("overflowing UInt64 should not read as integer: {value:?}"),
        Err(err) => err,
    };

    assert_eq!(err.code().as_str(), "nsys.data.nvtx-parent-integer-overflow");
    match err {
        NsysDataError::NvtxParentIntegerOverflow { column, value, .. } => {
            assert_eq!(column, "contextId");
            assert_eq!(value, u64::MAX);
        }
        other => panic!("expected NvtxParentIntegerOverflow, got {other:?}"),
    }
}

#[test]
fn read_parquet_rejects_mismatched_nvtx_lists_with_typed_error() {
    let b = batch(
        sidecar_fields(),
        vec![
            Arc::new(Int64Array::from(vec![1])),
            Arc::new(Int64Array::from(vec![Some(100)])),
            Arc::new(Int64Array::from(vec![99])),
            Arc::new(Int32Array::from(vec![Some(0)])),
            Arc::new(Int64Array::from(vec![Some(1)])),
            rowid_lists(vec![vec![11, 22]]),
            name_lists(vec![vec!["outer"]]),
        ],
    );
    let err = match read_parquet(file_of(&b), "nvtx-parent.parquet") {
        Ok(rows) => panic!("mismatched list sidecar should not load: {rows:?}"),
        Err(err) => err,
    };

    assert_eq!(err.code().as_str(), "nsys.data.nvtx-parent-list-length-mismatch");
    assert!(matches!(
        err,
        NsysDataError::NvtxParentListLengthMismatch { row: 0, rowids_len: 2, names_len: 1 }
    ));
}

#[test]
fn sidecar_with_a_wrong_column_type_has_typed_error() {
    let mut fields = sidecar_fields();
    fields[0] = Field::new("rt_rowid", DataType::Utf8, false);
    let b = batch(
        fields,
        vec![
            Arc::new(StringArray::from(vec!["not-int64"])),
            Arc::new(Int64Array::from(vec![Some(100)])),
            Arc::new(Int64Array::from(vec![99])),
            Arc::new(Int32Array::from(vec![Some(0)])),
            Arc::new(Int64Array::from(vec![Some(1)])),
            rowid_lists(vec![vec![11]]),
            name_lists(vec![vec!["outer"]]),
        ],
    );
    let err = match read_parquet(file_of(&b), "nvtx-parent.parquet") {
        Ok(rows) => panic!("wrong-typed nvtx-parent sidecar should not load: {rows:?}"),
        Err(err) => err,
    };

    assert_eq!(err.code().as_str(), "nsys.data.nvtx-parent-column-type-mismatch");
    match err {
        NsysDataError::NvtxParentColumnTypeMismatch { column, expected, actual, .. } => {
            assert_eq!(column, "rt_rowid");
            assert_eq!(expected, "Int64");
            assert!(actual.contains("Utf8"));
        }
        other => panic!("expected NvtxParentColumnTypeMismatch, got {other:?}"),
    }
}

#[test]
fn read_parquet_rejects_wrong_list_inner_type_with_typed_error() {
    let mut fields = sidecar_fields();
    fields[5] = Field::new("nvtx_rowids", list_of(DataType::Utf8), false);
    let b = batch(
        fields,
        vec![
            Arc::new(Int64Array::from(vec![1])),
            Arc::new(Int64Array::from(vec![Some(100)])),
            Arc::new(Int64Array::from(vec![99])),
            Arc::new(Int32Array::from(vec![Some(0)])),
            Arc::new(Int64Array::from(vec![Some(1)])),
            name_lists(vec![vec!["not-int64"]]),
            name_lists(vec![vec!["outer"]]),
        ],
    );
    let err = match read_parquet(file_of(&b), "nvtx-parent.parquet") {
        Ok(rows) => panic!("wrong-inner nvtx-parent sidecar should not load: {rows:?}"),
        Err(err) => err,
    };

    assert_eq!(err.code().as_str(), "nsys.data.nvtx-parent-column-type-mismatch");
    match err {
        NsysDataError::NvtxParentColumnTypeMismatch { column, expected, actual, .. } => {
            assert_eq!(column, "nvtx_rowids");
            assert_eq!(expected, "List<Int64>");
            assert!(actual.contains("Utf8"));
        }
        other => panic!("expected NvtxParentColumnTypeMismatch, got {other:?}"),
    }
}

#[test]
fn sidecar_with_a_missing_column_has_typed_error() {
    let mut fields = sidecar_fields();
    fields.pop();
    let b = batch(
        fields,
        vec![
            Arc::new(Int64Array::from(vec![1])),
            Arc::new(Int64Array::from(vec![Some(100)])),
            Arc::new(Int64Array::from(vec![99])),
            Arc::new(Int32Array::from(vec![Some(0)])),
            Arc::new(Int64Array::from(vec![Some(1)])),
            rowid_lists(vec![vec![11]]),
        ],
    );
    let err = match read_parquet(file_of(&b), "nvtx-parent.parquet") {
        Ok(rows) => panic!("truncated nvtx-parent sidecar should not load: {rows:?}"),
        Err(err) => err,
    };

    assert_eq!(err.code().as_str(), "nsys.data.nvtx-parent-column-missing");
    match err {
        NsysDataError::NvtxParentColumnMissing { column, .. } => {
            assert_eq!(column, "nvtx_names");
        }
        other => panic!("expected NvtxParentColumnMissing, got {other:?}"),
    }
}

#[test]
fn gpu_dev_ctx_reader_invalid_file_error_is_typed() {
    let bytes = b"not a parquet file".to_vec();
    let err = match read_gpu_dev_ctx_parquet(bytes, "/tmp/bad-gpu.parquet", &PairMap::new()) {
        Ok(_) => panic!("invalid GPU activity parquet should not load"),
        Err(err) => err,
    };

    assert_eq!(err.code().as_str(), "nsys.data.nvtx-parent-gpu-activity-reader-open");
    match err {
        NsysDataError::NvtxParentGpuActivityReaderOpen { path, .. } => {
            assert!(path.contains("bad-gpu.parquet"));
        }
        other => panic!("expected NvtxParentGpuActivityReaderOpen, got {other:?}"),
    }
}

#[test]
fn sidecar_that_is_no_parquet_has_typed_error() {
    let err = match read_parquet(b"not a parquet file".to_vec(), "/tmp/bad.parquet") {
        Ok(rows) => panic!("invalid nvtx-parent sidecar should not load: {rows:?}"),
        Err(err) => err,
    };

    assert_eq!(err.code().as_str(), "nsys.data.nvtx-parent-reader-open");
    match err {
        NsysDataError::NvtxParentReaderOpen { path, .. } => {
            assert!(path.contains("bad.parquet"));
        }
        other => panic!("expected NvtxParentReaderOpen, got {other:?}"),
    }
}

#[test]
fn long_chains_read_back_over_several_batches() {
    let records: Vec<RuntimeParentEntry> = (0..2500)
        .map(|i| RuntimeParentEntry {
            rt_rowid: i,
            correlation_id: if i % 2 == 0 { Some(i) } else { None },
            native_pid: 42,
            device_id: None,
            context_id: Some(-i),
            enclosing: (0..i % 4).map(|k| enclosing(k, &format!("range {k}"))).collect(),
        })
        .collect();
    let fp = SourceFingerprint { mtime_secs: 1, size: 2 };
    assert!(records_fit(&records));
    let bytes = write_parquet(&records, fp, "rtnvtx.parquet").expect("written");
    assert_eq!(read_parquet(bytes, "rtnvtx.parquet").expect("own columns"), records);
}

#[test]
fn activity_tables_read_as_their_batches() {
    let gpu = batch(
        vec![
            Field::new("correlationId", DataType::Int64, true),
            Field::new("deviceId", DataType::Int64, true),
            Field::new("contextId", DataType::Int64, true),
        ],
        vec![
            Arc::new(Int64Array::from(vec![Some(7), None, Some(7)])),
            Arc::new(Int64Array::from(vec![Some(0), Some(0), Some(1)])),
            Arc::new(Int64Array::from(vec![Some(3), Some(3), Some(4)])),
        ],
    );
    let mut ctx_for_pid: PairMap<Vec<i64>> = PairMap::new();
    ctx_for_pid.insert(0, 3, vec![10, 11]);
    ctx_for_pid.insert(1, 4, vec![10]);
    let from_file = read_gpu_dev_ctx_parquet(file_of(&gpu), "gpu.parquet", &ctx_for_pid)
        .expect("integers");
    let from_batch = read_gpu_dev_ctx(&names(&gpu), &vec![gpu], "gpu.parquet", &ctx_for_pid)
        .expect("integers");
    for map in [from_file, from_batch] {
        assert_eq!(map.get(10, 7), Some(&DevCtxValue::Many(vec![(0, 3), (1, 4)])));
        assert_eq!(map.get(11, 7), Some(&DevCtxValue::Single((0, 3))));
    }
}

#[test]
fn integer_cells_read_as_null_or_value() {
    let array = Column { inner: Arc::new(UInt64Array::from(vec![Some(5), None])) };
    assert_eq!(parquet_integer_i64(&array, 0, "contextId", "gpu.parquet").expect("fits"), Some(5));
    assert_eq!(parquet_integer_i64(&array, 1, "contextId", "gpu.parquet").expect("null"), None);
}

#[test]
fn threads_keep_their_own_ranges() {
    let row = |rowid, start, end, tid, name: &str| NvtxThreadRow {
        rowid,
        start,
        end,
        global_tid: tid,
        name: name.to_string(),
    };
    let rows = vec![row(2, 40, 60, 7, "b"), row(1, 0, 100, 7, "a"), row(3, 0, 9, 8, "c")];
    let by_tid = group_by_tid(&rows);
    assert_eq!(by_tid.len(), 2);
    let ids: Vec<i64> = by_tid[&7].iter().map(|r| r.rowid).collect();
    assert_eq!(ids, vec![1, 2]);

    let mut dev_ctx = DevCtxMap::new();
    dev_ctx.insert(42, 999, DevCtxValue::Single((3, 4)));
    let out = compute(
        &rows,
        &vec![rt(10, Some(999), 42, 7, 45, 55), rt(11, None, 42, 8, 1, 2), rt(12, None, 42, 9, 1, 2)],
        &dev_ctx,
    );
    assert_eq!(out.len(), 2);
    assert_eq!(out[0].enclosing, vec![enclosing(1, "a"), enclosing(2, "b")]);
    assert_eq!((out[0].device_id, out[0].context_id), (Some(3), Some(4)));
    assert_eq!(out[1].enclosing, vec![enclosing(3, "c")]);
    assert_eq!((out[1].device_id, out[1].context_id), (None, None));
    assert!(compute(&Vec::new(), &vec![rt(10, None, 1, 7, 0, 1)], &dev_ctx).is_empty());
}

#[test]
fn activity_tables_map_calls_to_devices() {
    let resolver = CudaProcessResolver::build(
        &vec![ProcessRow { global_pid: 16, native_pid: 1 }],
        &vec![ContextRow { device_id: 0, context_id: 1, process_id: 1 }],
        &Vec::new(),
    );
    let row = |correlation_id, device_id, context_id, global_pid| GpuActivityRow {
        correlation_id,
        device_id,
        context_id,
        start_ns: 0,
        global_pid,
    };
    let tables = vec![
        ActivityTable {
            table: "CUPTI_ACTIVITY_KIND_KERNEL".to_string(),
            rows: vec![row(7, 0, 1, Some(16)), row(7, 0, 1, Some(16))],
        },
        ActivityTable {
            table: "CUPTI_ACTIVITY_KIND_MEMCPY".to_string(),
            rows: vec![row(7, 1, 2, Some(16))],
        },
    ];
    let map = collect_runtime_dev_ctx(&resolver, &tables).expect("owned");
    assert_eq!(map.get(1, 7), Some(&DevCtxValue::Many(vec![(0, 1), (1, 2)])));
    assert_eq!(gpu_activity_tables().len(), 4);

    let nobody = CudaProcessResolver::default();
    let err = match collect_runtime_dev_ctx(&nobody, &tables) {
        Ok(_) => panic!("nobody owns the rows"),
        Err(err) => err,
    };
    assert_eq!(err.code().as_str(), "nsys.data.cuda-process-unresolved");
}

#[test]
fn runtime_index_counts_rows_and_names_its_sidecar() {
    assert!(RuntimeNvtxParent::empty().is_empty());
    let entry = RuntimeParentEntry {
        rt_rowid: 1,
        correlation_id: None,
        native_pid: 42,
        device_id: None,
        context_id: None,
        enclosing: vec![enclosing(11, "step")],
    };
    let idx = RuntimeNvtxParent::from_records(vec![entry]);
    assert_eq!(idx.len(), 1);
    assert!(idx.get_by_runtime(2).is_none());
    assert_eq!(sidecar_path_for("/t.nsys-rep"), "/t.nsys-rep.veloq/nvtx-parent.parquet");
}

#[test]
fn stored_entries_read_back_and_are_fresh() {
    let records = vec![RuntimeParentEntry {
        rt_rowid: 1,
        correlation_id: None,
        native_pid: 42,
        device_id: Some(3),
        context_id: None,
        enclosing: vec![enclosing(11, "outer"), enclosing(12, "inner")],
    }];
    let fp = SourceFingerprint { mtime_secs: 3, size: 4 };
    let stored = store_records(&records, fp, "rtnvtx.parquet").expect("written");
    assert!(stored.fresh);
    assert_eq!(stored.records, records);
}

#[test]
fn stored_work_maps_to_its_owners() {
    let mut ctx_for_pid: PairMap<Vec<i64>> = PairMap::new();
    ctx_for_pid.insert(0, 3, vec![10, 11]);
    ctx_for_pid.insert(1, 4, vec![10]);
    let work = vec![(7, 0, 3), (8, 5, 5), (7, 1, 4)];
    let map = stored_gpu_dev_ctx(&work, "gpu.parquet", &ctx_for_pid).expect("written");
    assert_eq!(map.get(10, 7), Some(&DevCtxValue::Many(vec![(0, 3), (1, 4)])));
    assert_eq!(map.get(11, 7), Some(&DevCtxValue::Single((0, 3))));
    assert!(map.get(10, 8).is_none());
}

#[test]
fn calls_that_end_before_they_start_lie_where_both_ends_fit() {
    let mut by_tid = HashMap::new();
    by_tid.insert(7, vec![n(1, 0, 50, "range")]);
    let out = walk(&by_tid, &[rt(10, None, 42, 7, 60, 40), rt(11, None, 42, 7, 60, 70)]);
    let ids: Vec<i64> = out.iter().map(|e| e.rt_rowid).collect();
    assert_eq!(ids, vec![10]);
}

#[test]
fn equal_ranges_are_listed_by_row_id() {
    let mut by_tid = HashMap::new();
    by_tid.insert(7, vec![n(3, 0, 100, "late"), n(1, 0, 100, "early")]);
    let out = walk(&by_tid, &[rt(10, None, 42, 7, 30, 50)]);
    let ids: Vec<i64> = out[0].enclosing.iter().map(|e| e.nvtx_rowid).collect();
    assert_eq!(ids, vec![1, 3]);
}
