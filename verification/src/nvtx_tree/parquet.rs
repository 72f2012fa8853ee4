//! The range tree as a table of Arrow columns.
use super::compute::record_views;
use super::{NvtxTreeRecord, NvtxTreeRecordView, NVTX_TREE_VERSION};
use crate::columns::{
    batch_data, batch_of, batch_views, cell, checked_column, column_data, int32_values,
    int64_column, int64_options, int64_values, int_cell, is_faulty, is_int, is_optional_int,
    is_text, optional_int, required_int32_column, required_int64_column, slot_int, text_bytes,
    text_values, utf8_column, wide64, Batch, BatchData, Column, ColumnFault, ColumnField,
    ColumnType, Slot,
};
use crate::error::{NsysDataError, NsysDataResult};
use crate::fingerprint::{copied_bytes, SourceFingerprint};
use crate::parquet_file::{
    is_part, is_sidecar_column, is_split, parquet_read, parquet_returns, parquet_written,
    read_file, rows_before, rows_before_grows, same_place, stored_table, write_file, FileRead,
    StoredColumn, WriteFault, Writing,
};
use crate::sidecar::{
    entry_views, file_is_fresh, file_says_fresh, fresh_only_for_its_source,
    freshness_entries, freshness_kv, is_freshness_kv, StoredSidecar, KV_MTIME, KV_SIZE,
};
use vstd::prelude::*;

verus! {

/// Metadata key of the format version.
pub const KV_VERSION: &'static str = "veloq.nvtx_tree.version";

/// Number of columns.
pub const COLUMN_COUNT: usize = 10;

/// Name of the column at an index.
pub open spec fn column_name(k: int) -> Seq<char> {
    if k == 0 {
        "range_id"@
    } else if k == 1 {
        "parent_range_id"@
    } else if k == 2 {
        "depth"@
    } else if k == 3 {
        "domain_id"@
    } else if k == 4 {
        "name"@
    } else if k == 5 {
        "path"@
    } else if k == 6 {
        "start"@
    } else if k == 7 {
        "end"@
    } else if k == 8 {
        "duration_ns"@
    } else {
        "global_tid"@
    }
}

/// Type of the column at an index.
pub open spec fn column_kind(k: int) -> ColumnType {
    if k == 2 {
        ColumnType::Int32
    } else if k == 4 || k == 5 {
        ColumnType::Utf8
    } else {
        ColumnType::Int64
    }
}

/// Whether the column at an index may hold nulls.
pub open spec fn column_nullable(k: int) -> bool {
    k == 1 || k == 7 || k == 8
}

/// Name of a column type in messages.
pub open spec fn kind_text(kind: ColumnType) -> Seq<char> {
    match kind {
        ColumnType::Int32 => "Int32"@,
        ColumnType::Utf8 => "Utf8"@,
        _ => "Int64"@,
    }
}

fn named(index: usize) -> (name: &'static str)
    requires
        index < COLUMN_COUNT,
    ensures
        name@ == column_name(index as int),
{
    match index {
        0 => "range_id",
        1 => "parent_range_id",
        2 => "depth",
        3 => "domain_id",
        4 => "name",
        5 => "path",
        6 => "start",
        7 => "end",
        8 => "duration_ns",
        _ => "global_tid",
    }
}

/// The columns of the table.
pub fn parquet_schema() -> (fields: Vec<ColumnField>)
    ensures
        fields.len() == COLUMN_COUNT,
        forall|k: int|
            0 <= k < fields.len() ==> {
                let f = #[trigger] fields@[k];
                f.name@ == column_name(k) && f.kind == column_kind(k) && f.nullable
                    == column_nullable(k)
            },
{
    let mut fields: Vec<ColumnField> = Vec::with_capacity(COLUMN_COUNT);
    let mut k: usize = 0;
    while k < COLUMN_COUNT
        invariant
            k <= COLUMN_COUNT,
            fields.len() == k,
            forall|x: int|
                0 <= x < k ==> {
                    let f = #[trigger] fields@[x];
                    f.name@ == column_name(x) && f.kind == column_kind(x) && f.nullable
                        == column_nullable(x)
                },
        decreases COLUMN_COUNT - k,
    {
        let kind = if k == 2 {
            ColumnType::Int32
        } else if k == 4 || k == 5 {
            ColumnType::Utf8
        } else {
            ColumnType::Int64
        };
        fields.push(
            ColumnField {
                name: named(k).to_owned(),
                kind,
                item_kind: ColumnType::Other,
                nullable: k == 1 || k == 7 || k == 8,
            },
        );
        k = k + 1;
    }
    fields
}

/// Row `i` of the table holds the record.
pub open spec fn row_holds(data: BatchData, i: int, r: NvtxTreeRecordView) -> bool {
    &&& is_int(data.columns[0], i, r.range_id as int)
    &&& is_optional_int(data.columns[1], i, wide64(r.parent_range_id))
    &&& is_int(data.columns[2], i, r.depth as int)
    &&& is_int(data.columns[3], i, r.domain_id as int)
    &&& is_text(data.columns[4], i, r.name)
    &&& is_text(data.columns[5], i, r.path)
    &&& is_int(data.columns[6], i, r.start as int)
    &&& is_optional_int(data.columns[7], i, wide64(r.end))
    &&& is_optional_int(data.columns[8], i, wide64(r.duration_ns))
    &&& is_int(data.columns[9], i, r.global_tid as int)
}

/// The table has the columns of the range tree.
pub open spec fn has_schema(data: BatchData) -> bool {
    &&& data.columns.len() == COLUMN_COUNT
    &&& data.names.len() == COLUMN_COUNT
    &&& forall|k: int|
        0 <= k < COLUMN_COUNT ==> (#[trigger] data.columns[k]).kind == column_kind(k)
    &&& forall|k: int| 0 <= k < COLUMN_COUNT ==> (#[trigger] data.names[k]) == column_name(k)
}

/// The table was built for writing: with the nulls that its columns admit.
pub open spec fn is_built(data: BatchData) -> bool {
    &&& data.built
    &&& data.nullable.len() == COLUMN_COUNT
    &&& forall|k: int|
        0 <= k < COLUMN_COUNT ==> (#[trigger] data.nullable[k]) == column_nullable(k)
}

/// What column `k` holds of a record.
pub open spec fn record_cell(r: NvtxTreeRecordView, k: int) -> Option<Slot> {
    if k == 0 {
        Some(Slot::Int(r.range_id as int))
    } else if k == 1 {
        int_cell(wide64(r.parent_range_id))
    } else if k == 2 {
        Some(Slot::Int(r.depth as int))
    } else if k == 3 {
        Some(Slot::Int(r.domain_id as int))
    } else if k == 4 {
        Some(Slot::Text(r.name))
    } else if k == 5 {
        Some(Slot::Text(r.path))
    } else if k == 6 {
        Some(Slot::Int(r.start as int))
    } else if k == 7 {
        int_cell(wide64(r.end))
    } else if k == 8 {
        int_cell(wide64(r.duration_ns))
    } else {
        Some(Slot::Int(r.global_tid as int))
    }
}

/// The columns of the records as they are written.
pub open spec fn stored_records(recs: Seq<NvtxTreeRecordView>) -> Seq<StoredColumn> {
    Seq::new(
        COLUMN_COUNT as nat,
        |k: int|
            StoredColumn {
                name: column_name(k),
                kind: column_kind(k),
                items: None,
                nullable: column_nullable(k),
                cells: Seq::new(recs.len(), |i: int| record_cell(recs[i], k)),
            },
    )
}

/// A table that was built for the records is written with their columns.
proof fn stored_is(data: BatchData, recs: Seq<NvtxTreeRecordView>)
    requires
        table_holds(data, recs),
        is_built(data),
    ensures
        stored_table(data) == stored_records(recs),
{
    let got = stored_table(data);
    let want = stored_records(recs);
    assert forall|k: int| 0 <= k < COLUMN_COUNT implies got[k] == want[k] by {
        assert(data.columns[k].kind == column_kind(k));
        assert(data.names[k] == column_name(k));
        assert(data.nullable[k] == column_nullable(k));
        assert forall|i: int| 0 <= i < recs.len() implies cell(data.columns[k], i) == record_cell(
            recs[i],
            k,
        ) by {
            assert(row_holds(data, i, recs[i]));
        }
        assert(got[k].cells =~= want[k].cells);
    }
    assert(got =~= want);
}

/// The table holds the records, row by row.
pub open spec fn table_holds(data: BatchData, recs: Seq<NvtxTreeRecordView>) -> bool {
    &&& has_schema(data)
    &&& data.rows == recs.len()
    &&& forall|i: int| 0 <= i < recs.len() ==> row_holds(data, i, #[trigger] recs[i])
}

/// The names of the records.
pub open spec fn record_names(recs: Seq<NvtxTreeRecord>) -> Seq<String> {
    recs.map_values(|r: NvtxTreeRecord| r.name)
}

/// The paths of the records.
pub open spec fn record_paths(recs: Seq<NvtxTreeRecord>) -> Seq<String> {
    recs.map_values(|r: NvtxTreeRecord| r.path)
}

/// Whether names and paths fit the table's text columns.
pub fn records_fit(records: &Vec<NvtxTreeRecord>) -> (fit: bool)
    ensures
        fit == (text_bytes(record_names(records@)) <= i32::MAX && text_bytes(
            record_paths(records@),
        ) <= i32::MAX),
{
    let mut names: Vec<String> = Vec::with_capacity(records.len());
    let mut paths: Vec<String> = Vec::with_capacity(records.len());
    let mut i: usize = 0;
    while i < records.len()
        invariant
            i <= records.len(),
            names@ =~= record_names(records@).subrange(0, i as int),
            paths@ =~= record_paths(records@).subrange(0, i as int),
        decreases records.len() - i,
    {
        names.push(records[i].name.clone());
        paths.push(records[i].path.clone());
        i = i + 1;
    }
    assert(names@ =~= record_names(records@));
    assert(paths@ =~= record_paths(records@));
    crate::columns::texts_fit(&names) && crate::columns::texts_fit(&paths)
}

/// The records as a table.
///
/// The names together, and the paths together, have to fit columns with
/// 32-bit offsets.
pub fn encode_records(records: &Vec<NvtxTreeRecord>) -> (batch: NsysDataResult<Batch>)
    requires
        text_bytes(record_names(records@)) <= i32::MAX,
        text_bytes(record_paths(records@)) <= i32::MAX,
    ensures
        batch matches Ok(b) && table_holds(batch_data(b), record_views(records@)) && is_built(
            batch_data(b),
        ),
{
    let n: usize = records.len();
    let mut range_ids: Vec<i64> = Vec::with_capacity(n);
    let mut parents: Vec<Option<i64>> = Vec::with_capacity(n);
    let mut depths: Vec<i32> = Vec::with_capacity(n);
    let mut domains: Vec<i64> = Vec::with_capacity(n);
    let mut names: Vec<String> = Vec::with_capacity(n);
    let mut paths: Vec<String> = Vec::with_capacity(n);
    let mut starts: Vec<i64> = Vec::with_capacity(n);
    let mut ends: Vec<Option<i64>> = Vec::with_capacity(n);
    let mut durations: Vec<Option<i64>> = Vec::with_capacity(n);
    let mut tids: Vec<i64> = Vec::with_capacity(n);
    let mut i: usize = 0;
    while i < records.len()
        invariant
            i <= records.len(),
            range_ids.len() == i,
            parents.len() == i,
            depths.len() == i,
            domains.len() == i,
            starts.len() == i,
            ends.len() == i,
            durations.len() == i,
            tids.len() == i,
            names@ =~= record_names(records@).subrange(0, i as int),
            paths@ =~= record_paths(records@).subrange(0, i as int),
            forall|x: int|
                0 <= x < i ==> {
                    let r = #[trigger] records@[x];
                    &&& range_ids@[x] == r.range_id
                    &&& parents@[x] == r.parent_range_id
                    &&& depths@[x] == r.depth
                    &&& domains@[x] == r.domain_id
                    &&& starts@[x] == r.start
                    &&& ends@[x] == r.end
                    &&& durations@[x] == r.duration_ns
                    &&& tids@[x] == r.global_tid
                },
        decreases records.len() - i,
    {
        let r = &records[i];
        range_ids.push(r.range_id);
        parents.push(r.parent_range_id);
        depths.push(r.depth);
        domains.push(r.domain_id);
        names.push(r.name.clone());
        paths.push(r.path.clone());
        starts.push(r.start);
        ends.push(r.end);
        durations.push(r.duration_ns);
        tids.push(r.global_tid);
        i = i + 1;
    }
    assert(names@ =~= record_names(records@));
    assert(paths@ =~= record_paths(records@));
    let mut columns: Vec<Column> = Vec::with_capacity(COLUMN_COUNT);
    columns.push(required_int64_column(&range_ids));
    columns.push(int64_column(parents));
    columns.push(required_int32_column(&depths));
    columns.push(required_int64_column(&domains));
    columns.push(utf8_column(names));
    columns.push(utf8_column(paths));
    columns.push(required_int64_column(&starts));
    columns.push(int64_column(ends));
    columns.push(int64_column(durations));
    columns.push(required_int64_column(&tids));
    let fields = parquet_schema();
    let ghost data = columns@.map_values(|c: Column| column_data(c));
    let ghost recs = record_views(records@);
    assert forall|x: int| 0 <= x < n implies {
        let r = #[trigger] recs[x];
        &&& is_int(data[0], x, r.range_id as int)
        &&& is_optional_int(data[1], x, wide64(r.parent_range_id))
        &&& is_int(data[2], x, r.depth as int)
        &&& is_int(data[3], x, r.domain_id as int)
        &&& is_text(data[4], x, r.name)
        &&& is_text(data[5], x, r.path)
        &&& is_int(data[6], x, r.start as int)
        &&& is_optional_int(data[7], x, wide64(r.end))
        &&& is_optional_int(data[8], x, wide64(r.duration_ns))
        &&& is_int(data[9], x, r.global_tid as int)
    } by {
        let r = records@[x];
        assert(is_int(data[0], x, range_ids@[x] as int));
        assert(is_int(data[2], x, depths@[x] as int));
        assert(is_int(data[3], x, domains@[x] as int));
        assert(is_int(data[6], x, starts@[x] as int));
        assert(is_int(data[9], x, tids@[x] as int));
        assert(names@[x] == r.name);
        assert(paths@[x] == r.path);
        assert(data[1].valid[x] == (parents@[x] is Some));
        assert(data[7].valid[x] == (ends@[x] is Some));
        assert(data[8].valid[x] == (durations@[x] is Some));
        assert(data[1].slots.len() == n && data[7].slots.len() == n && data[8].slots.len() == n);
    }
    assert forall|k: int| 0 <= k < columns@.len() implies column_data(
        #[trigger] columns@[k],
    ).valid.len() == n && fields@[k].admits(column_data(columns@[k])) by {
        let c = column_data(columns@[k]);
        assert(c == data[k]);
        assert(fields@[k].kind == column_kind(k));
        if !column_nullable(k) {
            assert forall|x: int| 0 <= x < c.valid.len() implies #[trigger] c.valid[x] by {
                let r = recs[x];
            }
        }
    }
    match batch_of(&fields, columns) {
        Ok(batch) => {
            proof {
                let b = batch_data(batch);
                assert(b.columns =~= data);
                assert forall|k: int| 0 <= k < COLUMN_COUNT implies (#[trigger] b.columns[k]).kind
                    == column_kind(k) by {
                    assert(fields@[k].admits(column_data(columns@[k])));
                    assert(fields@[k].kind == column_kind(k));
                }
                assert forall|k: int| 0 <= k < COLUMN_COUNT implies (#[trigger] b.names[k])
                    == column_name(k) by {
                    assert(fields@[k].name@ == column_name(k));
                }
                assert(table_holds(b, recs));
                assert forall|k: int| 0 <= k < COLUMN_COUNT implies (#[trigger] b.nullable[k])
                    == column_nullable(k) by {
                    assert(fields@[k].nullable == column_nullable(k));
                }
            }
            Ok(batch)
        },
        Err(message) => Err(NsysDataError::nvtx_tree_record_batch(message.as_str())),
    }
}

/// The record in row `i` of a table.
pub open spec fn row_record(data: BatchData, i: int) -> NvtxTreeRecordView {
    NvtxTreeRecordView {
        range_id: slot_int(data.columns[0].slots[i]) as i64,
        parent_range_id: narrow64(optional_int(data.columns[1], i)),
        depth: slot_int(data.columns[2].slots[i]) as i32,
        domain_id: slot_int(data.columns[3].slots[i]) as i64,
        name: data.columns[4].slots[i]->Text_0,
        path: data.columns[5].slots[i]->Text_0,
        start: slot_int(data.columns[6].slots[i]) as i64,
        end: narrow64(optional_int(data.columns[7], i)),
        duration_ns: narrow64(optional_int(data.columns[8], i)),
        global_tid: slot_int(data.columns[9].slots[i]) as i64,
    }
}

/// The records of a table.
pub open spec fn table_records(data: BatchData) -> Seq<NvtxTreeRecordView> {
    Seq::new(data.rows, |i: int| row_record(data, i))
}

/// The records of the first `n` tables.
pub open spec fn tables_records(batches: Seq<BatchData>, n: nat) -> Seq<NvtxTreeRecordView>
    decreases n,
{
    if n == 0 {
        Seq::empty()
    } else {
        tables_records(batches, (n - 1) as nat) + table_records(batches[n - 1])
    }
}

/// The column at `k` is missing or has another type than it should have.
pub open spec fn column_fault(data: BatchData, k: int) -> bool {
    is_faulty(data, k, column_kind(k))
}

/// The column at `k` is the first at fault.
pub open spec fn first_fault(data: BatchData, k: int) -> bool {
    0 <= k < COLUMN_COUNT && column_fault(data, k) && forall|j: int|
        0 <= j < k ==> !#[trigger] column_fault(data, j)
}

/// No column is at fault.
pub open spec fn is_readable(data: BatchData) -> bool {
    forall|k: int| 0 <= k < COLUMN_COUNT ==> !#[trigger] column_fault(data, k)
}

/// What is said of a column at fault.
pub open spec fn tells_fault(error: NsysDataError, data: BatchData, k: int, path: Seq<char>) -> bool {
    if k >= data.columns.len() {
        error matches NsysDataError::NvtxTreeColumnMissing { path: p, column } && p@ == path
            && column@ == column_name(k)
    } else {
        error matches NsysDataError::NvtxTreeColumnTypeMismatch {
            path: p,
            column,
            expected,
            actual,
        } && p@ == path && column@ == column_name(k) && expected@ == kind_text(column_kind(k))
            && actual@ == data.columns[k].kind_name
    }
}

/// The column at `index`, which `path` is at fault not to have.
fn tree_column(batch: &Batch, index: usize, kind: ColumnType, path: &str) -> (column: NsysDataResult<
    Column,
>)
    requires
        index < COLUMN_COUNT,
        kind == column_kind(index as int),
    ensures
        ({
            let data = batch_data(*batch);
            match column {
                Ok(c) => {
                    &&& !column_fault(data, index as int)
                    &&& column_data(c) == data.columns[index as int]
                    &&& column_data(c).kind == kind
                    &&& column_data(c).valid.len() == data.rows
                    &&& column_data(c).slots.len() == data.rows
                },
                Err(error) => column_fault(data, index as int) && tells_fault(
                    error,
                    data,
                    index as int,
                    path@,
                ),
            }
        }),
{
    match checked_column(batch, index, kind) {
        Ok(c) => Ok(c),
        Err(ColumnFault::Missing) => Err(
            NsysDataError::nvtx_tree_column_missing(path, named(index)),
        ),
        Err(ColumnFault::Mismatch { actual }) => {
            let expected = match kind {
                ColumnType::Int32 => "Int32",
                ColumnType::Utf8 => "Utf8",
                _ => "Int64",
            };
            Err(
                NsysDataError::nvtx_tree_column_type_mismatch(
                    path,
                    named(index),
                    expected,
                    actual.as_str(),
                ),
            )
        },
    }
}

/// The columns of a table; fails on the first that is at fault.
fn tree_columns(batch: &Batch, path: &str) -> (columns: NsysDataResult<Vec<Column>>)
    ensures
        ({
            let data = batch_data(*batch);
            match columns {
                Ok(cs) => {
                    &&& is_readable(data)
                    &&& cs@.len() == COLUMN_COUNT
                    &&& forall|k: int|
                        0 <= k < COLUMN_COUNT ==> {
                            let c = column_data(#[trigger] cs@[k]);
                            &&& c == data.columns[k]
                            &&& c.kind == column_kind(k)
                            &&& c.slots.len() == data.rows
                            &&& c.valid.len() == data.rows
                        }
                },
                Err(error) => exists|k: int| #[trigger]
                    first_fault(data, k) && tells_fault(error, data, k, path@),
            }
        }),
{
    let ghost data = batch_data(*batch);
    let mut columns: Vec<Column> = Vec::with_capacity(COLUMN_COUNT);
    let mut k: usize = 0;
    while k < COLUMN_COUNT
        invariant
            k <= COLUMN_COUNT,
            data == batch_data(*batch),
            columns.len() == k,
            forall|j: int| 0 <= j < k ==> !#[trigger] column_fault(data, j),
            forall|j: int|
                0 <= j < k ==> {
                    let c = column_data(#[trigger] columns@[j]);
                    &&& c == data.columns[j]
                    &&& c.kind == column_kind(j)
                    &&& c.slots.len() == data.rows
                    &&& c.valid.len() == data.rows
                },
        decreases COLUMN_COUNT - k,
    {
        let kind = if k == 2 {
            ColumnType::Int32
        } else if k == 4 || k == 5 {
            ColumnType::Utf8
        } else {
            ColumnType::Int64
        };
        match tree_column(batch, k, kind, path) {
            Ok(c) => {
                columns.push(c);
            },
            Err(error) => {
                assert(first_fault(data, k as int));
                return Err(error);
            },
        }
        k = k + 1;
    }
    Ok(columns)
}

/// Appends the records of one table.
fn decode_table(batch: &Batch, path: &str, out: &mut Vec<NvtxTreeRecord>) -> (result: NsysDataResult<
    (),
>)
    ensures
        ({
            let data = batch_data(*batch);
            match result {
                Ok(_) => is_readable(data) && record_views(final(out)@) == record_views(old(out)@)
                    + table_records(data),
                Err(error) => exists|k: int| #[trigger]
                    first_fault(data, k) && tells_fault(error, data, k, path@),
            }
        }),
{
    let ghost data = batch_data(*batch);
    let columns = match tree_columns(batch, path) {
        Ok(columns) => columns,
        Err(error) => {
            return Err(error);
        },
    };
    proof {
        assert forall|k: int| 0 <= k < COLUMN_COUNT implies column_data(columns@[k])
            == #[trigger] data.columns[k] by {
            let c = column_data(columns@[k]);
        }
        let c0 = columns@[0];
        let c1 = columns@[1];
        let c2 = columns@[2];
        let c3 = columns@[3];
        let c4 = columns@[4];
        let c5 = columns@[5];
        let c6 = columns@[6];
        let c7 = columns@[7];
        let c8 = columns@[8];
        let c9 = columns@[9];
    }
    let range_ids = int64_values(&columns[0]);
    let parents = int64_options(&columns[1]);
    let depths = int32_values(&columns[2]);
    let domains = int64_values(&columns[3]);
    let names = text_values(&columns[4]);
    let paths = text_values(&columns[5]);
    let starts = int64_values(&columns[6]);
    let ends = int64_options(&columns[7]);
    let durations = int64_options(&columns[8]);
    let tids = int64_values(&columns[9]);
    let rows: usize = batch.num_rows();
    let mut i: usize = 0;
    assert(record_views(out@) =~= record_views(old(out)@) + table_records(data).subrange(0, 0));
    while i < rows
        invariant
            i <= rows,
            rows == data.rows,
            range_ids.len() == rows,
            parents.len() == rows,
            depths.len() == rows,
            domains.len() == rows,
            names.len() == rows,
            paths.len() == rows,
            starts.len() == rows,
            ends.len() == rows,
            durations.len() == rows,
            tids.len() == rows,
            forall|x: int|
                0 <= x < rows ==> (#[trigger] range_ids@[x]) as int == slot_int(
                    data.columns[0].slots[x],
                ),
            forall|x: int|
                0 <= x < rows ==> wide64(#[trigger] parents@[x]) == optional_int(
                    data.columns[1],
                    x,
                ),
            forall|x: int|
                0 <= x < rows ==> (#[trigger] depths@[x]) as int == slot_int(
                    data.columns[2].slots[x],
                ),
            forall|x: int|
                0 <= x < rows ==> (#[trigger] domains@[x]) as int == slot_int(
                    data.columns[3].slots[x],
                ),
            forall|x: int|
                0 <= x < rows ==> data.columns[4].slots[x] == crate::columns::Slot::Text(
                    (#[trigger] names@[x])@,
                ),
            forall|x: int|
                0 <= x < rows ==> data.columns[5].slots[x] == crate::columns::Slot::Text(
                    (#[trigger] paths@[x])@,
                ),
            forall|x: int|
                0 <= x < rows ==> (#[trigger] starts@[x]) as int == slot_int(
                    data.columns[6].slots[x],
                ),
            forall|x: int|
                0 <= x < rows ==> wide64(#[trigger] ends@[x]) == optional_int(data.columns[7], x),
            forall|x: int|
                0 <= x < rows ==> wide64(#[trigger] durations@[x]) == optional_int(
                    data.columns[8],
                    x,
                ),
            forall|x: int|
                0 <= x < rows ==> (#[trigger] tids@[x]) as int == slot_int(
                    data.columns[9].slots[x],
                ),
            record_views(out@) == record_views(old(out)@) + table_records(data).subrange(
                0,
                i as int,
            ),
        decreases rows - i,
    {
        let ghost before = record_views(out@);
        out.push(
            NvtxTreeRecord {
                range_id: range_ids[i],
                parent_range_id: parents[i],
                depth: depths[i],
                domain_id: domains[i],
                name: names[i].clone(),
                path: paths[i].clone(),
                start: starts[i],
                end: ends[i],
                duration_ns: durations[i],
                global_tid: tids[i],
            },
        );
        proof {
            let got = out@.last()@;
            let want = row_record(data, i as int);
            assert(got.parent_range_id == want.parent_range_id) by {
                assert(wide64(parents@[i as int]) == optional_int(data.columns[1], i as int));
            }
            assert(got.end == want.end) by {
                assert(wide64(ends@[i as int]) == optional_int(data.columns[7], i as int));
            }
            assert(got.duration_ns == want.duration_ns) by {
                assert(wide64(durations@[i as int]) == optional_int(data.columns[8], i as int));
            }
            assert(got == want);
            assert(record_views(out@) =~= before.push(want));
            assert(table_records(data).subrange(0, i + 1) =~= table_records(data).subrange(
                0,
                i as int,
            ).push(want));
            assert(record_views(out@) =~= record_views(old(out)@) + table_records(data).subrange(
                0,
                i + 1,
            ));
        }
        i = i + 1;
    }
    assert(table_records(data).subrange(0, rows as int) =~= table_records(data));
    Ok(())
}

/// Table `t` is the first with a column at fault, and `k` is its first.
pub open spec fn first_bad_table(batches: Seq<BatchData>, t: int, k: int) -> bool {
    &&& 0 <= t < batches.len()
    &&& first_fault(batches[t], k)
    &&& forall|u: int| 0 <= u < t ==> is_readable(#[trigger] batches[u])
}

/// No column of any of the tables is at fault.
pub open spec fn all_readable(batches: Seq<BatchData>) -> bool {
    forall|t: int| 0 <= t < batches.len() ==> is_readable(#[trigger] batches[t])
}

/// The error tells the first column at fault of the first table that has one.
pub open spec fn tells_bad_table(
    error: NsysDataError,
    batches: Seq<BatchData>,
    path: Seq<char>,
) -> bool {
    exists|t: int, k: int| #[trigger]
        first_bad_table(batches, t, k) && tells_fault(error, batches[t], k, path)
}

/// The records of the tables read from `path`; fails on the first column that
/// is missing or has the wrong type.
pub fn decode_records(batches: &Vec<Batch>, path: &str) -> (records: NsysDataResult<
    Vec<NvtxTreeRecord>,
>)
    ensures
        match records {
            Ok(recs) => all_readable(batch_views(batches@)) && record_views(recs@) == tables_records(
                batch_views(batches@),
                batches@.len(),
            ),
            Err(error) => tells_bad_table(error, batch_views(batches@), path@),
        },
{
    let ghost tables = batch_views(batches@);
    let mut out: Vec<NvtxTreeRecord> = Vec::new();
    let mut t: usize = 0;
    assert(record_views(out@) =~= Seq::<NvtxTreeRecordView>::empty());
    while t < batches.len()
        invariant
            t <= batches.len(),
            tables == batch_views(batches@),
            forall|u: int| 0 <= u < t ==> is_readable(#[trigger] tables[u]),
            record_views(out@) == tables_records(tables, t as nat),
        decreases batches.len() - t,
    {
        assert(tables[t as int] == batch_data(batches@[t as int]));
        match decode_table(&batches[t], path, &mut out) {
            Ok(_) => {},
            Err(error) => {
                proof {
                    let data = tables[t as int];
                    let k: int = choose|k: int| #[trigger]
                        first_fault(data, k) && tells_fault(error, data, k, path@);
                    assert(first_bad_table(tables, t as int, k));
                }
                return Err(error);
            },
        }
        t = t + 1;
    }
    Ok(out)
}

/// An optional mathematical integer as a machine one.
pub open spec fn narrow64(v: Option<int>) -> Option<i64> {
    match v {
        Some(n) => Some(n as i64),
        None => None,
    }
}

/// A table that holds records reads back as those records.
pub proof fn tables_round_trip(data: BatchData, recs: Seq<NvtxTreeRecordView>)
    requires
        table_holds(data, recs),
    ensures
        is_readable(data),
        table_records(data) == recs,
{
    assert forall|k: int| 0 <= k < COLUMN_COUNT implies !#[trigger] column_fault(data, k) by {
        assert(data.columns[k].kind == column_kind(k));
    }
    assert forall|i: int| 0 <= i < recs.len() implies row_record(data, i) == #[trigger] recs[i] by {
        assert(row_holds(data, i, recs[i]));
        let got = row_record(data, i);
        let want = recs[i];
        assert(got.name =~= want.name);
        assert(got.path =~= want.path);
    }
    assert(table_records(data) =~= recs);
}

/// What reading a file comes to.
pub open spec fn tells_read(
    records: NsysDataResult<Vec<NvtxTreeRecord>>,
    read: FileRead,
    path: Seq<char>,
) -> bool {
    match read {
        FileRead::Refused(why) => records matches Err(NsysDataError::NvtxTreeReaderOpen {
            path: p,
            source,
        }) && p@ == path && source@ == why,
        FileRead::Opened(c) => match c.unbuilt {
            Some(why) => records matches Err(NsysDataError::NvtxTreeReaderBuild {
                path: p,
                source,
            }) && p@ == path && source@ == why,
            None => match records {
                Ok(recs) => c.failure is None && all_readable(c.batches) && record_views(recs@)
                    == tables_records(c.batches, c.batches.len()),
                Err(error) => {
                    ||| tells_bad_table(error, c.batches, path)
                    ||| all_readable(c.batches) && c.failure is Some && (
                    error matches NsysDataError::NvtxTreeBatchRead { path: p, source } && p@ == path
                        && source@ == c.failure->0)
                },
            },
        },
    }
}

/// The records of a file with these bytes, read from `path`.
///
/// The bytes have to be such that reading them comes to an end.
pub fn read_parquet(bytes: Vec<u8>, path: &str) -> (records: NsysDataResult<Vec<NvtxTreeRecord>>)
    requires
        parquet_returns(bytes@),
    ensures
        tells_read(records, parquet_read(bytes@), path@),
{
    let file = match read_file(bytes) {
        Ok(file) => file,
        Err(why) => {
            return Err(NsysDataError::nvtx_tree_reader_open(path, why.as_str()));
        },
    };
    if let Some(why) = &file.unbuilt {
        return Err(NsysDataError::nvtx_tree_reader_build(path, why.as_str()));
    }
    let ghost tables = batch_views(file.batches@);
    assert(tables.len() == file.batches@.len());
    let records = match decode_records(&file.batches, path) {
        Ok(records) => records,
        Err(error) => {
            return Err(error);
        },
    };
    match &file.failure {
        Some(why) => Err(NsysDataError::nvtx_tree_batch_read(path, why.as_str())),
        None => Ok(records),
    }
}

/// The file holds the records and was built from the source with the
/// fingerprint.
pub open spec fn file_holds(
    read: FileRead,
    recs: Seq<NvtxTreeRecordView>,
    fingerprint: SourceFingerprint,
) -> bool {
    read matches FileRead::Opened(c) && c.unbuilt is None && c.failure is None && all_readable(
        c.batches,
    ) && tables_records(c.batches, c.batches.len()) == recs && is_freshness_kv(
        c.entries,
        KV_VERSION@,
        NVTX_TREE_VERSION,
        fingerprint,
    )
}

/// What writing the records to `path` comes to.
pub open spec fn tells_written(
    bytes: NsysDataResult<Vec<u8>>,
    writing: Writing,
    path: Seq<char>,
) -> bool {
    match writing {
        Writing::Written(b) => bytes matches Ok(v) && v@ == b,
        Writing::OpenFailed(why) => bytes matches Err(NsysDataError::NvtxTreeWriterOpen {
            path: p,
            source,
        }) && p@ == path && source@ == why,
        Writing::WriteFailed(why) => bytes matches Err(NsysDataError::NvtxTreeWriterWrite {
            path: p,
            source,
        }) && p@ == path && source@ == why,
        Writing::CloseFailed(why) => bytes matches Err(NsysDataError::NvtxTreeWriterClose {
            path: p,
            source,
        }) && p@ == path && source@ == why,
    }
}

/// What writing the records, built from the source with the fingerprint, comes
/// to.
pub open spec fn writing_of(recs: Seq<NvtxTreeRecordView>, fingerprint: SourceFingerprint) -> Writing {
    parquet_written(
        stored_records(recs),
        freshness_entries(KV_VERSION@, NVTX_TREE_VERSION, fingerprint),
    )
}

proof fn names_differ(data: BatchData)
    requires
        has_schema(data),
    ensures
        data.names.no_duplicates(),
{
    reveal_strlit("range_id");
    reveal_strlit("parent_range_id");
    reveal_strlit("depth");
    reveal_strlit("domain_id");
    reveal_strlit("name");
    reveal_strlit("path");
    reveal_strlit("start");
    reveal_strlit("end");
    reveal_strlit("duration_ns");
    reveal_strlit("global_tid");
    assert("depth"@[0] != "start"@[0]);
    assert("name"@[0] != "path"@[0]);
    assert forall|i: int, j: int|
        0 <= i < data.names.len() && 0 <= j < data.names.len() && i != j implies data.names[i]
        != data.names[j] by {
        assert(data.names[i] == column_name(i));
        assert(data.names[j] == column_name(j));
    }
}

/// A part of a table that holds records holds its share of them.
proof fn part_holds(part: BatchData, whole: BatchData, from: nat, recs: Seq<NvtxTreeRecordView>)
    requires
        table_holds(whole, recs),
        is_part(part, whole, from),
        from + part.rows <= recs.len(),
    ensures
        table_holds(part, recs.subrange(from as int, (from + part.rows) as int)),
{
    let share = recs.subrange(from as int, (from + part.rows) as int);
    assert forall|k: int| 0 <= k < COLUMN_COUNT implies (#[trigger] part.columns[k]).kind
        == column_kind(k) by {
        assert(whole.columns[k].kind == column_kind(k));
    }
    assert forall|i: int| 0 <= i < share.len() implies row_holds(part, i, #[trigger] share[i]) by {
        assert(row_holds(whole, from + i, recs[from + i]));
        assert forall|k: int| 0 <= k < COLUMN_COUNT implies #[trigger] same_place(
            part.columns[k],
            i,
            whole.columns[k],
            from + i,
        ) by {
            let v = part.columns[k].valid[i];
        }
        assert(same_place(part.columns[0], i, whole.columns[0], from + i));
        assert(same_place(part.columns[1], i, whole.columns[1], from + i));
        assert(same_place(part.columns[2], i, whole.columns[2], from + i));
        assert(same_place(part.columns[3], i, whole.columns[3], from + i));
        assert(same_place(part.columns[4], i, whole.columns[4], from + i));
        assert(same_place(part.columns[5], i, whole.columns[5], from + i));
        assert(same_place(part.columns[6], i, whole.columns[6], from + i));
        assert(same_place(part.columns[7], i, whole.columns[7], from + i));
        assert(same_place(part.columns[8], i, whole.columns[8], from + i));
        assert(same_place(part.columns[9], i, whole.columns[9], from + i));
    }
}

/// The parts of a table that holds records hold them one after the other.
proof fn split_holds(
    batches: Seq<BatchData>,
    whole: BatchData,
    recs: Seq<NvtxTreeRecordView>,
    n: nat,
)
    requires
        table_holds(whole, recs),
        is_split(batches, whole),
        n <= batches.len(),
    ensures
        rows_before(batches, n) <= recs.len(),
        forall|t: int| 0 <= t < n ==> is_readable(#[trigger] batches[t]),
        tables_records(batches, n) == recs.take(rows_before(batches, n) as int),
    decreases n,
{
    rows_before_grows(batches, n);
    if n == 0 {
        assert(recs.take(0) =~= Seq::<NvtxTreeRecordView>::empty());
    } else {
        split_holds(batches, whole, recs, (n - 1) as nat);
        let from = rows_before(batches, (n - 1) as nat);
        let part = batches[n - 1];
        part_holds(part, whole, from, recs);
        tables_round_trip(part, recs.subrange(from as int, (from + part.rows) as int));
        assert(recs.take(from as int) + recs.subrange(from as int, (from + part.rows) as int) =~= recs.take(
            (from + part.rows) as int,
        ));
    }
}

/// The records as the bytes of a file at `path`, built from the source with the
/// fingerprint.
///
/// The names together, and the paths together, have to fit columns with
/// 32-bit offsets.
pub fn write_parquet(
    records: &Vec<NvtxTreeRecord>,
    fingerprint: SourceFingerprint,
    path: &str,
) -> (bytes: NsysDataResult<Vec<u8>>)
    requires
        text_bytes(record_names(records@)) <= i32::MAX,
        text_bytes(record_paths(records@)) <= i32::MAX,
    ensures
        tells_written(bytes, writing_of(record_views(records@), fingerprint), path@),
        bytes matches Ok(b) ==> parquet_returns(b@) && file_holds(
            parquet_read(b@),
            record_views(records@),
            fingerprint,
        ),
{
    let ghost recs = record_views(records@);
    let batch = match encode_records(records) {
        Ok(batch) => batch,
        Err(error) => {
            return Err(error);
        },
    };
    let ghost whole = batch_data(batch);
    let entries = freshness_kv(KV_VERSION, NVTX_TREE_VERSION, fingerprint);
    let ghost given = entry_views(entries@);
    proof {
        names_differ(whole);
        assert forall|k: int| 0 <= k < whole.columns.len() implies is_sidecar_column(
            #[trigger] whole.columns[k],
        ) by {
            assert(whole.columns[k].kind == column_kind(k));
        }
        stored_is(whole, recs);
        own_keys_are_free();
        assert forall|i: int| 0 <= i < entries@.len() implies (#[trigger] entries@[i]).key@
            != "ARROW:schema"@ by {
            assert(given[i].0 == entries@[i].key@);
        }
    }
    match write_file(&batch, entries) {
        Ok(bytes) => {
            proof {
                let c = parquet_read(bytes@)->Opened_0;
                split_holds(c.batches, whole, recs, c.batches.len());
                assert(recs.take(recs.len() as int) =~= recs);
                assert forall|i: int| 0 <= i < given.len() implies c.entries[i] == given[i] by {
                    assert(c.entries.take(given.len() as int)[i] == given[i]);
                }
            }
            Ok(bytes)
        },
        Err(WriteFault::Open(why)) => Err(
            NsysDataError::nvtx_tree_writer_open(path, why.as_str()),
        ),
        Err(WriteFault::Write(why)) => Err(
            NsysDataError::nvtx_tree_writer_write(path, why.as_str()),
        ),
        Err(WriteFault::Close(why)) => Err(
            NsysDataError::nvtx_tree_writer_close(path, why.as_str()),
        ),
    }
}

/// The keys of the entries are not the one that the writer takes for itself.
proof fn own_keys_are_free()
    ensures
        KV_VERSION@ != "ARROW:schema"@,
        KV_MTIME@ != "ARROW:schema"@,
        KV_SIZE@ != "ARROW:schema"@,
        KV_VERSION@ != KV_MTIME@,
        KV_VERSION@ != KV_SIZE@,
{
    reveal_strlit("ARROW:schema");
    reveal_strlit("veloq.nvtx_tree.version");
    reveal_strlit("veloq.source.mtime_secs");
    reveal_strlit("veloq.source.size");
    assert("ARROW:schema"@.len() == 12);
    assert(KV_VERSION@[6] != KV_MTIME@[6]);
}

/// What is read from a written file is what was written.
pub proof fn written_records_read_back(
    written: Seq<NvtxTreeRecordView>,
    fingerprint: SourceFingerprint,
    read: FileRead,
    records: NsysDataResult<Vec<NvtxTreeRecord>>,
    path: Seq<char>,
)
    requires
        file_holds(read, written, fingerprint),
        tells_read(records, read, path),
    ensures
        records matches Ok(recs) && record_views(recs@) == written,
{
    let c = read->Opened_0;
    if records is Err {
        let error = records->Err_0;
        if tells_bad_table(error, c.batches, path) {
            let (t, k) = choose|t: int, k: int| #[trigger]
                first_bad_table(c.batches, t, k) && tells_fault(error, c.batches[t], k, path);
            assert(is_readable(c.batches[t]));
            assert(column_fault(c.batches[t], k));
        }
    }
}

/// Whether the sidecar with these bytes has this version of the format and was
/// built from the source with the fingerprint.
///
/// The bytes have to be such that reading them comes to an end.
pub fn sidecar_is_fresh(bytes: Vec<u8>, fingerprint: SourceFingerprint) -> (fresh: bool)
    requires
        parquet_returns(bytes@),
    ensures
        fresh == file_says_fresh(
            parquet_read(bytes@),
            KV_VERSION@,
            NVTX_TREE_VERSION,
            fingerprint,
        ),
{
    file_is_fresh(bytes, KV_VERSION, NVTX_TREE_VERSION, fingerprint)
}

/// A written file is fresh for the source that it was built from, and for no
/// other.
pub proof fn written_file_is_fresh_for_its_source(
    read: FileRead,
    written: Seq<NvtxTreeRecordView>,
    source: SourceFingerprint,
    current: SourceFingerprint,
)
    requires
        file_holds(read, written, source),
    ensures
        file_says_fresh(read, KV_VERSION@, NVTX_TREE_VERSION, current) <==> source == current,
{
    own_keys_are_free();
    fresh_only_for_its_source(
        read->Opened_0.entries,
        KV_VERSION@,
        NVTX_TREE_VERSION,
        source,
        NVTX_TREE_VERSION,
        current,
    );
}

/// What storing the records comes to: a file that is fresh and reads back as
/// what was given, or why it could not be written.
pub open spec fn tells_stored(
    stored: NsysDataResult<StoredSidecar<Vec<NvtxTreeRecord>>>,
    recs: Seq<NvtxTreeRecordView>,
    fingerprint: SourceFingerprint,
    path: Seq<char>,
) -> bool {
    match (writing_of(recs, fingerprint), stored) {
        (Writing::Written(b), Ok(st)) => st.bytes@ == b && st.fresh && record_views(st.records@) == recs,
        (Writing::Written(_), Err(_)) => false,
        (_, Ok(_)) => false,
        (failed, Err(error)) => tells_written(Err(error), failed, path),
    }
}

/// Writes the records and reads the file back, as its next reader will.
///
/// The names together, and the paths together, have to fit columns with
/// 32-bit offsets.
pub fn store_records(
    records: &Vec<NvtxTreeRecord>,
    fingerprint: SourceFingerprint,
    path: &str,
) -> (stored: NsysDataResult<StoredSidecar<Vec<NvtxTreeRecord>>>)
    requires
        text_bytes(record_names(records@)) <= i32::MAX,
        text_bytes(record_paths(records@)) <= i32::MAX,
    ensures
        tells_stored(stored, record_views(records@), fingerprint, path@),
{
    let ghost recs = record_views(records@);
    let bytes = match write_parquet(records, fingerprint, path) {
        Ok(bytes) => bytes,
        Err(error) => {
            return Err(error);
        },
    };
    let fresh: bool = sidecar_is_fresh(copied_bytes(&bytes), fingerprint);
    let ghost read = parquet_read(bytes@);
    let loaded = read_parquet(copied_bytes(&bytes), path);
    proof {
        written_file_is_fresh_for_its_source(read, recs, fingerprint, fingerprint);
        written_records_read_back(recs, fingerprint, read, loaded, path@);
    }
    match loaded {
        Ok(records) => Ok(StoredSidecar { bytes, fresh, records }),
        Err(error) => Err(error),
    }
}

} // verus!
