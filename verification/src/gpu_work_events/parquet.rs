//! GPU work events as a table of Arrow columns.
use super::{event_views, GpuWorkEventRecord, GpuWorkEventView, GPU_WORK_EVENTS_VERSION};
use crate::columns::{
    batch_data, batch_of, batch_views, cell, checked_column, column_data, int32_values,
    int64_values, is_faulty, is_int, is_text, required_int32_column, required_int64_column,
    slot_int, text_bytes, text_values, texts_fit, utf8_column, Batch, BatchData, Column,
    ColumnFault, ColumnField, ColumnType, Slot,
};
use crate::error::{NsysDataError, NsysDataResult};
use crate::fingerprint::{copied_bytes, SourceFingerprint};
use crate::parquet_file::{
    is_part, is_sidecar_column, is_split, parquet_read, parquet_returns, parquet_written,
    read_entries, read_file, rows_before, rows_before_grows, same_place, stored_table, write_file,
    FileRead, StoredColumn, WriteFault, Writing,
};
use crate::sidecar::{
    entry_views, file_is_fresh, file_says_fresh, find_version, fresh_only_for_its_source,
    freshness_entries, freshness_kv, is_freshness_kv, version_in, written_version_is_found,
    StoredSidecar, KV_MTIME, KV_SIZE,
};
use vstd::prelude::*;

verus! {

/// Metadata key of the format version.
pub const KV_VERSION: &'static str = "veloq.gpu_work_events.version";

/// Number of columns.
pub const COLUMN_COUNT: usize = 6;

/// Name of the column at an index.
pub open spec fn column_name(k: int) -> Seq<char> {
    if k == 0 {
        "kind"@
    } else if k == 1 {
        "row_id"@
    } else if k == 2 {
        "device_id"@
    } else if k == 3 {
        "stream_id"@
    } else if k == 4 {
        "start_ns"@
    } else {
        "end_ns"@
    }
}

/// Type of the column at an index.
pub open spec fn column_kind(k: int) -> ColumnType {
    if k == 0 {
        ColumnType::Utf8
    } else if k == 2 {
        ColumnType::Int32
    } else {
        ColumnType::Int64
    }
}

/// Whether the column at an index may hold nulls: none does.
pub open spec fn column_nullable(k: int) -> bool {
    false
}

/// Name of a column type in messages.
pub open spec fn kind_text(kind: ColumnType) -> Seq<char> {
    match kind {
        ColumnType::Int32 => "Int32"@,
        ColumnType::Utf8 => "Utf8"@,
        _ => "Int64"@,
    }
}

fn named(index: usize) -> (name: &'static str)
    requires
        index < COLUMN_COUNT,
    ensures
        name@ == column_name(index as int),
{
    match index {
        0 => "kind",
        1 => "row_id",
        2 => "device_id",
        3 => "stream_id",
        4 => "start_ns",
        _ => "end_ns",
    }
}

fn typed(index: usize) -> (kind: ColumnType)
    requires
        index < COLUMN_COUNT,
    ensures
        kind == column_kind(index as int),
{
    if index == 0 {
        ColumnType::Utf8
    } else if index == 2 {
        ColumnType::Int32
    } else {
        ColumnType::Int64
    }
}

/// The columns of the table. None of them holds nulls.
pub fn parquet_schema() -> (fields: Vec<ColumnField>)
    ensures
        fields.len() == COLUMN_COUNT,
        forall|k: int|
            0 <= k < fields.len() ==> {
                let f = #[trigger] fields@[k];
                f.name@ == column_name(k) && f.kind == column_kind(k) && !f.nullable
            },
{
    let mut fields: Vec<ColumnField> = Vec::with_capacity(COLUMN_COUNT);
    let mut k: usize = 0;
    while k < COLUMN_COUNT
        invariant
            k <= COLUMN_COUNT,
            fields.len() == k,
            forall|x: int|
                0 <= x < k ==> {
                    let f = #[trigger] fields@[x];
                    f.name@ == column_name(x) && f.kind == column_kind(x) && !f.nullable
                },
        decreases COLUMN_COUNT - k,
    {
        fields.push(
            ColumnField {
                name: named(k).to_owned(),
                kind: typed(k),
                item_kind: ColumnType::Other,
                nullable: false,
            },
        );
        k = k + 1;
    }
    fields
}

/// Row `i` of the table holds the event.
pub open spec fn row_holds(data: BatchData, i: int, e: GpuWorkEventView) -> bool {
    &&& is_text(data.columns[0], i, e.kind)
    &&& is_int(data.columns[1], i, e.row_id as int)
    &&& is_int(data.columns[2], i, e.device_id as int)
    &&& is_int(data.columns[3], i, e.stream_id as int)
    &&& is_int(data.columns[4], i, e.start_ns as int)
    &&& is_int(data.columns[5], i, e.end_ns as int)
}

/// The table has the columns of GPU work events.
pub open spec fn has_schema(data: BatchData) -> bool {
    &&& data.columns.len() == COLUMN_COUNT
    &&& data.names.len() == COLUMN_COUNT
    &&& forall|k: int|
        0 <= k < COLUMN_COUNT ==> (#[trigger] data.columns[k]).kind == column_kind(k)
    &&& forall|k: int| 0 <= k < COLUMN_COUNT ==> (#[trigger] data.names[k]) == column_name(k)
}

/// The table was built for writing: with the nulls that its columns admit.
pub open spec fn is_built(data: BatchData) -> bool {
    &&& data.built
    &&& data.nullable.len() == COLUMN_COUNT
    &&& forall|k: int|
        0 <= k < COLUMN_COUNT ==> (#[trigger] data.nullable[k]) == column_nullable(k)
}

/// What column `k` holds of a record.
pub open spec fn record_cell(r: GpuWorkEventView, k: int) -> Option<Slot> {
    if k == 0 {
        Some(Slot::Text(r.kind))
    } else if k == 1 {
        Some(Slot::Int(r.row_id as int))
    } else if k == 2 {
        Some(Slot::Int(r.device_id as int))
    } else if k == 3 {
        Some(Slot::Int(r.stream_id as int))
    } else if k == 4 {
        Some(Slot::Int(r.start_ns as int))
    } else {
        Some(Slot::Int(r.end_ns as int))
    }
}

/// The columns of the records as they are written.
pub open spec fn stored_records(recs: Seq<GpuWorkEventView>) -> Seq<StoredColumn> {
    Seq::new(
        COLUMN_COUNT as nat,
        |k: int|
            StoredColumn {
                name: column_name(k),
                kind: column_kind(k),
                items: None,
                nullable: column_nullable(k),
                cells: Seq::new(recs.len(), |i: int| record_cell(recs[i], k)),
            },
    )
}

/// A table that was built for the records is written with their columns.
proof fn stored_is(data: BatchData, recs: Seq<GpuWorkEventView>)
    requires
        table_holds(data, recs),
        is_built(data),
    ensures
        stored_table(data) == stored_records(recs),
{
    let got = stored_table(data);
    let want = stored_records(recs);
    assert forall|k: int| 0 <= k < COLUMN_COUNT implies got[k] == want[k] by {
        assert(data.columns[k].kind == column_kind(k));
        assert(data.names[k] == column_name(k));
        assert(data.nullable[k] == column_nullable(k));
        assert forall|i: int| 0 <= i < recs.len() implies cell(data.columns[k], i) == record_cell(
            recs[i],
            k,
        ) by {
            assert(row_holds(data, i, recs[i]));
        }
        assert(got[k].cells =~= want[k].cells);
    }
    assert(got =~= want);
}

/// The table holds the events, row by row.
pub open spec fn table_holds(data: BatchData, events: Seq<GpuWorkEventView>) -> bool {
    &&& has_schema(data)
    &&& data.rows == events.len()
    &&& forall|i: int| 0 <= i < events.len() ==> row_holds(data, i, #[trigger] events[i])
}

/// The kinds of the records.
pub open spec fn record_kinds(recs: Seq<GpuWorkEventRecord>) -> Seq<String> {
    recs.map_values(|r: GpuWorkEventRecord| r.kind)
}

/// Whether the kinds fit the table's text column.
pub fn records_fit(records: &Vec<GpuWorkEventRecord>) -> (fit: bool)
    ensures
        fit == (text_bytes(record_kinds(records@)) <= i32::MAX),
{
    let mut kinds: Vec<String> = Vec::with_capacity(records.len());
    let mut i: usize = 0;
    while i < records.len()
        invariant
            i <= records.len(),
            kinds@ =~= record_kinds(records@).subrange(0, i as int),
        decreases records.len() - i,
    {
        kinds.push(records[i].kind.clone());
        i = i + 1;
    }
    assert(kinds@ =~= record_kinds(records@));
    texts_fit(&kinds)
}

/// The records as a table.
///
/// The kinds together have to fit a column with 32-bit offsets.
pub fn encode_records(records: &Vec<GpuWorkEventRecord>) -> (batch: NsysDataResult<Batch>)
    requires
        text_bytes(record_kinds(records@)) <= i32::MAX,
    ensures
        batch matches Ok(b) && table_holds(batch_data(b), event_views(records@)) && is_built(
            batch_data(b),
        ),
{
    let n: usize = records.len();
    let mut kinds: Vec<String> = Vec::with_capacity(n);
    let mut row_ids: Vec<i64> = Vec::with_capacity(n);
    let mut devices: Vec<i32> = Vec::with_capacity(n);
    let mut streams: Vec<i64> = Vec::with_capacity(n);
    let mut starts: Vec<i64> = Vec::with_capacity(n);
    let mut ends: Vec<i64> = Vec::with_capacity(n);
    let mut i: usize = 0;
    while i < records.len()
        invariant
            i <= records.len(),
            row_ids.len() == i,
            devices.len() == i,
            streams.len() == i,
            starts.len() == i,
            ends.len() == i,
            kinds@ =~= record_kinds(records@).subrange(0, i as int),
            forall|x: int|
                0 <= x < i ==> {
                    let r = #[trigger] records@[x];
                    &&& row_ids@[x] == r.row_id
                    &&& devices@[x] == r.device_id
                    &&& streams@[x] == r.stream_id
                    &&& starts@[x] == r.start_ns
                    &&& ends@[x] == r.end_ns
                },
        decreases records.len() - i,
    {
        let r = &records[i];
        kinds.push(r.kind.clone());
        row_ids.push(r.row_id);
        devices.push(r.device_id);
        streams.push(r.stream_id);
        starts.push(r.start_ns);
        ends.push(r.end_ns);
        i = i + 1;
    }
    assert(kinds@ =~= record_kinds(records@));
    let mut columns: Vec<Column> = Vec::with_capacity(COLUMN_COUNT);
    columns.push(utf8_column(kinds));
    columns.push(required_int64_column(&row_ids));
    columns.push(required_int32_column(&devices));
    columns.push(required_int64_column(&streams));
    columns.push(required_int64_column(&starts));
    columns.push(required_int64_column(&ends));
    let fields = parquet_schema();
    let ghost data = columns@.map_values(|c: Column| column_data(c));
    let ghost events = event_views(records@);
    assert forall|x: int| 0 <= x < n implies {
        let e = #[trigger] events[x];
        &&& is_text(data[0], x, e.kind)
        &&& is_int(data[1], x, e.row_id as int)
        &&& is_int(data[2], x, e.device_id as int)
        &&& is_int(data[3], x, e.stream_id as int)
        &&& is_int(data[4], x, e.start_ns as int)
        &&& is_int(data[5], x, e.end_ns as int)
    } by {
        let r = records@[x];
        assert(kinds@[x] == r.kind);
        assert(is_int(data[1], x, row_ids@[x] as int));
        assert(is_int(data[2], x, devices@[x] as int));
        assert(is_int(data[3], x, streams@[x] as int));
        assert(is_int(data[4], x, starts@[x] as int));
        assert(is_int(data[5], x, ends@[x] as int));
    }
    assert forall|k: int| 0 <= k < columns@.len() implies column_data(
        #[trigger] columns@[k],
    ).valid.len() == n && fields@[k].admits(column_data(columns@[k])) by {
        let c = column_data(columns@[k]);
        assert(c == data[k]);
        assert(fields@[k].kind == column_kind(k));
        assert forall|x: int| 0 <= x < c.valid.len() implies #[trigger] c.valid[x] by {
            let e = events[x];
        }
    }
    match batch_of(&fields, columns) {
        Ok(batch) => {
            proof {
                let b = batch_data(batch);
                assert(b.columns =~= data);
                assert forall|k: int| 0 <= k < COLUMN_COUNT implies (#[trigger] b.columns[k]).kind
                    == column_kind(k) by {
                    assert(fields@[k].admits(column_data(columns@[k])));
                    assert(fields@[k].kind == column_kind(k));
                }
                assert forall|k: int| 0 <= k < COLUMN_COUNT implies (#[trigger] b.names[k])
                    == column_name(k) by {
                    assert(fields@[k].name@ == column_name(k));
                }
                assert(table_holds(b, events));
                assert forall|k: int| 0 <= k < COLUMN_COUNT implies (#[trigger] b.nullable[k])
                    == column_nullable(k) by {
                    assert(fields@[k].nullable == column_nullable(k));
                }
            }
            Ok(batch)
        },
        Err(message) => Err(NsysDataError::gpu_work_events_record_batch(message.as_str())),
    }
}

/// The event in row `i` of a table.
pub open spec fn row_record(data: BatchData, i: int) -> GpuWorkEventView {
    GpuWorkEventView {
        kind: data.columns[0].slots[i]->Text_0,
        row_id: slot_int(data.columns[1].slots[i]) as i64,
        device_id: slot_int(data.columns[2].slots[i]) as i32,
        stream_id: slot_int(data.columns[3].slots[i]) as i64,
        start_ns: slot_int(data.columns[4].slots[i]) as i64,
        end_ns: slot_int(data.columns[5].slots[i]) as i64,
    }
}

/// The events of a table.
pub open spec fn table_records(data: BatchData) -> Seq<GpuWorkEventView> {
    Seq::new(data.rows, |i: int| row_record(data, i))
}

/// The events of the first `n` tables.
pub open spec fn tables_records(batches: Seq<BatchData>, n: nat) -> Seq<GpuWorkEventView>
    decreases n,
{
    if n == 0 {
        Seq::empty()
    } else {
        tables_records(batches, (n - 1) as nat) + table_records(batches[n - 1])
    }
}

/// The column at `k` is missing or has another type than it should have.
pub open spec fn column_fault(data: BatchData, k: int) -> bool {
    is_faulty(data, k, column_kind(k))
}

/// The column at `k` is the first at fault.
pub open spec fn first_fault(data: BatchData, k: int) -> bool {
    0 <= k < COLUMN_COUNT && column_fault(data, k) && forall|j: int|
        0 <= j < k ==> !#[trigger] column_fault(data, j)
}

/// No column is at fault.
pub open spec fn is_readable(data: BatchData) -> bool {
    forall|k: int| 0 <= k < COLUMN_COUNT ==> !#[trigger] column_fault(data, k)
}

/// What is said of a column at fault.
pub open spec fn tells_fault(error: NsysDataError, data: BatchData, k: int, path: Seq<char>) -> bool {
    if k >= data.columns.len() {
        error matches NsysDataError::GpuWorkEventsColumnMissing { path: p, column } && p@ == path
            && column@ == column_name(k)
    } else {
        error matches NsysDataError::GpuWorkEventsColumnTypeMismatch {
            path: p,
            column,
            expected,
            actual,
        } && p@ == path && column@ == column_name(k) && expected@ == kind_text(column_kind(k))
            && actual@ == data.columns[k].kind_name
    }
}

/// The column at `index`, which `path` is at fault not to have.
fn event_column(batch: &Batch, index: usize, kind: ColumnType, path: &str) -> (column: NsysDataResult<
    Column,
>)
    requires
        index < COLUMN_COUNT,
        kind == column_kind(index as int),
    ensures
        ({
            let data = batch_data(*batch);
            match column {
                Ok(c) => {
                    &&& !column_fault(data, index as int)
                    &&& column_data(c) == data.columns[index as int]
                    &&& column_data(c).kind == kind
                    &&& column_data(c).valid.len() == data.rows
                    &&& column_data(c).slots.len() == data.rows
                },
                Err(error) => column_fault(data, index as int) && tells_fault(
                    error,
                    data,
                    index as int,
                    path@,
                ),
            }
        }),
{
    match checked_column(batch, index, kind) {
        Ok(c) => Ok(c),
        Err(ColumnFault::Missing) => Err(
            NsysDataError::gpu_work_events_column_missing(path, named(index)),
        ),
        Err(ColumnFault::Mismatch { actual }) => {
            let expected = match kind {
                ColumnType::Int32 => "Int32",
                ColumnType::Utf8 => "Utf8",
                _ => "Int64",
            };
            Err(
                NsysDataError::gpu_work_events_column_type_mismatch(
                    path,
                    named(index),
                    expected,
                    actual.as_str(),
                ),
            )
        },
    }
}

/// The columns of a table; fails on the first that is at fault.
fn event_columns(batch: &Batch, path: &str) -> (columns: NsysDataResult<Vec<Column>>)
    ensures
        ({
            let data = batch_data(*batch);
            match columns {
                Ok(cs) => {
                    &&& is_readable(data)
                    &&& cs@.len() == COLUMN_COUNT
                    &&& forall|k: int|
                        0 <= k < COLUMN_COUNT ==> {
                            let c = column_data(#[trigger] cs@[k]);
                            &&& c == data.columns[k]
                            &&& c.kind == column_kind(k)
                            &&& c.slots.len() == data.rows
                            &&& c.valid.len() == data.rows
                        }
                },
                Err(error) => exists|k: int| #[trigger]
                    first_fault(data, k) && tells_fault(error, data, k, path@),
            }
        }),
{
    let ghost data = batch_data(*batch);
    let mut columns: Vec<Column> = Vec::with_capacity(COLUMN_COUNT);
    let mut k: usize = 0;
    while k < COLUMN_COUNT
        invariant
            k <= COLUMN_COUNT,
            data == batch_data(*batch),
            columns.len() == k,
            forall|j: int| 0 <= j < k ==> !#[trigger] column_fault(data, j),
            forall|j: int|
                0 <= j < k ==> {
                    let c = column_data(#[trigger] columns@[j]);
                    &&& c == data.columns[j]
                    &&& c.kind == column_kind(j)
                    &&& c.slots.len() == data.rows
                    &&& c.valid.len() == data.rows
                },
        decreases COLUMN_COUNT - k,
    {
        match event_column(batch, k, typed(k), path) {
            Ok(c) => {
                columns.push(c);
            },
            Err(error) => {
                assert(first_fault(data, k as int));
                return Err(error);
            },
        }
        k = k + 1;
    }
    Ok(columns)
}

/// Appends the events of one table.
fn decode_table(batch: &Batch, path: &str, out: &mut Vec<GpuWorkEventRecord>) -> (result: NsysDataResult<
    (),
>)
    ensures
        ({
            let data = batch_data(*batch);
            match result {
                Ok(_) => is_readable(data) && event_views(final(out)@) == event_views(old(out)@)
                    + table_records(data),
                Err(error) => exists|k: int| #[trigger]
                    first_fault(data, k) && tells_fault(error, data, k, path@),
            }
        }),
{
    let ghost data = batch_data(*batch);
    let columns = match event_columns(batch, path) {
        Ok(columns) => columns,
        Err(error) => {
            return Err(error);
        },
    };
    proof {
        assert forall|k: int| 0 <= k < COLUMN_COUNT implies column_data(columns@[k])
            == #[trigger] data.columns[k] by {
            let c = column_data(columns@[k]);
        }
        let c0 = columns@[0];
        let c1 = columns@[1];
        let c2 = columns@[2];
        let c3 = columns@[3];
        let c4 = columns@[4];
        let c5 = columns@[5];
    }
    let kinds = text_values(&columns[0]);
    let row_ids = int64_values(&columns[1]);
    let devices = int32_values(&columns[2]);
    let streams = int64_values(&columns[3]);
    let starts = int64_values(&columns[4]);
    let ends = int64_values(&columns[5]);
    let rows: usize = batch.num_rows();
    let mut i: usize = 0;
    assert(event_views(out@) =~= event_views(old(out)@) + table_records(data).subrange(0, 0));
    while i < rows
        invariant
            i <= rows,
            rows == data.rows,
            kinds.len() == rows,
            row_ids.len() == rows,
            devices.len() == rows,
            streams.len() == rows,
            starts.len() == rows,
            ends.len() == rows,
            forall|x: int|
                0 <= x < rows ==> data.columns[0].slots[x] == Slot::Text((#[trigger] kinds@[x])@),
            forall|x: int|
                0 <= x < rows ==> (#[trigger] row_ids@[x]) as int == slot_int(
                    data.columns[1].slots[x],
                ),
            forall|x: int|
                0 <= x < rows ==> (#[trigger] devices@[x]) as int == slot_int(
                    data.columns[2].slots[x],
                ),
            forall|x: int|
                0 <= x < rows ==> (#[trigger] streams@[x]) as int == slot_int(
                    data.columns[3].slots[x],
                ),
            forall|x: int|
                0 <= x < rows ==> (#[trigger] starts@[x]) as int == slot_int(
                    data.columns[4].slots[x],
                ),
            forall|x: int|
                0 <= x < rows ==> (#[trigger] ends@[x]) as int == slot_int(
                    data.columns[5].slots[x],
                ),
            event_views(out@) == event_views(old(out)@) + table_records(data).subrange(
                0,
                i as int,
            ),
        decreases rows - i,
    {
        let ghost before = event_views(out@);
        out.push(
            GpuWorkEventRecord {
                kind: kinds[i].clone(),
                row_id: row_ids[i],
                device_id: devices[i],
                stream_id: streams[i],
                start_ns: starts[i],
                end_ns: ends[i],
            },
        );
        proof {
            let got = out@.last()@;
            let want = row_record(data, i as int);
            assert(got == want);
            assert(event_views(out@) =~= before.push(want));
            assert(table_records(data).subrange(0, i + 1) =~= table_records(data).subrange(
                0,
                i as int,
            ).push(want));
            assert(event_views(out@) =~= event_views(old(out)@) + table_records(data).subrange(
                0,
                i + 1,
            ));
        }
        i = i + 1;
    }
    assert(table_records(data).subrange(0, rows as int) =~= table_records(data));
    Ok(())
}

/// Table `t` is the first with a column at fault, and `k` is its first.
pub open spec fn first_bad_table(batches: Seq<BatchData>, t: int, k: int) -> bool {
    &&& 0 <= t < batches.len()
    &&& first_fault(batches[t], k)
    &&& forall|u: int| 0 <= u < t ==> is_readable(#[trigger] batches[u])
}

/// No column of any of the tables is at fault.
pub open spec fn all_readable(batches: Seq<BatchData>) -> bool {
    forall|t: int| 0 <= t < batches.len() ==> is_readable(#[trigger] batches[t])
}

/// The error tells the first column at fault of the first table that has one.
pub open spec fn tells_bad_table(
    error: NsysDataError,
    batches: Seq<BatchData>,
    path: Seq<char>,
) -> bool {
    exists|t: int, k: int| #[trigger]
        first_bad_table(batches, t, k) && tells_fault(error, batches[t], k, path)
}

/// The records of the tables read from `path`; fails on the first column that
/// is missing or has the wrong type.
pub fn decode_records(batches: &Vec<Batch>, path: &str) -> (records: NsysDataResult<
    Vec<GpuWorkEventRecord>,
>)
    ensures
        match records {
            Ok(recs) => all_readable(batch_views(batches@)) && event_views(recs@) == tables_records(
                batch_views(batches@),
                batches@.len(),
            ),
            Err(error) => tells_bad_table(error, batch_views(batches@), path@),
        },
{
    let ghost tables = batch_views(batches@);
    let mut out: Vec<GpuWorkEventRecord> = Vec::new();
    let mut t: usize = 0;
    assert(event_views(out@) =~= Seq::<GpuWorkEventView>::empty());
    while t < batches.len()
        invariant
            t <= batches.len(),
            tables == batch_views(batches@),
            forall|u: int| 0 <= u < t ==> is_readable(#[trigger] tables[u]),
            event_views(out@) == tables_records(tables, t as nat),
        decreases batches.len() - t,
    {
        assert(tables[t as int] == batch_data(batches@[t as int]));
        match decode_table(&batches[t], path, &mut out) {
            Ok(_) => {},
            Err(error) => {
                proof {
                    let data = tables[t as int];
                    let k: int = choose|k: int| #[trigger]
                        first_fault(data, k) && tells_fault(error, data, k, path@);
                    assert(first_bad_table(tables, t as int, k));
                }
                return Err(error);
            },
        }
        t = t + 1;
    }
    Ok(out)
}

/// A table that holds events reads back as those events.
pub proof fn tables_round_trip(data: BatchData, events: Seq<GpuWorkEventView>)
    requires
        table_holds(data, events),
    ensures
        is_readable(data),
        table_records(data) == events,
{
    assert forall|k: int| 0 <= k < COLUMN_COUNT implies !#[trigger] column_fault(data, k) by {
        assert(data.columns[k].kind == column_kind(k));
    }
    assert forall|i: int| 0 <= i < events.len() implies row_record(data, i)
        == #[trigger] events[i] by {
        assert(row_holds(data, i, events[i]));
        assert(row_record(data, i).kind =~= events[i].kind);
    }
    assert(table_records(data) =~= events);
}

/// What reading a file comes to.
pub open spec fn tells_read(
    records: NsysDataResult<Vec<GpuWorkEventRecord>>,
    read: FileRead,
    path: Seq<char>,
) -> bool {
    match read {
        FileRead::Refused(why) => records matches Err(NsysDataError::GpuWorkEventsReaderOpen {
            path: p,
            source,
        }) && p@ == path && source@ == why,
        FileRead::Opened(c) => match c.unbuilt {
            Some(why) => records matches Err(NsysDataError::GpuWorkEventsReaderBuild {
                path: p,
                source,
            }) && p@ == path && source@ == why,
            None => match records {
                Ok(recs) => c.failure is None && all_readable(c.batches) && event_views(recs@)
                    == tables_records(c.batches, c.batches.len()),
                Err(error) => {
                    ||| tells_bad_table(error, c.batches, path)
                    ||| all_readable(c.batches) && c.failure is Some && (
                    error matches NsysDataError::GpuWorkEventsBatchRead { path: p, source } && p@ == path
                        && source@ == c.failure->0)
                },
            },
        },
    }
}

/// The records of a file with these bytes, read from `path`.
///
/// The bytes have to be such that reading them comes to an end.
pub fn read_parquet(bytes: Vec<u8>, path: &str) -> (records: NsysDataResult<Vec<GpuWorkEventRecord>>)
    requires
        parquet_returns(bytes@),
    ensures
        tells_read(records, parquet_read(bytes@), path@),
{
    let file = match read_file(bytes) {
        Ok(file) => file,
        Err(why) => {
            return Err(NsysDataError::gpu_work_events_reader_open(path, why.as_str()));
        },
    };
    if let Some(why) = &file.unbuilt {
        return Err(NsysDataError::gpu_work_events_reader_build(path, why.as_str()));
    }
    let ghost tables = batch_views(file.batches@);
    assert(tables.len() == file.batches@.len());
    let records = match decode_records(&file.batches, path) {
        Ok(records) => records,
        Err(error) => {
            return Err(error);
        },
    };
    match &file.failure {
        Some(why) => Err(NsysDataError::gpu_work_events_batch_read(path, why.as_str())),
        None => Ok(records),
    }
}

/// The file holds the records and was built from the source with the
/// fingerprint.
pub open spec fn file_holds(
    read: FileRead,
    recs: Seq<GpuWorkEventView>,
    fingerprint: SourceFingerprint,
) -> bool {
    read matches FileRead::Opened(c) && c.unbuilt is None && c.failure is None && all_readable(
        c.batches,
    ) && tables_records(c.batches, c.batches.len()) == recs && is_freshness_kv(
        c.entries,
        KV_VERSION@,
        GPU_WORK_EVENTS_VERSION,
        fingerprint,
    )
}

/// What writing the records to `path` comes to.
pub open spec fn tells_written(
    bytes: NsysDataResult<Vec<u8>>,
    writing: Writing,
    path: Seq<char>,
) -> bool {
    match writing {
        Writing::Written(b) => bytes matches Ok(v) && v@ == b,
        Writing::OpenFailed(why) => bytes matches Err(NsysDataError::GpuWorkEventsWriterOpen {
            path: p,
            source,
        }) && p@ == path && source@ == why,
        Writing::WriteFailed(why) => bytes matches Err(NsysDataError::GpuWorkEventsWriterWrite {
            path: p,
            source,
        }) && p@ == path && source@ == why,
        Writing::CloseFailed(why) => bytes matches Err(NsysDataError::GpuWorkEventsWriterClose {
            path: p,
            source,
        }) && p@ == path && source@ == why,
    }
}

/// What writing the records, built from the source with the fingerprint, comes
/// to.
pub open spec fn writing_of(recs: Seq<GpuWorkEventView>, fingerprint: SourceFingerprint) -> Writing {
    parquet_written(
        stored_records(recs),
        freshness_entries(KV_VERSION@, GPU_WORK_EVENTS_VERSION, fingerprint),
    )
}

proof fn names_differ(data: BatchData)
    requires
        has_schema(data),
    ensures
        data.names.no_duplicates(),
{
    reveal_strlit("kind");
    reveal_strlit("row_id");
    reveal_strlit("device_id");
    reveal_strlit("stream_id");
    reveal_strlit("start_ns");
    reveal_strlit("end_ns");
    assert("row_id"@[0] != "end_ns"@[0]);
    assert("device_id"@[0] != "stream_id"@[0]);
    assert forall|i: int, j: int|
        0 <= i < data.names.len() && 0 <= j < data.names.len() && i != j implies data.names[i]
        != data.names[j] by {
        assert(data.names[i] == column_name(i));
        assert(data.names[j] == column_name(j));
    }
}

/// A part of a table that holds records holds its share of them.
proof fn part_holds(part: BatchData, whole: BatchData, from: nat, recs: Seq<GpuWorkEventView>)
    requires
        table_holds(whole, recs),
        is_part(part, whole, from),
        from + part.rows <= recs.len(),
    ensures
        table_holds(part, recs.subrange(from as int, (from + part.rows) as int)),
{
    let share = recs.subrange(from as int, (from + part.rows) as int);
    assert forall|k: int| 0 <= k < COLUMN_COUNT implies (#[trigger] part.columns[k]).kind
        == column_kind(k) by {
        assert(whole.columns[k].kind == column_kind(k));
    }
    assert forall|i: int| 0 <= i < share.len() implies row_holds(part, i, #[trigger] share[i]) by {
        assert(row_holds(whole, from + i, recs[from + i]));
        assert forall|k: int| 0 <= k < COLUMN_COUNT implies #[trigger] same_place(
            part.columns[k],
            i,
            whole.columns[k],
            from + i,
        ) by {
            let v = part.columns[k].valid[i];
        }
        assert(same_place(part.columns[0], i, whole.columns[0], from + i));
        assert(same_place(part.columns[1], i, whole.columns[1], from + i));
        assert(same_place(part.columns[2], i, whole.columns[2], from + i));
        assert(same_place(part.columns[3], i, whole.columns[3], from + i));
        assert(same_place(part.columns[4], i, whole.columns[4], from + i));
        assert(same_place(part.columns[5], i, whole.columns[5], from + i));
    }
}

/// The parts of a table that holds records hold them one after the other.
proof fn split_holds(
    batches: Seq<BatchData>,
    whole: BatchData,
    recs: Seq<GpuWorkEventView>,
    n: nat,
)
    requires
        table_holds(whole, recs),
        is_split(batches, whole),
        n <= batches.len(),
    ensures
        rows_before(batches, n) <= recs.len(),
        forall|t: int| 0 <= t < n ==> is_readable(#[trigger] batches[t]),
        tables_records(batches, n) == recs.take(rows_before(batches, n) as int),
    decreases n,
{
    rows_before_grows(batches, n);
    if n == 0 {
        assert(recs.take(0) =~= Seq::<GpuWorkEventView>::empty());
    } else {
        split_holds(batches, whole, recs, (n - 1) as nat);
        let from = rows_before(batches, (n - 1) as nat);
        let part = batches[n - 1];
        part_holds(part, whole, from, recs);
        tables_round_trip(part, recs.subrange(from as int, (from + part.rows) as int));
        assert(recs.take(from as int) + recs.subrange(from as int, (from + part.rows) as int) =~= recs.take(
            (from + part.rows) as int,
        ));
    }
}

/// The records as the bytes of a file at `path`, built from the source with the
/// fingerprint.
///
/// The kinds together have to fit a column with 32-bit offsets.
pub fn write_parquet(
    records: &Vec<GpuWorkEventRecord>,
    fingerprint: SourceFingerprint,
    path: &str,
) -> (bytes: NsysDataResult<Vec<u8>>)
    requires
        text_bytes(record_kinds(records@)) <= i32::MAX,
    ensures
        tells_written(bytes, writing_of(event_views(records@), fingerprint), path@),
        bytes matches Ok(b) ==> parquet_returns(b@) && file_holds(
            parquet_read(b@),
            event_views(records@),
            fingerprint,
        ),
{
    let ghost recs = event_views(records@);
    let batch = match encode_records(records) {
        Ok(batch) => batch,
        Err(error) => {
            return Err(error);
        },
    };
    let ghost whole = batch_data(batch);
    let entries = freshness_kv(KV_VERSION, GPU_WORK_EVENTS_VERSION, fingerprint);
    let ghost given = entry_views(entries@);
    proof {
        names_differ(whole);
        assert forall|k: int| 0 <= k < whole.columns.len() implies is_sidecar_column(
            #[trigger] whole.columns[k],
        ) by {
            assert(whole.columns[k].kind == column_kind(k));
        }
        stored_is(whole, recs);
        own_keys_are_free();
        assert forall|i: int| 0 <= i < entries@.len() implies (#[trigger] entries@[i]).key@
            != "ARROW:schema"@ by {
            assert(given[i].0 == entries@[i].key@);
        }
    }
    match write_file(&batch, entries) {
        Ok(bytes) => {
            proof {
                let c = parquet_read(bytes@)->Opened_0;
                split_holds(c.batches, whole, recs, c.batches.len());
                assert(recs.take(recs.len() as int) =~= recs);
                assert forall|i: int| 0 <= i < given.len() implies c.entries[i] == given[i] by {
                    assert(c.entries.take(given.len() as int)[i] == given[i]);
                }
            }
            Ok(bytes)
        },
        Err(WriteFault::Open(why)) => Err(
            NsysDataError::gpu_work_events_writer_open(path, why.as_str()),
        ),
        Err(WriteFault::Write(why)) => Err(
            NsysDataError::gpu_work_events_writer_write(path, why.as_str()),
        ),
        Err(WriteFault::Close(why)) => Err(
            NsysDataError::gpu_work_events_writer_close(path, why.as_str()),
        ),
    }
}

/// The keys of the entries are not the one that the writer takes for itself.
proof fn own_keys_are_free()
    ensures
        KV_VERSION@ != "ARROW:schema"@,
        KV_MTIME@ != "ARROW:schema"@,
        KV_SIZE@ != "ARROW:schema"@,
        KV_VERSION@ != KV_MTIME@,
        KV_VERSION@ != KV_SIZE@,
{
    reveal_strlit("ARROW:schema");
    reveal_strlit("veloq.gpu_work_events.version");
    reveal_strlit("veloq.source.mtime_secs");
    reveal_strlit("veloq.source.size");
    assert("ARROW:schema"@.len() == 12);
    assert(KV_VERSION@[6] != KV_MTIME@[6]);
}

/// What is read from a written file is what was written.
pub proof fn written_records_read_back(
    written: Seq<GpuWorkEventView>,
    fingerprint: SourceFingerprint,
    read: FileRead,
    records: NsysDataResult<Vec<GpuWorkEventRecord>>,
    path: Seq<char>,
)
    requires
        file_holds(read, written, fingerprint),
        tells_read(records, read, path),
    ensures
        records matches Ok(recs) && event_views(recs@) == written,
{
    let c = read->Opened_0;
    if records is Err {
        let error = records->Err_0;
        if tells_bad_table(error, c.batches, path) {
            let (t, k) = choose|t: int, k: int| #[trigger]
                first_bad_table(c.batches, t, k) && tells_fault(error, c.batches[t], k, path);
            assert(is_readable(c.batches[t]));
            assert(column_fault(c.batches[t], k));
        }
    }
}

/// Whether the sidecar with these bytes has this version of the format and was
/// built from the source with the fingerprint.
///
/// The bytes have to be such that reading them comes to an end.
pub fn sidecar_is_fresh(bytes: Vec<u8>, fingerprint: SourceFingerprint) -> (fresh: bool)
    requires
        parquet_returns(bytes@),
    ensures
        fresh == file_says_fresh(
            parquet_read(bytes@),
            KV_VERSION@,
            GPU_WORK_EVENTS_VERSION,
            fingerprint,
        ),
{
    file_is_fresh(bytes, KV_VERSION, GPU_WORK_EVENTS_VERSION, fingerprint)
}

/// The format version that the sidecar with these bytes names.
///
/// The bytes have to be such that reading them comes to an end.
pub fn format_version_on_disk(bytes: Vec<u8>) -> (version: Option<u32>)
    requires
        parquet_returns(bytes@),
    ensures
        version == match parquet_read(bytes@) {
            FileRead::Opened(c) => version_in(c.entries, KV_VERSION@),
            FileRead::Refused(_) => None,
        },
{
    match read_entries(bytes) {
        Ok(entries) => find_version(&entries, KV_VERSION),
        Err(_) => None,
    }
}

/// A written file is fresh for the source that it was built from, and for no
/// other.
pub proof fn written_file_is_fresh_for_its_source(
    read: FileRead,
    written: Seq<GpuWorkEventView>,
    source: SourceFingerprint,
    current: SourceFingerprint,
)
    requires
        file_holds(read, written, source),
    ensures
        file_says_fresh(read, KV_VERSION@, GPU_WORK_EVENTS_VERSION, current) <==> source == current,
{
    own_keys_are_free();
    fresh_only_for_its_source(
        read->Opened_0.entries,
        KV_VERSION@,
        GPU_WORK_EVENTS_VERSION,
        source,
        GPU_WORK_EVENTS_VERSION,
        current,
    );
}

/// What storing the records comes to: a file that is fresh and reads back as
/// what was given, or why it could not be written.
pub open spec fn tells_stored(
    stored: NsysDataResult<StoredSidecar<Vec<GpuWorkEventRecord>>>,
    recs: Seq<GpuWorkEventView>,
    fingerprint: SourceFingerprint,
    path: Seq<char>,
) -> bool {
    match (writing_of(recs, fingerprint), stored) {
        (Writing::Written(b), Ok(st)) => st.bytes@ == b && st.fresh && event_views(st.records@) == recs,
        (Writing::Written(_), Err(_)) => false,
        (_, Ok(_)) => false,
        (failed, Err(error)) => tells_written(Err(error), failed, path),
    }
}

/// Writes the records and reads the file back, as its next reader will.
///
/// The kinds together have to fit a column with 32-bit offsets.
pub fn store_records(
    records: &Vec<GpuWorkEventRecord>,
    fingerprint: SourceFingerprint,
    path: &str,
) -> (stored: NsysDataResult<StoredSidecar<Vec<GpuWorkEventRecord>>>)
    requires
        text_bytes(record_kinds(records@)) <= i32::MAX,
    ensures
        tells_stored(stored, event_views(records@), fingerprint, path@),
{
    let ghost recs = event_views(records@);
    let bytes = match write_parquet(records, fingerprint, path) {
        Ok(bytes) => bytes,
        Err(error) => {
            return Err(error);
        },
    };
    let fresh: bool = sidecar_is_fresh(copied_bytes(&bytes), fingerprint);
    let ghost read = parquet_read(bytes@);
    let loaded = read_parquet(copied_bytes(&bytes), path);
    proof {
        written_file_is_fresh_for_its_source(read, recs, fingerprint, fingerprint);
        written_records_read_back(recs, fingerprint, read, loaded, path@);
    }
    match loaded {
        Ok(records) => Ok(StoredSidecar { bytes, fresh, records }),
        Err(error) => Err(error),
    }
}

/// The format version that is found in the file of the events.
///
/// The kinds together have to fit a column with 32-bit offsets.
pub fn stored_version(
    records: &Vec<GpuWorkEventRecord>,
    fingerprint: SourceFingerprint,
    path: &str,
) -> (version: NsysDataResult<Option<u32>>)
    requires
        text_bytes(record_kinds(records@)) <= i32::MAX,
    ensures
        match (writing_of(event_views(records@), fingerprint), version) {
            (Writing::Written(_), Ok(found)) => found == Some(GPU_WORK_EVENTS_VERSION),
            (Writing::Written(_), Err(_)) => false,
            (_, Ok(_)) => false,
            (failed, Err(error)) => tells_written(Err(error), failed, path@),
        },
{
    match write_parquet(records, fingerprint, path) {
        Ok(bytes) => {
            proof {
                written_version_is_found(
                    parquet_read(bytes@)->Opened_0.entries,
                    KV_VERSION@,
                    GPU_WORK_EVENTS_VERSION,
                    fingerprint,
                );
            }
            Ok(format_version_on_disk(bytes))
        },
        Err(error) => Err(error),
    }
}

} // verus!
