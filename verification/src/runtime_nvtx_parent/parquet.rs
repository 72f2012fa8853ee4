//! The attribution index as a table of Arrow columns.
use super::{
    chain_view, entry_views, EnclosingNvtx, EnclosingNvtxView, RuntimeParentEntry,
    RuntimeParentEntryView, RUNTIME_NVTX_PARENT_VERSION,
};
use crate::columns::{
    batch_data, batch_of, batch_views, cell, checked_column, column_data, delimits, int32_column,
    int32_options, int64_column, int64_options, int64_values, int_cell, is_faulty, is_int,
    is_optional_int, list_column, optional_int, required_int64_column, slot_int, text_bytes,
    text_values, utf8_column, wide32, wide64, Batch, BatchData, Column, ColumnData, ColumnFault,
    ColumnField, ColumnType, Slot,
};
use crate::error::{NsysDataError, NsysDataResult};
use crate::fingerprint::{copied_bytes, SourceFingerprint};
use crate::nvtx_tree::parquet::narrow64;
use crate::parquet_file::{
    is_part, is_sidecar_column, is_split, parquet_read, parquet_returns, parquet_written,
    read_file, rows_before, rows_before_grows, same_place, stored_table, write_file, FileRead,
    StoredColumn, WriteFault, Writing,
};
use crate::sidecar::{
    entry_views as kv_views, file_is_fresh, file_says_fresh, fresh_only_for_its_source,
    freshness_entries, freshness_kv, is_freshness_kv, StoredSidecar, KV_MTIME, KV_SIZE,
};
use vstd::prelude::*;
use vstd::string::StringExecFns;

verus! {

/// Metadata key of the format version.
pub const KV_VERSION: &'static str = "veloq.runtime_nvtx_parent.version";

/// Number of columns.
pub const COLUMN_COUNT: usize = 7;

/// Name of the column at an index.
pub open spec fn column_name(k: int) -> Seq<char> {
    if k == 0 {
        "rt_rowid"@
    } else if k == 1 {
        "correlation_id"@
    } else if k == 2 {
        "native_pid"@
    } else if k == 3 {
        "device_id"@
    } else if k == 4 {
        "context_id"@
    } else if k == 5 {
        "nvtx_rowids"@
    } else {
        "nvtx_names"@
    }
}

/// Type of the column at an index.
pub open spec fn column_kind(k: int) -> ColumnType {
    if k == 3 {
        ColumnType::Int32
    } else if k == 5 || k == 6 {
        ColumnType::List
    } else {
        ColumnType::Int64
    }
}

/// Type of the list items of the column at an index.
pub open spec fn column_items(k: int) -> ColumnType {
    if k == 5 {
        ColumnType::Int64
    } else if k == 6 {
        ColumnType::Utf8
    } else {
        ColumnType::Other
    }
}

/// Whether the column at an index may hold nulls.
pub open spec fn column_nullable(k: int) -> bool {
    k == 1 || k == 3 || k == 4
}

/// The type of the column at an index in messages.
pub open spec fn column_type_text(k: int) -> Seq<char> {
    if k == 3 {
        "Int32"@
    } else if k == 5 {
        "List<Int64>"@
    } else if k == 6 {
        "List<Utf8>"@
    } else {
        "Int64"@
    }
}

fn named(index: usize) -> (name: &'static str)
    requires
        index < COLUMN_COUNT,
    ensures
        name@ == column_name(index as int),
{
    match index {
        0 => "rt_rowid",
        1 => "correlation_id",
        2 => "native_pid",
        3 => "device_id",
        4 => "context_id",
        5 => "nvtx_rowids",
        _ => "nvtx_names",
    }
}

fn typed(index: usize) -> (text: &'static str)
    requires
        index < COLUMN_COUNT,
    ensures
        text@ == column_type_text(index as int),
{
    match index {
        3 => "Int32",
        5 => "List<Int64>",
        6 => "List<Utf8>",
        _ => "Int64",
    }
}

fn kind_at(index: usize) -> (kind: ColumnType)
    requires
        index < COLUMN_COUNT,
    ensures
        kind == column_kind(index as int),
{
    match index {
        3 => ColumnType::Int32,
        5 | 6 => ColumnType::List,
        _ => ColumnType::Int64,
    }
}

/// The columns of the table.
pub fn parquet_schema() -> (fields: Vec<ColumnField>)
    ensures
        fields.len() == COLUMN_COUNT,
        forall|k: int|
            0 <= k < fields.len() ==> {
                let f = #[trigger] fields@[k];
                f.name@ == column_name(k) && f.kind == column_kind(k) && f.item_kind
                    == column_items(k) && f.nullable == column_nullable(k)
            },
{
    let mut fields: Vec<ColumnField> = Vec::with_capacity(COLUMN_COUNT);
    let mut k: usize = 0;
    while k < COLUMN_COUNT
        invariant
            k <= COLUMN_COUNT,
            fields.len() == k,
            forall|x: int|
                0 <= x < k ==> {
                    let f = #[trigger] fields@[x];
                    f.name@ == column_name(x) && f.kind == column_kind(x) && f.item_kind
                        == column_items(x) && f.nullable == column_nullable(x)
                },
        decreases COLUMN_COUNT - k,
    {
        let item_kind = if k == 5 {
            ColumnType::Int64
        } else if k == 6 {
            ColumnType::Utf8
        } else {
            ColumnType::Other
        };
        fields.push(
            ColumnField {
                name: named(k).to_owned(),
                kind: kind_at(k),
                item_kind,
                nullable: k == 1 || k == 3 || k == 4,
            },
        );
        k = k + 1;
    }
    fields
}

/// The row ids of a chain, as list items.
pub open spec fn id_slots(chain: Seq<EnclosingNvtxView>) -> Seq<Slot> {
    chain.map_values(|e: EnclosingNvtxView| Slot::Int(e.nvtx_rowid as int))
}

/// The names of a chain, as list items.
pub open spec fn name_slots(chain: Seq<EnclosingNvtxView>) -> Seq<Slot> {
    chain.map_values(|e: EnclosingNvtxView| Slot::Text(e.nvtx_name))
}

/// The place is not null and holds the list.
pub open spec fn is_list(c: ColumnData, i: int, items: Seq<Slot>) -> bool {
    c.valid[i] && c.slots[i] == Slot::List(items)
}

/// Row `i` of the table holds the entry.
pub open spec fn row_holds(data: BatchData, i: int, e: RuntimeParentEntryView) -> bool {
    &&& is_int(data.columns[0], i, e.rt_rowid as int)
    &&& is_optional_int(data.columns[1], i, wide64(e.correlation_id))
    &&& is_int(data.columns[2], i, e.native_pid as int)
    &&& is_optional_int(data.columns[3], i, wide32(e.device_id))
    &&& is_optional_int(data.columns[4], i, wide64(e.context_id))
    &&& is_list(data.columns[5], i, id_slots(e.enclosing))
    &&& is_list(data.columns[6], i, name_slots(e.enclosing))
}

/// The table has the columns of the attribution index.
pub open spec fn has_schema(data: BatchData) -> bool {
    &&& data.columns.len() == COLUMN_COUNT
    &&& data.names.len() == COLUMN_COUNT
    &&& forall|k: int|
        0 <= k < COLUMN_COUNT ==> (#[trigger] data.columns[k]).kind == column_kind(k)
    &&& data.columns[5].item_kind == ColumnType::Int64
    &&& data.columns[6].item_kind == ColumnType::Utf8
    &&& forall|k: int| 0 <= k < COLUMN_COUNT ==> (#[trigger] data.names[k]) == column_name(k)
}

/// The table was built for writing: with the nulls that its columns admit.
pub open spec fn is_built(data: BatchData) -> bool {
    &&& data.built
    &&& data.nullable.len() == COLUMN_COUNT
    &&& forall|k: int|
        0 <= k < COLUMN_COUNT ==> (#[trigger] data.nullable[k]) == column_nullable(k)
}

/// What column `k` holds of a record.
pub open spec fn record_cell(r: RuntimeParentEntryView, k: int) -> Option<Slot> {
    if k == 0 {
        Some(Slot::Int(r.rt_rowid as int))
    } else if k == 1 {
        int_cell(wide64(r.correlation_id))
    } else if k == 2 {
        Some(Slot::Int(r.native_pid as int))
    } else if k == 3 {
        int_cell(wide32(r.device_id))
    } else if k == 4 {
        int_cell(wide64(r.context_id))
    } else if k == 5 {
        Some(Slot::List(id_slots(r.enclosing)))
    } else {
        Some(Slot::List(name_slots(r.enclosing)))
    }
}

/// The columns of the records as they are written.
pub open spec fn stored_records(recs: Seq<RuntimeParentEntryView>) -> Seq<StoredColumn> {
    Seq::new(
        COLUMN_COUNT as nat,
        |k: int|
            StoredColumn {
                name: column_name(k),
                kind: column_kind(k),
                items: if column_kind(k) == ColumnType::List {
                    Some(column_items(k))
                } else {
                    None
                },
                nullable: column_nullable(k),
                cells: Seq::new(recs.len(), |i: int| record_cell(recs[i], k)),
            },
    )
}

/// A table that was built for the records is written with their columns.
proof fn stored_is(data: BatchData, recs: Seq<RuntimeParentEntryView>)
    requires
        table_holds(data, recs),
        is_built(data),
    ensures
        stored_table(data) == stored_records(recs),
{
    let got = stored_table(data);
    let want = stored_records(recs);
    assert forall|k: int| 0 <= k < COLUMN_COUNT implies got[k] == want[k] by {
        assert(data.columns[k].kind == column_kind(k));
        assert(data.names[k] == column_name(k));
        assert(data.nullable[k] == column_nullable(k));
        assert forall|i: int| 0 <= i < recs.len() implies cell(data.columns[k], i) == record_cell(
            recs[i],
            k,
        ) by {
            assert(row_holds(data, i, recs[i]));
        }
        assert(got[k].cells =~= want[k].cells);
    }
    assert(got =~= want);
}

/// The table holds the entries, row by row.
pub open spec fn table_holds(data: BatchData, entries: Seq<RuntimeParentEntryView>) -> bool {
    &&& has_schema(data)
    &&& data.rows == entries.len()
    &&& forall|i: int| 0 <= i < entries.len() ==> row_holds(data, i, #[trigger] entries[i])
}

/// All ranges of the first `n` chains, one after the other.
pub open spec fn flat_chains(records: Seq<RuntimeParentEntry>, n: nat) -> Seq<EnclosingNvtx>
    decreases n,
{
    if n == 0 {
        Seq::empty()
    } else {
        flat_chains(records, (n - 1) as nat) + records[n - 1].enclosing@
    }
}

/// The names of ranges.
pub open spec fn range_names(ranges: Seq<EnclosingNvtx>) -> Seq<String> {
    ranges.map_values(|e: EnclosingNvtx| e.nvtx_name)
}

/// The chains fit list columns with 32-bit offsets, and their names a text
/// column.
pub open spec fn chains_fit(records: Seq<RuntimeParentEntry>) -> bool {
    let flat = flat_chains(records, records.len());
    flat.len() <= i32::MAX && text_bytes(range_names(flat)) <= i32::MAX
}

proof fn flat_chains_grow(records: Seq<RuntimeParentEntry>, n: nat)
    requires
        n <= records.len(),
    ensures
        flat_chains(records, n).len() <= flat_chains(records, records.len()).len(),
    decreases records.len() - n,
{
    if n < records.len() {
        flat_chains_grow(records, n + 1);
    }
}

/// Whether the chains fit the table.
pub fn records_fit(records: &Vec<RuntimeParentEntry>) -> (fit: bool)
    ensures
        fit == chains_fit(records@),
{
    let mut names: Vec<String> = Vec::new();
    let mut i: usize = 0;
    assert(names@ =~= range_names(flat_chains(records@, 0)));
    while i < records.len()
        invariant
            i <= records.len(),
            names@ == range_names(flat_chains(records@, i as nat)),
            names.len() <= i32::MAX,
        decreases records.len() - i,
    {
        let chain = &records[i].enclosing;
        proof {
            flat_chains_grow(records@, (i + 1) as nat);
        }
        assert(flat_chains(records@, i as nat).len() == names.len());
        if chain.len() > 0x7fff_ffff - names.len() {
            return false;
        }
        let ghost before = names@;
        let mut j: usize = 0;
        while j < chain.len()
            invariant
                j <= chain.len(),
                names@ =~= before + range_names(chain@).subrange(0, j as int),
            decreases chain.len() - j,
        {
            names.push(chain[j].nvtx_name.clone());
            j = j + 1;
        }
        i = i + 1;
        assert(names@ =~= range_names(flat_chains(records@, i as nat)));
    }
    crate::columns::texts_fit(&names)
}

/// The entries as a table.
///
/// The chains have to fit list columns with 32-bit offsets.
pub fn encode_records(records: &Vec<RuntimeParentEntry>) -> (batch: NsysDataResult<Batch>)
    requires
        chains_fit(records@),
    ensures
        batch matches Ok(b) && table_holds(batch_data(b), entry_views(records@))
            && is_sidecar_column(batch_data(b).columns[5]) && is_sidecar_column(
            batch_data(b).columns[6],
        ) && is_built(batch_data(b)),
{
    let n: usize = records.len();
    let ghost entries = entry_views(records@);
    let ghost flat = flat_chains(records@, n as nat);
    let mut rt_rowids: Vec<i64> = Vec::with_capacity(n);
    let mut corrs: Vec<Option<i64>> = Vec::with_capacity(n);
    let mut pids: Vec<i64> = Vec::with_capacity(n);
    let mut devs: Vec<Option<i32>> = Vec::with_capacity(n);
    let mut ctxs: Vec<Option<i64>> = Vec::with_capacity(n);
    let mut ids: Vec<i64> = Vec::new();
    let mut names: Vec<String> = Vec::new();
    let mut offsets: Vec<i32> = Vec::new();
    offsets.push(0);
    let mut i: usize = 0;
    while i < records.len()
        invariant
            n == records.len(),
            i <= n,
            rt_rowids.len() == i,
            corrs.len() == i,
            pids.len() == i,
            devs.len() == i,
            ctxs.len() == i,
            offsets.len() == i + 1,
            flat_chains(records@, n as nat).len() <= i32::MAX,
            ids.len() == flat_chains(records@, i as nat).len(),
            names.len() == ids.len(),
            forall|x: int|
                0 <= x < ids.len() ==> (#[trigger] ids@[x]) == flat_chains(
                    records@,
                    i as nat,
                )[x].nvtx_rowid,
            forall|x: int|
                0 <= x < names.len() ==> (#[trigger] names@[x]) == flat_chains(
                    records@,
                    i as nat,
                )[x].nvtx_name,
            forall|x: int|
                0 <= x <= i ==> (#[trigger] offsets@[x]) == flat_chains(records@, x as nat).len(),
            forall|x: int|
                0 <= x < i ==> {
                    let r = #[trigger] records@[x];
                    &&& rt_rowids@[x] == r.rt_rowid
                    &&& corrs@[x] == r.correlation_id
                    &&& pids@[x] == r.native_pid
                    &&& devs@[x] == r.device_id
                    &&& ctxs@[x] == r.context_id
                },
        decreases n - i,
    {
        let r = &records[i];
        rt_rowids.push(r.rt_rowid);
        corrs.push(r.correlation_id);
        pids.push(r.native_pid);
        devs.push(r.device_id);
        ctxs.push(r.context_id);
        let ghost before = flat_chains(records@, i as nat);
        let ghost after = flat_chains(records@, (i + 1) as nat);
        proof {
            flat_chains_grow(records@, (i + 1) as nat);
            assert(after == before + r.enclosing@);
        }
        let mut j: usize = 0;
        while j < r.enclosing.len()
            invariant
                j <= r.enclosing.len(),
                after == before + r.enclosing@,
                ids.len() == before.len() + j,
                names.len() == ids.len(),
                forall|x: int| 0 <= x < ids.len() ==> (#[trigger] ids@[x]) == after[x].nvtx_rowid,
                forall|x: int|
                    0 <= x < names.len() ==> (#[trigger] names@[x]) == after[x].nvtx_name,
            decreases r.enclosing.len() - j,
        {
            ids.push(r.enclosing[j].nvtx_rowid);
            names.push(r.enclosing[j].nvtx_name.clone());
            j = j + 1;
        }
        offsets.push(ids.len() as i32);
        i = i + 1;
    }
    assert(names@ =~= range_names(flat));
    let ids_column = required_int64_column(&ids);
    let names_column = utf8_column(names);
    proof {
        assert forall|x: int, y: int|
            #![trigger offsets@[x], offsets@[y]]
            0 <= x <= y < offsets@.len() implies offsets@[x] <= offsets@[y] by {
            chains_monotone(records@, x as nat, y as nat);
        }
        assert(flat_chains(records@, 0).len() == 0);
        assert(delimits(offsets@, ids@.len()));
    }
    let name_offsets = copied_offsets(&offsets);
    let ghost id_data = column_data(ids_column);
    let ghost name_data = column_data(names_column);
    let mut columns: Vec<Column> = Vec::with_capacity(COLUMN_COUNT);
    columns.push(required_int64_column(&rt_rowids));
    columns.push(int64_column(corrs));
    columns.push(required_int64_column(&pids));
    columns.push(int32_column(devs));
    columns.push(int64_column(ctxs));
    columns.push(list_column(offsets, ids_column));
    columns.push(list_column(name_offsets, names_column));
    let fields = parquet_schema();
    let ghost data = columns@.map_values(|c: Column| column_data(c));
    assert(is_sidecar_column(data[5]) && is_sidecar_column(data[6])) by {
        assert forall|x: int| 0 <= x < id_data.valid.len() implies #[trigger] id_data.valid[x] by {
            assert(is_int(id_data, x, ids@[x] as int));
        }
    }
    assert forall|x: int| 0 <= x < n implies {
        let e = #[trigger] entries[x];
        &&& is_int(data[0], x, e.rt_rowid as int)
        &&& is_optional_int(data[1], x, wide64(e.correlation_id))
        &&& is_int(data[2], x, e.native_pid as int)
        &&& is_optional_int(data[3], x, wide32(e.device_id))
        &&& is_optional_int(data[4], x, wide64(e.context_id))
        &&& is_list(data[5], x, id_slots(e.enclosing))
        &&& is_list(data[6], x, name_slots(e.enclosing))
    } by {
        let r = records@[x];
        let e = entries[x];
        assert(is_int(data[0], x, rt_rowids@[x] as int));
        assert(is_int(data[2], x, pids@[x] as int));
        assert(data[1].valid[x] == (corrs@[x] is Some));
        assert(data[3].valid[x] == (devs@[x] is Some));
        assert(data[4].valid[x] == (ctxs@[x] is Some));
        assert(data[1].slots.len() == n && data[3].slots.len() == n && data[4].slots.len() == n);
        let from = offsets@[x] as int;
        let to = offsets@[x + 1] as int;
        chains_monotone(records@, (x + 1) as nat, n as nat);
        flat_chain_at(records@, x as nat);
        assert(data[5].valid[x] && data[6].valid[x]);
        assert(data[5].slots[x] == Slot::List(id_data.slots.subrange(from, to)));
        assert(data[6].slots[x] == Slot::List(name_data.slots.subrange(from, to)));
        assert(id_data.slots.subrange(from, to) =~= id_slots(e.enclosing)) by {
            assert forall|j: int| 0 <= j < to - from implies id_data.slots.subrange(from, to)[j]
                == id_slots(e.enclosing)[j] by {
                assert(is_int(id_data, from + j, ids@[from + j] as int));
                assert(flat[from + j] == r.enclosing@[j]);
            }
        }
        assert(name_data.slots.subrange(from, to) =~= name_slots(e.enclosing)) by {
            assert forall|j: int| 0 <= j < to - from implies name_data.slots.subrange(
                from,
                to,
            )[j] == name_slots(e.enclosing)[j] by {
                assert(name_data.slots[from + j] == Slot::Text(names@[from + j]@));
                assert(flat[from + j] == r.enclosing@[j]);
            }
        }
    }
    assert forall|k: int| 0 <= k < columns@.len() implies column_data(
        #[trigger] columns@[k],
    ).valid.len() == n && fields@[k].admits(column_data(columns@[k])) by {
        let c = column_data(columns@[k]);
        assert(c == data[k]);
        assert(fields@[k].kind == column_kind(k) && fields@[k].item_kind == column_items(k));
        if !column_nullable(k) {
            assert forall|x: int| 0 <= x < c.valid.len() implies #[trigger] c.valid[x] by {
                let e = entries[x];
            }
        }
    }
    match batch_of(&fields, columns) {
        Ok(batch) => {
            proof {
                let b = batch_data(batch);
                assert(b.columns =~= data);
                assert forall|k: int| 0 <= k < COLUMN_COUNT implies (#[trigger] b.columns[k]).kind
                    == column_kind(k) by {
                    assert(fields@[k].admits(column_data(columns@[k])));
                    assert(fields@[k].kind == column_kind(k));
                }
                assert forall|k: int| 0 <= k < COLUMN_COUNT implies (#[trigger] b.names[k])
                    == column_name(k) by {
                    assert(fields@[k].name@ == column_name(k));
                }
                assert(table_holds(b, entries));
                assert forall|k: int| 0 <= k < COLUMN_COUNT implies (#[trigger] b.nullable[k])
                    == column_nullable(k) by {
                    assert(fields@[k].nullable == column_nullable(k));
                }
            }
            Ok(batch)
        },
        Err(message) => Err(NsysDataError::nvtx_parent_record_batch(message.as_str())),
    }
}

fn copied_offsets(offsets: &Vec<i32>) -> (copy: Vec<i32>)
    ensures
        copy@ == offsets@,
{
    let mut copy: Vec<i32> = Vec::with_capacity(offsets.len());
    let mut i: usize = 0;
    while i < offsets.len()
        invariant
            i <= offsets.len(),
            copy@ =~= offsets@.subrange(0, i as int),
        decreases offsets.len() - i,
    {
        copy.push(offsets[i]);
        i = i + 1;
    }
    copy
}

proof fn chains_monotone(records: Seq<RuntimeParentEntry>, x: nat, y: nat)
    requires
        x <= y <= records.len(),
    ensures
        flat_chains(records, x).len() <= flat_chains(records, y).len(),
        forall|i: int|
            0 <= i < flat_chains(records, x).len() ==> flat_chains(records, y)[i] == flat_chains(
                records,
                x,
            )[i],
    decreases y - x,
{
    if x < y {
        chains_monotone(records, x, (y - 1) as nat);
    }
}

/// The chain of record `x` stands at its offsets.
proof fn flat_chain_at(records: Seq<RuntimeParentEntry>, x: nat)
    requires
        x < records.len(),
    ensures
        ({
            let from = flat_chains(records, x).len();
            let chain = records[x as int].enclosing@;
            &&& flat_chains(records, (x + 1) as nat).len() == from + chain.len()
            &&& forall|j: int|
                0 <= j < chain.len() ==> flat_chains(records, records.len())[from + j]
                    == #[trigger] chain[j]
        }),
{
    let from = flat_chains(records, x).len();
    let chain = records[x as int].enclosing@;
    let more = flat_chains(records, (x + 1) as nat);
    chains_monotone(records, (x + 1) as nat, records.len());
    assert forall|j: int| 0 <= j < chain.len() implies flat_chains(records, records.len())[from + j]
        == #[trigger] chain[j] by {
        assert(more[from + j] == chain[j]);
        assert(flat_chains(records, records.len())[from + j] == more[from + j]);
    }
}

/// The chain that two lists of items spell.
pub open spec fn chain_of(ids: Seq<Slot>, names: Seq<Slot>) -> Seq<EnclosingNvtxView> {
    Seq::new(
        ids.len(),
        |j: int|
            EnclosingNvtxView {
                nvtx_rowid: slot_int(ids[j]) as i64,
                nvtx_name: names[j]->Text_0,
            },
    )
}

/// The entry in row `i` of a table.
pub open spec fn row_entry(data: BatchData, i: int) -> RuntimeParentEntryView {
    RuntimeParentEntryView {
        rt_rowid: slot_int(data.columns[0].slots[i]) as i64,
        correlation_id: narrow64(optional_int(data.columns[1], i)),
        native_pid: slot_int(data.columns[2].slots[i]) as i64,
        device_id: narrow32(optional_int(data.columns[3], i)),
        context_id: narrow64(optional_int(data.columns[4], i)),
        enclosing: chain_of(
            data.columns[5].slots[i]->List_0,
            data.columns[6].slots[i]->List_0,
        ),
    }
}

/// An optional mathematical integer as a machine one.
pub open spec fn narrow32(v: Option<int>) -> Option<i32> {
    match v {
        Some(n) => Some(n as i32),
        None => None,
    }
}

/// The entries of a table.
pub open spec fn table_entries(data: BatchData) -> Seq<RuntimeParentEntryView> {
    Seq::new(data.rows, |i: int| row_entry(data, i))
}

/// The entries of the first `n` tables.
pub open spec fn tables_entries(batches: Seq<BatchData>, n: nat) -> Seq<RuntimeParentEntryView>
    decreases n,
{
    if n == 0 {
        Seq::empty()
    } else {
        tables_entries(batches, (n - 1) as nat) + table_entries(batches[n - 1])
    }
}

/// The column at `k` is missing or has another type than it should have.
pub open spec fn column_fault(data: BatchData, k: int) -> bool {
    is_faulty(data, k, column_kind(k))
}

/// The column at `k` is the first at fault.
pub open spec fn first_fault(data: BatchData, k: int) -> bool {
    0 <= k < COLUMN_COUNT && column_fault(data, k) && forall|j: int|
        0 <= j < k ==> !#[trigger] column_fault(data, j)
}

/// What is said of a column at fault.
pub open spec fn tells_fault(error: NsysDataError, data: BatchData, k: int, path: Seq<char>) -> bool {
    if k >= data.columns.len() {
        error matches NsysDataError::NvtxParentColumnMissing { path: p, column } && p@ == path
            && column@ == column_name(k)
    } else {
        is_mismatch(error, path, k, data.columns[k].kind_name)
    }
}

/// The error says that the column at `k` has the wrong type.
pub open spec fn is_mismatch(error: NsysDataError, path: Seq<char>, k: int, found: Seq<char>) -> bool {
    error matches NsysDataError::NvtxParentColumnTypeMismatch {
        path: p,
        column,
        expected,
        actual,
    } && p@ == path && column@ == column_name(k) && expected@ == column_type_text(k) && actual@
        == found
}

/// The lists of row `i` have the wrong type or different lengths.
pub open spec fn row_fault(data: BatchData, i: int) -> bool {
    ||| data.columns[5].item_kind != ColumnType::Int64
    ||| data.columns[6].item_kind != ColumnType::Utf8
    ||| (data.columns[5].slots[i]->List_0).len() != (data.columns[6].slots[i]->List_0).len()
}

/// Row `i` is the first at fault, and no column is.
pub open spec fn first_row_fault(data: BatchData, i: int) -> bool {
    &&& forall|k: int| 0 <= k < COLUMN_COUNT ==> !#[trigger] column_fault(data, k)
    &&& 0 <= i < data.rows
    &&& row_fault(data, i)
    &&& forall|j: int| 0 <= j < i ==> !#[trigger] row_fault(data, j)
}

/// What is said of a row at fault.
pub open spec fn tells_row_fault(
    error: NsysDataError,
    data: BatchData,
    i: int,
    path: Seq<char>,
) -> bool {
    if data.columns[5].item_kind != ColumnType::Int64 {
        is_mismatch(error, path, 5, "List<"@ + data.columns[5].item_kind_name + ">"@)
    } else if data.columns[6].item_kind != ColumnType::Utf8 {
        is_mismatch(error, path, 6, "List<"@ + data.columns[6].item_kind_name + ">"@)
    } else {
        error matches NsysDataError::NvtxParentListLengthMismatch { row, rowids_len, names_len }
            && row == i && rowids_len == (data.columns[5].slots[i]->List_0).len() && names_len == (
        data.columns[6].slots[i]->List_0).len()
    }
}

/// No column and no row is at fault.
pub open spec fn is_readable(data: BatchData) -> bool {
    &&& forall|k: int| 0 <= k < COLUMN_COUNT ==> !#[trigger] column_fault(data, k)
    &&& forall|i: int| 0 <= i < data.rows ==> !#[trigger] row_fault(data, i)
}

/// The error tells the first fault of the table: of a column, or else of a row.
pub open spec fn tells_first_fault(error: NsysDataError, data: BatchData, path: Seq<char>) -> bool {
    ||| exists|k: int| #[trigger] first_fault(data, k) && tells_fault(error, data, k, path)
    ||| exists|i: int| #[trigger] first_row_fault(data, i) && tells_row_fault(error, data, i, path)
}

/// The columns of a table; fails on the first that is at fault.
fn parent_columns(batch: &Batch, path: &str) -> (columns: NsysDataResult<Vec<Column>>)
    ensures
        ({
            let data = batch_data(*batch);
            match columns {
                Ok(cs) => {
                    &&& forall|k: int| 0 <= k < COLUMN_COUNT ==> !#[trigger] column_fault(data, k)
                    &&& cs@.len() == COLUMN_COUNT
                    &&& forall|k: int|
                        0 <= k < COLUMN_COUNT ==> {
                            let c = column_data(#[trigger] cs@[k]);
                            &&& c == data.columns[k]
                            &&& c.kind == column_kind(k)
                            &&& c.slots.len() == data.rows
                            &&& c.valid.len() == data.rows
                        }
                },
                Err(error) => exists|k: int| #[trigger]
                    first_fault(data, k) && tells_fault(error, data, k, path@),
            }
        }),
{
    let ghost data = batch_data(*batch);
    let mut columns: Vec<Column> = Vec::with_capacity(COLUMN_COUNT);
    let mut k: usize = 0;
    while k < COLUMN_COUNT
        invariant
            k <= COLUMN_COUNT,
            data == batch_data(*batch),
            columns.len() == k,
            forall|j: int| 0 <= j < k ==> !#[trigger] column_fault(data, j),
            forall|j: int|
                0 <= j < k ==> {
                    let c = column_data(#[trigger] columns@[j]);
                    &&& c == data.columns[j]
                    &&& c.kind == column_kind(j)
                    &&& c.slots.len() == data.rows
                    &&& c.valid.len() == data.rows
                },
        decreases COLUMN_COUNT - k,
    {
        match checked_column(batch, k, kind_at(k)) {
            Ok(c) => {
                columns.push(c);
            },
            Err(ColumnFault::Missing) => {
                assert(first_fault(data, k as int));
                return Err(NsysDataError::nvtx_parent_column_missing(path, named(k)));
            },
            Err(ColumnFault::Mismatch { actual }) => {
                assert(first_fault(data, k as int));
                return Err(
                    NsysDataError::nvtx_parent_column_type_mismatch(
                        path,
                        named(k),
                        typed(k),
                        actual.as_str(),
                    ),
                );
            },
        }
        k = k + 1;
    }
    Ok(columns)
}

/// `List<` around the name of an item type.
fn list_text(item: &str) -> (text: String)
    ensures
        text@ == "List<"@ + item@ + ">"@,
{
    let mut text = "List<".to_owned();
    text.append(item);
    text.append(">");
    text
}

/// The chain in one row.
fn decode_chain(
    ids_column: &Column,
    names_column: &Column,
    row: usize,
    path: &str,
    Ghost(data): Ghost<BatchData>,
) -> (chain: NsysDataResult<Vec<EnclosingNvtx>>)
    requires
        column_data(*ids_column) == data.columns[5],
        column_data(*names_column) == data.columns[6],
        data.columns[5].kind == ColumnType::List,
        data.columns[6].kind == ColumnType::List,
        row < data.columns[5].slots.len(),
        row < data.columns[6].slots.len(),
    ensures
        match chain {
            Ok(c) => !row_fault(data, row as int) && chain_view(c@) == chain_of(
                data.columns[5].slots[row as int]->List_0,
                data.columns[6].slots[row as int]->List_0,
            ),
            Err(error) => row_fault(data, row as int) && tells_row_fault(
                error,
                data,
                row as int,
                path@,
            ),
        },
{
    let ids_items = ids_column.list_value(row);
    if !(ids_items.kind() == ColumnType::Int64) {
        let found = list_text(ids_items.kind_name().as_str());
        return Err(
            NsysDataError::nvtx_parent_column_type_mismatch(
                path,
                "nvtx_rowids",
                "List<Int64>",
                found.as_str(),
            ),
        );
    }
    let names_items = names_column.list_value(row);
    if !(names_items.kind() == ColumnType::Utf8) {
        let found = list_text(names_items.kind_name().as_str());
        return Err(
            NsysDataError::nvtx_parent_column_type_mismatch(
                path,
                "nvtx_names",
                "List<Utf8>",
                found.as_str(),
            ),
        );
    }
    let ids = int64_values(&ids_items);
    let names = text_values(&names_items);
    if ids.len() != names.len() {
        return Err(
            NsysDataError::nvtx_parent_list_length_mismatch(row, ids.len(), names.len()),
        );
    }
    let ghost want = chain_of(column_data(ids_items).slots, column_data(names_items).slots);
    let mut chain: Vec<EnclosingNvtx> = Vec::with_capacity(ids.len());
    let mut j: usize = 0;
    while j < ids.len()
        invariant
            j <= ids.len(),
            ids.len() == names.len(),
            want == chain_of(column_data(ids_items).slots, column_data(names_items).slots),
            ids.len() == column_data(ids_items).slots.len(),
            forall|x: int|
                0 <= x < ids.len() ==> (#[trigger] ids@[x]) as int == slot_int(
                    column_data(ids_items).slots[x],
                ),
            forall|x: int|
                0 <= x < names.len() ==> column_data(names_items).slots[x] == Slot::Text(
                    (#[trigger] names@[x])@,
                ),
            chain.len() == j,
            forall|x: int| 0 <= x < j ==> (#[trigger] chain@[x])@ == want[x],
        decreases ids.len() - j,
    {
        chain.push(EnclosingNvtx { nvtx_rowid: ids[j], nvtx_name: names[j].clone() });
        j = j + 1;
    }
    assert(chain_view(chain@) =~= want);
    Ok(chain)
}

/// Appends the entries of one table.
fn decode_table(
    batch: &Batch,
    path: &str,
    out: &mut Vec<RuntimeParentEntry>,
) -> (result: NsysDataResult<()>)
    ensures
        ({
            let data = batch_data(*batch);
            match result {
                Ok(_) => is_readable(data) && entry_views(final(out)@) == entry_views(old(out)@)
                    + table_entries(data),
                Err(error) => tells_first_fault(error, data, path@),
            }
        }),
{
    let ghost data = batch_data(*batch);
    let columns = match parent_columns(batch, path) {
        Ok(columns) => columns,
        Err(error) => {
            return Err(error);
        },
    };
    proof {
        let c0 = columns@[0];
        let c1 = columns@[1];
        let c2 = columns@[2];
        let c3 = columns@[3];
        let c4 = columns@[4];
        let c5 = columns@[5];
        let c6 = columns@[6];
    }
    let rt = int64_values(&columns[0]);
    let corr = int64_options(&columns[1]);
    let pid = int64_values(&columns[2]);
    let dev = int32_options(&columns[3]);
    let ctx = int64_options(&columns[4]);
    let ids_column = &columns[5];
    let names_column = &columns[6];
    let rows: usize = batch.num_rows();
    let mut i: usize = 0;
    assert(entry_views(out@) =~= entry_views(old(out)@) + table_entries(data).subrange(0, 0));
    while i < rows
        invariant
            i <= rows,
            data == batch_data(*batch),
            rows == data.rows,
            rt.len() == rows,
            corr.len() == rows,
            pid.len() == rows,
            dev.len() == rows,
            ctx.len() == rows,
            column_data(*ids_column) == data.columns[5],
            column_data(*names_column) == data.columns[6],
            data.columns[5].kind == ColumnType::List,
            data.columns[6].kind == ColumnType::List,
            data.columns[5].slots.len() == rows,
            data.columns[6].slots.len() == rows,
            forall|k: int| 0 <= k < COLUMN_COUNT ==> !#[trigger] column_fault(data, k),
            forall|x: int| 0 <= x < i ==> !#[trigger] row_fault(data, x),
            forall|x: int|
                0 <= x < rows ==> (#[trigger] rt@[x]) as int == slot_int(data.columns[0].slots[x]),
            forall|x: int|
                0 <= x < rows ==> wide64(#[trigger] corr@[x]) == optional_int(data.columns[1], x),
            forall|x: int|
                0 <= x < rows ==> (#[trigger] pid@[x]) as int == slot_int(data.columns[2].slots[x]),
            forall|x: int|
                0 <= x < rows ==> wide32(#[trigger] dev@[x]) == optional_int(data.columns[3], x),
            forall|x: int|
                0 <= x < rows ==> wide64(#[trigger] ctx@[x]) == optional_int(data.columns[4], x),
            entry_views(out@) == entry_views(old(out)@) + table_entries(data).subrange(
                0,
                i as int,
            ),
        decreases rows - i,
    {
        let ghost before = entry_views(out@);
        let enclosing = match decode_chain(ids_column, names_column, i, path, Ghost(data)) {
            Ok(chain) => chain,
            Err(error) => {
                assert(first_row_fault(data, i as int));
                return Err(error);
            },
        };
        out.push(
            RuntimeParentEntry {
                rt_rowid: rt[i],
                correlation_id: corr[i],
                native_pid: pid[i],
                device_id: dev[i],
                context_id: ctx[i],
                enclosing,
            },
        );
        proof {
            let got = out@.last()@;
            let want = row_entry(data, i as int);
            assert(got.correlation_id == want.correlation_id) by {
                assert(wide64(corr@[i as int]) == optional_int(data.columns[1], i as int));
            }
            assert(got.device_id == want.device_id) by {
                assert(wide32(dev@[i as int]) == optional_int(data.columns[3], i as int));
            }
            assert(got.context_id == want.context_id) by {
                assert(wide64(ctx@[i as int]) == optional_int(data.columns[4], i as int));
            }
            assert(got == want);
            assert(entry_views(out@) =~= before.push(want));
            assert(table_entries(data).subrange(0, i + 1) =~= table_entries(data).subrange(
                0,
                i as int,
            ).push(want));
            assert(entry_views(out@) =~= entry_views(old(out)@) + table_entries(data).subrange(
                0,
                i + 1,
            ));
        }
        i = i + 1;
    }
    assert(table_entries(data).subrange(0, rows as int) =~= table_entries(data));
    Ok(())
}

/// Table `t` is the first that cannot be read.
pub open spec fn first_bad_table(batches: Seq<BatchData>, t: int) -> bool {
    &&& 0 <= t < batches.len()
    &&& !is_readable(batches[t])
    &&& forall|u: int| 0 <= u < t ==> is_readable(#[trigger] batches[u])
}

/// All of the tables can be read.
pub open spec fn all_readable(batches: Seq<BatchData>) -> bool {
    forall|t: int| 0 <= t < batches.len() ==> is_readable(#[trigger] batches[t])
}

/// The error tells the first fault of the first table that has one.
pub open spec fn tells_bad_table(
    error: NsysDataError,
    batches: Seq<BatchData>,
    path: Seq<char>,
) -> bool {
    exists|t: int| #[trigger]
        first_bad_table(batches, t) && tells_first_fault(error, batches[t], path)
}

/// The entries of the tables read from `path`; fails on the first column that
/// is missing or has the wrong type and on the first row whose lists have the
/// wrong type or different lengths.
pub fn decode_records(batches: &Vec<Batch>, path: &str) -> (records: NsysDataResult<
    Vec<RuntimeParentEntry>,
>)
    ensures
        match records {
            Ok(recs) => all_readable(batch_views(batches@)) && entry_views(recs@)
                == tables_entries(batch_views(batches@), batches@.len()),
            Err(error) => tells_bad_table(error, batch_views(batches@), path@),
        },
{
    let ghost tables = batch_views(batches@);
    let mut out: Vec<RuntimeParentEntry> = Vec::new();
    let mut t: usize = 0;
    assert(entry_views(out@) =~= Seq::<RuntimeParentEntryView>::empty());
    while t < batches.len()
        invariant
            t <= batches.len(),
            tables == batch_views(batches@),
            forall|u: int| 0 <= u < t ==> is_readable(#[trigger] tables[u]),
            entry_views(out@) == tables_entries(tables, t as nat),
        decreases batches.len() - t,
    {
        assert(tables[t as int] == batch_data(batches@[t as int]));
        match decode_table(&batches[t], path, &mut out) {
            Ok(_) => {},
            Err(error) => {
                proof {
                    let data = tables[t as int];
                    if exists|k: int| #[trigger]
                        first_fault(data, k) && tells_fault(error, data, k, path@) {
                        let k: int = choose|k: int| #[trigger]
                            first_fault(data, k) && tells_fault(error, data, k, path@);
                        assert(column_fault(data, k));
                    } else {
                        let i: int = choose|i: int| #[trigger]
                            first_row_fault(data, i) && tells_row_fault(error, data, i, path@);
                        assert(row_fault(data, i));
                    }
                    assert(first_bad_table(tables, t as int));
                }
                return Err(error);
            },
        }
        t = t + 1;
    }
    Ok(out)
}

/// A table that holds entries reads back as those entries.
pub proof fn tables_round_trip(data: BatchData, entries: Seq<RuntimeParentEntryView>)
    requires
        table_holds(data, entries),
    ensures
        is_readable(data),
        table_entries(data) == entries,
{
    assert forall|k: int| 0 <= k < COLUMN_COUNT implies !#[trigger] column_fault(data, k) by {
        assert(data.columns[k].kind == column_kind(k));
    }
    assert forall|i: int| 0 <= i < entries.len() implies !#[trigger] row_fault(data, i) by {
        assert(row_holds(data, i, entries[i]));
    }
    assert forall|i: int| 0 <= i < entries.len() implies row_entry(data, i)
        == #[trigger] entries[i] by {
        assert(row_holds(data, i, entries[i]));
        let got = row_entry(data, i);
        let want = entries[i];
        assert(got.enclosing =~= want.enclosing) by {
            let ids = data.columns[5].slots[i]->List_0;
            let names = data.columns[6].slots[i]->List_0;
            assert(ids == id_slots(want.enclosing));
            assert(names == name_slots(want.enclosing));
            assert forall|j: int| 0 <= j < want.enclosing.len() implies got.enclosing[j]
                == want.enclosing[j] by {
                assert(ids[j] == Slot::Int(want.enclosing[j].nvtx_rowid as int));
                assert(names[j] == Slot::Text(want.enclosing[j].nvtx_name));
                assert(got.enclosing[j].nvtx_name =~= want.enclosing[j].nvtx_name);
            }
        }
    }
    assert(table_entries(data) =~= entries);
}

/// What reading a file comes to.
pub open spec fn tells_read(
    records: NsysDataResult<Vec<RuntimeParentEntry>>,
    read: FileRead,
    path: Seq<char>,
) -> bool {
    match read {
        FileRead::Refused(why) => records matches Err(NsysDataError::NvtxParentReaderOpen {
            path: p,
            source,
        }) && p@ == path && source@ == why,
        FileRead::Opened(c) => match c.unbuilt {
            Some(why) => records matches Err(NsysDataError::NvtxParentReaderBuild {
                path: p,
                source,
            }) && p@ == path && source@ == why,
            None => match records {
                Ok(recs) => c.failure is None && all_readable(c.batches) && entry_views(recs@)
                    == tables_entries(c.batches, c.batches.len()),
                Err(error) => {
                    ||| tells_bad_table(error, c.batches, path)
                    ||| all_readable(c.batches) && c.failure is Some && (
                    error matches NsysDataError::NvtxParentBatchRead { path: p, source } && p@ == path
                        && source@ == c.failure->0)
                },
            },
        },
    }
}

/// The records of a file with these bytes, read from `path`.
///
/// The bytes have to be such that reading them comes to an end.
pub fn read_parquet(bytes: Vec<u8>, path: &str) -> (records: NsysDataResult<Vec<RuntimeParentEntry>>)
    requires
        parquet_returns(bytes@),
    ensures
        tells_read(records, parquet_read(bytes@), path@),
{
    let file = match read_file(bytes) {
        Ok(file) => file,
        Err(why) => {
            return Err(NsysDataError::nvtx_parent_reader_open(path, why.as_str()));
        },
    };
    if let Some(why) = &file.unbuilt {
        return Err(NsysDataError::nvtx_parent_reader_build(path, why.as_str()));
    }
    let ghost tables = batch_views(file.batches@);
    assert(tables.len() == file.batches@.len());
    let records = match decode_records(&file.batches, path) {
        Ok(records) => records,
        Err(error) => {
            return Err(error);
        },
    };
    match &file.failure {
        Some(why) => Err(NsysDataError::nvtx_parent_batch_read(path, why.as_str())),
        None => Ok(records),
    }
}

/// The file holds the records and was built from the source with the
/// fingerprint.
pub open spec fn file_holds(
    read: FileRead,
    recs: Seq<RuntimeParentEntryView>,
    fingerprint: SourceFingerprint,
) -> bool {
    read matches FileRead::Opened(c) && c.unbuilt is None && c.failure is None && all_readable(
        c.batches,
    ) && tables_entries(c.batches, c.batches.len()) == recs && is_freshness_kv(
        c.entries,
        KV_VERSION@,
        RUNTIME_NVTX_PARENT_VERSION,
        fingerprint,
    )
}

/// What writing the records to `path` comes to.
pub open spec fn tells_written(
    bytes: NsysDataResult<Vec<u8>>,
    writing: Writing,
    path: Seq<char>,
) -> bool {
    match writing {
        Writing::Written(b) => bytes matches Ok(v) && v@ == b,
        Writing::OpenFailed(why) => bytes matches Err(NsysDataError::NvtxParentWriterOpen {
            path: p,
            source,
        }) && p@ == path && source@ == why,
        Writing::WriteFailed(why) => bytes matches Err(NsysDataError::NvtxParentWriterWrite {
            path: p,
            source,
        }) && p@ == path && source@ == why,
        Writing::CloseFailed(why) => bytes matches Err(NsysDataError::NvtxParentWriterClose {
            path: p,
            source,
        }) && p@ == path && source@ == why,
    }
}

/// What writing the records, built from the source with the fingerprint, comes
/// to.
pub open spec fn writing_of(recs: Seq<RuntimeParentEntryView>, fingerprint: SourceFingerprint) -> Writing {
    parquet_written(
        stored_records(recs),
        freshness_entries(KV_VERSION@, RUNTIME_NVTX_PARENT_VERSION, fingerprint),
    )
}

proof fn names_differ(data: BatchData)
    requires
        has_schema(data),
    ensures
        data.names.no_duplicates(),
{
    reveal_strlit("rt_rowid");
    reveal_strlit("correlation_id");
    reveal_strlit("native_pid");
    reveal_strlit("device_id");
    reveal_strlit("context_id");
    reveal_strlit("nvtx_rowids");
    reveal_strlit("nvtx_names");
    assert("native_pid"@[0] != "context_id"@[0]);
    assert("nvtx_names"@[0] != "context_id"@[0]);
    assert("native_pid"@[1] != "nvtx_names"@[1]);
    assert forall|i: int, j: int|
        0 <= i < data.names.len() && 0 <= j < data.names.len() && i != j implies data.names[i]
        != data.names[j] by {
        assert(data.names[i] == column_name(i));
        assert(data.names[j] == column_name(j));
    }
}

/// A part of a table that holds records holds its share of them.
proof fn part_holds(part: BatchData, whole: BatchData, from: nat, recs: Seq<RuntimeParentEntryView>)
    requires
        table_holds(whole, recs),
        is_part(part, whole, from),
        from + part.rows <= recs.len(),
    ensures
        table_holds(part, recs.subrange(from as int, (from + part.rows) as int)),
{
    let share = recs.subrange(from as int, (from + part.rows) as int);
    assert forall|k: int| 0 <= k < COLUMN_COUNT implies (#[trigger] part.columns[k]).kind
        == column_kind(k) by {
        assert(whole.columns[k].kind == column_kind(k));
    }
    assert forall|i: int| 0 <= i < share.len() implies row_holds(part, i, #[trigger] share[i]) by {
        assert(row_holds(whole, from + i, recs[from + i]));
        assert forall|k: int| 0 <= k < COLUMN_COUNT implies #[trigger] same_place(
            part.columns[k],
            i,
            whole.columns[k],
            from + i,
        ) by {
            let v = part.columns[k].valid[i];
        }
        assert(same_place(part.columns[0], i, whole.columns[0], from + i));
        assert(same_place(part.columns[1], i, whole.columns[1], from + i));
        assert(same_place(part.columns[2], i, whole.columns[2], from + i));
        assert(same_place(part.columns[3], i, whole.columns[3], from + i));
        assert(same_place(part.columns[4], i, whole.columns[4], from + i));
        assert(same_place(part.columns[5], i, whole.columns[5], from + i));
        assert(same_place(part.columns[6], i, whole.columns[6], from + i));
    }
}

/// The parts of a table that holds records hold them one after the other.
proof fn split_holds(
    batches: Seq<BatchData>,
    whole: BatchData,
    recs: Seq<RuntimeParentEntryView>,
    n: nat,
)
    requires
        table_holds(whole, recs),
        is_split(batches, whole),
        n <= batches.len(),
    ensures
        rows_before(batches, n) <= recs.len(),
        forall|t: int| 0 <= t < n ==> is_readable(#[trigger] batches[t]),
        tables_entries(batches, n) == recs.take(rows_before(batches, n) as int),
    decreases n,
{
    rows_before_grows(batches, n);
    if n == 0 {
        assert(recs.take(0) =~= Seq::<RuntimeParentEntryView>::empty());
    } else {
        split_holds(batches, whole, recs, (n - 1) as nat);
        let from = rows_before(batches, (n - 1) as nat);
        let part = batches[n - 1];
        part_holds(part, whole, from, recs);
        tables_round_trip(part, recs.subrange(from as int, (from + part.rows) as int));
        assert(recs.take(from as int) + recs.subrange(from as int, (from + part.rows) as int) =~= recs.take(
            (from + part.rows) as int,
        ));
    }
}

/// The entries as the bytes of a file at `path`, built from the source with the
/// fingerprint.
///
/// The chains have to fit list columns with 32-bit offsets.
pub fn write_parquet(
    records: &Vec<RuntimeParentEntry>,
    fingerprint: SourceFingerprint,
    path: &str,
) -> (bytes: NsysDataResult<Vec<u8>>)
    requires
        chains_fit(records@),
    ensures
        tells_written(bytes, writing_of(entry_views(records@), fingerprint), path@),
        bytes matches Ok(b) ==> parquet_returns(b@) && file_holds(
            parquet_read(b@),
            entry_views(records@),
            fingerprint,
        ),
{
    let ghost recs = entry_views(records@);
    let batch = match encode_records(records) {
        Ok(batch) => batch,
        Err(error) => {
            return Err(error);
        },
    };
    let ghost whole = batch_data(batch);
    let entries = freshness_kv(KV_VERSION, RUNTIME_NVTX_PARENT_VERSION, fingerprint);
    let ghost given = kv_views(entries@);
    proof {
        names_differ(whole);
        assert forall|k: int| 0 <= k < whole.columns.len() implies is_sidecar_column(
            #[trigger] whole.columns[k],
        ) by {
            assert(whole.columns[k].kind == column_kind(k));
        }
        stored_is(whole, recs);
        own_keys_are_free();
        assert forall|i: int| 0 <= i < entries@.len() implies (#[trigger] entries@[i]).key@
            != "ARROW:schema"@ by {
            assert(given[i].0 == entries@[i].key@);
        }
    }
    match write_file(&batch, entries) {
        Ok(bytes) => {
            proof {
                let c = parquet_read(bytes@)->Opened_0;
                split_holds(c.batches, whole, recs, c.batches.len());
                assert(recs.take(recs.len() as int) =~= recs);
                assert forall|i: int| 0 <= i < given.len() implies c.entries[i] == given[i] by {
                    assert(c.entries.take(given.len() as int)[i] == given[i]);
                }
            }
            Ok(bytes)
        },
        Err(WriteFault::Open(why)) => Err(
            NsysDataError::nvtx_parent_writer_open(path, why.as_str()),
        ),
        Err(WriteFault::Write(why)) => Err(
            NsysDataError::nvtx_parent_writer_write(path, why.as_str()),
        ),
        Err(WriteFault::Close(why)) => Err(
            NsysDataError::nvtx_parent_writer_close(path, why.as_str()),
        ),
    }
}

/// The keys of the entries are not the one that the writer takes for itself.
proof fn own_keys_are_free()
    ensures
        KV_VERSION@ != "ARROW:schema"@,
        KV_MTIME@ != "ARROW:schema"@,
        KV_SIZE@ != "ARROW:schema"@,
        KV_VERSION@ != KV_MTIME@,
        KV_VERSION@ != KV_SIZE@,
{
    reveal_strlit("ARROW:schema");
    reveal_strlit("veloq.runtime_nvtx_parent.version");
    reveal_strlit("veloq.source.mtime_secs");
    reveal_strlit("veloq.source.size");
    assert("ARROW:schema"@.len() == 12);
    assert(KV_VERSION@[6] != KV_MTIME@[6]);
}

/// What is read from a written file is what was written.
pub proof fn written_records_read_back(
    written: Seq<RuntimeParentEntryView>,
    fingerprint: SourceFingerprint,
    read: FileRead,
    records: NsysDataResult<Vec<RuntimeParentEntry>>,
    path: Seq<char>,
)
    requires
        file_holds(read, written, fingerprint),
        tells_read(records, read, path),
    ensures
        records matches Ok(recs) && entry_views(recs@) == written,
{
    let c = read->Opened_0;
    if records is Err {
        let error = records->Err_0;
        if tells_bad_table(error, c.batches, path) {
            let t = choose|t: int| #[trigger]
                first_bad_table(c.batches, t) && tells_first_fault(error, c.batches[t], path);
            assert(is_readable(c.batches[t]));
        }
    }
}

/// Whether the sidecar with these bytes has this version of the format and was
/// built from the source with the fingerprint.
///
/// The bytes have to be such that reading them comes to an end.
pub fn sidecar_is_fresh(bytes: Vec<u8>, fingerprint: SourceFingerprint) -> (fresh: bool)
    requires
        parquet_returns(bytes@),
    ensures
        fresh == file_says_fresh(
            parquet_read(bytes@),
            KV_VERSION@,
            RUNTIME_NVTX_PARENT_VERSION,
            fingerprint,
        ),
{
    file_is_fresh(bytes, KV_VERSION, RUNTIME_NVTX_PARENT_VERSION, fingerprint)
}

/// A written file is fresh for the source that it was built from, and for no
/// other.
pub proof fn written_file_is_fresh_for_its_source(
    read: FileRead,
    written: Seq<RuntimeParentEntryView>,
    source: SourceFingerprint,
    current: SourceFingerprint,
)
    requires
        file_holds(read, written, source),
    ensures
        file_says_fresh(read, KV_VERSION@, RUNTIME_NVTX_PARENT_VERSION, current) <==> source == current,
{
    own_keys_are_free();
    fresh_only_for_its_source(
        read->Opened_0.entries,
        KV_VERSION@,
        RUNTIME_NVTX_PARENT_VERSION,
        source,
        RUNTIME_NVTX_PARENT_VERSION,
        current,
    );
}

/// What storing the records comes to: a file that is fresh and reads back as
/// what was given, or why it could not be written.
pub open spec fn tells_stored(
    stored: NsysDataResult<StoredSidecar<Vec<RuntimeParentEntry>>>,
    recs: Seq<RuntimeParentEntryView>,
    fingerprint: SourceFingerprint,
    path: Seq<char>,
) -> bool {
    match (writing_of(recs, fingerprint), stored) {
        (Writing::Written(b), Ok(st)) => st.bytes@ == b && st.fresh && entry_views(st.records@) == recs,
        (Writing::Written(_), Err(_)) => false,
        (_, Ok(_)) => false,
        (failed, Err(error)) => tells_written(Err(error), failed, path),
    }
}

/// Writes the records and reads the file back, as its next reader will.
///
/// The chains have to fit list columns with 32-bit offsets.
pub fn store_records(
    records: &Vec<RuntimeParentEntry>,
    fingerprint: SourceFingerprint,
    path: &str,
) -> (stored: NsysDataResult<StoredSidecar<Vec<RuntimeParentEntry>>>)
    requires
        chains_fit(records@),
    ensures
        tells_stored(stored, entry_views(records@), fingerprint, path@),
{
    let ghost recs = entry_views(records@);
    let bytes = match write_parquet(records, fingerprint, path) {
        Ok(bytes) => bytes,
        Err(error) => {
            return Err(error);
        },
    };
    let fresh: bool = sidecar_is_fresh(copied_bytes(&bytes), fingerprint);
    let ghost read = parquet_read(bytes@);
    let loaded = read_parquet(copied_bytes(&bytes), path);
    proof {
        written_file_is_fresh_for_its_source(read, recs, fingerprint, fingerprint);
        written_records_read_back(recs, fingerprint, read, loaded, path@);
    }
    match loaded {
        Ok(records) => Ok(StoredSidecar { bytes, fresh, records }),
        Err(error) => Err(error),
    }
}

} // verus!
