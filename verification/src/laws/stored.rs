//! Where the fields of records stand in stored tables.
use crate::columns::{BatchData, ColumnData, ColumnType, Slot};
use crate::gpu_work_events::{parquet as events, GpuWorkEventView};
use crate::nvtx_tree::{parquet as tree, NvtxTreeRecordView};
use crate::runtime_nvtx_parent::{parquet as parents, RuntimeParentEntryView};
use vstd::prelude::*;

verus! {

/// The column has the name and the type, and at the place it holds the slot, or a
/// null where there is none.
pub open spec fn stands(
    data: BatchData,
    k: int,
    name: Seq<char>,
    kind: ColumnType,
    i: int,
    slot: Option<Slot>,
) -> bool {
    &&& data.names[k] == name
    &&& data.columns[k].kind == kind
    &&& shows_slot(data.columns[k], i, slot)
}

/// The place holds the slot, or a null where there is none.
pub open spec fn shows_slot(c: ColumnData, i: int, slot: Option<Slot>) -> bool {
    match slot {
        Some(s) => c.valid[i] && c.slots[i] == s,
        None => !c.valid[i],
    }
}

/// The number as a slot, where there is one.
pub open spec fn number(value: Option<int>) -> Option<Slot> {
    match value {
        Some(n) => Some(Slot::Int(n)),
        None => None,
    }
}

/// The wide number, where there is one.
pub open spec fn as_int(value: Option<i64>) -> Option<int> {
    match value {
        Some(n) => Some(n as int),
        None => None,
    }
}

/// A table of GPU work has one row for each event, and under each name the field of
/// that name.
pub proof fn event_fields_stand_under_their_names(
    data: BatchData,
    recs: Seq<GpuWorkEventView>,
    i: int,
)
    requires
        events::table_holds(data, recs),
        0 <= i < recs.len(),
    ensures
        data.rows == recs.len(),
        data.columns.len() == 6,
        stands(data, 0, "kind"@, ColumnType::Utf8, i, Some(Slot::Text(recs[i].kind))),
        stands(data, 1, "row_id"@, ColumnType::Int64, i, Some(Slot::Int(recs[i].row_id as int))),
        stands(data, 2, "device_id"@, ColumnType::Int32, i, Some(Slot::Int(recs[i].device_id as int))),
        stands(data, 3, "stream_id"@, ColumnType::Int64, i, Some(Slot::Int(recs[i].stream_id as int))),
        stands(data, 4, "start_ns"@, ColumnType::Int64, i, Some(Slot::Int(recs[i].start_ns as int))),
        stands(data, 5, "end_ns"@, ColumnType::Int64, i, Some(Slot::Int(recs[i].end_ns as int))),
{
    assert(events::row_holds(data, i, recs[i]));
    assert forall|k: int| 0 <= k < 6 implies #[trigger] data.names[k] == events::column_name(k) by {}
    assert forall|k: int| 0 <= k < 6 implies (#[trigger] data.columns[k]).kind == events::column_kind(k) by {}
}

/// A table of a tree has one row for each range, and under each name the field of
/// that name; where there is no parent, end or duration it has a null.
pub proof fn tree_fields_stand_under_their_names(
    data: BatchData,
    recs: Seq<NvtxTreeRecordView>,
    i: int,
)
    requires
        tree::table_holds(data, recs),
        0 <= i < recs.len(),
    ensures
        data.rows == recs.len(),
        data.columns.len() == 10,
        stands(data, 0, "range_id"@, ColumnType::Int64, i, Some(Slot::Int(recs[i].range_id as int))),
        stands(
            data,
            1,
            "parent_range_id"@,
            ColumnType::Int64,
            i,
            number(as_int(recs[i].parent_range_id)),
        ),
        stands(data, 2, "depth"@, ColumnType::Int32, i, Some(Slot::Int(recs[i].depth as int))),
        stands(data, 3, "domain_id"@, ColumnType::Int64, i, Some(Slot::Int(recs[i].domain_id as int))),
        stands(data, 4, "name"@, ColumnType::Utf8, i, Some(Slot::Text(recs[i].name))),
        stands(data, 5, "path"@, ColumnType::Utf8, i, Some(Slot::Text(recs[i].path))),
        stands(data, 6, "start"@, ColumnType::Int64, i, Some(Slot::Int(recs[i].start as int))),
        stands(data, 7, "end"@, ColumnType::Int64, i, number(as_int(recs[i].end))),
        stands(data, 8, "duration_ns"@, ColumnType::Int64, i, number(as_int(recs[i].duration_ns))),
        stands(data, 9, "global_tid"@, ColumnType::Int64, i, Some(Slot::Int(recs[i].global_tid as int))),
{
    assert(tree::row_holds(data, i, recs[i]));
    assert forall|k: int| 0 <= k < 10 implies #[trigger] data.names[k] == tree::column_name(k) by {}
    assert forall|k: int| 0 <= k < 10 implies (#[trigger] data.columns[k]).kind == tree::column_kind(k) by {}
}

/// A table of calls has one row for each attribution, and under each name the field
/// of that name; the ranges stand in two lists, their rows and their names, in the
/// same order.
pub proof fn parent_fields_stand_under_their_names(
    data: BatchData,
    recs: Seq<RuntimeParentEntryView>,
    i: int,
)
    requires
        parents::table_holds(data, recs),
        0 <= i < recs.len(),
    ensures
        data.rows == recs.len(),
        data.columns.len() == 7,
        stands(data, 0, "rt_rowid"@, ColumnType::Int64, i, Some(Slot::Int(recs[i].rt_rowid as int))),
        stands(
            data,
            1,
            "correlation_id"@,
            ColumnType::Int64,
            i,
            number(as_int(recs[i].correlation_id)),
        ),
        stands(data, 2, "native_pid"@, ColumnType::Int64, i, Some(Slot::Int(recs[i].native_pid as int))),
        stands(
            data,
            3,
            "device_id"@,
            ColumnType::Int32,
            i,
            match recs[i].device_id {
                Some(d) => Some(Slot::Int(d as int)),
                None => None,
            },
        ),
        stands(data, 4, "context_id"@, ColumnType::Int64, i, number(as_int(recs[i].context_id))),
        data.names[5] == "nvtx_rowids"@,
        data.names[6] == "nvtx_names"@,
        data.columns[5].valid[i] && data.columns[6].valid[i],
        data.columns[5].slots[i] is List && data.columns[6].slots[i] is List,
        data.columns[5].slots[i]->List_0.len() == recs[i].enclosing.len(),
        data.columns[6].slots[i]->List_0.len() == recs[i].enclosing.len(),
        forall|j: int|
            0 <= j < recs[i].enclosing.len() ==> data.columns[5].slots[i]->List_0[j] == Slot::Int(
                (#[trigger] recs[i].enclosing[j]).nvtx_rowid as int,
            ) && data.columns[6].slots[i]->List_0[j] == Slot::Text(recs[i].enclosing[j].nvtx_name),
{
    assert(parents::row_holds(data, i, recs[i]));
    assert forall|k: int| 0 <= k < 7 implies #[trigger] data.names[k] == parents::column_name(k) by {}
    assert forall|k: int| 0 <= k < 7 implies (#[trigger] data.columns[k]).kind == parents::column_kind(k) by {}
}

} // verus!
