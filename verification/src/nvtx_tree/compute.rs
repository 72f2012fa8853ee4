//! Builds the range tree out of the rows of `NVTX_EVENTS`.
use super::{NvtxTreeRecord, NvtxTreeRecordView};
use crate::laws::nvtx::{tells_ranges, tree_tells_the_rows};
use crate::nvtx_stack::{
    arrange_slots, arranged, lane_order, nesting_depth, nesting_parent,
    place_slots, sorted_slots_are_laned, NvtxScanRow, ScanSlot,
};
use crate::order::{
    is_sort_order, keys_of, positions, sort_order, sort_order_of, Key3, SortKey,
};
use crate::text::str_chars;
use std::collections::HashMap;
use vstd::prelude::*;
use vstd::string::StringExecFns;

verus! {

broadcast use vstd::std_specs::hash::group_hash_axioms;

/// One row of `NVTX_EVENTS`.
#[derive(Debug, Clone)]
pub struct NvtxRow {
    pub rowid: i64,
    pub start: i64,
    pub end: Option<i64>,
    pub global_tid: i64,
    pub domain_id: i64,
    pub name: String,
}

impl NvtxScanRow for NvtxRow {
    open spec fn scan_span(&self) -> (i64, Option<i64>, i64) {
        (self.start, self.end, self.rowid)
    }

    fn start(&self) -> (start: i64) {
        self.start
    }

    fn end(&self) -> (end: Option<i64>) {
        self.end
    }

    fn rowid(&self) -> (rowid: i64) {
        self.rowid
    }
}

impl NvtxRow {
    /// What the nesting scan reads of the row.
    pub open spec fn slot(self) -> ScanSlot {
        ScanSlot {
            global_tid: self.global_tid,
            domain_id: self.domain_id,
            start: self.start,
            end: self.end,
            rowid: self.rowid,
        }
    }

    /// The row's duration is a 64-bit integer.
    pub open spec fn duration_fits(self) -> bool {
        self.end matches Some(end) ==> i64::MIN <= end - self.start <= i64::MAX
    }
}

/// The slots of `rows`, in the same order.
pub open spec fn row_slots(rows: Seq<NvtxRow>) -> Seq<ScanSlot> {
    rows.map_values(|r: NvtxRow| r.slot())
}

/// The slots of `rows` by lane and start.
pub open spec fn sorted_slots(rows: Seq<NvtxRow>) -> Seq<ScanSlot> {
    arranged(row_slots(rows), lane_order(row_slots(rows)))
}

/// A depth as the 32-bit column holds it.
pub open spec fn depth_column(depth: nat) -> i32 {
    if depth <= i32::MAX {
        depth as i32
    } else {
        i32::MAX
    }
}

/// The record of `row` at a place in the nesting, its path still empty.
pub open spec fn placed_record(
    row: NvtxRow,
    parent: Option<i64>,
    depth: nat,
) -> NvtxTreeRecordView {
    NvtxTreeRecordView {
        range_id: row.rowid,
        parent_range_id: parent,
        depth: depth_column(depth),
        domain_id: row.domain_id,
        name: row.name@,
        path: Seq::empty(),
        start: row.start,
        end: row.end,
        duration_ns: match row.end {
            Some(end) => Some((end - row.start) as i64),
            None => None,
        },
        global_tid: row.global_tid,
    }
}

/// The records of `rows` by lane and start, with parents and depths.
pub open spec fn placed_records(rows: Seq<NvtxRow>) -> Seq<NvtxTreeRecordView> {
    let order = lane_order(row_slots(rows));
    let sorted = sorted_slots(rows);
    Seq::new(
        rows.len(),
        |k: int|
            placed_record(rows[order[k]], nesting_parent(sorted, k), nesting_depth(sorted, k)),
    )
}

/// `name` with `\` written as `\\` and `/` as `\/`.
pub open spec fn escaped(name: Seq<char>) -> Seq<char>
    decreases name.len(),
{
    if name.len() == 0 {
        Seq::empty()
    } else {
        escaped(name.drop_last()) + escaped_char(name.last())
    }
}

pub open spec fn escaped_char(c: char) -> Seq<char> {
    if c == '\\' || c == '/' {
        seq!['\\', c]
    } else {
        seq![c]
    }
}

/// The last of the first `k` records whose range id is `id`.
pub open spec fn last_with_id(recs: Seq<NvtxTreeRecordView>, id: i64, k: nat) -> Option<nat>
    decreases k,
{
    if k == 0 {
        None
    } else if recs[k - 1].range_id == id {
        Some((k - 1) as nat)
    } else {
        last_with_id(recs, id, (k - 1) as nat)
    }
}

/// The place of the parent of the `k`-th record. In a listing by lane and start
/// a parent stands before its children.
pub open spec fn parent_place(recs: Seq<NvtxTreeRecordView>, k: nat) -> Option<nat> {
    match recs[k as int].parent_range_id {
        Some(id) => last_with_id(recs, id, k),
        None => None,
    }
}

/// Path of the `k`-th record: the parent's path, `/` and the escaped name; the
/// escaped name alone where there is no parent.
pub open spec fn path_at(recs: Seq<NvtxTreeRecordView>, k: nat) -> Seq<char>
    decreases k,
    via path_at_decreases
{
    let name = escaped(recs[k as int].name);
    match parent_place(recs, k) {
        Some(q) => path_at(recs, q) + seq!['/'] + name,
        None => name,
    }
}

#[via_fn]
proof fn path_at_decreases(recs: Seq<NvtxTreeRecordView>, k: nat) {
    if recs[k as int].parent_range_id is Some {
        last_with_id_is_earlier(recs, recs[k as int].parent_range_id->0, k);
    }
}

/// The last record with an id stands before `k`, and none behind it has the id.
pub proof fn last_with_id_is_earlier(recs: Seq<NvtxTreeRecordView>, id: i64, k: nat)
    ensures
        last_with_id(recs, id, k) matches Some(q) ==> q < k && recs[q as int].range_id == id
            && forall|x: int| q < x < k ==> (#[trigger] recs[x]).range_id != id,
        last_with_id(recs, id, k) is None ==> forall|x: int|
            0 <= x < k ==> (#[trigger] recs[x]).range_id != id,
    decreases k,
{
    if k > 0 && recs[k - 1].range_id != id {
        last_with_id_is_earlier(recs, id, (k - 1) as nat);
    }
}

/// The records with their paths filled in.
pub open spec fn with_paths(recs: Seq<NvtxTreeRecordView>) -> Seq<NvtxTreeRecordView> {
    Seq::new(
        recs.len(),
        |i: int| NvtxTreeRecordView { path: path_at(recs, i as nat), ..recs[i] },
    )
}

/// Sort key of the finished table.
pub open spec fn table_key(r: NvtxTreeRecordView) -> Seq<int> {
    seq![r.start as int, r.depth as int, r.range_id as int]
}

/// The records by start, depth and range id.
pub open spec fn table_sorted(recs: Seq<NvtxTreeRecordView>) -> Seq<NvtxTreeRecordView> {
    arranged(recs, sort_order_of(recs.map_values(|r: NvtxTreeRecordView| table_key(r))))
}

/// The range tree of `rows`, flattened.
pub open spec fn tree_of(rows: Seq<NvtxRow>) -> Seq<NvtxTreeRecordView> {
    table_sorted(with_paths(placed_records(rows)))
}

/// The views of a list of records.
pub open spec fn record_views(recs: Seq<NvtxTreeRecord>) -> Seq<NvtxTreeRecordView> {
    recs.map_values(|r: NvtxTreeRecord| r@)
}

/// Escapes `/` in a name so that the slash-joined path is unambiguous.
/// Backslashes are doubled, so that the escape itself can be undone.
pub fn escape_name_for_path(name: &str) -> (out: String)
    ensures
        out@ == escaped(name@),
{
    let chars = str_chars(name);
    let mut out = String::new();
    let mut i: usize = 0;
    while i < chars.len()
        invariant
            i <= chars.len(),
            chars@ == name@,
            out@ == escaped(name@.subrange(0, i as int)),
        decreases chars.len() - i,
    {
        let ghost before = out@;
        let c = chars[i];
        if c == '\\' || c == '/' {
            out.push('\\');
        }
        out.push(c);
        i = i + 1;
        proof {
            let more = name@.subrange(0, i as int);
            assert(more.drop_last() =~= name@.subrange(0, i - 1));
            assert(out@ =~= before + escaped_char(c));
        }
    }
    assert(name@.subrange(0, name@.len() as int) =~= name@);
    out
}

/// Computes the flattened range tree of `rows`.
///
/// Ranges are placed lane by lane and by start, so that a parent comes before
/// its children and its path is there when theirs are filled in. The result is
/// sorted by `(start, depth)` so that time-range predicates skip row groups.
pub fn compute_from_rows(rows: Vec<NvtxRow>) -> (records: Vec<NvtxTreeRecord>)
    requires
        forall|i: int| 0 <= i < rows.len() ==> (#[trigger] rows[i]).duration_fits(),
    ensures
        record_views(records@) == tree_of(rows@),
        exists|from: Seq<int>| tells_ranges(records@, rows@, from),
{
    let mut records = stack_scan_rows(&rows);
    materialize_paths(&mut records);
    let table = sort_table(&records);
    proof {
        tree_tells_the_rows(rows@, table@);
    }
    table
}

/// The records of `rows` by lane and start, their paths still empty.
fn stack_scan_rows(rows: &Vec<NvtxRow>) -> (records: Vec<NvtxTreeRecord>)
    requires
        forall|i: int| 0 <= i < rows.len() ==> (#[trigger] rows[i]).duration_fits(),
    ensures
        record_views(records@) == placed_records(rows@),
{
    let mut slots: Vec<ScanSlot> = Vec::with_capacity(rows.len());
    let mut i: usize = 0;
    while i < rows.len()
        invariant
            i <= rows.len(),
            slots@ =~= row_slots(rows@).subrange(0, i as int),
        decreases rows.len() - i,
    {
        let r = &rows[i];
        slots.push(
            ScanSlot {
                global_tid: r.global_tid,
                domain_id: r.domain_id,
                start: r.start,
                end: r.end,
                rowid: r.rowid,
            },
        );
        i = i + 1;
    }
    assert(slots@ =~= row_slots(rows@));
    let order = sort_order(slots.as_slice());
    let sorted = arrange_slots(&slots, &order);
    proof {
        sorted_slots_are_laned(slots@);
    }
    let placements = place_slots(&sorted);
    let mut records: Vec<NvtxTreeRecord> = Vec::with_capacity(rows.len());
    let mut k: usize = 0;
    while k < order.len()
        invariant
            k <= order.len(),
            order.len() == rows.len(),
            placements.len() == rows.len(),
            slots@ == row_slots(rows@),
            sorted@ == sorted_slots(rows@),
            positions(order@) == lane_order(slots@),
            is_sort_order(keys_of(slots@), positions(order@)),
            forall|i: int| 0 <= i < rows.len() ==> (#[trigger] rows[i]).duration_fits(),
            forall|i: int|
                0 <= i < placements.len() ==> (#[trigger] placements[i]).depth == nesting_depth(
                    sorted@,
                    i,
                ) && placements[i].parent == nesting_parent(sorted@, i),
            records.len() == k,
            forall|x: int|
                0 <= x < k ==> (#[trigger] records@[x])@ == placed_records(rows@)[x],
        decreases order.len() - k,
    {
        assert(0 <= positions(order@)[k as int] < keys_of(slots@).len());
        let row = &rows[order[k]];
        let placed = placements[k];
        let depth: i32 = if placed.depth <= 0x7fff_ffff {
            placed.depth as i32
        } else {
            i32::MAX
        };
        assert(rows[order@[k as int] as int].duration_fits());
        let duration_ns: Option<i64> = match row.end {
            Some(end) => Some(end - row.start),
            None => None,
        };
        records.push(
            NvtxTreeRecord {
                range_id: row.rowid,
                parent_range_id: placed.parent,
                depth,
                domain_id: row.domain_id,
                name: row.name.clone(),
                path: String::new(),
                start: row.start,
                end: row.end,
                duration_ns,
                global_tid: row.global_tid,
            },
        );
        k = k + 1;
        proof {
            let want = placed_records(rows@)[k - 1];
            let got = records@[k - 1]@;
            assert(lane_order(row_slots(rows@))[k - 1] == order@[k - 1] as int);
            assert(got.path =~= want.path);
            assert(got == want);
        }
    }
    assert(record_views(records@) =~= placed_records(rows@));
    records
}

/// Fills in the path of every record of a listing by lane and start.
fn materialize_paths(records: &mut Vec<NvtxTreeRecord>)
    ensures
        record_views(final(records)@) == with_paths(record_views(old(records)@)),
{
    let ghost recs = record_views(old(records)@);
    let mut paths: HashMap<i64, String> = HashMap::new();
    let mut k: usize = 0;
    while k < records.len()
        invariant
            k <= records.len(),
            records.len() == recs.len(),
            forall|x: int|
                0 <= x < k ==> (#[trigger] records@[x])@ == (NvtxTreeRecordView {
                    path: path_at(recs, x as nat),
                    ..recs[x]
                }),
            forall|x: int| k <= x < recs.len() ==> (#[trigger] records@[x])@ == recs[x],
            forall|id: i64|
                paths@.contains_key(id) <==> (#[trigger] last_with_id(recs, id, k as nat)) is Some,
            forall|id: i64|
                #![trigger paths@[id]]
                paths@.contains_key(id) ==> paths@[id]@ == path_at(
                    recs,
                    last_with_id(recs, id, k as nat)->0,
                ),
        decreases records.len() - k,
    {
        let ghost rec = recs[k as int];
        assert(records@[k as int]@ == rec);
        let escaped_name = escape_name_for_path(records[k].name.as_str());
        let range_id: i64 = records[k].range_id;
        let parent: Option<i64> = records[k].parent_range_id;
        let mut path = String::new();
        if let Some(id) = parent {
            assert(paths@.contains_key(id) <==> last_with_id(recs, id, k as nat) is Some);
            if let Some(parent_path) = paths.get(&id) {
                path.append(parent_path.as_str());
                path.append("/");
            }
        }
        path.append(escaped_name.as_str());
        proof {
            reveal_strlit("/");
            if parent is Some && paths@.contains_key(parent->0) {
                let q = parent_place(recs, k as nat)->0;
                assert("/"@ =~= seq!['/']);
                assert(path@ =~= path_at(recs, q) + seq!['/'] + escaped(rec.name));
            } else {
                assert(path@ =~= escaped(rec.name));
            }
            assert(path@ == path_at(recs, k as nat));
        }
        let ghost old_paths = paths@;
        paths.insert(range_id, path.clone());
        let old_rec = &records[k];
        let new_rec = NvtxTreeRecord {
            range_id: old_rec.range_id,
            parent_range_id: old_rec.parent_range_id,
            depth: old_rec.depth,
            domain_id: old_rec.domain_id,
            name: old_rec.name.clone(),
            path,
            start: old_rec.start,
            end: old_rec.end,
            duration_ns: old_rec.duration_ns,
            global_tid: old_rec.global_tid,
        };
        records.set(k, new_rec);
        proof {
            assert forall|id: i64| #![trigger last_with_id(recs, id, (k + 1) as nat)]
                paths@.contains_key(id) <==> last_with_id(recs, id, (k + 1) as nat) is Some by {
                assert(old_paths.contains_key(id) <==> last_with_id(recs, id, k as nat) is Some);
            }
            assert forall|id: i64| #![trigger paths@[id]] paths@.contains_key(
                id,
            ) implies paths@[id]@ == path_at(
                recs,
                last_with_id(recs, id, (k + 1) as nat)->0,
            ) by {
                if id != range_id {
                    assert(old_paths[id]@ == path_at(recs, last_with_id(recs, id, k as nat)->0));
                }
            }
        }
        k = k + 1;
    }
    assert(record_views(records@) =~= with_paths(recs));
}

/// The records by start, depth and range id.
fn sort_table(records: &Vec<NvtxTreeRecord>) -> (out: Vec<NvtxTreeRecord>)
    ensures
        record_views(out@) == table_sorted(record_views(records@)),
{
    let mut keys: Vec<Key3> = Vec::with_capacity(records.len());
    let mut i: usize = 0;
    while i < records.len()
        invariant
            i <= records.len(),
            keys.len() == i,
            forall|x: int|
                0 <= x < i ==> (#[trigger] keys[x]).sort_key() == table_key(records[x]@),
        decreases records.len() - i,
    {
        let r = &records[i];
        keys.push(Key3 { first: r.start, second: r.depth as i64, third: r.range_id });
        i = i + 1;
    }
    let order = sort_order(keys.as_slice());
    let ghost ord = positions(order@);
    let ghost recs = record_views(records@);
    proof {
        assert(keys_of(keys@) =~= recs.map_values(|r: NvtxTreeRecordView| table_key(r)));
    }
    let mut out: Vec<NvtxTreeRecord> = Vec::with_capacity(records.len());
    let mut k: usize = 0;
    while k < order.len()
        invariant
            k <= order.len(),
            order.len() == records.len(),
            recs == record_views(records@),
            ord == positions(order@),
            forall|x: int| 0 <= x < ord.len() ==> 0 <= #[trigger] ord[x] < recs.len(),
            out.len() == k,
            forall|x: int| 0 <= x < k ==> (#[trigger] out@[x])@ == recs[ord[x]],
        decreases order.len() - k,
    {
        assert(0 <= ord[k as int] < recs.len());
        out.push(records[order[k]].copied());
        k = k + 1;
    }
    assert(record_views(out@) =~= arranged(recs, ord));
    out
}

} // verus!
