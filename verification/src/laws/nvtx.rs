//! How NVTX ranges nest.
use super::rearranges;
use crate::nvtx_nesting::{earlier_repeats, entry_at, last_listed, listed_rows, NvtxNesting};
use crate::nvtx_stack::{encloses, enclosing_set, is_innermost, lane_order, nesting_depth};
use crate::nvtx_tree::compute::{
    escaped, escaped_char, placed_records, record_views, row_slots, sorted_slots, table_key,
    tree_of, with_paths, NvtxRow,
};
use crate::nvtx_tree::laws::{
    distinct_rowids, is_described, listing_place, one_record_per_row, parent_iff_nested,
    paths_follow_parents, source_row, stack_is_one_chain,
};
use crate::nvtx_tree::{
    active, active_chain, ancestors_of, ends_within, find, find_last_is_last, inner_key,
    innermost_at, parent_of, refer_to, stack_of, NvtxTreeRecord, NvtxTreeRecordView,
};
use crate::order::{
    keys_of, lex_lt_triple, placed_before, sort_order_covers, sort_order_exists, sort_order_of,
    SortKey,
};
use vstd::prelude::*;

verus! {

/// The two rows are of one thread and domain.
pub open spec fn one_lane(a: NvtxRow, b: NvtxRow) -> bool {
    a.global_tid == b.global_tid && a.domain_id == b.domain_id
}

/// Row `i` opens before row `j`: it starts earlier, or at the same time and comes
/// first.
pub open spec fn opens_before(rows: Seq<NvtxRow>, i: int, j: int) -> bool {
    rows[i].start < rows[j].start || (rows[i].start == rows[j].start && i < j)
}

/// Range `i` is open when row `j` starts: it is of the same thread and domain,
/// opened before, and ends later than that start. Markers are never open.
pub open spec fn holds(rows: Seq<NvtxRow>, i: int, j: int) -> bool {
    &&& 0 <= i < rows.len()
    &&& one_lane(rows[i], rows[j])
    &&& opens_before(rows, i, j)
    &&& rows[i].end matches Some(end) && rows[j].start < end
}

/// The ranges that are open when row `j` starts.
pub open spec fn holders(rows: Seq<NvtxRow>, j: int) -> Set<int> {
    Set::new(|i: int| holds(rows, i, j))
}

/// Of the ranges that are open when row `j` starts, range `i` closes first; of
/// those that close together it opened last.
pub open spec fn holds_closest(rows: Seq<NvtxRow>, i: int, j: int) -> bool {
    holds(rows, i, j) && forall|h: int| #[trigger]
        holds(rows, h, j) ==> rows[i].end->0 < rows[h].end->0 || (rows[i].end->0 == rows[h].end->0
            && (h == i || opens_before(rows, h, i)))
}

/// The record tells row `i`: its fields, how many ranges hold it, and the one that
/// holds it closest.
pub open spec fn tells_range(r: NvtxTreeRecord, rows: Seq<NvtxRow>, i: int) -> bool {
    &&& r.range_id == rows[i].rowid
    &&& r.domain_id == rows[i].domain_id
    &&& r.global_tid == rows[i].global_tid
    &&& r.name@ == rows[i].name@
    &&& r.start == rows[i].start
    &&& r.end == rows[i].end
    &&& r.duration_ns is Some <==> rows[i].end is Some
    &&& rows[i].end matches Some(end) ==> (i64::MIN <= end - rows[i].start <= i64::MAX
        ==> r.duration_ns == Some((end - rows[i].start) as i64))
    &&& holders(rows, i).finite()
    &&& r.depth == if holders(rows, i).len() <= i32::MAX {
        holders(rows, i).len() as int
    } else {
        i32::MAX as int
    }
    &&& match r.parent_range_id {
        Some(id) => exists|h: int| #[trigger] holds_closest(rows, h, i) && rows[h].rowid == id,
        None => forall|h: int| !#[trigger] holds(rows, h, i),
    }
}

/// Record `k` tells row `from[k]`; every row is told by one record.
pub open spec fn tells_ranges(
    records: Seq<NvtxTreeRecord>,
    rows: Seq<NvtxRow>,
    from: Seq<int>,
) -> bool {
    &&& records.len() == from.len()
    &&& rearranges(from, rows.len())
    &&& forall|k: int| 0 <= k < records.len() ==> tells_range(records[k], rows, #[trigger] from[k])
}

proof fn listing_follows_lanes(rows: Seq<NvtxRow>)
    ensures
        ({
            let lane = lane_order(row_slots(rows));
            &&& lane.len() == rows.len()
            &&& lane.no_duplicates()
            &&& forall|k: int| 0 <= k < rows.len() ==> 0 <= #[trigger] lane[k] < rows.len()
            &&& forall|i: int| 0 <= i < rows.len() ==> #[trigger] lane.contains(i)
            &&& forall|j: int, k: int|
                #![trigger lane[j], lane[k]]
                0 <= j < rows.len() && 0 <= k < rows.len() && one_lane(rows[lane[j]], rows[lane[k]])
                    ==> (j < k <==> opens_before(rows, lane[j], lane[k]))
        }),
{
    let slots = row_slots(rows);
    let keys = keys_of(slots);
    let lane = lane_order(slots);
    sort_order_exists(keys);
    sort_order_covers(keys, lane);
    assert forall|k: int| 0 <= k < rows.len() implies 0 <= #[trigger] lane[k] < rows.len() by {
        assert(0 <= lane[k] < keys.len());
    }
    assert forall|j: int, k: int|
        0 <= j < k < rows.len() && one_lane(
            rows[#[trigger] lane[j]],
            rows[#[trigger] lane[k]],
        ) implies opens_before(rows, lane[j], lane[k]) by {
        assert(placed_before(keys, lane[j], lane[k]));
        let a = keys[lane[j]];
        let b = keys[lane[k]];
        assert(a == slots[lane[j]].sort_key() && b == slots[lane[k]].sort_key());
        lex_lt_triple(a, b);
        assert(a[0] == rows[lane[j]].global_tid && a[1] == rows[lane[j]].domain_id && a[2]
            == rows[lane[j]].start);
        assert(b[0] == rows[lane[k]].global_tid && b[1] == rows[lane[k]].domain_id && b[2]
            == rows[lane[k]].start);
    }
    assert forall|j: int, k: int|
        #![trigger lane[j], lane[k]]
        0 <= j < rows.len() && 0 <= k < rows.len() && one_lane(
            rows[lane[j]],
            rows[lane[k]],
        ) implies (j < k <==> opens_before(rows, lane[j], lane[k])) by {
        if j > k {
            assert(opens_before(rows, lane[k], lane[j]));
        }
    }
}

proof fn slots_hold(rows: Seq<NvtxRow>, j: int, k: int)
    requires
        0 <= k < rows.len(),
    ensures
        ({
            let lane = lane_order(row_slots(rows));
            let s = sorted_slots(rows);
            &&& s.len() == rows.len()
            &&& (0 <= j < rows.len() ==> (encloses(s, j, k) <==> holds(rows, lane[j], lane[k])))
            &&& (encloses(s, j, k) ==> 0 <= j < rows.len())
        }),
{
    listing_follows_lanes(rows);
    let lane = lane_order(row_slots(rows));
    let s = sorted_slots(rows);
    assert(0 <= lane[k] < rows.len());
    assert(s[k] == rows[lane[k]].slot());
    if 0 <= j < rows.len() {
        assert(0 <= lane[j] < rows.len());
        assert(s[j] == rows[lane[j]].slot());
    }
}

proof fn depths_count_holders(rows: Seq<NvtxRow>, k: int)
    requires
        0 <= k < rows.len(),
    ensures
        ({
            let i = lane_order(row_slots(rows))[k];
            holders(rows, i).finite() && nesting_depth(sorted_slots(rows), k) == holders(
                rows,
                i,
            ).len()
        }),
{
    listing_follows_lanes(rows);
    let lane = lane_order(row_slots(rows));
    let s = sorted_slots(rows);
    let i = lane[k];
    let x = enclosing_set(s, k);
    let y = holders(rows, i);
    let f = |j: int| lane[j];
    let all = vstd::set_lib::set_int_range(0, k);
    vstd::set_lib::lemma_int_range(0, k);
    vstd::set_lib::lemma_len_subset(x, all);
    assert(x.map(f) =~= y) by {
        assert forall|h: int| x.map(f).contains(h) <==> y.contains(h) by {
            if x.map(f).contains(h) {
                let j: int = choose|j: int| x.contains(j) && f(j) == h;
                slots_hold(rows, j, k);
                assert(encloses(s, j, k));
            }
            if y.contains(h) {
                assert(lane.contains(h));
                let j: int = choose|j: int| 0 <= j < lane.len() && lane[j] == h;
                slots_hold(rows, j, k);
                assert(x.contains(j));
                assert(f(j) == h);
            }
        }
    }
    assert(vstd::relations::injective_on(f, x)) by {
        assert forall|a: int, b: int| x.contains(a) && x.contains(b) && #[trigger] f(a) == #[trigger] f(
            b,
        ) implies a == b by {
            slots_hold(rows, a, k);
            slots_hold(rows, b, k);
            assert(encloses(s, a, k) && encloses(s, b, k));
            assert(lane[a] == lane[b]);
        }
    }
    vstd::set_lib::lemma_map_size(x, y, f);
}

proof fn innermost_holds_closest(rows: Seq<NvtxRow>, j: int, k: int)
    requires
        0 <= k < rows.len(),
        is_innermost(sorted_slots(rows), j, k),
    ensures
        ({
            let lane = lane_order(row_slots(rows));
            holds_closest(rows, lane[j], lane[k]) && sorted_slots(rows)[j].rowid
                == rows[lane[j]].rowid
        }),
{
    listing_follows_lanes(rows);
    let lane = lane_order(row_slots(rows));
    let s = sorted_slots(rows);
    slots_hold(rows, j, k);
    let i = lane[j];
    assert(0 <= lane[j] < rows.len() && 0 <= lane[k] < rows.len());
    assert(s[j] == rows[i].slot());
    assert forall|h: int| #[trigger] holds(rows, h, lane[k]) implies rows[i].end->0 < rows[h].end->0
        || (rows[i].end->0 == rows[h].end->0 && (h == i || opens_before(rows, h, i))) by {
        assert(lane.contains(h));
        let m: int = choose|m: int| 0 <= m < lane.len() && lane[m] == h;
        slots_hold(rows, m, k);
        assert(encloses(s, m, k));
        assert(s[m] == rows[lane[m]].slot());
        if m < j {
            assert(lane[m] == h && lane[j] == i);
            assert(one_lane(rows[lane[m]], rows[lane[j]]));
            assert(opens_before(rows, lane[m], lane[j]));
        }
    }
}

/// The tree tells every row once, with its own fields, the number of ranges that
/// are open when it starts and, as its parent, the one of them that holds it
/// closest.
pub proof fn tree_tells_the_rows(rows: Seq<NvtxRow>, records: Seq<NvtxTreeRecord>)
    requires
        record_views(records) == tree_of(rows),
    ensures
        exists|from: Seq<int>| tells_ranges(records, rows, from),
{
    one_record_per_row(rows);
    listing_follows_lanes(rows);
    let lane = lane_order(row_slots(rows));
    let s = sorted_slots(rows);
    let recs = with_paths(placed_records(rows));
    let keys = recs.map_values(|r: NvtxTreeRecordView| table_key(r));
    sort_order_exists(keys);
    let from = Seq::new(rows.len(), |k: int| source_row(rows, k));
    assert(record_views(records).len() == records.len());
    assert forall|k: int| 0 <= k < records.len() implies tells_range(
        records[k],
        rows,
        #[trigger] from[k],
    ) by {
        let v = tree_of(rows)[k];
        assert(record_views(records)[k] == records[k]@);
        let at = listing_place(rows, k);
        assert(0 <= at < keys.len());
        assert(0 <= lane[at] < rows.len());
        assert(from[k] == lane[at]);
        depths_count_holders(rows, at);
        parent_iff_nested(s, at);
        if v.parent_range_id is Some {
            let j: int = choose|j: int|
                #[trigger] is_innermost(s, j, at) && s[j].rowid == v.parent_range_id->0;
            innermost_holds_closest(rows, j, at);
            assert(holds_closest(rows, lane[j], from[k]));
        } else {
            assert forall|h: int| !#[trigger] holds(rows, h, from[k]) by {
                if holds(rows, h, from[k]) {
                    assert(holders(rows, from[k]).contains(h));
                    assert(holders(rows, from[k]).len() == 0);
                    assert(holders(rows, from[k]) =~= Set::empty());
                }
            }
        }
    }
    assert forall|i: int| 0 <= i < rows.len() implies #[trigger] from.contains(i) by {
        assert(is_described(rows, i));
        let a: int = choose|a: int| 0 <= a < rows.len() && #[trigger] source_row(rows, a) == i;
        assert(from[a] == i);
    }
    assert forall|k: int| 0 <= k < from.len() implies 0 <= #[trigger] from[k] < rows.len() by {
        let r = tree_of(rows)[k];
    }
    assert forall|a: int, b: int| 0 <= a < from.len() && 0 <= b < from.len() && a != b implies from[a]
        != from[b] by {
        assert(from[a] == source_row(rows, a) && from[b] == source_row(rows, b));
        if a < b {
            assert(source_row(rows, a) != source_row(rows, b));
        } else {
            assert(source_row(rows, b) != source_row(rows, a));
        }
    }
    assert(tells_ranges(records, rows, from));
}

/// The records come by start, then by depth, then by number.
pub proof fn tree_comes_by_start(rows: Seq<NvtxRow>, records: Seq<NvtxTreeRecord>, i: int, j: int)
    requires
        record_views(records) == tree_of(rows),
        0 <= i < j < records.len(),
    ensures
        records[i].start <= records[j].start,
        records[i].start == records[j].start ==> records[i].depth <= records[j].depth,
        records[i].start == records[j].start && records[i].depth == records[j].depth
            ==> records[i].range_id <= records[j].range_id,
{
    let recs = with_paths(placed_records(rows));
    let keys = recs.map_values(|r: NvtxTreeRecordView| table_key(r));
    let table = sort_order_of(keys);
    sort_order_exists(keys);
    assert(record_views(records).len() == records.len());
    assert(tree_of(rows).len() == table.len());
    assert(record_views(records)[i] == records[i]@ && record_views(records)[j] == records[j]@);
    assert(placed_before(keys, table[i], table[j]));
    assert(0 <= table[i] < keys.len() && 0 <= table[j] < keys.len());
    let a = keys[table[i]];
    let b = keys[table[j]];
    lex_lt_triple(a, b);
    assert(a == table_key(records[i]@) && b == table_key(records[j]@));
    assert(a[0] == records[i].start && a[1] == records[i].depth && a[2] == records[i].range_id);
    assert(b[0] == records[j].start && b[1] == records[j].depth && b[2] == records[j].range_id);
}

/// A name with a backslash in front of every slash and backslash.
pub open spec fn guarded(name: Seq<char>) -> Seq<char> {
    name.map_values(
        |c: char|
            if c == '/' || c == '\\' {
                seq!['\\', c]
            } else {
                seq![c]
            },
    ).flatten()
}

/// Escaping a name puts a backslash in front of every slash and backslash, and
/// keeps the rest.
pub proof fn escaping_guards_separators(name: Seq<char>)
    ensures
        escaped(name) == guarded(name),
    decreases name.len(),
{
    let f = |c: char|
        if c == '/' || c == '\\' {
            seq!['\\', c]
        } else {
            seq![c]
        };
    if name.len() > 0 {
        escaping_guards_separators(name.drop_last());
        assert(name.map_values(f) =~= name.drop_last().map_values(f).push(f(name.last())));
        name.drop_last().map_values(f).lemma_flatten_push(f(name.last()));
        assert(escaped_char(name.last()) =~= f(name.last()));
    } else {
        assert(name.map_values(f) =~= Seq::<Seq<char>>::empty());
    }
}

/// The path of a record is that of its parent, a slash and its own guarded name;
/// that of a record without a parent is its guarded name.
pub proof fn tree_paths_lead_down(rows: Seq<NvtxRow>, records: Seq<NvtxTreeRecord>, a: int, b: int)
    requires
        distinct_rowids(rows),
        record_views(records) == tree_of(rows),
        0 <= a < records.len(),
        0 <= b < records.len(),
    ensures
        records[a].parent_range_id == Some(records[b].range_id) ==> records[a].path@
            == records[b].path@ + seq!['/'] + guarded(records[a].name@),
        records[a].parent_range_id is None ==> records[a].path@ == guarded(records[a].name@),
{
    one_record_per_row(rows);
    assert(record_views(records).len() == records.len());
    assert(record_views(records)[a] == records[a]@ && record_views(records)[b] == records[b]@);
    paths_follow_parents(rows, a, b);
    escaping_guards_separators(records[a].name@);
}

/// The rows of the same thread, domain and name that open before row `j`.
pub open spec fn repeats_before(rows: Seq<NvtxRow>, j: int) -> Set<int> {
    Set::new(
        |i: int|
            0 <= i < rows.len() && one_lane(rows[i], rows[j]) && rows[i].name@ == rows[j].name@
                && opens_before(rows, i, j),
    )
}

proof fn last_listed_place(listed: Seq<NvtxRow>, rowid: i64, n: nat)
    requires
        n <= listed.len(),
    ensures
        match last_listed(listed, rowid, n) {
            Some(k) => k < n && listed[k as int].rowid == rowid,
            None => forall|k: int| 0 <= k < n ==> (#[trigger] listed[k]).rowid != rowid,
        },
    decreases n,
{
    if n > 0 && listed[n - 1].rowid != rowid {
        last_listed_place(listed, rowid, (n - 1) as nat);
    }
}

proof fn repeats_are_counted(rows: Seq<NvtxRow>, k: int)
    requires
        0 <= k < rows.len(),
    ensures
        ({
            let i = lane_order(row_slots(rows))[k];
            repeats_before(rows, i).finite() && earlier_repeats(listed_rows(rows), k).len()
                == repeats_before(rows, i).len()
        }),
{
    listing_follows_lanes(rows);
    let lane = lane_order(row_slots(rows));
    let listed = listed_rows(rows);
    let i = lane[k];
    assert(0 <= lane[k] < rows.len());
    let x = earlier_repeats(listed, k);
    let y = repeats_before(rows, i);
    let f = |j: int| lane[j];
    let all = vstd::set_lib::set_int_range(0, k);
    vstd::set_lib::lemma_int_range(0, k);
    vstd::set_lib::lemma_len_subset(x, all);
    assert(x.map(f) =~= y) by {
        assert forall|h: int| x.map(f).contains(h) <==> y.contains(h) by {
            if x.map(f).contains(h) {
                let j: int = choose|j: int| x.contains(j) && f(j) == h;
                assert(0 <= lane[j] < rows.len());
                assert(listed[j] == rows[lane[j]]);
                assert(one_lane(rows[lane[j]], rows[lane[k]]));
            }
            if y.contains(h) {
                assert(lane.contains(h));
                let j: int = choose|j: int| 0 <= j < lane.len() && lane[j] == h;
                assert(one_lane(rows[lane[j]], rows[lane[k]]));
                assert(listed[j] == rows[lane[j]]);
                assert(x.contains(j));
                assert(f(j) == h);
            }
        }
    }
    assert(vstd::relations::injective_on(f, x)) by {
        assert forall|a: int, b: int| x.contains(a) && x.contains(b) && #[trigger] f(a) == #[trigger] f(
            b,
        ) implies a == b by {
            assert(lane[a] == lane[b]);
        }
    }
    vstd::set_lib::lemma_map_size(x, y, f);
}

/// Where row ids are distinct, the nesting has one entry for every row and no
/// other: its depth is the number of ranges that are open when it starts, and its
/// index the number of rows of its thread, domain and name that open before, as
/// far as the two can be held.
pub proof fn nesting_counts(rows: Seq<NvtxRow>, entries: NvtxNesting)
    requires
        distinct_rowids(rows),
        ({
            let listed = listed_rows(rows);
            &&& forall|id: i64|
                entries@.contains_key(id) <==> (#[trigger] last_listed(listed, id, listed.len()))
                    is Some
            &&& forall|id: i64|
                entries@.contains_key(id) ==> (#[trigger] entries@[id]) == entry_at(
                    rows,
                    last_listed(listed, id, listed.len())->0 as int,
                )
        }),
    ensures
        forall|id: i64| #[trigger]
            entries@.contains_key(id) ==> exists|i: int|
                0 <= i < rows.len() && (#[trigger] rows[i]).rowid == id,
        forall|i: int|
            0 <= i < rows.len() ==> {
                let id = (#[trigger] rows[i]).rowid;
                let deep = holders(rows, i).len();
                let before = repeats_before(rows, i).len();
                &&& entries@.contains_key(id)
                &&& holders(rows, i).finite()
                &&& repeats_before(rows, i).finite()
                &&& entries@[id].depth == if deep <= 255 {
                    deep as int
                } else {
                    255
                }
                &&& entries@[id].iter_index == if before <= u32::MAX {
                    before as int
                } else {
                    u32::MAX as int
                }
            },
{
    listing_follows_lanes(rows);
    let lane = lane_order(row_slots(rows));
    let listed = listed_rows(rows);
    assert forall|id: i64| #[trigger] entries@.contains_key(id) implies exists|i: int|
        0 <= i < rows.len() && (#[trigger] rows[i]).rowid == id by {
        last_listed_place(listed, id, listed.len());
        assert(last_listed(listed, id, listed.len()) is Some);
        let k = last_listed(listed, id, listed.len())->0 as int;
        assert(0 <= lane[k] < rows.len());
        assert(listed[k] == rows[lane[k]]);
        assert(rows[lane[k]].rowid == id);
    }
    assert forall|i: int| 0 <= i < rows.len() implies {
        let id = (#[trigger] rows[i]).rowid;
        let deep = holders(rows, i).len();
        let before = repeats_before(rows, i).len();
        &&& entries@.contains_key(id)
        &&& holders(rows, i).finite()
        &&& repeats_before(rows, i).finite()
        &&& entries@[id].depth == if deep <= 255 {
            deep as int
        } else {
            255
        }
        &&& entries@[id].iter_index == if before <= u32::MAX {
            before as int
        } else {
            u32::MAX as int
        }
    } by {
        let id = rows[i].rowid;
        assert(lane.contains(i));
        let m: int = choose|m: int| 0 <= m < lane.len() && lane[m] == i;
        assert(listed[m] == rows[lane[m]]);
        last_listed_place(listed, id, listed.len());
        assert(last_listed(listed, id, listed.len()) is Some) by {
            if last_listed(listed, id, listed.len()) is None {
                assert(listed[m].rowid != id);
            }
        }
        assert(entries@.contains_key(id));
        let k = last_listed(listed, id, listed.len())->0 as int;
        assert(0 <= lane[k] < rows.len());
        assert(listed[k] == rows[lane[k]]);
        assert(lane[k] == i);
        assert(entries@[id] == entry_at(rows, k));
        depths_count_holders(rows, k);
        repeats_are_counted(rows, k);
    }
}

/// A lookup by range gives the last record with that number, and nothing exactly
/// where there is none.
pub proof fn ranges_are_found(recs: Seq<NvtxTreeRecord>, range_id: i64, record: Option<NvtxTreeRecord>)
    requires
        match find(recs, range_id) {
            Some(i) => record == Some(recs[i as int]),
            None => record is None,
        },
    ensures
        record matches Some(r) ==> exists|i: int|
            0 <= i < recs.len() && r == #[trigger] recs[i] && r.range_id == range_id && forall|j: int|
                i < j < recs.len() ==> (#[trigger] recs[j]).range_id != range_id,
        record is None ==> forall|j: int|
            0 <= j < recs.len() ==> (#[trigger] recs[j]).range_id != range_id,
{
    find_last_is_last(recs, range_id, recs.len());
    if record is Some {
        let i = find(recs, range_id)->0 as int;
        assert(record->0 == recs[i]);
    }
}

/// The record is on the thread and covers the moment: it has started, and ends
/// later or never.
pub open spec fn covers_moment(r: NvtxTreeRecord, global_tid: i64, t: i64) -> bool {
    r.global_tid == global_tid && r.start <= t && (r.end matches Some(end) ==> t < end)
}

/// The one record is no less deep than the other, or started later, or has the
/// larger number.
pub open spec fn no_less_deep(a: NvtxTreeRecord, b: NvtxTreeRecord) -> bool {
    a.depth > b.depth || (a.depth == b.depth && (a.start > b.start || (a.start == b.start
        && a.range_id >= b.range_id)))
}

/// The stack at a moment holds ranges of the thread that cover the moment. Each is
/// the parent of the next; the last is the deepest that covers the moment. The
/// stack is empty exactly where nothing covers the moment.
pub proof fn stacks_hold_what_is_open(
    recs: Seq<NvtxTreeRecord>,
    global_tid: i64,
    t: i64,
    stack: Seq<&NvtxTreeRecord>,
)
    requires
        refer_to(stack, recs, stack_of(recs, global_tid, t)),
    ensures
        forall|k: int| 0 <= k < stack.len() ==> covers_moment(*(#[trigger] stack[k]), global_tid, t),
        forall|k: int|
            0 < k < stack.len() ==> (#[trigger] stack[k]).parent_range_id == Some(
                stack[k - 1].range_id,
            ),
        forall|i: int|
            0 <= i < recs.len() && covers_moment(#[trigger] recs[i], global_tid, t) ==> stack.len() > 0
                && no_less_deep(*stack.last(), recs[i]),
        forall|k: int|
            0 <= k < stack.len() ==> exists|i: int| 0 <= i < recs.len() && *(#[trigger] stack[k]) == recs[i],
        0 < stack.len() < recs.len() ==> (stack[0].parent_range_id matches Some(id) ==> forall|i: int|
            0 <= i < recs.len() && (#[trigger] recs[i]).range_id == id && (forall|j: int|
                i < j < recs.len() ==> (#[trigger] recs[j]).range_id != id) ==> !covers_moment(
                recs[i],
                global_tid,
                t,
            )),
{
    stack_is_one_chain(recs, global_tid, t);
    let at = stack_of(recs, global_tid, t);
    assert forall|k: int| 0 <= k < stack.len() implies covers_moment(
        *(#[trigger] stack[k]),
        global_tid,
        t,
    ) by {
        assert(active(recs, global_tid, t, at[k] as int));
    }
    assert forall|k: int| 0 < k < stack.len() implies (#[trigger] stack[k]).parent_range_id == Some(
        stack[k - 1].range_id,
    ) by {
        assert(parent_of(recs, at[k]) == Some(at[k - 1]));
        find_last_is_last(recs, recs[at[k] as int].parent_range_id->0, recs.len());
        assert(*stack[k] == recs[at[k] as int] && *stack[k - 1] == recs[at[k - 1] as int]);
    }
    assert forall|i: int|
        0 <= i < recs.len() && covers_moment(
            #[trigger] recs[i],
            global_tid,
            t,
        ) implies stack.len() > 0 && no_less_deep(*stack.last(), recs[i]) by {
        assert(active(recs, global_tid, t, i));
        let top = some_innermost(recs, global_tid, t, recs.len(), i);
        assert(innermost_at(recs, global_tid, t, top));
        let last = at.last() as int;
        assert(innermost_at(recs, global_tid, t, last));
        let a = inner_key(recs[i]);
        let b = inner_key(recs[last]);
        lex_lt_triple(a, b);
        assert(a[0] == recs[i].depth && a[1] == recs[i].start && a[2] == recs[i].range_id);
        assert(b[0] == recs[last].depth && b[1] == recs[last].start && b[2] == recs[last].range_id);
        assert(*stack.last() == recs[last]);
    }
    assert forall|k: int| 0 <= k < stack.len() implies exists|i: int|
        0 <= i < recs.len() && *(#[trigger] stack[k]) == recs[i] by {
        assert(active(recs, global_tid, t, at[k] as int));
        assert(*stack[k] == recs[at[k] as int]);
    }
    if 0 < stack.len() < recs.len() && stack[0].parent_range_id is Some {
        let id = stack[0].parent_range_id->0;
        let top: int = choose|i: int| innermost_at(recs, global_tid, t, i);
        let chain = active_chain(recs, global_tid, t, top as nat, recs.len());
        assert(at == chain.reverse());
        chain_goes_up(recs, global_tid, t, top as nat, recs.len());
        assert(chain.last() == at[0]);
        assert(*stack[0] == recs[at[0] as int]);
        assert forall|i: int|
            0 <= i < recs.len() && (#[trigger] recs[i]).range_id == id && (forall|j: int|
                i < j < recs.len() ==> (#[trigger] recs[j]).range_id != id) implies !covers_moment(
            recs[i],
            global_tid,
            t,
        ) by {
            find_last_is_last(recs, id, recs.len());
            let p = find(recs, id);
            assert(p is Some) by {
                if p is None {
                    assert(recs[i].range_id != id);
                }
            }
            let q = p->0 as int;
            assert(q == i) by {
                if q < i {
                    assert(recs[i].range_id != id);
                } else if i < q {
                    assert(recs[q].range_id != id);
                }
            }
            assert(parent_of(recs, at[0]) == Some(q as nat));
            assert(!active(recs, global_tid, t, q));
        }
    }
}

proof fn some_innermost(recs: Seq<NvtxTreeRecord>, global_tid: i64, t: i64, n: nat, seed: int) -> (top: int)
    requires
        n <= recs.len(),
        active(recs, global_tid, t, seed),
    ensures
        active(recs, global_tid, t, top),
        n == recs.len() ==> innermost_at(recs, global_tid, t, top),
        forall|j: int|
            #![trigger active(recs, global_tid, t, j)]
            (j < n || j == seed) && active(recs, global_tid, t, j)
                ==> crate::nvtx_tree::at_least_as_inner(recs, top, j),
    decreases n,
{
    if n == 0 {
        seed
    } else {
        let less = some_innermost(recs, global_tid, t, (n - 1) as nat, seed);
        let last = n - 1;
        let top = if active(recs, global_tid, t, last) && !crate::nvtx_tree::at_least_as_inner(
            recs,
            less,
            last,
        ) {
            last
        } else {
            less
        };
        assert forall|j: int|
            #![trigger active(recs, global_tid, t, j)]
            (j < n || j == seed) && active(
                recs,
                global_tid,
                t,
                j,
            ) implies crate::nvtx_tree::at_least_as_inner(recs, top, j) by {
            if top == last {
                if j == last {
                } else {
                    let a = inner_key(recs[j]);
                    let b = inner_key(recs[less]);
                    let c = inner_key(recs[last]);
                    crate::order::lex_lt_total(b, c);
                    if crate::order::lex_lt(a, b) && crate::order::lex_lt(b, c) {
                        crate::order::lex_lt_transitive(a, b, c);
                    }
                }
            }
        }
        top
    }
}

proof fn chain_goes_up(recs: Seq<NvtxTreeRecord>, global_tid: i64, t: i64, i: nat, fuel: nat)
    requires
        active(recs, global_tid, t, i as int),
        fuel > 0,
    ensures
        ({
            let chain = active_chain(recs, global_tid, t, i, fuel);
            &&& chain.len() > 0
            &&& chain.len() < fuel ==> (parent_of(recs, chain.last()) matches Some(p) ==> !active(
                recs,
                global_tid,
                t,
                p as int,
            ))
        }),
    decreases fuel,
{
    let chain = active_chain(recs, global_tid, t, i, fuel);
    match parent_of(recs, i) {
        Some(p) => {
            if fuel > 1 && active(recs, global_tid, t, p as int) {
                chain_goes_up(recs, global_tid, t, p, (fuel - 1) as nat);
                let rest = active_chain(recs, global_tid, t, p, (fuel - 1) as nat);
                assert(chain == seq![i] + rest);
                assert(chain.last() == rest.last());
            } else {
                let rest = active_chain(recs, global_tid, t, p, (fuel - 1) as nat);
                assert(rest.len() == 0);
                assert(chain =~= seq![i]);
            }
        },
        None => {
            assert(chain =~= seq![i]);
        },
    }
}

proof fn ancestors_link(recs: Seq<NvtxTreeRecord>, cursor: Option<nat>, n: nat)
    requires
        ends_within(recs, cursor, n),
    ensures
        ({
            let up = ancestors_of(recs, cursor, n);
            &&& up.len() > 0 <==> cursor is Some
            &&& up.len() > 0 ==> up[0] == cursor->0
            &&& forall|k: int| 0 <= k < up.len() - 1 ==> parent_of(recs, #[trigger] up[k]) == Some(up[k + 1])
            &&& up.len() > 0 ==> parent_of(recs, up.last()) is None
        }),
    decreases n,
{
    if cursor is Some {
        let i = cursor->0;
        ancestors_link(recs, parent_of(recs, i), (n - 1) as nat);
        let rest = ancestors_of(recs, parent_of(recs, i), (n - 1) as nat);
        let up = ancestors_of(recs, cursor, n);
        assert(up == seq![i] + rest);
        assert forall|k: int| 0 <= k < up.len() - 1 implies parent_of(recs, #[trigger] up[k]) == Some(
            up[k + 1],
        ) by {
            if k > 0 {
                assert(up[k] == rest[k - 1] && up[k + 1] == rest[k]);
            } else {
                assert(up[1] == rest[0]);
            }
        }
        if rest.len() > 0 {
            assert(up.last() == rest.last());
        } else {
            assert(up =~= seq![i]);
        }
    }
}

/// The ancestors of a range start with the range itself, go from each to its
/// parent, and end with one whose parent is not in the tree. There are none
/// exactly where the range is not in the tree.
pub proof fn ancestors_lead_up(recs: Seq<NvtxTreeRecord>, range_id: i64, out: Seq<&NvtxTreeRecord>)
    requires
        ends_within(recs, find(recs, range_id), recs.len()),
        refer_to(out, recs, ancestors_of(recs, find(recs, range_id), recs.len())),
    ensures
        out.len() > 0 <==> exists|i: int| 0 <= i < recs.len() && (#[trigger] recs[i]).range_id == range_id,
        out.len() > 0 ==> out[0].range_id == range_id,
        forall|k: int|
            0 <= k < out.len() - 1 ==> (#[trigger] out[k]).parent_range_id == Some(out[k + 1].range_id),
        out.len() > 0 ==> (out.last().parent_range_id matches Some(id) ==> forall|i: int|
            0 <= i < recs.len() ==> (#[trigger] recs[i]).range_id != id),
{
    find_last_is_last(recs, range_id, recs.len());
    let up = ancestors_of(recs, find(recs, range_id), recs.len());
    ancestors_link(recs, find(recs, range_id), recs.len());
    if find(recs, range_id) is Some {
        let i = find(recs, range_id)->0 as int;
        assert(recs[i].range_id == range_id);
    }
    assert forall|k: int| 0 <= k < out.len() - 1 implies (#[trigger] out[k]).parent_range_id == Some(
        out[k + 1].range_id,
    ) by {
        assert(parent_of(recs, up[k]) == Some(up[k + 1]));
        find_last_is_last(recs, recs[up[k] as int].parent_range_id->0, recs.len());
        assert(*out[k] == recs[up[k] as int] && *out[k + 1] == recs[up[k + 1] as int]);
    }
    if out.len() > 0 {
        assert(*out.last() == recs[up.last() as int]);
        if out.last().parent_range_id is Some {
            find_last_is_last(recs, out.last().parent_range_id->0, recs.len());
        }
    }
}

} // verus!
