//! What holds of every range tree.
use super::compute::{
    escaped, escaped_char, last_with_id, last_with_id_is_earlier, parent_place, path_at, placed_records, record_views, row_slots, sorted_slots, table_key,
    tree_of, with_paths, NvtxRow,
};
use super::{
    active, active_chain, ends_within, find, find_last_is_last, innermost_at, parent_of, stack_of,
    NvtxTreeRecord, NvtxTreeRecordView,
};
use crate::nvtx_stack::{
    encloses, enclosing_set, is_innermost, lane_order, laned, nesting_depth,
    nesting_parent, sorted_slots_are_laned, ScanSlot,
};
use crate::order::{
    keys_of, lex_lt, placed_before, sort_order_covers,
    sort_order_exists, sort_order_of,
};
use vstd::prelude::*;

verus! {

/// Names joined into a path.
pub open spec fn joined_path(names: Seq<Seq<char>>) -> Seq<char>
    decreases names.len(),
{
    if names.len() == 0 {
        Seq::empty()
    } else if names.len() == 1 {
        escaped(names[0])
    } else {
        joined_path(names.drop_last()) + seq!['/'] + escaped(names.last())
    }
}

/// The names read back from a path, after the names in `done` and the
/// characters of the current name in `name`.
pub open spec fn split_from(path: Seq<char>, done: Seq<Seq<char>>, name: Seq<char>) -> Seq<
    Seq<char>,
>
    decreases path.len(),
{
    if path.len() == 0 {
        done.push(name)
    } else if path[0] == '\\' && path.len() > 1 {
        split_from(path.subrange(2, path.len() as int), done, name.push(path[1]))
    } else if path[0] == '/' {
        split_from(path.drop_first(), done.push(name), Seq::empty())
    } else {
        split_from(path.drop_first(), done, name.push(path[0]))
    }
}

/// The names in a path.
pub open spec fn split_path(path: Seq<char>) -> Seq<Seq<char>> {
    split_from(path, Seq::empty(), Seq::empty())
}

proof fn escaped_front(name: Seq<char>)
    requires
        name.len() > 0,
    ensures
        escaped(name) == escaped_char(name[0]) + escaped(name.drop_first()),
    decreases name.len(),
{
    if name.len() == 1 {
        assert(name.drop_last() =~= Seq::<char>::empty());
        assert(name.drop_first() =~= Seq::<char>::empty());
        assert(escaped(name) =~= escaped_char(name[0]));
        assert(escaped_char(name[0]) + escaped(name.drop_first()) =~= escaped_char(name[0]));
    } else {
        escaped_front(name.drop_last());
        assert(name.drop_last().drop_first() =~= name.drop_first().drop_last());
        assert(name.drop_first().last() == name.last());
        assert(escaped(name) =~= escaped_char(name[0]) + escaped(name.drop_first()));
    }
}

/// Reading an escaped name gives the name back.
proof fn split_from_name(name: Seq<char>, rest: Seq<char>, done: Seq<Seq<char>>, cur: Seq<char>)
    ensures
        split_from(escaped(name) + rest, done, cur) == split_from(rest, done, cur + name),
    decreases name.len(),
{
    let path = escaped(name) + rest;
    if name.len() == 0 {
        assert(path =~= rest);
        assert(cur + name =~= cur);
    } else {
        escaped_front(name);
        let tail = escaped(name.drop_first()) + rest;
        let c = name[0];
        assert(path =~= escaped_char(c) + tail);
        if c == '\\' || c == '/' {
            assert(path[0] == '\\' && path[1] == c);
            assert(path.subrange(2, path.len() as int) =~= tail);
        } else {
            assert(path[0] == c);
            assert(path.drop_first() =~= tail);
        }
        split_from_name(name.drop_first(), rest, done, cur.push(c));
        assert(cur.push(c) + name.drop_first() =~= cur + name);
    }
}

proof fn split_from_path(names: Seq<Seq<char>>, rest: Seq<char>)
    requires
        names.len() > 0,
    ensures
        split_from(joined_path(names) + rest, Seq::empty(), Seq::empty()) == split_from(
            rest,
            names.drop_last(),
            names.last(),
        ),
    decreases names.len(),
{
    let none = Seq::<Seq<char>>::empty();
    let blank = Seq::<char>::empty();
    if names.len() == 1 {
        split_from_name(names[0], rest, none, blank);
        assert(names.drop_last() =~= none);
        assert(blank + names[0] =~= names[0]);
    } else {
        let front = names.drop_last();
        let last = escaped(names.last());
        let tail = seq!['/'] + (last + rest);
        assert(joined_path(names) + rest =~= joined_path(front) + tail);
        split_from_path(front, tail);
        assert(tail.drop_first() =~= last + rest);
        assert(front.drop_last().push(front.last()) =~= front);
        split_from_name(names.last(), rest, front, blank);
        assert(blank + names.last() =~= names.last());
    }
}

/// A path can be split back into the names it was joined from: the join
/// character is unambiguous, whatever the names hold.
pub proof fn path_splits_into_names(names: Seq<Seq<char>>)
    requires
        names.len() > 0,
    ensures
        split_path(joined_path(names)) == names,
{
    let none = Seq::<char>::empty();
    split_from_path(names, none);
    assert(joined_path(names) + none =~= joined_path(names));
    assert(names.drop_last().push(names.last()) =~= names);
}

/// Different lists of names have different paths.
pub proof fn paths_are_unambiguous(a: Seq<Seq<char>>, b: Seq<Seq<char>>)
    requires
        a.len() > 0,
        b.len() > 0,
        joined_path(a) == joined_path(b),
    ensures
        a == b,
{
    path_splits_into_names(a);
    path_splits_into_names(b);
}

/// Names of the `k`-th record and of its ancestors, outermost first.
pub open spec fn chain_names(recs: Seq<NvtxTreeRecordView>, k: nat) -> Seq<Seq<char>>
    decreases k,
    via chain_names_decreases
{
    match parent_place(recs, k) {
        Some(q) => chain_names(recs, q).push(recs[k as int].name),
        None => seq![recs[k as int].name],
    }
}

#[via_fn]
proof fn chain_names_decreases(recs: Seq<NvtxTreeRecordView>, k: nat) {
    if recs[k as int].parent_range_id is Some {
        last_with_id_is_earlier(recs, recs[k as int].parent_range_id->0, k);
    }
}

/// The path of a record is the join of the names of its ancestors and its own,
/// so it splits back into exactly those.
pub proof fn path_joins_chain(recs: Seq<NvtxTreeRecordView>, k: nat)
    ensures
        chain_names(recs, k).len() > 0,
        path_at(recs, k) == joined_path(chain_names(recs, k)),
        split_path(path_at(recs, k)) == chain_names(recs, k),
    decreases k,
{
    let names = chain_names(recs, k);
    match parent_place(recs, k) {
        Some(q) => {
            last_with_id_is_earlier(recs, recs[k as int].parent_range_id->0, k);
            path_joins_chain(recs, q);
            assert(names.drop_last() =~= chain_names(recs, q));
        },
        None => {},
    }
    path_splits_into_names(names);
}

/// Where the `a`-th record of the tree comes from: its place in the listing
/// by lane and start.
pub open spec fn listing_place(rows: Seq<NvtxRow>, a: int) -> int {
    sort_order_of(
        with_paths(placed_records(rows)).map_values(|r: NvtxTreeRecordView| table_key(r)),
    )[a]
}

/// The row that the `a`-th record of the tree describes.
pub open spec fn source_row(rows: Seq<NvtxRow>, a: int) -> int {
    lane_order(row_slots(rows))[listing_place(rows, a)]
}

/// Some record of the tree describes row `i`.
pub open spec fn is_described(rows: Seq<NvtxRow>, i: int) -> bool {
    exists|a: int| 0 <= a < rows.len() && #[trigger] source_row(rows, a) == i
}

/// The tree holds one record per row: each row is described by exactly one
/// record, which keeps its id, lane, span and name and holds its duration.
pub proof fn one_record_per_row(rows: Seq<NvtxRow>)
    ensures
        tree_of(rows).len() == rows.len(),
        forall|a: int|
            0 <= a < rows.len() ==> {
                let r = #[trigger] tree_of(rows)[a];
                let i = source_row(rows, a);
                &&& 0 <= i < rows.len()
                &&& r.range_id == rows[i].rowid
                &&& r.global_tid == rows[i].global_tid
                &&& r.domain_id == rows[i].domain_id
                &&& r.name == rows[i].name@
                &&& r.start == rows[i].start
                &&& r.end == rows[i].end
                &&& r.duration_ns == match rows[i].end {
                    Some(end) => Some((end - rows[i].start) as i64),
                    None => None,
                }
            },
        forall|a: int, b: int|
            0 <= a < b < rows.len() ==> #[trigger] source_row(rows, a) != #[trigger] source_row(rows, b),
        forall|i: int| 0 <= i < rows.len() ==> #[trigger] is_described(rows, i),
{
    let slots = row_slots(rows);
    let lane = lane_order(slots);
    sort_order_exists(keys_of(slots));
    sort_order_covers(keys_of(slots), lane);
    let recs = with_paths(placed_records(rows));
    let keys = recs.map_values(|r: NvtxTreeRecordView| table_key(r));
    let table = sort_order_of(keys);
    sort_order_exists(keys);
    sort_order_covers(keys, table);
    assert forall|a: int| 0 <= a < rows.len() implies 0 <= #[trigger] table[a] < rows.len() by {
        assert(0 <= table[a] < keys.len());
    }
    assert forall|a: int| 0 <= a < rows.len() implies 0 <= #[trigger] lane[a] < rows.len() by {
        assert(0 <= lane[a] < keys_of(slots).len());
    }
    assert forall|a: int| 0 <= a < rows.len() implies {
        let r = #[trigger] tree_of(rows)[a];
        let i = source_row(rows, a);
        &&& 0 <= i < rows.len()
        &&& r.range_id == rows[i].rowid
        &&& r.global_tid == rows[i].global_tid
        &&& r.domain_id == rows[i].domain_id
        &&& r.name == rows[i].name@
        &&& r.start == rows[i].start
        &&& r.end == rows[i].end
        &&& r.duration_ns == match rows[i].end {
            Some(end) => Some((end - rows[i].start) as i64),
            None => None,
        }
    } by {
        assert(0 <= table[a] < rows.len());
        assert(0 <= lane[table[a]] < rows.len());
    }
    assert forall|a: int, b: int| 0 <= a < b < rows.len() implies #[trigger] source_row(rows, a)
        != #[trigger] source_row(rows, b) by {
        assert(table[a] != table[b]);
        assert(0 <= table[a] < rows.len() && 0 <= table[b] < rows.len());
        assert(lane[table[a]] != lane[table[b]]);
    }
    assert forall|i: int| 0 <= i < rows.len() implies #[trigger] is_described(rows, i) by {
        assert(lane.contains(i));
        let k: int = choose|k: int| 0 <= k < lane.len() && lane[k] == i;
        assert(table.contains(k));
        let a: int = choose|a: int| 0 <= a < table.len() && table[a] == k;
        assert(source_row(rows, a) == i);
    }
}

/// The tree is sorted by start, then depth, then range id.
pub proof fn tree_is_sorted(rows: Seq<NvtxRow>)
    ensures
        forall|a: int, b: int|
            0 <= a < b < tree_of(rows).len() ==> !lex_lt(
                table_key(#[trigger] tree_of(rows)[b]),
                table_key(#[trigger] tree_of(rows)[a]),
            ),
{
    let recs = with_paths(placed_records(rows));
    let keys = recs.map_values(|r: NvtxTreeRecordView| table_key(r));
    let table = sort_order_of(keys);
    sort_order_exists(keys);
    assert forall|a: int, b: int| 0 <= a < b < tree_of(rows).len() implies !lex_lt(
        table_key(#[trigger] tree_of(rows)[b]),
        table_key(#[trigger] tree_of(rows)[a]),
    ) by {
        assert(placed_before(keys, table[a], table[b]));
        let x = keys[table[a]];
        let y = keys[table[b]];
        crate::order::lex_lt_irreflexive(x);
        if lex_lt(x, y) && lex_lt(y, x) {
            crate::order::lex_lt_transitive(x, y, x);
        }
    }
}

/// The innermost of the enclosing ranges below `n`.
proof fn innermost_below(s: Seq<ScanSlot>, k: int, n: int) -> (found: int)
    requires
        0 <= n <= k < s.len(),
        exists|j: int| j < n && encloses(s, j, k),
    ensures
        found < n,
        encloses(s, found, k),
        forall|i: int| #[trigger]
            encloses(s, i, k) && i < n ==> s[found].end->0 < s[i].end->0 || (s[found].end->0
                == s[i].end->0 && i <= found),
    decreases n,
{
    if exists|j: int| j < n - 1 && encloses(s, j, k) {
        let f = innermost_below(s, k, n - 1);
        if encloses(s, n - 1, k) && s[n - 1].end->0 <= s[f].end->0 {
            n - 1
        } else {
            f
        }
    } else {
        n - 1
    }
}

/// A range has a parent exactly when it has enclosing ranges, and the parent
/// is one of them.
pub proof fn parent_iff_nested(s: Seq<ScanSlot>, k: int)
    requires
        0 <= k < s.len(),
    ensures
        nesting_parent(s, k) is Some <==> nesting_depth(s, k) > 0,
        nesting_parent(s, k) matches Some(id) ==> exists|j: int|
            #[trigger] is_innermost(s, j, k) && s[j].rowid == id,
{
    let all = vstd::set_lib::set_int_range(0, k);
    vstd::set_lib::lemma_int_range(0, k);
    let open = enclosing_set(s, k);
    vstd::set_lib::lemma_len_subset(open, all);
    if exists|j: int| encloses(s, j, k) {
        let w: int = choose|j: int| encloses(s, j, k);
        assert(w < k && encloses(s, w, k));
        let f = innermost_below(s, k, k);
        assert(is_innermost(s, f, k));
        assert(open.contains(f));
        if open.len() == 0 {
            assert(open =~= Set::empty());
        }
    } else {
        assert forall|j: int| !open.contains(j) by {
            assert(!encloses(s, j, k));
        }
        assert(open =~= Set::empty());
    }
}

/// The parent that the tree reports for a range is a range of the same thread
/// and domain, which opened no later and is still open when it starts: ranges
/// that merely touch do not nest, and markers are no parents.
pub proof fn parents_enclose(rows: Seq<NvtxRow>, a: int)
    requires
        0 <= a < rows.len(),
    ensures
        tree_of(rows)[a].parent_range_id matches Some(id) ==> exists|i: int|
            {
                let child = rows[source_row(rows, a)];
                &&& 0 <= i < rows.len()
                &&& (#[trigger] rows[i]).rowid == id
                &&& rows[i].global_tid == child.global_tid
                &&& rows[i].domain_id == child.domain_id
                &&& rows[i].start <= child.start
                &&& rows[i].end matches Some(end) && end > child.start
            },
        tree_of(rows)[a].parent_range_id is None <==> tree_of(rows)[a].depth == 0,
{
    one_record_per_row(rows);
    let slots = row_slots(rows);
    let lane = lane_order(slots);
    let s = sorted_slots(rows);
    sort_order_exists(keys_of(slots));
    sorted_slots_are_laned(slots);
    let recs = with_paths(placed_records(rows));
    let keys = recs.map_values(|r: NvtxTreeRecordView| table_key(r));
    sort_order_exists(keys);
    let k = listing_place(rows, a);
    assert(0 <= k < keys.len());
    parent_iff_nested(s, k);
    if nesting_parent(s, k) is Some {
        let id = nesting_parent(s, k)->0;
        let j: int = choose|j: int| #[trigger] is_innermost(s, j, k) && s[j].rowid == id;
        assert(encloses(s, j, k));
        let i = lane[j];
        assert(0 <= i < keys_of(slots).len());
        assert(s[j] == rows[i].slot());
        assert(0 <= lane[k] < keys_of(slots).len());
        assert(s[k] == rows[lane[k]].slot());
        assert(rows[i].rowid == id);
    }
}

/// Any two ranges of one lane are disjoint, or the one listed earlier holds
/// the other.
pub open spec fn properly_nested(s: Seq<ScanSlot>) -> bool {
    forall|i: int, j: int|
        #![trigger s[i], s[j]]
        0 <= i < j < s.len() && s[i].same_lane(s[j]) && s[i].end is Some && s[j].end is Some
            && s[i].end->0 > s[j].start ==> s[j].end->0 <= s[i].end->0
}

/// No two rows share a row id.
pub open spec fn distinct_rowids(rows: Seq<NvtxRow>) -> bool {
    forall|i: int, j: int|
        #![trigger rows[i], rows[j]]
        0 <= i < j < rows.len() ==> rows[i].rowid != rows[j].rowid
}

/// Under proper nesting a parent is less deep than its children.
pub proof fn parent_is_shallower(s: Seq<ScanSlot>, j: int, k: int)
    requires
        0 <= k < s.len(),
        laned(s),
        properly_nested(s),
        encloses(s, j, k),
    ensures
        nesting_depth(s, j) < nesting_depth(s, k),
{
    let outer = enclosing_set(s, j);
    let inner = enclosing_set(s, k);
    let all = vstd::set_lib::set_int_range(0, k);
    vstd::set_lib::lemma_int_range(0, k);
    vstd::set_lib::lemma_len_subset(inner, all);
    assert forall|i: int| outer.contains(i) implies inner.contains(i) && i != j by {
        assert(encloses(s, i, j));
        assert(s[i].end->0 > s[j].start);
        assert(s[j].end->0 <= s[i].end->0);
        assert(encloses(s, i, k));
    }
    assert(inner.contains(j));
    vstd::set_lib::lemma_len_subset(outer, inner.remove(j));
}

/// Where row ids are distinct, a record's path is its parent's path, `/` and
/// its escaped name, and a root's path is its escaped name.
pub proof fn paths_follow_parents(rows: Seq<NvtxRow>, a: int, b: int)
    requires
        distinct_rowids(rows),
        0 <= a < rows.len(),
        0 <= b < rows.len(),
    ensures
        tree_of(rows)[a].parent_range_id == Some(tree_of(rows)[b].range_id) ==> tree_of(rows)[a].path
            == tree_of(rows)[b].path + seq!['/'] + escaped(tree_of(rows)[a].name),
        tree_of(rows)[a].parent_range_id is None ==> tree_of(rows)[a].path == escaped(
            tree_of(rows)[a].name,
        ),
{
    one_record_per_row(rows);
    let slots = row_slots(rows);
    let lane = lane_order(slots);
    let s = sorted_slots(rows);
    sort_order_exists(keys_of(slots));
    sort_order_covers(keys_of(slots), lane);
    let placed = placed_records(rows);
    let recs = with_paths(placed);
    let keys = recs.map_values(|r: NvtxTreeRecordView| table_key(r));
    sort_order_exists(keys);
    let k = listing_place(rows, a);
    let m = listing_place(rows, b);
    assert(0 <= k < keys.len() && 0 <= m < keys.len());
    assert(0 <= lane[k] < keys_of(slots).len() && 0 <= lane[m] < keys_of(slots).len());
    if tree_of(rows)[a].parent_range_id == Some(tree_of(rows)[b].range_id) {
        parent_iff_nested(s, k);
        let id = nesting_parent(s, k)->0;
        let j: int = choose|j: int| #[trigger] is_innermost(s, j, k) && s[j].rowid == id;
        assert(encloses(s, j, k));
        assert(0 <= lane[j] < keys_of(slots).len());
        assert(s[j] == rows[lane[j]].slot());
        assert(rows[lane[j]].rowid == rows[lane[m]].rowid);
        assert(lane[j] == lane[m]);
        assert(j == m);
        last_with_id_is_earlier(placed, id, k as nat);
        let q = last_with_id(placed, id, k as nat);
        assert(placed[m].range_id == id);
        assert(q is Some);
        let qi = q->0 as int;
        assert(0 <= lane[qi] < keys_of(slots).len());
        assert(placed[qi].range_id == rows[lane[qi]].rowid);
        assert(rows[lane[qi]].rowid == rows[lane[m]].rowid);
        assert(lane[qi] == lane[m]);
        assert(qi == m);
        assert(parent_place(placed, k as nat) == Some(m as nat));
    }
}

proof fn chain_ends_from(
    rows: Seq<NvtxRow>,
    records: Seq<NvtxTreeRecord>,
    i: nat,
    n: nat,
)
    requires
        distinct_rowids(rows),
        record_views(records) == tree_of(rows),
        i < records.len(),
        listing_place(rows, i as int) < n,
    ensures
        ends_within(records, Some(i), n),
    decreases n,
{
    one_record_per_row(rows);
    assert(records.len() == record_views(records).len());
    let slots = row_slots(rows);
    let lane = lane_order(slots);
    let s = sorted_slots(rows);
    sort_order_exists(keys_of(slots));
    sort_order_covers(keys_of(slots), lane);
    let recs = with_paths(placed_records(rows));
    let keys = recs.map_values(|r: NvtxTreeRecordView| table_key(r));
    sort_order_exists(keys);
    let k = listing_place(rows, i as int);
    assert(0 <= k < keys.len());
    assert(record_views(records)[i as int] == tree_of(rows)[i as int]);
    if parent_of(records, i) is Some {
        let id = records[i as int].parent_range_id->0;
        let p = parent_of(records, i)->0;
        find_last_is_last(records, id, records.len());
        assert(record_views(records)[p as int] == tree_of(rows)[p as int]);
        let m = listing_place(rows, p as int);
        assert(0 <= m < keys.len());
        parent_iff_nested(s, k);
        let j: int = choose|j: int| #[trigger] is_innermost(s, j, k) && s[j].rowid == id;
        assert(encloses(s, j, k));
        assert(0 <= lane[j] < keys_of(slots).len());
        assert(0 <= lane[m] < keys_of(slots).len());
        assert(s[j] == rows[lane[j]].slot());
        assert(rows[lane[j]].rowid == rows[lane[m]].rowid);
        assert(lane[j] == lane[m]);
        assert(j == m);
        chain_ends_from(rows, records, p, (n - 1) as nat);
        assert(parent_of(records, i) == Some(p));
    } else {
        assert(parent_of(records, i) == None::<nat>);
        assert(ends_within(records, None, (n - 1) as nat));
    }
    assert(n > 0);
    assert(ends_within(records, parent_of(records, i), (n - 1) as nat));
}

/// In a tree that was computed from rows with distinct ids, the parent links
/// of every range end.
pub proof fn parent_chains_end(rows: Seq<NvtxRow>, records: Seq<NvtxTreeRecord>, range_id: i64)
    requires
        distinct_rowids(rows),
        record_views(records) == tree_of(rows),
    ensures
        ends_within(records, find(records, range_id), records.len()),
{
    find_last_is_last(records, range_id, records.len());
    if find(records, range_id) is Some {
        let i = find(records, range_id)->0;
        one_record_per_row(rows);
        assert(records.len() == record_views(records).len());
        let recs = with_paths(placed_records(rows));
        let keys = recs.map_values(|r: NvtxTreeRecordView| table_key(r));
        sort_order_exists(keys);
        assert(0 <= sort_order_of(keys)[i as int] < keys.len());
        chain_ends_from(rows, records, i, records.len());
    }
}

proof fn active_chain_links(
    recs: Seq<NvtxTreeRecord>,
    global_tid: i64,
    t: i64,
    i: nat,
    fuel: nat,
)
    ensures
        ({
            let chain = active_chain(recs, global_tid, t, i, fuel);
            &&& forall|k: int|
                0 <= k < chain.len() ==> active(recs, global_tid, t, #[trigger] chain[k] as int)
            &&& forall|k: int|
                0 <= k < chain.len() - 1 ==> parent_of(recs, #[trigger] chain[k]) == Some(
                    chain[k + 1],
                )
            &&& chain.len() <= fuel
            &&& fuel > 0 && active(recs, global_tid, t, i as int) ==> chain.len() > 0 && chain[0]
                == i
        }),
    decreases fuel,
{
    if fuel > 0 && active(recs, global_tid, t, i as int) {
        let chain = active_chain(recs, global_tid, t, i, fuel);
        if parent_of(recs, i) is Some {
            let p = parent_of(recs, i)->0;
            let rest = active_chain(recs, global_tid, t, p, (fuel - 1) as nat);
            active_chain_links(recs, global_tid, t, p, (fuel - 1) as nat);
            assert(chain =~= seq![i] + rest);
            assert forall|k: int| 0 <= k < chain.len() implies active(
                recs,
                global_tid,
                t,
                #[trigger] chain[k] as int,
            ) by {
                if k > 0 {
                    assert(chain[k] == rest[k - 1]);
                }
            }
            assert forall|k: int| 0 <= k < chain.len() - 1 implies parent_of(
                recs,
                #[trigger] chain[k],
            ) == Some(chain[k + 1]) by {
                if k > 0 {
                    assert(chain[k] == rest[k - 1]);
                    assert(chain[k + 1] == rest[k]);
                } else {
                    assert(rest.len() > 0);
                    assert(rest[0] == p) by {
                        if fuel - 1 == 0 || !active(recs, global_tid, t, p as int) {
                            assert(rest.len() == 0);
                        }
                    }
                }
            }
        } else {
            assert(chain =~= seq![i]);
        }
    }
}

/// The stack at a moment is one chain: each range is the parent of the next,
/// all are on the thread and cover the moment, and the last one is the
/// innermost range there. It is empty exactly when there is no innermost range.
pub proof fn stack_is_one_chain(recs: Seq<NvtxTreeRecord>, global_tid: i64, t: i64)
    ensures
        ({
            let stack = stack_of(recs, global_tid, t);
            &&& forall|k: int|
                0 <= k < stack.len() ==> active(recs, global_tid, t, #[trigger] stack[k] as int)
            &&& forall|k: int|
                0 < k < stack.len() ==> parent_of(recs, #[trigger] stack[k]) == Some(stack[k - 1])
            &&& stack.len() > 0 ==> innermost_at(recs, global_tid, t, stack.last() as int)
            &&& stack.len() > 0 <==> exists|i: int| innermost_at(recs, global_tid, t, i)
        }),
{
    if exists|i: int| innermost_at(recs, global_tid, t, i) {
        let i: int = choose|i: int| innermost_at(recs, global_tid, t, i);
        let chain = active_chain(recs, global_tid, t, i as nat, recs.len());
        active_chain_links(recs, global_tid, t, i as nat, recs.len());
        let stack = stack_of(recs, global_tid, t);
        assert forall|k: int| 0 <= k < stack.len() implies active(
            recs,
            global_tid,
            t,
            #[trigger] stack[k] as int,
        ) by {
            assert(stack[k] == chain[chain.len() - 1 - k]);
        }
        assert forall|k: int| 0 < k < stack.len() implies parent_of(recs, #[trigger] stack[k])
            == Some(stack[k - 1]) by {
            assert(stack[k] == chain[chain.len() - 1 - k]);
            assert(stack[k - 1] == chain[chain.len() - k]);
        }
    }
}

} // verus!
