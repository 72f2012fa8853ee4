//! The lanes of a tree leave each other alone.
use super::compute::{
    last_with_id, last_with_id_is_earlier, parent_place, path_at, placed_records, row_slots,
    sorted_slots, table_key, tree_of, with_paths, NvtxRow,
};
use super::laws::{distinct_rowids, parent_iff_nested};
use super::NvtxTreeRecordView;
use crate::nvtx_stack::{
    arranged, encloses, enclosing_set, is_innermost, lane_order, laned, nesting_depth,
    nesting_parent, sorted_slots_are_laned, ScanSlot,
};
use crate::order::{
    is_sort_order, keys_of, placed_before, sort_order_covers, sort_order_exists, sort_order_of,
    sort_order_unique, SortKey,
};
use vstd::prelude::*;

verus! {

/// Number of elements before `i` that a filter keeps.
spec fn rank<T>(s: Seq<T>, p: spec_fn(T) -> bool, i: int) -> int {
    s.take(i).filter(p).len() as int
}

/// A kept element stands behind those that are kept before it.
proof fn kept_at<T>(s: Seq<T>, p: spec_fn(T) -> bool, i: int)
    requires
        0 <= i < s.len(),
        p(s[i]),
    ensures
        rank(s, p, i) < s.filter(p).len(),
        s.filter(p)[rank(s, p, i)] == s[i],
    decreases s.len(),
{
    reveal(Seq::filter);
    let front = s.drop_last();
    if i == s.len() - 1 {
        assert(s.take(i) =~= front);
    } else {
        kept_at(front, p, i);
        assert(front.take(i) =~= s.take(i));
    }
}

proof fn rank_grows<T>(s: Seq<T>, p: spec_fn(T) -> bool, i: int, j: int)
    requires
        0 <= i < j <= s.len(),
        p(s[i]),
    ensures
        rank(s, p, i) < rank(s, p, j),
{
    let t = s.take(j);
    kept_at(t, p, i);
    assert(t.take(i) =~= s.take(i));
}

/// Where a kept element comes from.
proof fn kept_from<T>(s: Seq<T>, p: spec_fn(T) -> bool, x: int) -> (a: int)
    requires
        0 <= x < s.filter(p).len(),
    ensures
        0 <= a < s.len(),
        s[a] == s.filter(p)[x],
        p(s[a]),
    decreases s.len(),
{
    reveal(Seq::filter);
    let front = s.drop_last();
    if x < front.filter(p).len() {
        kept_from(front, p, x)
    } else {
        s.len() - 1
    }
}

/// Kept elements keep their order.
proof fn kept_in_order<T>(s: Seq<T>, p: spec_fn(T) -> bool, x: int, y: int) -> (at: (int, int))
    requires
        0 <= x < y < s.filter(p).len(),
    ensures
        0 <= at.0 < at.1 < s.len(),
        s[at.0] == s.filter(p)[x],
        s[at.1] == s.filter(p)[y],
    decreases s.len(),
{
    reveal(Seq::filter);
    let front = s.drop_last();
    if y < front.filter(p).len() {
        kept_in_order(front, p, x, y)
    } else {
        (kept_from(front, p, x), s.len() - 1)
    }
}

/// Filtering what is arranged is arranging the positions that are kept.
proof fn filter_arranged<T>(s: Seq<T>, l: Seq<int>, p: spec_fn(T) -> bool, q: spec_fn(int) -> bool)
    requires
        forall|i: int| #[trigger] q(i) == p(s[i]),
    ensures
        arranged(s, l).filter(p) == arranged(s, l.filter(q)),
    decreases l.len(),
{
    reveal(Seq::filter);
    let all = arranged(s, l);
    if l.len() == 0 {
        assert(all =~= Seq::<T>::empty());
        assert(arranged(s, l.filter(q)) =~= Seq::<T>::empty());
    } else {
        let front = l.drop_last();
        filter_arranged(s, front, p, q);
        assert(all.drop_last() =~= arranged(s, front));
        assert(all.last() == s[l.last()]);
        assert(q(l.last()) == p(s[l.last()]));
        assert(arranged(s, l.filter(q)) =~= all.filter(p));
    }
}

/// A filter keeps as many positions of a sort order as it keeps elements.
proof fn kept_positions<T>(s: Seq<T>, l: Seq<int>, p: spec_fn(T) -> bool, q: spec_fn(int) -> bool)
    requires
        forall|i: int| #[trigger] q(i) == p(s[i]),
        l.no_duplicates(),
        l.to_set() == Set::new(|i: int| 0 <= i < s.len()),
    ensures
        l.filter(q).len() == s.filter(p).len(),
{
    let idx = Seq::new(s.len(), |i: int| i);
    assert(arranged(s, idx) =~= s);
    filter_arranged(s, idx, p, q);
    let a = idx.filter(q);
    let b = l.filter(q);
    assert forall|x: int, y: int| 0 <= x < y < a.len() implies a[x] != a[y] by {
        let at = kept_in_order(idx, q, x, y);
    }
    assert forall|x: int, y: int| 0 <= x < y < b.len() implies b[x] != b[y] by {
        let at = kept_in_order(l, q, x, y);
    }
    assert forall|v: int| a.to_set().contains(v) <==> b.to_set().contains(v) by {
        if a.contains(v) {
            let x: int = choose|x: int| 0 <= x < a.len() && a[x] == v;
            let i = kept_from(idx, q, x);
            assert(l.to_set().contains(v));
            let j: int = choose|j: int| 0 <= j < l.len() && l[j] == v;
            kept_at(l, q, j);
            assert(b.contains(v));
        }
        if b.contains(v) {
            let x: int = choose|x: int| 0 <= x < b.len() && b[x] == v;
            let j = kept_from(l, q, x);
            assert(l.to_set().contains(l[j]));
            assert(idx[v] == v);
            kept_at(idx, q, v);
            assert(a.contains(v));
        }
    }
    assert(a.to_set() =~= b.to_set());
    a.unique_seq_to_set();
    b.unique_seq_to_set();
}

/// Elements sorted stably by a key.
spec fn sorted_by<T>(s: Seq<T>, key: spec_fn(T) -> Seq<int>) -> Seq<T> {
    arranged(s, sort_order_of(s.map_values(key)))
}

/// Sorting and then filtering is filtering and then sorting.
proof fn sort_keeps_filter<T>(s: Seq<T>, key: spec_fn(T) -> Seq<int>, p: spec_fn(T) -> bool)
    ensures
        sorted_by(s, key).filter(p) == sorted_by(s.filter(p), key),
{
    let keys = s.map_values(key);
    let l = sort_order_of(keys);
    let q = |i: int| p(s[i]);
    let g = s.filter(p);
    let gkeys = g.map_values(key);
    sort_order_exists(keys);
    sort_order_covers(keys, l);
    filter_arranged(s, l, p, q);
    kept_positions(s, l, p, q);
    let f = l.filter(q);
    let m = f.map_values(|i: int| rank(s, p, i));
    assert forall|x: int| 0 <= x < f.len() implies 0 <= #[trigger] m[x] < g.len() && g[m[x]]
        == s[f[x]] && 0 <= f[x] < s.len() && p(s[f[x]]) by {
        let a = kept_from(l, q, x);
        assert(0 <= l[a] < keys.len());
        assert(q(f[x]));
        kept_at(s, p, f[x]);
    }
    assert forall|x: int, y: int| 0 <= x < y < m.len() implies #[trigger] placed_before(
        gkeys,
        m[x],
        m[y],
    ) by {
        let at = kept_in_order(l, q, x, y);
        assert(placed_before(keys, l[at.0], l[at.1]));
        assert(0 <= m[x] < g.len() && 0 <= m[y] < g.len());
        assert(gkeys[m[x]] == keys[f[x]] && gkeys[m[y]] == keys[f[y]]);
        if f[x] < f[y] {
            rank_grows(s, p, f[x], f[y]);
        }
    }
    assert(is_sort_order(gkeys, m));
    sort_order_unique(gkeys, m);
    assert(arranged(g, m) =~= arranged(s, f));
}

/// The elements that satisfy a predicate stand together, from `lo` to `hi`.
spec fn is_block<T>(s: Seq<T>, p: spec_fn(T) -> bool, n: int, lo: int, hi: int) -> bool {
    &&& 0 <= lo <= hi <= n
    &&& forall|k: int| 0 <= k < n ==> (p(#[trigger] s[k]) <==> lo <= k < hi)
}

proof fn find_block<T>(s: Seq<T>, p: spec_fn(T) -> bool, n: int) -> (at: (int, int))
    requires
        0 <= n <= s.len(),
        forall|i: int, j: int, k: int|
            #![trigger s[i], s[j], s[k]]
            0 <= i < j < k < s.len() && p(s[i]) && p(s[k]) ==> p(s[j]),
    ensures
        is_block(s, p, n, at.0, at.1),
    decreases n,
{
    if n == 0 {
        (0, 0)
    } else {
        let (lo, hi) = find_block(s, p, n - 1);
        if p(s[n - 1]) {
            if lo == hi {
                (n - 1, n)
            } else {
                assert(p(s[lo]));
                if hi < n - 1 {
                    assert(!p(s[hi]));
                }
                (lo, n)
            }
        } else {
            (lo, hi)
        }
    }
}

proof fn filter_block<T>(s: Seq<T>, p: spec_fn(T) -> bool, lo: int, hi: int)
    requires
        is_block(s, p, s.len() as int, lo, hi),
    ensures
        s.filter(p) == s.subrange(lo, hi),
    decreases s.len(),
{
    reveal(Seq::filter);
    if s.len() > 0 {
        let front = s.drop_last();
        let n = front.len() as int;
        let top = if hi <= n {
            hi
        } else {
            n
        };
        let low = if lo <= n {
            lo
        } else {
            n
        };
        assert(s[n] == s.last());
        assert forall|k: int| 0 <= k < n implies (p(#[trigger] front[k]) <==> low <= k < top) by {
            assert(front[k] == s[k]);
        }
        if low <= top {
            filter_block(front, p, low, top);
        }
        if p(s.last()) {
            assert(hi == s.len());
            assert(s.subrange(lo, hi) =~= front.subrange(low, top).push(s.last()));
        } else {
            assert(hi <= n || lo == hi);
            assert(s.subrange(lo, hi) =~= front.subrange(low, top));
        }
    } else {
        assert(s.filter(p) =~= s.subrange(lo, hi));
    }
}

/// Part `sg` of a listing, from `lo` on, holds all that is in the lane of its
/// slots.
spec fn is_lane_of(s: Seq<ScanSlot>, sg: Seq<ScanSlot>, lo: int) -> bool {
    &&& 0 <= lo
    &&& lo + sg.len() <= s.len()
    &&& forall|i: int| 0 <= i < sg.len() ==> (#[trigger] sg[i]) == s[lo + i]
    &&& forall|j: int, k: int|
        #![trigger s[j], s[k]]
        0 <= j < s.len() && lo <= k < lo + sg.len() && s[j].same_lane(s[k]) ==> lo <= j < lo
            + sg.len()
}

proof fn lane_encloses(s: Seq<ScanSlot>, sg: Seq<ScanSlot>, lo: int, j: int, k: int)
    requires
        is_lane_of(s, sg, lo),
        lo <= k < lo + sg.len(),
    ensures
        encloses(s, j, k) <==> encloses(sg, j - lo, k - lo),
{
    assert(sg[k - lo] == s[k]);
    if lo <= j < k {
        assert(sg[j - lo] == s[j]);
    } else if 0 <= j < lo {
        assert(!s[j].same_lane(s[k]));
    }
}

/// A range is placed in its lane as it is placed in the whole listing.
proof fn lane_placement(s: Seq<ScanSlot>, sg: Seq<ScanSlot>, lo: int, k: int)
    requires
        is_lane_of(s, sg, lo),
        lo <= k < lo + sg.len(),
    ensures
        nesting_depth(s, k) == nesting_depth(sg, k - lo),
        nesting_parent(s, k) == nesting_parent(sg, k - lo),
{
    let c = k - lo;
    let whole = enclosing_set(s, k);
    let part = enclosing_set(sg, c);
    let shift = |j: int| j + lo;
    let all = vstd::set_lib::set_int_range(0, k);
    vstd::set_lib::lemma_int_range(0, k);
    assert forall|j: int| whole.contains(j) <==> part.contains(j - lo) by {
        lane_encloses(s, sg, lo, j, k);
    }
    let few = vstd::set_lib::set_int_range(0, c);
    vstd::set_lib::lemma_int_range(0, c);
    vstd::set_lib::lemma_len_subset(part, few);
    vstd::set_lib::lemma_len_subset(whole, all);
    assert(part.map(shift) =~= whole) by {
        assert forall|j: int| part.map(shift).contains(j) <==> whole.contains(j) by {
            if whole.contains(j) {
                assert(part.contains(j - lo) && shift(j - lo) == j);
            }
            if part.map(shift).contains(j) {
                let i: int = choose|i: int| part.contains(i) && j == shift(i);
                assert(whole.contains(j) <==> part.contains(j - lo));
            }
        }
    }
    vstd::set_lib::lemma_map_size(part, whole, shift);
    assert forall|j: int| is_innermost(s, j, k) <==> is_innermost(sg, j - lo, c) by {
        lane_encloses(s, sg, lo, j, k);
        if encloses(s, j, k) {
            assert(sg[j - lo] == s[j]);
            if is_innermost(s, j, k) {
                assert forall|i: int| #[trigger] encloses(sg, i, c) implies sg[j - lo].end->0
                    < sg[i].end->0 || (sg[j - lo].end->0 == sg[i].end->0 && i <= j - lo) by {
                    lane_encloses(s, sg, lo, i + lo, k);
                    assert(sg[i] == s[i + lo]);
                    assert(encloses(s, i + lo, k));
                }
            }
            if is_innermost(sg, j - lo, c) {
                assert forall|i: int| #[trigger] encloses(s, i, k) implies s[j].end->0
                    < s[i].end->0 || (s[j].end->0 == s[i].end->0 && i <= j) by {
                    lane_encloses(s, sg, lo, i, k);
                    assert(encloses(sg, i - lo, c));
                    assert(sg[i - lo] == s[i]);
                }
            }
        }
    }
    if exists|j: int| is_innermost(s, j, k) {
        let a: int = choose|j: int| is_innermost(s, j, k);
        assert(is_innermost(sg, a - lo, c));
        let b: int = choose|j: int| is_innermost(sg, j, c);
        assert(is_innermost(sg, b, c));
        assert(encloses(sg, a - lo, c) && encloses(sg, b, c));
        assert(b == a - lo);
        assert(sg[b] == s[a]);
    } else {
        if exists|j: int| is_innermost(sg, j, c) {
            let b: int = choose|j: int| is_innermost(sg, j, c);
            assert(is_innermost(s, b + lo, k));
        }
    }
}

/// The rows by lane and start.
spec fn listed(rows: Seq<NvtxRow>) -> Seq<NvtxRow> {
    arranged(rows, lane_order(row_slots(rows)))
}

proof fn listed_is_sorted(rows: Seq<NvtxRow>)
    ensures
        listed(rows) == sorted_by(rows, |r: NvtxRow| r.slot().sort_key()),
        listed(rows).len() == rows.len(),
        sorted_slots(rows) == row_slots(listed(rows)),
        placed_records(rows).len() == rows.len(),
        forall|k: int|
            0 <= k < rows.len() ==> (#[trigger] placed_records(rows)[k]).range_id == listed(
                rows,
            )[k].rowid && placed_records(rows)[k].global_tid == listed(rows)[k].global_tid
                && placed_records(rows)[k].domain_id == listed(rows)[k].domain_id,
{
    let key = |r: NvtxRow| r.slot().sort_key();
    assert(keys_of(row_slots(rows)) =~= rows.map_values(key));
    sort_order_exists(keys_of(row_slots(rows)));
    let order = lane_order(row_slots(rows));
    assert forall|k: int| 0 <= k < rows.len() implies sorted_slots(rows)[k] == row_slots(
        listed(rows),
    )[k] by {
        assert(0 <= order[k] < keys_of(row_slots(rows)).len());
    }
    assert(sorted_slots(rows) =~= row_slots(listed(rows)));
}

/// With distinct row ids, no two records share a range id.
proof fn range_ids_differ(rows: Seq<NvtxRow>, i: int, j: int)
    requires
        distinct_rowids(rows),
        0 <= i < rows.len(),
        0 <= j < rows.len(),
        placed_records(rows)[i].range_id == placed_records(rows)[j].range_id,
    ensures
        i == j,
{
    let keys = keys_of(row_slots(rows));
    let order = lane_order(row_slots(rows));
    sort_order_exists(keys);
    sort_order_covers(keys, order);
    assert(0 <= order[i] < keys.len() && 0 <= order[j] < keys.len());
    assert(rows[order[i]].rowid == rows[order[j]].rowid);
    assert(order[i] == order[j]);
}

/// The path of a record is the one that it has in its lane.
proof fn lane_path(rows: Seq<NvtxRow>, g: Seq<NvtxRow>, lo: int, k: int)
    requires
        distinct_rowids(rows),
        is_lane_of(sorted_slots(rows), sorted_slots(g), lo),
        sorted_slots(rows).len() == rows.len(),
        sorted_slots(g).len() == g.len(),
        placed_records(rows).len() == rows.len(),
        placed_records(g).len() == g.len(),
        forall|i: int|
            0 <= i < g.len() ==> (#[trigger] placed_records(g)[i]) == placed_records(rows)[lo + i],
        forall|i: int|
            0 <= i < rows.len() ==> (#[trigger] placed_records(rows)[i]).range_id
                == sorted_slots(rows)[i].rowid,
        forall|i: int|
            0 <= i < rows.len() ==> (#[trigger] placed_records(rows)[i]).parent_range_id
                == nesting_parent(sorted_slots(rows), i),
        lo <= k < lo + g.len(),
    ensures
        path_at(placed_records(rows), k as nat) == path_at(placed_records(g), (k - lo) as nat),
    decreases k,
{
    let whole = placed_records(rows);
    let part = placed_records(g);
    let s = sorted_slots(rows);
    assert(part[k - lo] == whole[k]);
    if whole[k].parent_range_id is Some {
        let id = whole[k].parent_range_id->0;
        parent_iff_nested(s, k);
        let j: int = choose|j: int| #[trigger] is_innermost(s, j, k) && s[j].rowid == id;
        assert(encloses(s, j, k));
        assert(s[j].same_lane(s[k]));
        assert(lo <= j < k);
        assert(whole[j].range_id == id);
        assert(part[j - lo] == whole[j]);
        last_with_id_is_earlier(whole, id, k as nat);
        last_with_id_is_earlier(part, id, (k - lo) as nat);
        let q = last_with_id(whole, id, k as nat)->0 as int;
        let x = last_with_id(part, id, (k - lo) as nat)->0 as int;
        range_ids_differ(rows, q, j);
        assert(part[x] == whole[lo + x]);
        range_ids_differ(rows, lo + x, j);
        assert(parent_place(whole, k as nat) == Some(j as nat));
        assert(parent_place(part, (k - lo) as nat) == Some((j - lo) as nat));
        lane_path(rows, g, lo, j);
    }
}

/// The rows of one lane.
pub open spec fn lane_rows(rows: Seq<NvtxRow>, global_tid: i64, domain_id: i64) -> Seq<NvtxRow> {
    rows.filter(|r: NvtxRow| r.global_tid == global_tid && r.domain_id == domain_id)
}

/// The records of one lane, in their order.
pub open spec fn lane_records(
    recs: Seq<NvtxTreeRecordView>,
    global_tid: i64,
    domain_id: i64,
) -> Seq<NvtxTreeRecordView> {
    recs.filter(|r: NvtxTreeRecordView| r.global_tid == global_tid && r.domain_id == domain_id)
}

/// Rows of other threads or domains never change the parents, depths or paths of
/// a lane: where row ids are distinct, the records of one `(global_tid,
/// domain_id)` are those of its rows alone.
pub proof fn lanes_are_isolated(rows: Seq<NvtxRow>, global_tid: i64, domain_id: i64)
    requires
        distinct_rowids(rows),
    ensures
        lane_records(tree_of(rows), global_tid, domain_id) == tree_of(
            lane_rows(rows, global_tid, domain_id),
        ),
{
    let p = |r: NvtxRow| r.global_tid == global_tid && r.domain_id == domain_id;
    let q = |r: NvtxTreeRecordView| r.global_tid == global_tid && r.domain_id == domain_id;
    let g = rows.filter(p);
    let l = listed(rows);
    let s = sorted_slots(rows);
    let sg = sorted_slots(g);
    listed_is_sorted(rows);
    listed_is_sorted(g);
    sort_keeps_filter(rows, |r: NvtxRow| r.slot().sort_key(), p);
    assert(l.filter(p) == listed(g));
    sorted_slots_are_laned(row_slots(rows));
    assert(laned(s));
    assert forall|i: int, j: int, k: int|
        #![trigger l[i], l[j], l[k]]
        0 <= i < j < k < l.len() && p(l[i]) && p(l[k]) implies p(l[j]) by {
        assert(s[i] == l[i].slot() && s[j] == l[j].slot() && s[k] == l[k].slot());
        assert(s[i].same_lane(s[k]));
        assert(s[j].same_lane(s[k]));
    }
    let (lo, hi) = find_block(l, p, l.len() as int);
    filter_block(l, p, lo, hi);
    assert(listed(g) == l.subrange(lo, hi));
    assert(is_lane_of(s, sg, lo)) by {
        assert forall|i: int| 0 <= i < sg.len() implies (#[trigger] sg[i]) == s[lo + i] by {
            assert(listed(g)[i] == l[lo + i]);
        }
        assert forall|j: int, k: int|
            #![trigger s[j], s[k]]
            0 <= j < s.len() && lo <= k < lo + sg.len() && s[j].same_lane(s[k]) implies lo <= j < lo
            + sg.len() by {
            assert(p(l[k]));
            assert(s[j] == l[j].slot() && s[k] == l[k].slot());
            assert(p(l[j]));
        }
    }
    let whole = placed_records(rows);
    let part = placed_records(g);
    assert forall|i: int| 0 <= i < g.len() implies (#[trigger] part[i]) == whole[lo + i] by {
        lane_placement(s, sg, lo, lo + i);
        assert(listed(g)[i] == l[lo + i]);
    }
    assert forall|i: int| 0 <= i < rows.len() implies (#[trigger] whole[i]).range_id == s[i].rowid
        by {
        assert(s[i] == l[i].slot());
    }
    let filled = with_paths(whole);
    let filled_part = with_paths(part);
    assert(is_block(filled, q, filled.len() as int, lo, hi)) by {
        assert forall|k: int| 0 <= k < filled.len() implies (q(#[trigger] filled[k]) <==> lo <= k
            < hi) by {
            assert(whole[k].global_tid == l[k].global_tid);
            assert(p(l[k]) <==> lo <= k < hi);
        }
    }
    filter_block(filled, q, lo, hi);
    assert(filled.subrange(lo, hi) =~= filled_part) by {
        assert forall|i: int| 0 <= i < g.len() implies filled.subrange(lo, hi)[i]
            == #[trigger] filled_part[i] by {
            lane_path(rows, g, lo, lo + i);
            assert(part[i] == whole[lo + i]);
        }
    }
    let key = |r: NvtxTreeRecordView| table_key(r);
    sort_keeps_filter(filled, key, q);
    assert(tree_of(rows) == sorted_by(filled, key));
    assert(tree_of(g) == sorted_by(filled_part, key));
}

} // verus!
