//! Which NVTX ranges a runtime call belongs to.
use super::{ascending, cells, cells_cover, is_cell};
use crate::nvtx_stack::arranged;
use crate::order::{
    lex_lt_triple, placed_before, sort_order_covers, sort_order_exists, sort_order_of,
};
use crate::runtime_nvtx_parent::compute::{
    attributed, by_start, containing, contains, enclosing_chain, fanned_out, merged, outer_key,
    thread_listing, thread_ranges, NvtxRangeRow, NvtxThreadRow, RuntimeRow,
};
use crate::runtime_nvtx_parent::gpu_activity::DevCtxView;
use crate::runtime_nvtx_parent::{
    chain_view, entry_views, last_of_correlation, last_of_runtime, EnclosingNvtx,
    RuntimeParentEntry, RuntimeParentEntryView,
};
use vstd::prelude::*;

verus! {

/// The range is on the thread of the call, starts no later and ends no earlier.
pub open spec fn encloses(n: NvtxThreadRow, r: RuntimeRow) -> bool {
    n.global_tid == r.global_tid && n.start <= r.start && r.end <= n.end
}

/// The one range is no further inside than the other: it starts earlier, or ends
/// later, or has the smaller number.
pub open spec fn no_further_inside(a: NvtxThreadRow, b: NvtxThreadRow) -> bool {
    a.start < b.start || (a.start == b.start && (a.end > b.end || (a.end == b.end && a.rowid
        <= b.rowid)))
}

/// The chain names the ranges at these places: all that enclose the call, each
/// once, outermost first.
pub open spec fn names_ranges(
    chain: Seq<EnclosingNvtx>,
    nvtx: Seq<NvtxThreadRow>,
    r: RuntimeRow,
    at: Seq<int>,
) -> bool {
    &&& at.len() == chain.len()
    &&& at.no_duplicates()
    &&& forall|j: int|
        0 <= j < at.len() ==> 0 <= #[trigger] at[j] < nvtx.len() && encloses(nvtx[at[j]], r)
            && chain[j].nvtx_rowid == nvtx[at[j]].rowid && chain[j].nvtx_name@ == nvtx[at[j]].name@
    &&& forall|m: int| 0 <= m < nvtx.len() && encloses(nvtx[m], r) ==> #[trigger] at.contains(m)
    &&& forall|j: int, k: int|
        #![trigger at[j], at[k]]
        0 <= j < k < at.len() ==> no_further_inside(nvtx[at[j]], nvtx[at[k]])
}

/// Some range encloses the call.
pub open spec fn is_enclosed(nvtx: Seq<NvtxThreadRow>, r: RuntimeRow) -> bool {
    exists|m: int| 0 <= m < nvtx.len() && encloses(#[trigger] nvtx[m], r)
}

/// The entry is of the call: it has its row, correlation and process, and the
/// ranges that enclose it.
pub open spec fn is_entry_of(
    e: RuntimeParentEntry,
    nvtx: Seq<NvtxThreadRow>,
    r: RuntimeRow,
) -> bool {
    &&& e.rt_rowid == r.rowid
    &&& e.correlation_id == r.correlation_id
    &&& e.native_pid == r.native_pid
    &&& exists|at: Seq<int>| names_ranges(e.enclosing@, nvtx, r, at)
}

/// Devices and contexts are known for the correlation of the call.
pub open spec fn has_work(dev_ctx: Map<(i64, i64), DevCtxView>, r: RuntimeRow) -> bool {
    r.correlation_id matches Some(c) && dev_ctx.contains_key((r.native_pid, c))
}

/// The devices and contexts that are known for the correlation of the call.
pub open spec fn work_of(dev_ctx: Map<(i64, i64), DevCtxView>, r: RuntimeRow) -> Seq<(i32, i64)> {
    match dev_ctx[(r.native_pid, r.correlation_id->0)] {
        DevCtxView::Single(dx) => seq![dx],
        DevCtxView::Many(many) => many,
    }
}

/// How many entries the call has where it is enclosed.
pub open spec fn width(dev_ctx: Map<(i64, i64), DevCtxView>, r: RuntimeRow) -> nat {
    if has_work(dev_ctx, r) {
        work_of(dev_ctx, r).len()
    } else {
        1
    }
}

/// The entry is on the device and context at this place of those known for the
/// call; where none are known it keeps what the call has.
pub open spec fn is_on(
    e: RuntimeParentEntry,
    dev_ctx: Map<(i64, i64), DevCtxView>,
    r: RuntimeRow,
    p: int,
) -> bool {
    0 <= p < width(dev_ctx, r) && if has_work(dev_ctx, r) {
        e.device_id == Some(work_of(dev_ctx, r)[p].0) && e.context_id == Some(
            work_of(dev_ctx, r)[p].1,
        )
    } else {
        e.device_id == r.device_id && e.context_id == r.context_id
    }
}

/// Entry `k` is that of call `from[k].0` on the device and context at
/// `from[k].1`. The entries follow the calls, and every enclosed call has one for
/// each device and context known for it.
pub open spec fn attributes(
    entries: Seq<RuntimeParentEntry>,
    nvtx: Seq<NvtxThreadRow>,
    runtime: Seq<RuntimeRow>,
    dev_ctx: Map<(i64, i64), DevCtxView>,
    from: Seq<(int, int)>,
) -> bool {
    &&& from.len() == entries.len()
    &&& forall|k: int|
        0 <= k < from.len() ==> {
            let c = #[trigger] from[k];
            &&& 0 <= c.0 < runtime.len()
            &&& is_enclosed(nvtx, runtime[c.0])
            &&& is_entry_of(entries[k], nvtx, runtime[c.0])
            &&& is_on(entries[k], dev_ctx, runtime[c.0], c.1)
        }
    &&& forall|i: int, p: int|
        0 <= i < runtime.len() && is_enclosed(nvtx, runtime[i]) && 0 <= p < width(
            dev_ctx,
            runtime[i],
        ) ==> #[trigger] from.contains((i, p))
    &&& forall|j: int, k: int|
        #![trigger from[j], from[k]]
        0 <= j < k < from.len() ==> from[j].0 < from[k].0 || (from[j].0 == from[k].0 && from[j].1
            < from[k].1)
}

proof fn thread_places(rows: Seq<NvtxThreadRow>, tid: i64, n: nat) -> (at: Seq<int>)
    requires
        n <= rows.len(),
    ensures
        ascending(at, n),
        at.len() == thread_ranges(rows, tid, n).len(),
        forall|k: int|
            0 <= k < at.len() ==> {
                let row = rows[#[trigger] at[k]];
                let n = thread_ranges(rows, tid, n)[k];
                row.global_tid == tid && n.rowid == row.rowid && n.start == row.start && n.end
                    == row.end && n.name == row.name
            },
        forall|i: int| 0 <= i < n && rows[i].global_tid == tid ==> #[trigger] at.contains(i),
    decreases n,
{
    if n == 0 {
        Seq::empty()
    } else {
        let before = thread_places(rows, tid, (n - 1) as nat);
        let at = if rows[n - 1].global_tid == tid {
            before.push(n - 1)
        } else {
            before
        };
        assert forall|k: int| 0 <= k < at.len() implies {
            let row = rows[#[trigger] at[k]];
            let n = thread_ranges(rows, tid, n)[k];
            row.global_tid == tid && n.rowid == row.rowid && n.start == row.start && n.end == row.end
                && n.name == row.name
        } by {
            if k < before.len() {
                assert(at[k] == before[k]);
            }
        }
        assert forall|i: int| 0 <= i < n && rows[i].global_tid == tid implies #[trigger] at.contains(
            i,
        ) by {
            if i < n - 1 {
                assert(before.contains(i));
                let k: int = choose|k: int| 0 <= k < before.len() && before[k] == i;
                assert(at[k] == i);
            } else {
                assert(at[at.len() - 1] == i);
            }
        }
        at
    }
}

proof fn containing_places(ranges: Seq<NvtxRangeRow>, r: RuntimeRow, n: nat)
    requires
        n <= ranges.len(),
    ensures
        forall|x: int|
            0 <= x < containing(ranges, r, n).len() ==> (#[trigger] containing(ranges, r, n)[x]) < n
                && ranges[containing(ranges, r, n)[x] as int].start <= r.start && r.end
                <= ranges[containing(ranges, r, n)[x] as int].end,
        forall|x: int, y: int|
            0 <= x < y < containing(ranges, r, n).len() ==> (#[trigger] containing(ranges, r, n)[x])
                < (#[trigger] containing(ranges, r, n)[y]),
        forall|i: nat|
            i < n && ranges[i as int].start <= r.start && r.end <= ranges[i as int].end
                ==> #[trigger] containing(ranges, r, n).contains(i),
    decreases n,
{
    if n > 0 {
        containing_places(ranges, r, (n - 1) as nat);
        let less = containing(ranges, r, (n - 1) as nat);
        let all = containing(ranges, r, n);
        assert forall|x: int| 0 <= x < all.len() implies (#[trigger] all[x]) < n
            && ranges[all[x] as int].start <= r.start && r.end <= ranges[all[x] as int].end by {
            if x < less.len() {
                assert(all[x] == less[x]);
            }
        }
        assert forall|x: int, y: int| 0 <= x < y < all.len() implies (#[trigger] all[x]) < (
        #[trigger] all[y]) by {
            if y < less.len() {
                assert(all[x] == less[x] && all[y] == less[y]);
            } else {
                assert(all[x] == less[x]);
            }
        }
        assert forall|i: nat|
            i < n && ranges[i as int].start <= r.start && r.end <= ranges[i as int].end implies #[trigger] all.contains(
        i) by {
            if i < n - 1 {
                assert(less.contains(i));
                let x: int = choose|x: int| 0 <= x < less.len() && less[x] == i;
                assert(all[x] == i);
            } else {
                assert(all[all.len() - 1] == i);
            }
        }
    }
}

proof fn chain_names_ranges(nvtx: Seq<NvtxThreadRow>, r: RuntimeRow, chain: Seq<EnclosingNvtx>) -> (at: Seq<
    int,
>)
    requires
        chain_view(chain) == enclosing_chain(thread_listing(nvtx, r.global_tid), r),
    ensures
        names_ranges(chain, nvtx, r, at),
{
    let own = thread_ranges(nvtx, r.global_tid, nvtx.len());
    let own_at = thread_places(nvtx, r.global_tid, nvtx.len());
    let starts = own.map_values(|n: NvtxRangeRow| seq![n.start as int]);
    let by = sort_order_of(starts);
    sort_order_exists(starts);
    sort_order_covers(starts, by);
    let ranges = by_start(own);
    assert(ranges == arranged(own, by));
    let inside_at = containing(ranges, r, ranges.len());
    containing_places(ranges, r, ranges.len());
    let inside = inside_at.map_values(|i: nat| ranges[i as int]);
    let keys = inside.map_values(|n: NvtxRangeRow| outer_key(n));
    let ord = sort_order_of(keys);
    sort_order_exists(keys);
    sort_order_covers(keys, ord);
    let sorted = arranged(inside, ord);
    let at = Seq::new(ord.len(), |j: int| own_at[by[inside_at[ord[j]] as int]]);
    assert(chain_view(chain).len() == chain.len());
    assert forall|j: int| 0 <= j < at.len() implies 0 <= #[trigger] at[j] < nvtx.len() && encloses(
        nvtx[at[j]],
        r,
    ) && chain[j].nvtx_rowid == nvtx[at[j]].rowid && chain[j].nvtx_name@ == nvtx[at[j]].name@
        && nvtx[at[j]].start == sorted[j].start && nvtx[at[j]].end == sorted[j].end
        && nvtx[at[j]].rowid == sorted[j].rowid by {
        let x = ord[j];
        assert(0 <= x < keys.len());
        let y = inside_at[x] as int;
        assert(inside_at[x] < ranges.len());
        let z = by[y];
        assert(0 <= z < starts.len());
        assert(0 <= own_at[z] < nvtx.len());
        assert(ranges[y] == own[z]);
        assert(sorted[j] == inside[x]);
        assert(chain_view(chain)[j] == chain[j]@);
    }
    assert forall|j: int, k: int| 0 <= j < at.len() && 0 <= k < at.len() && j != k implies at[j]
        != at[k] by {
        let x = ord[j];
        let y = ord[k];
        assert(x != y);
        assert(0 <= x < keys.len() && 0 <= y < keys.len());
        let p = inside_at[x] as int;
        let q = inside_at[y] as int;
        assert(p != q) by {
            if x < y {
                assert(inside_at[x] < inside_at[y]);
            } else {
                assert(inside_at[y] < inside_at[x]);
            }
        }
        assert(inside_at[x] < ranges.len() && inside_at[y] < ranges.len());
        assert(by[p] != by[q]);
        assert(0 <= by[p] < starts.len() && 0 <= by[q] < starts.len());
        let a = by[p];
        let b = by[q];
        assert(own_at[a] != own_at[b]) by {
            if a < b {
                assert(own_at[a] < own_at[b]);
            } else {
                assert(own_at[b] < own_at[a]);
            }
        }
    }
    assert(at.no_duplicates());
    assert forall|m: int| 0 <= m < nvtx.len() && encloses(nvtx[m], r) implies #[trigger] at.contains(
        m,
    ) by {
        assert(own_at.contains(m));
        let z: int = choose|z: int| 0 <= z < own_at.len() && own_at[z] == m;
        assert(by.contains(z));
        let y: int = choose|y: int| 0 <= y < by.len() && by[y] == z;
        assert(ranges[y] == own[z]);
        assert(own_at[z] == m);
        assert(inside_at.contains(y as nat));
        let x: int = choose|x: int| 0 <= x < inside_at.len() && inside_at[x] == y as nat;
        assert(ord.contains(x));
        let j: int = choose|j: int| 0 <= j < ord.len() && ord[j] == x;
        assert(at[j] == m);
    }
    assert forall|j: int, k: int|
        #![trigger at[j], at[k]]
        0 <= j < k < at.len() implies no_further_inside(nvtx[at[j]], nvtx[at[k]]) by {
        assert(placed_before(keys, ord[j], ord[k]));
        let a = keys[ord[j]];
        let b = keys[ord[k]];
        assert(0 <= ord[j] < keys.len() && 0 <= ord[k] < keys.len());
        lex_lt_triple(a, b);
        assert(a == outer_key(sorted[j]) && b == outer_key(sorted[k]));
        assert(a[0] == sorted[j].start && a[1] == -(sorted[j].end as int) && a[2] == sorted[j].rowid);
        assert(b[0] == sorted[k].start && b[1] == -(sorted[k].end as int) && b[2] == sorted[k].rowid);
        assert(0 <= at[j] < nvtx.len() && 0 <= at[k] < nvtx.len());
    }
    at
}

proof fn chain_tells_enclosed(nvtx: Seq<NvtxThreadRow>, r: RuntimeRow)
    ensures
        enclosing_chain(thread_listing(nvtx, r.global_tid), r).len() > 0 <==> is_enclosed(nvtx, r),
{
    let own = thread_ranges(nvtx, r.global_tid, nvtx.len());
    let own_at = thread_places(nvtx, r.global_tid, nvtx.len());
    let starts = own.map_values(|n: NvtxRangeRow| seq![n.start as int]);
    let by = sort_order_of(starts);
    sort_order_exists(starts);
    sort_order_covers(starts, by);
    let ranges = by_start(own);
    let inside_at = containing(ranges, r, ranges.len());
    containing_places(ranges, r, ranges.len());
    let inside = inside_at.map_values(|i: nat| ranges[i as int]);
    let keys = inside.map_values(|n: NvtxRangeRow| outer_key(n));
    sort_order_exists(keys);
    assert(enclosing_chain(thread_listing(nvtx, r.global_tid), r).len() == inside_at.len());
    if inside_at.len() > 0 {
        let y = inside_at[0] as int;
        assert(inside_at[0] < ranges.len());
        let z = by[y];
        assert(0 <= z < starts.len());
        assert(ranges[y] == own[z]);
        let m = own_at[z];
        assert(0 <= m < nvtx.len());
        assert(encloses(nvtx[m], r));
    }
    if is_enclosed(nvtx, r) {
        let m: int = choose|m: int| 0 <= m < nvtx.len() && encloses(#[trigger] nvtx[m], r);
        assert(own_at.contains(m));
        let z: int = choose|z: int| 0 <= z < own_at.len() && own_at[z] == m;
        assert(own_at[z] == m);
        assert(by.contains(z));
        let y: int = choose|y: int| 0 <= y < by.len() && by[y] == z;
        assert(ranges[y] == own[z]);
        assert(inside_at.contains(y as nat));
    }
}

/// The entry of a call before its devices are known.
spec fn is_plain_entry(v: RuntimeParentEntryView, nvtx: Seq<NvtxThreadRow>, r: RuntimeRow) -> bool {
    &&& v.rt_rowid == r.rowid
    &&& v.correlation_id == r.correlation_id
    &&& v.native_pid == r.native_pid
    &&& v.device_id == r.device_id
    &&& v.context_id == r.context_id
    &&& v.enclosing == enclosing_chain(thread_listing(nvtx, r.global_tid), r)
}

proof fn attributed_calls(nvtx: Seq<NvtxThreadRow>, runtime: Seq<RuntimeRow>, n: nat) -> (at: Seq<int>)
    requires
        n <= runtime.len(),
    ensures
        ascending(at, n),
        at.len() == attributed(nvtx, runtime, n).len(),
        forall|k: int|
            0 <= k < at.len() ==> is_plain_entry(
                attributed(nvtx, runtime, n)[k],
                nvtx,
                runtime[#[trigger] at[k]],
            ) && is_enclosed(nvtx, runtime[at[k]]),
        forall|i: int|
            0 <= i < n && is_enclosed(nvtx, runtime[i]) ==> #[trigger] at.contains(i),
    decreases n,
{
    if n == 0 {
        Seq::empty()
    } else {
        let before = attributed_calls(nvtx, runtime, (n - 1) as nat);
        let r = runtime[n - 1];
        chain_tells_enclosed(nvtx, r);
        let at = if is_enclosed(nvtx, r) {
            before.push(n - 1)
        } else {
            before
        };
        let less = attributed(nvtx, runtime, (n - 1) as nat);
        let all = attributed(nvtx, runtime, n);
        assert forall|k: int| 0 <= k < at.len() implies is_plain_entry(
            all[k],
            nvtx,
            runtime[#[trigger] at[k]],
        ) && is_enclosed(nvtx, runtime[at[k]]) by {
            if k < before.len() {
                assert(at[k] == before[k]);
                assert(all[k] == less[k]);
            }
        }
        assert forall|i: int| 0 <= i < n && is_enclosed(
            nvtx,
            runtime[i],
        ) implies #[trigger] at.contains(i) by {
            if i < n - 1 {
                assert(before.contains(i));
                let k: int = choose|k: int| 0 <= k < before.len() && before[k] == i;
                assert(at[k] == i);
            } else {
                assert(at[at.len() - 1] == i);
            }
        }
        at
    }
}

spec fn spreads(entries: Seq<RuntimeParentEntryView>, dev_ctx: Map<(i64, i64), DevCtxView>) -> Seq<nat> {
    entries.map_values(|e: RuntimeParentEntryView| fanned_out(e, dev_ctx).len())
}

proof fn merged_by_cells(
    entries: Seq<RuntimeParentEntryView>,
    dev_ctx: Map<(i64, i64), DevCtxView>,
    n: nat,
)
    requires
        n <= entries.len(),
    ensures
        merged(entries, dev_ctx, n).len() == cells(spreads(entries, dev_ctx), n).len(),
        forall|k: int|
            0 <= k < merged(entries, dev_ctx, n).len() ==> {
                let c = cells(spreads(entries, dev_ctx), n)[k];
                (#[trigger] merged(entries, dev_ctx, n)[k]) == fanned_out(entries[c.0], dev_ctx)[c.1]
            },
    decreases n,
{
    if n > 0 {
        merged_by_cells(entries, dev_ctx, (n - 1) as nat);
        let counts = spreads(entries, dev_ctx);
        let less = merged(entries, dev_ctx, (n - 1) as nat);
        let last = fanned_out(entries[n - 1], dev_ctx);
        assert(counts[n - 1] == last.len());
        assert forall|k: int| 0 <= k < merged(entries, dev_ctx, n).len() implies {
            let c = cells(counts, n)[k];
            (#[trigger] merged(entries, dev_ctx, n)[k]) == fanned_out(entries[c.0], dev_ctx)[c.1]
        } by {
            if k < less.len() {
                assert(merged(entries, dev_ctx, n)[k] == less[k]);
                assert(cells(counts, n)[k] == cells(counts, (n - 1) as nat)[k]);
            } else {
                assert(merged(entries, dev_ctx, n)[k] == last[k - less.len()]);
                assert(cells(counts, n)[k] == (n - 1, k - less.len()));
            }
        }
    }
}

proof fn spread_entry(
    v: RuntimeParentEntryView,
    nvtx: Seq<NvtxThreadRow>,
    r: RuntimeRow,
    dev_ctx: Map<(i64, i64), DevCtxView>,
)
    requires
        is_plain_entry(v, nvtx, r),
    ensures
        fanned_out(v, dev_ctx).len() == width(dev_ctx, r),
        forall|p: int|
            0 <= p < width(dev_ctx, r) ==> {
                let e = #[trigger] fanned_out(v, dev_ctx)[p];
                &&& e.rt_rowid == r.rowid
                &&& e.correlation_id == r.correlation_id
                &&& e.native_pid == r.native_pid
                &&& e.enclosing == v.enclosing
                &&& if has_work(dev_ctx, r) {
                    e.device_id == Some(work_of(dev_ctx, r)[p].0) && e.context_id == Some(
                        work_of(dev_ctx, r)[p].1,
                    )
                } else {
                    e.device_id == r.device_id && e.context_id == r.context_id
                }
            },
{
}

/// The entries that are computed are those of the runtime calls that lie within a
/// range of their thread: each with the call's own row, correlation and process,
/// with all ranges that enclose it from the outermost to the innermost, and once
/// on every device and context that is known for its process and correlation.
pub proof fn calls_are_attributed(
    nvtx: Seq<NvtxThreadRow>,
    runtime: Seq<RuntimeRow>,
    dev_ctx: Map<(i64, i64), DevCtxView>,
    entries: Seq<RuntimeParentEntry>,
)
    requires
        ({
            let found = attributed(nvtx, runtime, runtime.len());
            entry_views(entries) == merged(found, dev_ctx, found.len())
        }),
    ensures
        exists|from: Seq<(int, int)>| attributes(entries, nvtx, runtime, dev_ctx, from),
{
    let found = attributed(nvtx, runtime, runtime.len());
    let at = attributed_calls(nvtx, runtime, runtime.len());
    let counts = spreads(found, dev_ctx);
    let places = cells(counts, found.len());
    merged_by_cells(found, dev_ctx, found.len());
    cells_cover(counts, found.len());
    let from = places.map_values(|c: (int, int)| (at[c.0], c.1));
    assert(entry_views(entries).len() == entries.len());
    assert forall|k: int| 0 <= k < from.len() implies {
        let c = #[trigger] from[k];
        &&& 0 <= c.0 < runtime.len()
        &&& is_enclosed(nvtx, runtime[c.0])
        &&& is_entry_of(entries[k], nvtx, runtime[c.0])
        &&& is_on(entries[k], dev_ctx, runtime[c.0], c.1)
    } by {
        let c = places[k];
        assert(is_cell(counts, found.len(), c));
        let i = at[c.0];
        let r = runtime[i];
        let v = found[c.0];
        assert(0 <= i < runtime.len());
        assert(is_plain_entry(v, nvtx, r));
        spread_entry(v, nvtx, r, dev_ctx);
        assert(counts[c.0] == fanned_out(v, dev_ctx).len());
        assert(entry_views(entries)[k] == entries[k]@);
        assert(merged(found, dev_ctx, found.len())[k] == fanned_out(v, dev_ctx)[c.1]);
        assert(chain_view(entries[k].enclosing@) == v.enclosing);
        let places_in = chain_names_ranges(nvtx, r, entries[k].enclosing@);
        assert(names_ranges(entries[k].enclosing@, nvtx, r, places_in));
    }
    assert forall|i: int, p: int|
        0 <= i < runtime.len() && is_enclosed(nvtx, runtime[i]) && 0 <= p < width(
            dev_ctx,
            runtime[i],
        ) implies #[trigger] from.contains((i, p)) by {
        assert(at.contains(i));
        let x: int = choose|x: int| 0 <= x < at.len() && at[x] == i;
        assert(at[x] == i);
        spread_entry(found[x], nvtx, runtime[i], dev_ctx);
        assert(is_cell(counts, found.len(), (x, p)));
        assert(places.contains((x, p)));
        let k: int = choose|k: int| 0 <= k < places.len() && places[k] == (x, p);
        assert(from[k] == (i, p));
    }
    assert forall|j: int, k: int|
        #![trigger from[j], from[k]]
        0 <= j < k < from.len() implies from[j].0 < from[k].0 || (from[j].0 == from[k].0 && from[j].1
        < from[k].1) by {
        let a = places[j];
        let b = places[k];
        assert(is_cell(counts, found.len(), a) && is_cell(counts, found.len(), b));
        if a.0 < b.0 {
            assert(at[a.0] < at[b.0]);
        }
    }
    assert(attributes(entries, nvtx, runtime, dev_ctx, from));
}

proof fn last_runtime_place(recs: Seq<RuntimeParentEntry>, rt_rowid: i64, n: nat)
    requires
        n <= recs.len(),
    ensures
        match last_of_runtime(recs, rt_rowid, n) {
            Some(i) => i < n && recs[i as int].rt_rowid == rt_rowid && forall|j: int|
                i < j < n ==> (#[trigger] recs[j]).rt_rowid != rt_rowid,
            None => forall|j: int| 0 <= j < n ==> (#[trigger] recs[j]).rt_rowid != rt_rowid,
        },
    decreases n,
{
    if n > 0 && recs[n - 1].rt_rowid != rt_rowid {
        last_runtime_place(recs, rt_rowid, (n - 1) as nat);
    }
}

proof fn last_work_place(recs: Seq<RuntimeParentEntry>, d: i32, x: i64, c: i64, n: nat)
    requires
        n <= recs.len(),
    ensures
        match last_of_correlation(recs, d, x, c, n) {
            Some(i) => i < n && is_bridge(recs[i as int], d, x, c) && forall|j: int|
                i < j < n ==> !is_bridge(#[trigger] recs[j], d, x, c),
            None => forall|j: int| 0 <= j < n ==> !is_bridge(#[trigger] recs[j], d, x, c),
        },
    decreases n,
{
    if n > 0 && !is_bridge(recs[n - 1], d, x, c) {
        last_work_place(recs, d, x, c, (n - 1) as nat);
    }
}

/// The record leads to the GPU work on the device and context with the
/// correlation.
pub open spec fn is_bridge(e: RuntimeParentEntry, d: i32, x: i64, c: i64) -> bool {
    e.device_id == Some(d) && e.context_id == Some(x) && e.correlation_id == Some(c)
}

/// A lookup by runtime row gives the last record of that row, and nothing exactly
/// where there is none.
pub proof fn records_are_found_by_row(
    recs: Seq<RuntimeParentEntry>,
    rt_rowid: i64,
    entry: Option<RuntimeParentEntry>,
)
    requires
        match last_of_runtime(recs, rt_rowid, recs.len()) {
            Some(i) => entry == Some(recs[i as int]),
            None => entry is None,
        },
    ensures
        entry matches Some(e) ==> exists|i: int|
            0 <= i < recs.len() && e == #[trigger] recs[i] && e.rt_rowid == rt_rowid && forall|j: int|
                i < j < recs.len() ==> (#[trigger] recs[j]).rt_rowid != rt_rowid,
        entry is None ==> forall|j: int|
            0 <= j < recs.len() ==> (#[trigger] recs[j]).rt_rowid != rt_rowid,
{
    last_runtime_place(recs, rt_rowid, recs.len());
    if entry is Some {
        let i = last_of_runtime(recs, rt_rowid, recs.len())->0 as int;
        assert(entry->0 == recs[i]);
    }
}

/// A lookup by GPU work gives the last record on that device, context and
/// correlation, and nothing exactly where there is none.
pub proof fn records_are_found_by_work(
    recs: Seq<RuntimeParentEntry>,
    d: i32,
    x: i64,
    c: i64,
    entry: Option<RuntimeParentEntry>,
)
    requires
        match last_of_correlation(recs, d, x, c, recs.len()) {
            Some(i) => entry == Some(recs[i as int]),
            None => entry is None,
        },
    ensures
        entry matches Some(e) ==> exists|i: int|
            0 <= i < recs.len() && e == #[trigger] recs[i] && is_bridge(e, d, x, c) && forall|j: int|
                i < j < recs.len() ==> !is_bridge(#[trigger] recs[j], d, x, c),
        entry is None ==> forall|j: int| 0 <= j < recs.len() ==> !is_bridge(#[trigger] recs[j], d, x, c),
{
    last_work_place(recs, d, x, c, recs.len());
    if entry is Some {
        let i = last_of_correlation(recs, d, x, c, recs.len())->0 as int;
        assert(entry->0 == recs[i]);
    }
}

/// Every enclosed call with a correlation is found from each device and context
/// that is known for it, and what is found there is correlated with it.
pub proof fn work_finds_its_call(
    nvtx: Seq<NvtxThreadRow>,
    runtime: Seq<RuntimeRow>,
    dev_ctx: Map<(i64, i64), DevCtxView>,
    entries: Seq<RuntimeParentEntry>,
    i: int,
    p: int,
    entry: Option<RuntimeParentEntry>,
)
    requires
        ({
            let found = attributed(nvtx, runtime, runtime.len());
            entry_views(entries) == merged(found, dev_ctx, found.len())
        }),
        0 <= i < runtime.len(),
        is_enclosed(nvtx, runtime[i]),
        has_work(dev_ctx, runtime[i]),
        0 <= p < work_of(dev_ctx, runtime[i]).len(),
        ({
            let dx = work_of(dev_ctx, runtime[i])[p];
            match last_of_correlation(
                entries,
                dx.0,
                dx.1,
                runtime[i].correlation_id->0,
                entries.len(),
            ) {
                Some(at) => entry == Some(entries[at as int]),
                None => entry is None,
            }
        }),
    ensures
        entry matches Some(e) && e.correlation_id == runtime[i].correlation_id && e.device_id == Some(
            work_of(dev_ctx, runtime[i])[p].0,
        ) && e.context_id == Some(work_of(dev_ctx, runtime[i])[p].1) && e.enclosing@.len() > 0,
{
    calls_are_attributed(nvtx, runtime, dev_ctx, entries);
    let from: Seq<(int, int)> = choose|from: Seq<(int, int)>|
        attributes(entries, nvtx, runtime, dev_ctx, from);
    assert(from.contains((i, p)));
    let k: int = choose|k: int| 0 <= k < from.len() && from[k] == (i, p);
    assert(from[k] == (i, p));
    let dx = work_of(dev_ctx, runtime[i])[p];
    let c = runtime[i].correlation_id->0;
    assert(is_bridge(entries[k], dx.0, dx.1, c));
    records_are_found_by_work(entries, dx.0, dx.1, c, entry);
    let m: int = choose|m: int| 0 <= m < entries.len() && entry->0 == #[trigger] entries[m] && is_bridge(
        entry->0,
        dx.0,
        dx.1,
        c,
    ) && forall|j: int| m < j < entries.len() ==> !is_bridge(#[trigger] entries[j], dx.0, dx.1, c);
    let o = from[m];
    assert(is_entry_of(entries[m], nvtx, runtime[o.0]));
    let at: Seq<int> = choose|at: Seq<int>| names_ranges(entries[m].enclosing@, nvtx, runtime[o.0], at);
    let w: int = choose|w: int| 0 <= w < nvtx.len() && encloses(#[trigger] nvtx[w], runtime[o.0]);
    assert(at.contains(w));
}

} // verus!
