//! On which devices and contexts the work of a call ran.
use super::ascending;
use crate::columns::{slot_int, BatchData, ColumnData};
use crate::cuda_identity::CudaEvidence;
use crate::error::NsysDataError;
use crate::runtime_nvtx_parent::gpu_activity::{
    activity_read, columns_at, first_bad_row, first_unresolved, is_place, is_unresolved,
    missing_column, of_tables, pids_of, place_of, row_reads, table_reads, tells_bad_row, tells_row,
    with_owners, with_pair, with_rows, with_table, with_tables, with_work, ActivityColumns,
    ActivityRead, ActivityTable, DevCtxView, GpuActivityRow,
};
use vstd::prelude::*;

verus! {

/// A process, a correlation number, a device and a context.
pub type Sighting = (i64, i64, i32, i64);

/// The map has the device and the context under the process and the number.
pub open spec fn holds(map: Map<(i64, i64), DevCtxView>, s: Sighting) -> bool {
    map.contains_key((s.0, s.1)) && listed(map[(s.0, s.1)]).contains((s.2, s.3))
}

/// The devices and contexts of an entry.
pub open spec fn listed(value: DevCtxView) -> Seq<(i32, i64)> {
    match value {
        DevCtxView::Single(pair) => seq![pair],
        DevCtxView::Many(pairs) => pairs,
    }
}

/// No entry is empty or lists anything twice; an entry with one pair is a single.
pub open spec fn is_tidy(map: Map<(i64, i64), DevCtxView>) -> bool {
    forall|key: (i64, i64)| #[trigger]
        map.contains_key(key) ==> listed(map[key]).len() > 0 && listed(map[key]).no_duplicates() && (
        map[key] is Single <==> listed(map[key]).len() == 1)
}

proof fn pair_is_added(
    map: Map<(i64, i64), DevCtxView>,
    pid: i64,
    corr: i64,
    pair: (i32, i64),
    s: Sighting,
)
    ensures
        holds(with_pair(map, pid, corr, pair), s) <==> holds(map, s) || s == (pid, corr, pair.0, pair.1),
        is_tidy(map) ==> is_tidy(with_pair(map, pid, corr, pair)),
{
    let key = (pid, corr);
    let after = with_pair(map, pid, corr, pair);
    if map.contains_key(key) {
        let before = listed(map[key]);
        assert(map[key].pairs() == before);
        if !before.contains(pair) {
            let now = before.push(pair);
            assert(listed(after[key]) == now);
            assert(now[now.len() - 1] == pair);
            if before.contains((s.2, s.3)) {
                let k: int = choose|k: int| 0 <= k < before.len() && before[k] == (s.2, s.3);
                assert(now[k] == (s.2, s.3));
            }
            if now.contains((s.2, s.3)) {
                let k: int = choose|k: int| 0 <= k < now.len() && now[k] == (s.2, s.3);
                if k < before.len() {
                    assert(before[k] == (s.2, s.3));
                }
            }
            if is_tidy(map) {
                assert(before.no_duplicates());
                assert forall|i: int, j: int|
                    0 <= i < now.len() && 0 <= j < now.len() && i != j implies now[i] != now[j] by {
                    if i < before.len() {
                        assert(before[i] == now[i]);
                        assert(before.contains(before[i]));
                    }
                    if j < before.len() {
                        assert(before[j] == now[j]);
                        assert(before.contains(before[j]));
                    }
                }
            }
        }
    } else {
        assert(listed(after[key]) =~= seq![pair]);
        assert(listed(after[key])[0] == pair);
        if listed(after[key]).contains((s.2, s.3)) {
            let k: int = choose|k: int|
                0 <= k < listed(after[key]).len() && listed(after[key])[k] == (s.2, s.3);
            assert(k == 0);
        }
    }
}

/// The row is work of the process: the number is its own and its owner is the
/// process.
pub open spec fn is_sighted(row: GpuActivityRow, evidence: CudaEvidence, s: Sighting) -> bool {
    &&& evidence.owner(
        row.device_id,
        row.context_id,
        Some(row.correlation_id),
        row.start_ns,
        row.global_pid,
    ) == Some(s.0)
    &&& row.correlation_id == s.1
    &&& row.device_id == s.2
    &&& row.context_id == s.3
}

proof fn rows_are_held(
    map: Map<(i64, i64), DevCtxView>,
    evidence: CudaEvidence,
    rows: Seq<GpuActivityRow>,
    n: nat,
    s: Sighting,
)
    requires
        n <= rows.len(),
        forall|i: int| 0 <= i < n ==> (#[trigger] rows[i]).owner(evidence) is Some,
    ensures
        holds(with_rows(map, evidence, rows, n), s) <==> holds(map, s) || exists|i: int|
            0 <= i < n && is_sighted(#[trigger] rows[i], evidence, s),
        is_tidy(map) ==> is_tidy(with_rows(map, evidence, rows, n)),
    decreases n,
{
    if n > 0 {
        let m = (n - 1) as nat;
        rows_are_held(map, evidence, rows, m, s);
        let row = rows[n - 1];
        assert(row.owner(evidence) is Some);
        pair_is_added(
            with_rows(map, evidence, rows, m),
            row.owner(evidence)->0,
            row.correlation_id,
            (row.device_id, row.context_id),
            s,
        );
        assert(is_sighted(row, evidence, s) <==> s == (
            row.owner(evidence)->0,
            row.correlation_id,
            row.device_id,
            row.context_id,
        ));
    }
}

/// What a row of a table says.
pub open spec fn sighted_in(
    tables: Seq<ActivityTable>,
    evidence: CudaEvidence,
    t: int,
    i: int,
    s: Sighting,
) -> bool {
    0 <= t < tables.len() && 0 <= i < tables[t].rows@.len() && is_sighted(
        tables[t].rows@[i],
        evidence,
        s,
    )
}

proof fn tables_are_held(
    evidence: CudaEvidence,
    tables: Seq<ActivityTable>,
    n: nat,
    s: Sighting,
)
    requires
        n <= tables.len(),
        forall|t: int, i: int|
            #![trigger tables[t].rows@[i]]
            0 <= t < n && 0 <= i < tables[t].rows@.len() ==> tables[t].rows@[i].owner(evidence) is Some,
    ensures
        holds(with_tables(evidence, tables, n), s) <==> exists|t: int, i: int|
            t < n && #[trigger] sighted_in(tables, evidence, t, i, s),
        is_tidy(with_tables(evidence, tables, n)),
    decreases n,
{
    if n > 0 {
        let m = (n - 1) as nat;
        tables_are_held(evidence, tables, m, s);
        let rows = tables[n - 1].rows@;
        rows_are_held(with_tables(evidence, tables, m), evidence, rows, rows.len(), s);
        if exists|i: int| 0 <= i < rows.len() && is_sighted(#[trigger] rows[i], evidence, s) {
            let i: int = choose|i: int| 0 <= i < rows.len() && is_sighted(#[trigger] rows[i], evidence, s);
            assert(sighted_in(tables, evidence, n - 1, i, s));
        }
        if exists|t: int, i: int| t < n && #[trigger] sighted_in(tables, evidence, t, i, s) {
            let (t, i): (int, int) = choose|t: int, i: int|
                t < n && #[trigger] sighted_in(tables, evidence, t, i, s);
            if t == n - 1 {
                assert(is_sighted(rows[i], evidence, s));
            } else {
                assert(t < m && sighted_in(tables, evidence, t, i, s));
            }
        }
    }
}

/// The map of GPU activity has a device and a context under a process and a number
/// exactly where some row of the tables is work of that process with that number
/// there; each is listed once.
pub proof fn activity_is_mapped(
    evidence: CudaEvidence,
    tables: Seq<ActivityTable>,
    map: Map<(i64, i64), DevCtxView>,
    s: Sighting,
)
    requires
        forall|t: int|
            0 <= t < tables.len() ==> crate::runtime_nvtx_parent::gpu_activity::all_owned(
                evidence,
                #[trigger] tables[t],
            ),
        map == with_tables(evidence, tables, tables.len()),
    ensures
        holds(map, s) <==> exists|t: int, i: int| #[trigger] sighted_in(tables, evidence, t, i, s),
        is_tidy(map),
{
    assert forall|t: int, i: int|
        #![trigger tables[t].rows@[i]]
        0 <= t < tables.len() && 0 <= i < tables[t].rows@.len() implies tables[t].rows@[i].owner(
        evidence,
    ) is Some by {
        assert(crate::runtime_nvtx_parent::gpu_activity::all_owned(evidence, tables[t]));
    }
    tables_are_held(evidence, tables, tables.len(), s);
    if exists|t: int, i: int| #[trigger] sighted_in(tables, evidence, t, i, s) {
        let (t, i): (int, int) = choose|t: int, i: int| #[trigger]
            sighted_in(tables, evidence, t, i, s);
        assert(t < tables.len() && sighted_in(tables, evidence, t, i, s));
    }
}

/// Places of rows that show a pair under the key for the first time, in order: the
/// entry lists them as they come.
pub open spec fn lists_first_sights(
    pairs: Seq<(i32, i64)>,
    rows: Seq<GpuActivityRow>,
    evidence: CudaEvidence,
    key: (i64, i64),
    at: Seq<int>,
) -> bool {
    &&& at.len() == pairs.len()
    &&& ascending(at, rows.len())
    &&& forall|k: int|
        0 <= k < at.len() ==> is_sighted(
            rows[#[trigger] at[k]],
            evidence,
            (key.0, key.1, pairs[k].0, pairs[k].1),
        )
    &&& forall|k: int, j: int|
        #![trigger at[k], rows[j]]
        0 <= k < at.len() && 0 <= j < at[k] ==> !is_sighted(
            rows[j],
            evidence,
            (key.0, key.1, pairs[k].0, pairs[k].1),
        )
}

/// The pairs of an entry come in the order in which the rows of a table first show
/// them.
pub proof fn pairs_come_as_seen(
    evidence: CudaEvidence,
    rows: Seq<GpuActivityRow>,
    n: nat,
    key: (i64, i64),
) -> (at: Seq<int>)
    requires
        n <= rows.len(),
        forall|i: int| 0 <= i < n ==> (#[trigger] rows[i]).owner(evidence) is Some,
        with_rows(Map::empty(), evidence, rows, n).contains_key(key),
    ensures
        lists_first_sights(
            listed(with_rows(Map::empty(), evidence, rows, n)[key]),
            rows.take(n as int),
            evidence,
            key,
            at,
        ),
    decreases n,
{
    let none = Map::<(i64, i64), DevCtxView>::empty();
    if n == 0 {
        assert(with_rows(none, evidence, rows, 0) == none);
        Seq::empty()
    } else {
        let m = (n - 1) as nat;
        let before = with_rows(none, evidence, rows, m);
        let after = with_rows(none, evidence, rows, n);
        let row = rows[n - 1];
        let own = (row.owner(evidence)->0, row.correlation_id);
        let pair = (row.device_id, row.context_id);
        let s: Sighting = (own.0, own.1, pair.0, pair.1);
        let part = rows.take(n as int);
        assert(row.owner(evidence) is Some);
        assert(is_sighted(row, evidence, s));
        rows_are_held(none, evidence, rows, m, s);
        assert(part[n - 1] == row);
        assert forall|i: int| 0 <= i < m implies rows.take(m as int)[i] == #[trigger] part[i] by {}
        if before.contains_key(key) {
            let less = pairs_come_as_seen(evidence, rows, m, key);
            let held = listed(before[key]);
            assert(before[key].pairs() == held);
            assert forall|k: int| 0 <= k < less.len() implies is_sighted(
                part[#[trigger] less[k]],
                evidence,
                (key.0, key.1, held[k].0, held[k].1),
            ) by {
                assert(0 <= less[k] < m);
                assert(rows.take(m as int)[less[k]] == part[less[k]]);
            }
            assert forall|k: int, j: int|
                #![trigger less[k], part[j]]
                0 <= k < less.len() && 0 <= j < less[k] implies !is_sighted(
                part[j],
                evidence,
                (key.0, key.1, held[k].0, held[k].1),
            ) by {
                assert(rows.take(m as int)[j] == part[j]);
            }
            if key == own && !held.contains(pair) {
                let at = less.push(n - 1);
                let now = listed(after[key]);
                assert(now == held.push(pair));
                assert forall|k: int, j: int|
                    #![trigger at[k], part[j]]
                    0 <= k < at.len() && 0 <= j < at[k] implies !is_sighted(
                    part[j],
                    evidence,
                    (key.0, key.1, now[k].0, now[k].1),
                ) by {
                    if k < less.len() {
                        assert(at[k] == less[k]);
                    } else {
                        if is_sighted(part[j], evidence, s) {
                            assert(is_sighted(rows[j], evidence, s));
                            assert(holds(before, s));
                        }
                    }
                }
                at
            } else {
                assert(after[key] == before[key]);
                less
            }
        } else {
            assert(key == own);
            let at = seq![n - 1];
            let now = listed(after[key]);
            assert(now =~= seq![pair]);
            assert forall|k: int, j: int|
                #![trigger at[k], part[j]]
                0 <= k < at.len() && 0 <= j < at[k] implies !is_sighted(
                part[j],
                evidence,
                (key.0, key.1, now[k].0, now[k].1),
            ) by {
                if is_sighted(part[j], evidence, s) {
                    assert(is_sighted(rows[j], evidence, s));
                    assert(holds(before, s));
                }
            }
            at
        }
    }
}

/// Where a row has no owner, the error names the table and the device, context and
/// number of the first such row.
pub proof fn unowned_rows_are_named(
    error: NsysDataError,
    table: Seq<char>,
    evidence: CudaEvidence,
    rows: Seq<GpuActivityRow>,
    i: int,
)
    requires
        first_unresolved(evidence, rows, i),
        is_unresolved(error, table, rows[i]),
    ensures
        error is CudaProcessUnresolved,
        error->CudaProcessUnresolved_table@ == table,
        error->CudaProcessUnresolved_device_id == rows[i].device_id,
        error->CudaProcessUnresolved_context_id == rows[i].context_id,
        error->CudaProcessUnresolved_correlation_id == Some(rows[i].correlation_id),
        forall|j: int|
            0 <= j <= i ==> (evidence.owner(
                (#[trigger] rows[j]).device_id,
                rows[j].context_id,
                Some(rows[j].correlation_id),
                rows[j].start_ns,
                rows[j].global_pid,
            ) is None <==> j == i),
{
    assert forall|j: int| 0 <= j <= i implies (evidence.owner(
        (#[trigger] rows[j]).device_id,
        rows[j].context_id,
        Some(rows[j].correlation_id),
        rows[j].start_ns,
        rows[j].global_pid,
    ) is None <==> j == i) by {
        if j < i {
            assert(rows[j].owner(evidence) is Some);
        }
    }
}

/// The process is one of those that the context of the device belongs to.
pub open spec fn belongs(
    ctx_for_pid: Map<(i64, i64), Vec<i64>>,
    dev: i32,
    ctx: i64,
    pid: i64,
) -> bool {
    ctx_for_pid.contains_key((dev as i64, ctx)) && ctx_for_pid[(dev as i64, ctx)]@.contains(pid)
}

proof fn owners_are_held(
    map: Map<(i64, i64), DevCtxView>,
    pids: Seq<i64>,
    corr: i64,
    pair: (i32, i64),
    n: nat,
    s: Sighting,
)
    requires
        n <= pids.len(),
    ensures
        holds(with_owners(map, pids, corr, pair, n), s) <==> holds(map, s) || (pids.take(
            n as int,
        ).contains(s.0) && s.1 == corr && s.2 == pair.0 && s.3 == pair.1),
        is_tidy(map) ==> is_tidy(with_owners(map, pids, corr, pair, n)),
    decreases n,
{
    if n > 0 {
        let m = (n - 1) as nat;
        owners_are_held(map, pids, corr, pair, m, s);
        pair_is_added(with_owners(map, pids, corr, pair, m), pids[n - 1], corr, pair, s);
        let less = pids.take(m as int);
        let all = pids.take(n as int);
        assert(all =~= less.push(pids[n - 1]));
        if less.contains(s.0) {
            let k: int = choose|k: int| 0 <= k < less.len() && less[k] == s.0;
            assert(all[k] == s.0);
        }
        if all.contains(s.0) {
            let k: int = choose|k: int| 0 <= k < all.len() && all[k] == s.0;
            if k < m {
                assert(less[k] == s.0);
            }
        }
        assert(all[n - 1] == pids[n - 1]);
    } else {
        assert(!pids.take(0).contains(s.0));
    }
}

proof fn work_is_held(
    map: Map<(i64, i64), DevCtxView>,
    ctx_for_pid: Map<(i64, i64), Vec<i64>>,
    corr: i64,
    dev: i32,
    ctx: i64,
    s: Sighting,
)
    ensures
        ({
            let pids = pids_of(ctx_for_pid, dev, ctx);
            let after = with_owners(map, pids, corr, (dev, ctx), pids.len());
            &&& holds(after, s) <==> holds(map, s) || (belongs(ctx_for_pid, dev, ctx, s.0) && s.1 == corr
                && s.2 == dev && s.3 == ctx)
            &&& is_tidy(map) ==> is_tidy(after)
        }),
{
    let pids = pids_of(ctx_for_pid, dev, ctx);
    owners_are_held(map, pids, corr, (dev, ctx), pids.len(), s);
    assert(pids.take(pids.len() as int) =~= pids);
}

/// Work of a number on a device and context is held under the number for each
/// process that the context belongs to, and for no other.
pub proof fn work_is_mapped(
    work: Seq<(i64, i32, i64)>,
    ctx_for_pid: Map<(i64, i64), Vec<i64>>,
    n: nat,
    s: Sighting,
)
    requires
        n <= work.len(),
    ensures
        holds(with_work(work, ctx_for_pid, n), s) <==> belongs(ctx_for_pid, s.2, s.3, s.0) && exists|
            i: int,
        |
            0 <= i < n && #[trigger] work[i] == (s.1, s.2, s.3),
        is_tidy(with_work(work, ctx_for_pid, n)),
    decreases n,
{
    if n > 0 {
        let m = (n - 1) as nat;
        work_is_mapped(work, ctx_for_pid, m, s);
        let (corr, dev, ctx) = work[n - 1];
        work_is_held(with_work(work, ctx_for_pid, m), ctx_for_pid, corr, dev, ctx, s);
    }
}

/// The place of the column holds the number.
pub open spec fn place_holds(c: ColumnData, i: int, n: int) -> bool {
    c.valid[i] && c.kind.is_integer() && slot_int(c.slots[i]) == n
}

/// The row of the table shows the number on the device and context.
pub open spec fn shows(data: BatchData, at: ActivityColumns, i: int, s: Sighting) -> bool {
    &&& 0 <= i < data.rows
    &&& place_holds(data.columns[at.corr], i, s.1 as int)
    &&& place_holds(data.columns[at.dev], i, s.2 as int)
    &&& place_holds(data.columns[at.ctx], i, s.3 as int)
}

proof fn read_shows(data: BatchData, at: ActivityColumns, i: int, s: Sighting)
    requires
        0 <= i < data.rows,
        i64::MIN <= slot_int(data.columns[at.corr].slots[i]),
        i64::MIN <= slot_int(data.columns[at.dev].slots[i]),
        i64::MIN <= slot_int(data.columns[at.ctx].slots[i]),
    ensures
        activity_read(data, at, i) == ActivityRead::Work(s.1, s.2, s.3) <==> shows(data, at, i, s),
{
}

/// No integer of the table lies below 64 bits.
pub open spec fn has_wide_integers(data: BatchData, at: ActivityColumns) -> bool {
    forall|i: int| 0 <= i < data.rows ==> {
        &&& i64::MIN <= #[trigger] slot_int(data.columns[at.corr].slots[i])
        &&& i64::MIN <= slot_int(data.columns[at.dev].slots[i])
        &&& i64::MIN <= slot_int(data.columns[at.ctx].slots[i])
    }
}

/// Reading a table adds what its rows show, for each process that the context
/// belongs to. Rows with a null in one of the three columns add nothing.
pub proof fn read_rows_are_mapped(
    map: Map<(i64, i64), DevCtxView>,
    data: BatchData,
    at: ActivityColumns,
    ctx_for_pid: Map<(i64, i64), Vec<i64>>,
    n: nat,
    s: Sighting,
)
    requires
        n <= data.rows,
        has_wide_integers(data, at),
    ensures
        holds(with_table(map, data, at, ctx_for_pid, n), s) <==> holds(map, s) || (belongs(
            ctx_for_pid,
            s.2,
            s.3,
            s.0,
        ) && exists|i: int| i < n && #[trigger] shows(data, at, i, s)),
        is_tidy(map) ==> is_tidy(with_table(map, data, at, ctx_for_pid, n)),
    decreases n,
{
    if n > 0 {
        let m = (n - 1) as nat;
        read_rows_are_mapped(map, data, at, ctx_for_pid, m, s);
        assert(i64::MIN <= slot_int(data.columns[at.corr].slots[n - 1]));
        read_shows(data, at, n - 1, s);
        if let ActivityRead::Work(corr, dev, ctx) = activity_read(data, at, n - 1) {
            let before = with_table(map, data, at, ctx_for_pid, m);
            work_is_held(before, ctx_for_pid, corr, dev, ctx, s);
            assert(shows(data, at, n - 1, s) <==> s.1 == corr && s.2 == dev && s.3 == ctx);
        } else {
            assert(!shows(data, at, n - 1, s));
        }
    }
}

/// The cell holds an integer of at most 64 bits.
pub open spec fn fits(c: ColumnData, i: int) -> bool {
    c.kind.is_integer() && slot_int(c.slots[i]) <= i64::MAX
}

/// Each of the three cells of the row, up to the first null, holds an integer of 64
/// bits, and the device fits 32 bits where none is null.
pub open spec fn is_plain_row(data: BatchData, at: ActivityColumns, i: int) -> bool {
    let corr = data.columns[at.corr];
    let dev = data.columns[at.dev];
    let ctx = data.columns[at.ctx];
    corr.valid[i] ==> fits(corr, i) && (dev.valid[i] ==> fits(dev, i) && (ctx.valid[i] ==> fits(ctx, i)
        && i32::MIN <= (slot_int(dev.slots[i]) as i64) <= i32::MAX))
}

/// The rows that can be read are the plain ones.
pub proof fn plain_rows_are_read(data: BatchData, at: ActivityColumns, i: int)
    ensures
        row_reads(data, at, i) <==> is_plain_row(data, at, i),
{
}

/// A file whose rows are not all plain is refused for the first that is not.
pub proof fn first_bad_rows_are_told(
    error: NsysDataError,
    batches: Seq<BatchData>,
    at: ActivityColumns,
    path: Seq<char>,
) -> (place: (int, int))
    requires
        tells_bad_row(error, batches, at, path),
    ensures
        0 <= place.0 < batches.len(),
        0 <= place.1 < batches[place.0].rows,
        tells_row(error, batches[place.0], at, place.1, path),
        !is_plain_row(batches[place.0], at, place.1),
        forall|t: int, i: int|
            0 <= t <= place.0 && 0 <= i < batches[t].rows && (t < place.0 || i < place.1)
                ==> #[trigger] is_plain_row(batches[t], at, i),
{
    let (t, i): (int, int) = choose|t: int, i: int| #[trigger]
        first_bad_row(batches, at, t, i) && tells_row(error, batches[t], at, i, path);
    assert forall|u: int, j: int|
        0 <= u <= t && 0 <= j < batches[u].rows && (u < t || j < i) implies #[trigger] is_plain_row(
        batches[u],
        at,
        j,
    ) by {
        if u < t {
            assert(table_reads(batches[u], at));
        }
        assert(row_reads(batches[u], at, j));
    }
    (t, i)
}

/// What is read of a file is what the rows of its tables show.
pub proof fn read_tables_are_mapped(
    batches: Seq<BatchData>,
    at: ActivityColumns,
    ctx_for_pid: Map<(i64, i64), Vec<i64>>,
    n: nat,
    s: Sighting,
)
    requires
        n <= batches.len(),
        forall|t: int| 0 <= t < n ==> has_wide_integers(#[trigger] batches[t], at),
    ensures
        holds(of_tables(batches, at, ctx_for_pid, n), s) <==> belongs(ctx_for_pid, s.2, s.3, s.0)
            && exists|t: int, i: int| 0 <= t < n && #[trigger] shows(batches[t], at, i, s),
        is_tidy(of_tables(batches, at, ctx_for_pid, n)),
    decreases n,
{
    if n > 0 {
        let m = (n - 1) as nat;
        read_tables_are_mapped(batches, at, ctx_for_pid, m, s);
        let data = batches[n - 1];
        read_rows_are_mapped(of_tables(batches, at, ctx_for_pid, m), data, at, ctx_for_pid, data.rows, s);
        if exists|t: int, i: int| 0 <= t < n && #[trigger] shows(batches[t], at, i, s) {
            let (t, i): (int, int) = choose|t: int, i: int|
                0 <= t < n && #[trigger] shows(batches[t], at, i, s);
            if t < m {
                assert(0 <= t < m && shows(batches[t], at, i, s));
            } else {
                assert(i < data.rows && shows(data, at, i, s));
            }
        }
        if exists|i: int| i < data.rows && #[trigger] shows(data, at, i, s) {
            let i: int = choose|i: int| i < data.rows && #[trigger] shows(data, at, i, s);
            assert(0 <= n - 1 < n && shows(batches[n - 1], at, i, s));
        }
    }
}

/// A row whose number is the first cell that cannot be read is told by that column.
pub proof fn unreadable_numbers_are_told(
    error: NsysDataError,
    data: BatchData,
    at: ActivityColumns,
    i: int,
    path: Seq<char>,
)
    requires
        tells_row(error, data, at, i, path),
        data.columns[at.corr].valid[i],
    ensures
        !data.columns[at.corr].kind.is_integer() ==> (error
            matches NsysDataError::NvtxParentUnsupportedIntegerType { path: p, column, data_type } && p@
            == path && column@ == "correlationId"@ && data_type@ == data.columns[at.corr].kind_name),
        data.columns[at.corr].kind.is_integer() && i64::MAX < slot_int(
            data.columns[at.corr].slots[i],
        ) <= u64::MAX ==> (error matches NsysDataError::NvtxParentIntegerOverflow {
            path: p,
            column,
            value,
        } && p@ == path && column@ == "correlationId"@ && value == slot_int(
            data.columns[at.corr].slots[i],
        )),
{
}

/// The columns are found by name: the first of each name, or the error names the
/// first that is missing of the number, the device and the context.
pub proof fn columns_are_found(names: Seq<Seq<char>>)
    ensures
        match missing_column(names) {
            Some(name) => !names.contains(name) && (name == "correlationId"@ || (name == "deviceId"@
                && names.contains("correlationId"@)) || (name == "contextId"@ && names.contains(
                "correlationId"@,
            ) && names.contains("deviceId"@))),
            None => {
                let at = columns_at(names);
                &&& is_first(names, "correlationId"@, at.corr)
                &&& is_first(names, "deviceId"@, at.dev)
                &&& is_first(names, "contextId"@, at.ctx)
            },
        },
{
    place_is_first(names, "correlationId"@);
    place_is_first(names, "deviceId"@);
    place_is_first(names, "contextId"@);
}

/// The first place of the name.
pub open spec fn is_first(names: Seq<Seq<char>>, name: Seq<char>, i: int) -> bool {
    0 <= i < names.len() && names[i] == name && !names.take(i).contains(name)
}

proof fn place_is_first(names: Seq<Seq<char>>, name: Seq<char>)
    ensures
        match place_of(names, name) {
            Some(i) => is_first(names, name, i) && names.contains(name),
            None => !names.contains(name),
        },
{
    if place_of(names, name) is Some {
        let i: int = place_of(names, name)->0;
        assert(is_place(names, name, i));
        if names.take(i).contains(name) {
            let j: int = choose|j: int| 0 <= j < i && names.take(i)[j] == name;
            assert(names[j] != name);
        }
    } else if names.contains(name) {
        let k: int = choose|k: int| 0 <= k < names.len() && names[k] == name;
        first_exists(names, name, k);
    }
}

proof fn first_exists(names: Seq<Seq<char>>, name: Seq<char>, k: int)
    requires
        0 <= k < names.len(),
        names[k] == name,
    ensures
        exists|i: int| is_place(names, name, i),
    decreases k,
{
    if exists|j: int| 0 <= j < k && #[trigger] names[j] == name {
        let j: int = choose|j: int| 0 <= j < k && #[trigger] names[j] == name;
        first_exists(names, name, j);
    } else {
        assert(is_place(names, name, k));
    }
}

} // verus!
