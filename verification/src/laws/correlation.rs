//! What the correlation index links.
use crate::correlation::{
    call_items, capped, context_key_of, contexts_of, cow_view, gpu_item, gpu_items, group_at,
    group_views, groups_hold_their_items, hits, items_of, merged, merged_items_are_counted, packed,
    packed_tells_fields_apart, rows_for, runtime_items, tables_items, total_rows, with_context_rows,
    with_contexts, with_items, ContextProcessRow, CorrelatedRowIds, CorrelationIndex,
    CorrelationItem, GpuCorrelationRow, GpuCorrelationTable, ItemKind, RowIdsView,
    RuntimeCorrelationRow,
};
use crate::cuda_identity::native_pid;
use std::borrow::Cow;
use super::ascending;
use vstd::prelude::*;

verus! {

/// The row has the device, the context and the correlation, as far as their
/// fields in a key are wide.
pub open spec fn has_triple(r: GpuCorrelationRow, device: u64, context: u64, raw_corr: u64) -> bool {
    &&& (r.device as u64) % 0x100 == device % 0x100
    &&& (r.context as u64) % 0x1_0000 == context % 0x1_0000
    &&& (r.correlation as u64) % 0x100_0000_0000 == raw_corr % 0x100_0000_0000
}

/// The numbers of the rows with the triple in the tables of the kind, in order.
pub open spec fn rows_with(
    gpu: Seq<GpuCorrelationTable>,
    kind: ItemKind,
    device: u64,
    context: u64,
    raw_corr: u64,
) -> Seq<i64> {
    gpu.filter(|t: GpuCorrelationTable| t.kind == kind).map_values(
        |t: GpuCorrelationTable|
            t.rows@.filter(
                |r: GpuCorrelationRow| has_triple(r, device, context, raw_corr),
            ).map_values(|r: GpuCorrelationRow| r.rowid),
    ).flatten()
}

/// The process of a call: bits 24 to 47 of its thread.
pub open spec fn process_of(r: RuntimeCorrelationRow) -> u64 {
    ((r.global_tid >> 24) & 0xFF_FFFF) as u64
}

/// The contexts that the index lists for a process.
pub open spec fn listed_contexts(index: CorrelationIndex, pid: u64) -> Seq<(u64, u64)> {
    if index.process_to_contexts@.contains_key(pid) {
        index.process_to_contexts@[pid]@
    } else {
        Seq::empty()
    }
}

/// The number of the call, once for each listed context of its process that is
/// the one asked for; where none is listed, once under the process itself.
pub open spec fn copies_of_call(
    index: CorrelationIndex,
    r: RuntimeCorrelationRow,
    device: u64,
    context: u64,
) -> Seq<i64> {
    let own = listed_contexts(index, process_of(r));
    if own.len() > 0 {
        own.filter(
            |c: (u64, u64)| c.0 % 0x100 == device % 0x100 && c.1 % 0x1_0000 == context % 0x1_0000,
        ).map_values(|c: (u64, u64)| r.rowid)
    } else if device % 0x100 == 0 && context % 0x1_0000 == process_of(r) % 0x1_0000 {
        seq![r.rowid]
    } else {
        Seq::empty()
    }
}

/// The numbers of the calls with the correlation that belong under the context,
/// in order.
pub open spec fn calls_with(
    index: CorrelationIndex,
    runtime: Seq<RuntimeCorrelationRow>,
    device: u64,
    context: u64,
    raw_corr: u64,
) -> Seq<i64> {
    runtime.filter(
        |r: RuntimeCorrelationRow| (r.correlation as u64) % 0x100_0000_0000 == raw_corr
            % 0x100_0000_0000,
    ).map_values(|r: RuntimeCorrelationRow| copies_of_call(index, r, device, context)).flatten()
}

/// The index is one that was built from the rows.
pub open spec fn is_built(
    index: CorrelationIndex,
    contexts: Seq<ContextProcessRow>,
    gpu: Seq<GpuCorrelationTable>,
    runtime: Seq<RuntimeCorrelationRow>,
) -> bool {
    &&& index.context_to_process@ == with_context_rows(Map::empty(), contexts, contexts.len())
    &&& forall|pid: u64|
        #![trigger contexts_of(index.process_to_contexts@, pid)]
        contexts_of(index.process_to_contexts@, pid) == with_contexts(
            Seq::empty(),
            contexts,
            pid,
            contexts.len(),
        )
    &&& ({
        let items = tables_items(gpu, gpu.len()) + runtime_items(
            index.process_to_contexts@,
            runtime,
            runtime.len(),
        );
        group_views(index.groups@) == with_items(Map::empty(), items, items.len())
    })
}

/// The rows are what a lookup in the index gives.
pub open spec fn is_lookup(
    index: CorrelationIndex,
    device: u64,
    context: u64,
    raw_corr: u64,
    rows: Option<CorrelatedRowIds>,
) -> bool {
    match rows {
        Some(g) => index.groups@.contains_key(packed(device, context, raw_corr)) && g
            == index.groups@[packed(device, context, raw_corr)],
        None => !index.groups@.contains_key(packed(device, context, raw_corr)),
    }
}

proof fn rows_for_in_parts(a: Seq<CorrelationItem>, b: Seq<CorrelationItem>, id: u64, kind: ItemKind, n: nat)
    requires
        n <= b.len(),
    ensures
        rows_for(a + b, id, kind, a.len() + n) == rows_for(a, id, kind, a.len()) + rows_for(
            b,
            id,
            kind,
            n,
        ),
    decreases n,
{
    if n == 0 {
        rows_for_prefix(a, b, id, kind, a.len());
        assert(rows_for(a, id, kind, a.len()) + rows_for(b, id, kind, 0) =~= rows_for(
            a,
            id,
            kind,
            a.len(),
        ));
    } else {
        rows_for_in_parts(a, b, id, kind, (n - 1) as nat);
        assert((a + b)[a.len() + n - 1] == b[n - 1]);
        assert(rows_for(a + b, id, kind, a.len() + n) =~= rows_for(a, id, kind, a.len())
            + rows_for(b, id, kind, n));
    }
}

proof fn rows_for_prefix(a: Seq<CorrelationItem>, b: Seq<CorrelationItem>, id: u64, kind: ItemKind, n: nat)
    requires
        n <= a.len(),
    ensures
        rows_for(a + b, id, kind, n) == rows_for(a, id, kind, n),
    decreases n,
{
    if n > 0 {
        rows_for_prefix(a, b, id, kind, (n - 1) as nat);
        assert((a + b)[n - 1] == a[n - 1]);
    }
}

proof fn rows_of_table(
    rows: Seq<GpuCorrelationRow>,
    own: ItemKind,
    kind: ItemKind,
    device: u64,
    context: u64,
    raw_corr: u64,
    n: nat,
)
    requires
        n <= rows.len(),
    ensures
        rows_for(gpu_items(rows, own), packed(device, context, raw_corr), kind, n) == if own == kind {
            rows.take(n as int).filter(
                |r: GpuCorrelationRow| has_triple(r, device, context, raw_corr),
            ).map_values(|r: GpuCorrelationRow| r.rowid)
        } else {
            Seq::empty()
        },
    decreases n,
{
    reveal(Seq::filter);
    let id = packed(device, context, raw_corr);
    let p = |r: GpuCorrelationRow| has_triple(r, device, context, raw_corr);
    let f = |r: GpuCorrelationRow| r.rowid;
    if n == 0 {
        assert(rows.take(0).filter(p).map_values(f) =~= Seq::<i64>::empty());
    } else {
        rows_of_table(rows, own, kind, device, context, raw_corr, (n - 1) as nat);
        let r = rows[n - 1];
        assert(rows.take(n as int).drop_last() =~= rows.take(n - 1));
        assert(rows.take(n as int).last() == r);
        assert(gpu_items(rows, own)[n - 1] == gpu_item(r, own));
        packed_tells_fields_apart(
            r.device as u64,
            r.context as u64,
            r.correlation as u64,
            device,
            context,
            raw_corr,
        );
        let before = rows.take(n - 1).filter(p);
        assert(before.push(r).map_values(f) =~= before.map_values(f).push(r.rowid));
    }
}

proof fn rows_of_tables(
    gpu: Seq<GpuCorrelationTable>,
    kind: ItemKind,
    device: u64,
    context: u64,
    raw_corr: u64,
    n: nat,
)
    requires
        n <= gpu.len(),
    ensures
        rows_for(tables_items(gpu, n), packed(device, context, raw_corr), kind, tables_items(gpu, n).len())
            == rows_with(gpu.take(n as int), kind, device, context, raw_corr),
    decreases n,
{
    reveal(Seq::filter);
    let id = packed(device, context, raw_corr);
    let p = |t: GpuCorrelationTable| t.kind == kind;
    let q = |r: GpuCorrelationRow| has_triple(r, device, context, raw_corr);
    let f = |t: GpuCorrelationTable| t.rows@.filter(q).map_values(|r: GpuCorrelationRow| r.rowid);
    if n == 0 {
        assert(gpu.take(0).filter(p).map_values(f) =~= Seq::<Seq<i64>>::empty());
    } else {
        rows_of_tables(gpu, kind, device, context, raw_corr, (n - 1) as nat);
        let t = gpu[n - 1];
        let less = tables_items(gpu, (n - 1) as nat);
        let last = gpu_items(t.rows@, t.kind);
        rows_for_in_parts(less, last, id, kind, last.len());
        rows_of_table(t.rows@, t.kind, kind, device, context, raw_corr, t.rows@.len());
        assert(t.rows@.take(t.rows@.len() as int) =~= t.rows@);
        assert(gpu.take(n as int).drop_last() =~= gpu.take(n - 1));
        assert(gpu.take(n as int).last() == t);
        let before = gpu.take(n - 1).filter(p);
        if t.kind == kind {
            assert(before.push(t).map_values(f) =~= before.map_values(f).push(f(t)));
            before.map_values(f).lemma_flatten_push(f(t));
        } else {
            assert(rows_for(less, id, kind, less.len()) + Seq::<i64>::empty() =~= rows_for(
                less,
                id,
                kind,
                less.len(),
            ));
        }
    }
}

proof fn rows_of_contexts(
    own: Seq<(u64, u64)>,
    r: RuntimeCorrelationRow,
    kind: ItemKind,
    device: u64,
    context: u64,
    raw_corr: u64,
    n: nat,
)
    requires
        n <= own.len(),
    ensures
        ({
            let items = own.map_values(
                |c: (u64, u64)|
                    CorrelationItem {
                        syn_id: packed(c.0, c.1, r.correlation as u64),
                        rowid: r.rowid,
                        kind: ItemKind::Runtime,
                    },
            );
            rows_for(items, packed(device, context, raw_corr), kind, n) == if kind == ItemKind::Runtime
                && (r.correlation as u64) % 0x100_0000_0000 == raw_corr % 0x100_0000_0000 {
                own.take(n as int).filter(
                    |c: (u64, u64)| c.0 % 0x100 == device % 0x100 && c.1 % 0x1_0000 == context
                        % 0x1_0000,
                ).map_values(|c: (u64, u64)| r.rowid)
            } else {
                Seq::empty()
            }
        }),
    decreases n,
{
    reveal(Seq::filter);
    let p = |c: (u64, u64)| c.0 % 0x100 == device % 0x100 && c.1 % 0x1_0000 == context % 0x1_0000;
    let f = |c: (u64, u64)| r.rowid;
    if n == 0 {
        assert(own.take(0).filter(p).map_values(f) =~= Seq::<i64>::empty());
    } else {
        rows_of_contexts(own, r, kind, device, context, raw_corr, (n - 1) as nat);
        let c = own[n - 1];
        assert(own.take(n as int).drop_last() =~= own.take(n - 1));
        assert(own.take(n as int).last() == c);
        packed_tells_fields_apart(c.0, c.1, r.correlation as u64, device, context, raw_corr);
        let before = own.take(n - 1).filter(p);
        assert(before.push(c).map_values(f) =~= before.map_values(f).push(r.rowid));
    }
}

proof fn rows_of_calls(
    index: CorrelationIndex,
    runtime: Seq<RuntimeCorrelationRow>,
    kind: ItemKind,
    device: u64,
    context: u64,
    raw_corr: u64,
    n: nat,
)
    requires
        n <= runtime.len(),
    ensures
        ({
            let items = runtime_items(index.process_to_contexts@, runtime, n);
            rows_for(items, packed(device, context, raw_corr), kind, items.len()) == if kind
                == ItemKind::Runtime {
                calls_with(index, runtime.take(n as int), device, context, raw_corr)
            } else {
                Seq::empty()
            }
        }),
    decreases n,
{
    reveal(Seq::filter);
    let id = packed(device, context, raw_corr);
    let processes = index.process_to_contexts@;
    let p = |r: RuntimeCorrelationRow| (r.correlation as u64) % 0x100_0000_0000 == raw_corr
        % 0x100_0000_0000;
    let f = |r: RuntimeCorrelationRow| copies_of_call(index, r, device, context);
    if n == 0 {
        assert(runtime.take(0).filter(p).map_values(f) =~= Seq::<Seq<i64>>::empty());
    } else {
        rows_of_calls(index, runtime, kind, device, context, raw_corr, (n - 1) as nat);
        let r = runtime[n - 1];
        let less = runtime_items(processes, runtime, (n - 1) as nat);
        let last = call_items(processes, r);
        rows_for_in_parts(less, last, id, kind, last.len());
        let own = listed_contexts(index, process_of(r));
        assert(own == contexts_of(processes, native_pid(r.global_tid) as u64));
        let want = if kind == ItemKind::Runtime && p(r) {
            copies_of_call(index, r, device, context)
        } else {
            Seq::<i64>::empty()
        };
        assert(rows_for(last, id, kind, last.len()) == want) by {
            if own.len() > 0 {
                rows_of_contexts(own, r, kind, device, context, raw_corr, own.len());
                assert(own.take(own.len() as int) =~= own);
            } else {
                let pid = process_of(r);
                packed_tells_fields_apart(0, pid, r.correlation as u64, device, context, raw_corr);
                reveal_with_fuel(rows_for, 2);
                assert(rows_for(last, id, kind, 1) =~= want);
            }
        }
        assert(runtime.take(n as int).drop_last() =~= runtime.take(n - 1));
        assert(runtime.take(n as int).last() == r);
        let before = runtime.take(n - 1).filter(p);
        if p(r) {
            assert(before.push(r).map_values(f) =~= before.map_values(f).push(f(r)));
            before.map_values(f).lemma_flatten_push(f(r));
        }
        assert(rows_for(less, id, kind, less.len()) + Seq::<i64>::empty() =~= rows_for(
            less,
            id,
            kind,
            less.len(),
        ));
    }
}

/// A lookup in an index that was built gives, kind by kind and in order, the
/// numbers of the rows of the tables of that kind that have the device, context
/// and correlation asked for; beside runtime rows, the calls with the correlation
/// whose process owns the context. It gives nothing exactly where there are none.
pub proof fn lookup_gives_the_rows(
    contexts: Seq<ContextProcessRow>,
    gpu: Seq<GpuCorrelationTable>,
    runtime: Seq<RuntimeCorrelationRow>,
    index: CorrelationIndex,
    device: u64,
    context: u64,
    raw_corr: u64,
    rows: Option<CorrelatedRowIds>,
)
    requires
        is_built(index, contexts, gpu, runtime),
        is_lookup(index, device, context, raw_corr, rows),
    ensures
        rows matches Some(g) ==> {
            &&& g.kernel@ == rows_with(gpu, ItemKind::Kernel, device, context, raw_corr)
            &&& g.memcpy@ == rows_with(gpu, ItemKind::Memcpy, device, context, raw_corr)
            &&& g.memset@ == rows_with(gpu, ItemKind::Memset, device, context, raw_corr)
            &&& g.sync@ == rows_with(gpu, ItemKind::Sync, device, context, raw_corr)
            &&& g.graph@ == rows_with(gpu, ItemKind::Graph, device, context, raw_corr)
            &&& g.runtime@ == rows_with(gpu, ItemKind::Runtime, device, context, raw_corr)
                + calls_with(index, runtime, device, context, raw_corr)
        },
        rows is None ==> {
            &&& rows_with(gpu, ItemKind::Kernel, device, context, raw_corr).len() == 0
            &&& rows_with(gpu, ItemKind::Memcpy, device, context, raw_corr).len() == 0
            &&& rows_with(gpu, ItemKind::Memset, device, context, raw_corr).len() == 0
            &&& rows_with(gpu, ItemKind::Sync, device, context, raw_corr).len() == 0
            &&& rows_with(gpu, ItemKind::Graph, device, context, raw_corr).len() == 0
            &&& rows_with(gpu, ItemKind::Runtime, device, context, raw_corr).len() == 0
            &&& calls_with(index, runtime, device, context, raw_corr).len() == 0
        },
        rows matches Some(g) ==> g.kernel@.len() + g.memcpy@.len() + g.memset@.len()
            + g.runtime@.len() + g.sync@.len() + g.graph@.len() > 0,
{
    let id = packed(device, context, raw_corr);
    let a = tables_items(gpu, gpu.len());
    let b = runtime_items(index.process_to_contexts@, runtime, runtime.len());
    let items = a + b;
    let groups = with_items(Map::empty(), items, items.len());
    assert(gpu.take(gpu.len() as int) =~= gpu);
    assert(runtime.take(runtime.len() as int) =~= runtime);
    assert forall|kind: ItemKind| #[trigger] group_at(groups, id).of(kind) == rows_with(
        gpu,
        kind,
        device,
        context,
        raw_corr,
    ) + if kind == ItemKind::Runtime {
        calls_with(index, runtime, device, context, raw_corr)
    } else {
        Seq::empty()
    } by {
        groups_hold_their_items(Map::empty(), items, id, kind, items.len());
        rows_for_in_parts(a, b, id, kind, b.len());
        rows_of_tables(gpu, kind, device, context, raw_corr, gpu.len());
        rows_of_calls(index, runtime, kind, device, context, raw_corr, runtime.len());
        assert(group_at(Map::<u64, RowIdsView>::empty(), id).of(kind) =~= Seq::<i64>::empty());
        assert(Seq::<i64>::empty() + rows_for(items, id, kind, items.len()) =~= rows_for(
            items,
            id,
            kind,
            items.len(),
        ));
    }
    assert(index.groups@.contains_key(id) ==> groups[id] == index.groups@[id]@);
    assert(index.groups@.contains_key(id) <==> groups.contains_key(id)) by {
        assert(group_views(index.groups@).dom() =~= index.groups@.dom());
    }
    assert(group_at(groups, id).of(ItemKind::Kernel) == group_at(groups, id).kernel);
    assert(group_at(groups, id).of(ItemKind::Memcpy) == group_at(groups, id).memcpy);
    assert(group_at(groups, id).of(ItemKind::Memset) == group_at(groups, id).memset);
    assert(group_at(groups, id).of(ItemKind::Sync) == group_at(groups, id).sync);
    assert(group_at(groups, id).of(ItemKind::Graph) == group_at(groups, id).graph);
    assert(group_at(groups, id).of(ItemKind::Runtime) == group_at(groups, id).runtime);
    if rows is Some {
        groups_are_not_empty(items, id, items.len());
    }
}

proof fn groups_are_not_empty(items: Seq<CorrelationItem>, id: u64, n: nat)
    requires
        n <= items.len(),
        with_items(Map::empty(), items, n).contains_key(id),
    ensures
        ({
            let g = with_items(Map::empty(), items, n)[id];
            g.kernel.len() + g.memcpy.len() + g.memset.len() + g.runtime.len() + g.sync.len()
                + g.graph.len() > 0
        }),
    decreases n,
{
    if n > 0 && items[n - 1].syn_id != id {
        groups_are_not_empty(items, id, (n - 1) as nat);
    }
}

/// The row is of the process and names the context.
pub open spec fn names_context(r: ContextProcessRow, pid: u64, c: (u64, u64)) -> bool {
    r.process as u64 == pid && r.device as u64 == c.0 && r.context as u64 == c.1
}

/// The places of the rows that name a context of the process for the first time.
pub open spec fn are_first_places(
    rows: Seq<ContextProcessRow>,
    pid: u64,
    listed: Seq<(u64, u64)>,
    at: Seq<int>,
) -> bool {
    &&& at.len() == listed.len()
    &&& ascending(at, rows.len())
    &&& forall|k: int| 0 <= k < at.len() ==> names_context(rows[#[trigger] at[k]], pid, listed[k])
}

proof fn contexts_in_order(rows: Seq<ContextProcessRow>, pid: u64, n: nat) -> (at: Seq<int>)
    requires
        n <= rows.len(),
    ensures
        ({
            let listed = with_contexts(Seq::empty(), rows, pid, n);
            &&& listed.no_duplicates()
            &&& at.len() == listed.len()
            &&& ascending(at, n)
            &&& forall|k: int| 0 <= k < at.len() ==> names_context(rows[#[trigger] at[k]], pid, listed[k])
            &&& forall|i: int|
                0 <= i < n && (#[trigger] rows[i]).process as u64 == pid ==> listed.contains(
                    (rows[i].device as u64, rows[i].context as u64),
                )
        }),
    decreases n,
{
    if n == 0 {
        Seq::empty()
    } else {
        let less = with_contexts(Seq::empty(), rows, pid, (n - 1) as nat);
        let listed = with_contexts(Seq::empty(), rows, pid, n);
        let before = contexts_in_order(rows, pid, (n - 1) as nat);
        let r = rows[n - 1];
        let pair = (r.device as u64, r.context as u64);
        let at = if r.process as u64 == pid && !less.contains(pair) {
            before.push(n - 1)
        } else {
            before
        };
        assert forall|k: int| 0 <= k < at.len() implies names_context(
            rows[#[trigger] at[k]],
            pid,
            listed[k],
        ) by {
            if k < before.len() {
                assert(at[k] == before[k]);
            }
        }
        assert forall|i: int| 0 <= i < n && (#[trigger] rows[i]).process as u64 == pid implies listed.contains(
            (rows[i].device as u64, rows[i].context as u64),
        ) by {
            let c = (rows[i].device as u64, rows[i].context as u64);
            if i < n - 1 || less.contains(c) {
                assert(less.contains(c));
                let x: int = choose|x: int| 0 <= x < less.len() && less[x] == c;
                assert(listed[x] == c);
            } else {
                assert(listed[listed.len() - 1] == c);
            }
        }
        at
    }
}

/// An index lists for each process the contexts that the context rows give to it:
/// all of them and no others, each once, in the order in which they come up.
pub proof fn contexts_are_listed_once(
    contexts: Seq<ContextProcessRow>,
    gpu: Seq<GpuCorrelationTable>,
    runtime: Seq<RuntimeCorrelationRow>,
    index: CorrelationIndex,
    pid: u64,
)
    requires
        is_built(index, contexts, gpu, runtime),
    ensures
        listed_contexts(index, pid).no_duplicates(),
        exists|at: Seq<int>| are_first_places(contexts, pid, listed_contexts(index, pid), at),
        forall|i: int|
            0 <= i < contexts.len() && (#[trigger] contexts[i]).process as u64 == pid
                ==> listed_contexts(index, pid).contains(
                (contexts[i].device as u64, contexts[i].context as u64),
            ),
{
    let at = contexts_in_order(contexts, pid, contexts.len());
    assert(listed_contexts(index, pid) == contexts_of(index.process_to_contexts@, pid));
    assert(are_first_places(contexts, pid, listed_contexts(index, pid), at));
}

/// Number of a context: the device in front of 64 bits of context.
pub open spec fn context_number(device: u64, context: u64) -> u128 {
    (device * 0x1_0000_0000_0000_0000 + context) as u128
}

proof fn last_process_counts(rows: Seq<ContextProcessRow>, n: nat, i: int)
    requires
        n <= rows.len(),
        0 <= i < n,
        forall|j: int|
            i < j < n ==> (#[trigger] rows[j]).device != rows[i].device || rows[j].context
                != rows[i].context,
    ensures
        ({
            let map = with_context_rows(Map::empty(), rows, n);
            let key = context_number(rows[i].device as u64, rows[i].context as u64);
            map.contains_key(key) && map[key] == rows[i].process as u64
        }),
    decreases n,
{
    if i < n - 1 {
        last_process_counts(rows, (n - 1) as nat, i);
        let d = rows[i].device as u64;
        let c = rows[i].context as u64;
        let e = rows[n - 1].device as u64;
        let f = rows[n - 1].context as u64;
        let rd = rows[i].device;
        let rc = rows[i].context;
        let re = rows[n - 1].device;
        let rf = rows[n - 1].context;
        assert(rd as u64 == re as u64 ==> rd == re) by (bit_vector);
        assert(rc as u64 == rf as u64 ==> rc == rf) by (bit_vector);
        assert(d != e || c != f);
        assert(context_key_of(d, c) != context_key_of(e, f));
    }
}

proof fn processes_have_rows(rows: Seq<ContextProcessRow>, n: nat, key: u128)
    requires
        n <= rows.len(),
        with_context_rows(Map::empty(), rows, n).contains_key(key),
    ensures
        exists|i: int|
            0 <= i < n && key == context_number(
                (#[trigger] rows[i]).device as u64,
                rows[i].context as u64,
            ),
    decreases n,
{
    if n > 0 {
        let r = rows[n - 1];
        if key == context_key_of(r.device as u64, r.context as u64) {
            assert(key == context_number(rows[n - 1].device as u64, rows[n - 1].context as u64));
        } else {
            processes_have_rows(rows, (n - 1) as nat, key);
        }
    }
}

/// An index gives each context to the process of the last row that names it, and
/// knows no other contexts.
pub proof fn contexts_belong_to_their_processes(
    contexts: Seq<ContextProcessRow>,
    gpu: Seq<GpuCorrelationTable>,
    runtime: Seq<RuntimeCorrelationRow>,
    index: CorrelationIndex,
)
    requires
        is_built(index, contexts, gpu, runtime),
    ensures
        forall|i: int|
            0 <= i < contexts.len() && (forall|j: int|
                i < j < contexts.len() ==> (#[trigger] contexts[j]).device != contexts[i].device
                    || contexts[j].context != contexts[i].context) ==> {
                let key = context_number(
                    (#[trigger] contexts[i]).device as u64,
                    contexts[i].context as u64,
                );
                index.context_to_process@.contains_key(key) && index.context_to_process@[key]
                    == contexts[i].process as u64
            },
        forall|key: u128| #[trigger]
            index.context_to_process@.contains_key(key) ==> exists|i: int|
                0 <= i < contexts.len() && key == context_number(
                    (#[trigger] contexts[i]).device as u64,
                    contexts[i].context as u64,
                ),
{
    assert forall|i: int|
        0 <= i < contexts.len() && (forall|j: int|
            i < j < contexts.len() ==> (#[trigger] contexts[j]).device != contexts[i].device
                || contexts[j].context != contexts[i].context) implies {
        let key = context_number(
            (#[trigger] contexts[i]).device as u64,
            contexts[i].context as u64,
        );
        index.context_to_process@.contains_key(key) && index.context_to_process@[key]
            == contexts[i].process as u64
    } by {
        last_process_counts(contexts, contexts.len(), i);
    }
    assert forall|key: u128| #[trigger]
        index.context_to_process@.contains_key(key) implies exists|i: int|
        0 <= i < contexts.len() && key == context_number(
            (#[trigger] contexts[i]).device as u64,
            contexts[i].context as u64,
        ) by {
        processes_have_rows(contexts, contexts.len(), key);
    }
}

/// What the one or the other form of rows holds.
pub open spec fn cow_rows(rows: Cow<'_, CorrelatedRowIds>) -> CorrelatedRowIds {
    match rows {
        Cow::Borrowed(g) => *g,
        Cow::Owned(g) => g,
    }
}

/// The rows of one kind in each group that was found, one after the other.
pub open spec fn chained(
    found: Seq<Option<CorrelatedRowIds>>,
    of: spec_fn(CorrelatedRowIds) -> Seq<i64>,
) -> Seq<i64> {
    found.map_values(
        |f: Option<CorrelatedRowIds>|
            match f {
                Some(g) => of(g),
                None => Seq::empty(),
            },
    ).flatten()
}

proof fn hits_are_chained(
    index: CorrelationIndex,
    own: Seq<(u64, u64)>,
    raw_corr: u64,
    found: Seq<Option<CorrelatedRowIds>>,
    of: spec_fn(CorrelatedRowIds) -> Seq<i64>,
    kind: ItemKind,
    n: nat,
)
    requires
        n <= own.len(),
        found.len() == own.len(),
        forall|c: int|
            0 <= c < own.len() ==> is_lookup(
                index,
                (#[trigger] own[c]).0,
                own[c].1,
                raw_corr,
                found[c],
            ),
        forall|g: CorrelatedRowIds| #[trigger] of(g) == g@.of(kind),
    ensures
        ({
            let got = hits(group_views(index.groups@), own, raw_corr, n);
            &&& merged(got, got.len()).of(kind) == chained(found.take(n as int), of)
            &&& got.len() > 0 <==> exists|c: int| 0 <= c < n && (#[trigger] found[c]) is Some
        }),
    decreases n,
{
    let groups = group_views(index.groups@);
    let f = |f: Option<CorrelatedRowIds>|
        match f {
            Some(g) => of(g),
            None => Seq::empty(),
        };
    if n == 0 {
        assert(found.take(0).map_values(f) =~= Seq::<Seq<i64>>::empty());
        assert(merged(Seq::<RowIdsView>::empty(), 0).of(kind) =~= Seq::<i64>::empty());
    } else {
        hits_are_chained(index, own, raw_corr, found, of, kind, (n - 1) as nat);
        let less = hits(groups, own, raw_corr, (n - 1) as nat);
        let got = hits(groups, own, raw_corr, n);
        let c = own[n - 1];
        assert(is_lookup(index, c.0, c.1, raw_corr, found[n - 1]));
        assert(found.take(n as int).map_values(f) =~= found.take(n - 1).map_values(f).push(
            f(found[n - 1]),
        ));
        found.take(n - 1).map_values(f).lemma_flatten_push(f(found[n - 1]));
        let id = packed(c.0, c.1, raw_corr);
        assert(groups.dom() =~= index.groups@.dom());
        if groups.contains_key(id) {
            merged_prefix(less, groups[id], less.len());
            assert(found[n - 1] is Some);
            assert(groups[id] == found[n - 1]->0@);
            assert(merged(got, got.len()).of(kind) =~= merged(less, less.len()).of(kind)
                + groups[id].of(kind));
        } else {
            assert(chained(found.take(n - 1), of) + Seq::<i64>::empty() =~= chained(
                found.take(n - 1),
                of,
            ));
        }
    }
}

proof fn merged_prefix(less: Seq<RowIdsView>, last: RowIdsView, n: nat)
    requires
        n <= less.len(),
    ensures
        merged(less.push(last), n) == merged(less, n),
    decreases n,
{
    if n > 0 {
        merged_prefix(less, last, (n - 1) as nat);
    }
}

/// What is looked up from a runtime call is what is looked up from each context
/// of its process, one after the other, kind by kind; nothing comes exactly where
/// no context has the correlation.
pub proof fn call_lookup_joins_its_contexts(
    index: CorrelationIndex,
    global_tid: i64,
    raw_corr: u64,
    found: Seq<Option<CorrelatedRowIds>>,
    rows: Option<Cow<'_, CorrelatedRowIds>>,
)
    requires
        ({
            let own = listed_contexts(index, ((global_tid >> 24) & 0xFF_FFFF) as u64);
            &&& found.len() == own.len()
            &&& forall|c: int|
                0 <= c < own.len() ==> is_lookup(
                    index,
                    (#[trigger] own[c]).0,
                    own[c].1,
                    raw_corr,
                    found[c],
                )
        }),
        ({
            let contexts = contexts_of(index.process_to_contexts@, native_pid(global_tid) as u64);
            let got = hits(group_views(index.groups@), contexts, raw_corr, contexts.len());
            match rows {
                Some(r) => got.len() > 0 && cow_view(r) == merged(got, got.len()) && (got.len() == 1
                    ==> r is Borrowed),
                None => got.len() == 0,
            }
        }),
    ensures
        rows is Some <==> exists|c: int| 0 <= c < found.len() && (#[trigger] found[c]) is Some,
        rows matches Some(r) ==> {
            &&& cow_rows(r).kernel@ == chained(found, |g: CorrelatedRowIds| g.kernel@)
            &&& cow_rows(r).memcpy@ == chained(found, |g: CorrelatedRowIds| g.memcpy@)
            &&& cow_rows(r).memset@ == chained(found, |g: CorrelatedRowIds| g.memset@)
            &&& cow_rows(r).runtime@ == chained(found, |g: CorrelatedRowIds| g.runtime@)
            &&& cow_rows(r).sync@ == chained(found, |g: CorrelatedRowIds| g.sync@)
            &&& cow_rows(r).graph@ == chained(found, |g: CorrelatedRowIds| g.graph@)
        },
{
    let own = listed_contexts(index, ((global_tid >> 24) & 0xFF_FFFF) as u64);
    assert(own == contexts_of(index.process_to_contexts@, native_pid(global_tid) as u64));
    let n = own.len();
    assert(found.take(n as int) =~= found);
    hits_are_chained(index, own, raw_corr, found, |g: CorrelatedRowIds| g.kernel@, ItemKind::Kernel, n);
    hits_are_chained(index, own, raw_corr, found, |g: CorrelatedRowIds| g.memcpy@, ItemKind::Memcpy, n);
    hits_are_chained(index, own, raw_corr, found, |g: CorrelatedRowIds| g.memset@, ItemKind::Memset, n);
    hits_are_chained(index, own, raw_corr, found, |g: CorrelatedRowIds| g.runtime@, ItemKind::Runtime, n);
    hits_are_chained(index, own, raw_corr, found, |g: CorrelatedRowIds| g.sync@, ItemKind::Sync, n);
    hits_are_chained(index, own, raw_corr, found, |g: CorrelatedRowIds| g.graph@, ItemKind::Graph, n);
    if rows is Some {
        assert(cow_rows(rows->0)@ == cow_view(rows->0));
    }
}

/// The rows of the tables of a kind, table by table.
pub open spec fn kind_rows(gpu: Seq<GpuCorrelationTable>, kind: ItemKind) -> Seq<GpuCorrelationRow> {
    gpu.map_values(
        |t: GpuCorrelationTable|
            if t.kind == kind {
                t.rows@
            } else {
                Seq::empty()
            },
    ).flatten()
}

proof fn items_join(a: Seq<CorrelationItem>, b: Seq<CorrelationItem>, kind: ItemKind, n: nat)
    requires
        n <= b.len(),
    ensures
        items_of(a + b, kind, a.len() + n) == items_of(a, kind, a.len()) + items_of(b, kind, n),
    decreases n,
{
    if n > 0 {
        items_join(a, b, kind, (n - 1) as nat);
        assert((a + b)[a.len() + n - 1] == b[n - 1]);
    } else {
        items_front(a, b, kind, a.len());
    }
}

proof fn items_front(a: Seq<CorrelationItem>, b: Seq<CorrelationItem>, kind: ItemKind, n: nat)
    requires
        n <= a.len(),
    ensures
        items_of(a + b, kind, n) == items_of(a, kind, n),
    decreases n,
{
    if n > 0 {
        items_front(a, b, kind, (n - 1) as nat);
        assert((a + b)[n - 1] == a[n - 1]);
    }
}

proof fn items_of_one_kind(items: Seq<CorrelationItem>, own: ItemKind, kind: ItemKind, n: nat)
    requires
        n <= items.len(),
        forall|i: int| 0 <= i < items.len() ==> (#[trigger] items[i]).kind == own,
    ensures
        items_of(items, kind, n) == if own == kind {
            n
        } else {
            0
        },
    decreases n,
{
    if n > 0 {
        items_of_one_kind(items, own, kind, (n - 1) as nat);
        assert(items[n - 1].kind == own);
    }
}

proof fn table_items_count(gpu: Seq<GpuCorrelationTable>, kind: ItemKind, n: nat)
    requires
        n <= gpu.len(),
    ensures
        items_of(tables_items(gpu, n), kind, tables_items(gpu, n).len()) == kind_rows(
            gpu.take(n as int),
            kind,
        ).len(),
    decreases n,
{
    let f = |t: GpuCorrelationTable|
        if t.kind == kind {
            t.rows@
        } else {
            Seq::empty()
        };
    if n > 0 {
        let m = (n - 1) as nat;
        table_items_count(gpu, kind, m);
        let own = gpu_items(gpu[n - 1].rows@, gpu[n - 1].kind);
        items_join(tables_items(gpu, m), own, kind, own.len());
        items_of_one_kind(own, gpu[n - 1].kind, kind, own.len());
        let less = gpu.take(m as int).map_values(f);
        assert(gpu.take(n as int).map_values(f) =~= less.push(f(gpu[n - 1])));
        less.lemma_flatten_push(f(gpu[n - 1]));
    } else {
        assert(gpu.take(0).map_values(f) =~= Seq::<Seq<GpuCorrelationRow>>::empty());
    }
}

proof fn runtime_items_are_calls(
    contexts: Map<u64, Vec<(u64, u64)>>,
    runtime: Seq<RuntimeCorrelationRow>,
    n: nat,
)
    requires
        n <= runtime.len(),
    ensures
        forall|i: int|
            0 <= i < runtime_items(contexts, runtime, n).len() ==> (#[trigger] runtime_items(
                contexts,
                runtime,
                n,
            )[i]).kind == ItemKind::Runtime,
    decreases n,
{
    if n > 0 {
        runtime_items_are_calls(contexts, runtime, (n - 1) as nat);
        let less = runtime_items(contexts, runtime, (n - 1) as nat);
        let all = runtime_items(contexts, runtime, n);
        assert forall|i: int| 0 <= i < all.len() implies (#[trigger] all[i]).kind == ItemKind::Runtime by {
            if i < less.len() {
                assert(all[i] == less[i]);
            }
        }
    }
}

/// An index holds as many rows of each kind of GPU work as the tables of that kind
/// have. Its sizes are these numbers, where a machine integer can hold them.
pub proof fn sizes_count_the_rows(
    contexts: Seq<ContextProcessRow>,
    gpu: Seq<GpuCorrelationTable>,
    runtime: Seq<RuntimeCorrelationRow>,
    index: CorrelationIndex,
    kind: ItemKind,
)
    requires
        is_built(index, contexts, gpu, runtime),
        kind != ItemKind::Runtime,
    ensures
        total_rows(group_views(index.groups@), kind) == kind_rows(gpu, kind).len(),
        kind_rows(gpu, kind).len() <= usize::MAX ==> capped(
            total_rows(group_views(index.groups@), kind),
        ) == kind_rows(gpu, kind).len(),
        kind_rows(gpu, kind).len() > usize::MAX ==> capped(
            total_rows(group_views(index.groups@), kind),
        ) == usize::MAX,
{
    let calls = runtime_items(index.process_to_contexts@, runtime, runtime.len());
    let work = tables_items(gpu, gpu.len());
    let items = work + calls;
    let none = Map::<u64, RowIdsView>::empty();
    merged_items_are_counted(none, items, kind, items.len());
    assert(none.dom().len() == 0);
    items_join(work, calls, kind, calls.len());
    runtime_items_are_calls(index.process_to_contexts@, runtime, runtime.len());
    items_of_one_kind(calls, ItemKind::Runtime, kind, calls.len());
    table_items_count(gpu, kind, gpu.len());
    assert(gpu.take(gpu.len() as int) =~= gpu);
}

} // verus!
