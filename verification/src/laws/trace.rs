//! What is told of a trace as a whole.
use super::ascending;
use crate::adapter::traits::{last_value, MetaDataRow};
use crate::adapter::v3_standard::is_standard;
use crate::capabilities::{capabilities_of, CapabilityFlags};
use crate::schema::TraceSchema;
use crate::text::strings;
use crate::trace::{
    event_tables, full_hull, hull, named, origins_of, primary_tables, spans_of, TableExtent,
    TableSpan, TimeSpan, TraceOrigins,
};
use vstd::prelude::*;

verus! {

/// Both ends of the table are known.
pub open spec fn is_timed(e: TableExtent) -> bool {
    e.first_ns is Some && e.last_ns is Some
}

/// The places are those of the tables with both ends, and the spans are theirs.
pub open spec fn lists_spans(spans: Seq<TableSpan>, extents: Seq<TableExtent>, at: Seq<int>) -> bool {
    &&& ascending(at, extents.len())
    &&& at.len() == spans.len()
    &&& forall|k: int|
        0 <= k < at.len() ==> {
            let e = extents[#[trigger] at[k]];
            spans[k].table@ == e.table@ && Some(spans[k].span.start_ns) == e.first_ns && Some(
                spans[k].span.end_ns,
            ) == e.last_ns
        }
    &&& forall|i: int|
        0 <= i < extents.len() ==> (#[trigger] at.contains(i) <==> is_timed(extents[i]))
}

proof fn span_places(extents: Seq<TableExtent>, n: nat) -> (at: Seq<int>)
    requires
        n <= extents.len(),
    ensures
        ascending(at, n),
        at.len() == spans_of(extents, n).len(),
        forall|k: int|
            0 <= k < at.len() ==> {
                let e = extents[#[trigger] at[k]];
                let s = spans_of(extents, n)[k];
                s.0 == e.table@ && Some(s.1.start_ns) == e.first_ns && Some(s.1.end_ns) == e.last_ns
            },
        forall|i: int| 0 <= i < n ==> (#[trigger] at.contains(i) <==> is_timed(extents[i])),
    decreases n,
{
    if n == 0 {
        Seq::empty()
    } else {
        let before = span_places(extents, (n - 1) as nat);
        let less = spans_of(extents, (n - 1) as nat);
        let all = spans_of(extents, n);
        let at = if is_timed(extents[n - 1]) {
            before.push(n - 1)
        } else {
            before
        };
        assert forall|k: int| 0 <= k < at.len() implies {
            let e = extents[#[trigger] at[k]];
            let s = all[k];
            s.0 == e.table@ && Some(s.1.start_ns) == e.first_ns && Some(s.1.end_ns) == e.last_ns
        } by {
            if k < before.len() {
                assert(at[k] == before[k]);
                assert(all[k] == less[k]);
            }
        }
        assert forall|i: int| 0 <= i < n implies (#[trigger] at.contains(i) <==> is_timed(
            extents[i],
        )) by {
            if before.contains(i) {
                let k: int = choose|k: int| 0 <= k < before.len() && before[k] == i;
                assert(at[k] == i);
                assert(before[k] < n - 1);
            }
            if i == n - 1 && is_timed(extents[i]) {
                assert(at[at.len() - 1] == i);
            }
            if at.contains(i) {
                let k: int = choose|k: int| 0 <= k < at.len() && at[k] == i;
                if k < before.len() {
                    assert(before[k] == i);
                }
            }
            if i < n - 1 && is_timed(extents[i]) {
                assert(before.contains(i));
            }
        }
        at
    }
}

/// The span of a table runs from its first to its last time. Tables without both
/// are left out; the others keep their order.
pub proof fn spans_are_of_timed_tables(extents: Seq<TableExtent>, spans: Seq<TableSpan>)
    requires
        named(spans) == spans_of(extents, extents.len()),
    ensures
        exists|at: Seq<int>| lists_spans(spans, extents, at),
{
    let at = span_places(extents, extents.len());
    assert(named(spans).len() == spans.len());
    assert forall|k: int| 0 <= k < at.len() implies {
        let e = extents[#[trigger] at[k]];
        spans[k].table@ == e.table@ && Some(spans[k].span.start_ns) == e.first_ns && Some(
            spans[k].span.end_ns,
        ) == e.last_ns
    } by {
        assert(named(spans)[k] == (spans[k].table@, spans[k].span));
    }
    assert(lists_spans(spans, extents, at));
}

/// The table is one of primary execution: kernels, copies, memory sets, runtime
/// calls or synchronization.
pub open spec fn is_primary(table: Seq<char>) -> bool {
    ||| table == "CUPTI_ACTIVITY_KIND_KERNEL"@
    ||| table == "CUPTI_ACTIVITY_KIND_MEMCPY"@
    ||| table == "CUPTI_ACTIVITY_KIND_MEMSET"@
    ||| table == "CUPTI_ACTIVITY_KIND_RUNTIME"@
    ||| table == "CUPTI_ACTIVITY_KIND_SYNCHRONIZATION"@
}

/// The table holds events: it is one of primary execution, of calls of the system
/// or of NVTX ranges.
pub open spec fn is_event(table: Seq<char>) -> bool {
    is_primary(table) || table == "OSRT_API"@ || table == "NVTX_EVENTS"@
}

/// The span reaches from the earliest first time to the latest last time of the
/// tables that count.
pub open spec fn spans_exactly(
    span: TimeSpan,
    extents: Seq<TableExtent>,
    counts: spec_fn(TableExtent) -> bool,
) -> bool {
    &&& forall|i: int|
        0 <= i < extents.len() && is_timed(#[trigger] extents[i]) && counts(extents[i])
            ==> span.start_ns <= extents[i].first_ns->0 && extents[i].last_ns->0 <= span.end_ns
    &&& exists|i: int|
        0 <= i < extents.len() && is_timed(#[trigger] extents[i]) && counts(extents[i])
            && span.start_ns == extents[i].first_ns->0
    &&& exists|i: int|
        0 <= i < extents.len() && is_timed(#[trigger] extents[i]) && counts(extents[i])
            && span.end_ns == extents[i].last_ns->0
}

/// Some table that counts has both ends.
pub open spec fn some_counts(
    extents: Seq<TableExtent>,
    counts: spec_fn(TableExtent) -> bool,
) -> bool {
    exists|i: int| 0 <= i < extents.len() && is_timed(#[trigger] extents[i]) && counts(extents[i])
}

proof fn hull_is_exact(
    extents: Seq<TableExtent>,
    tables: Seq<Seq<char>>,
    counts: spec_fn(TableExtent) -> bool,
    n: nat,
)
    requires
        n <= extents.len(),
        forall|e: TableExtent| #[trigger] counts(e) <==> tables.contains(e.table@),
    ensures
        match hull(spans_of(extents, n), tables) {
            Some(span) => spans_exactly(span, extents.take(n as int), counts),
            None => !some_counts(extents.take(n as int), counts),
        },
    decreases n,
{
    if n > 0 {
        hull_is_exact(extents, tables, counts, (n - 1) as nat);
        let e = extents[n - 1];
        let less = extents.take(n - 1);
        let all = extents.take(n as int);
        let before = hull(spans_of(extents, (n - 1) as nat), tables);
        let now = hull(spans_of(extents, n), tables);
        assert(all[n - 1] == e);
        assert forall|i: int| 0 <= i < n - 1 implies all[i] == less[i] by {}
        if is_timed(e) {
            assert(spans_of(extents, n).drop_last() =~= spans_of(extents, (n - 1) as nat));
            assert(counts(e) <==> tables.contains(e.table@));
        }
        exact_step(less, all, e, counts, before, now);
    }
}

proof fn exact_step(
    less: Seq<TableExtent>,
    all: Seq<TableExtent>,
    e: TableExtent,
    counts: spec_fn(TableExtent) -> bool,
    before: Option<TimeSpan>,
    now: Option<TimeSpan>,
)
    requires
        all.len() == less.len() + 1,
        all[less.len() as int] == e,
        forall|i: int| 0 <= i < less.len() ==> all[i] == less[i],
        match before {
            Some(span) => spans_exactly(span, less, counts),
            None => !some_counts(less, counts),
        },
        now == if is_timed(e) && counts(e) {
            Some(
                crate::trace::around(
                    before,
                    TimeSpan { start_ns: e.first_ns->0, end_ns: e.last_ns->0 },
                ),
            )
        } else {
            before
        },
    ensures
        match now {
            Some(span) => spans_exactly(span, all, counts),
            None => !some_counts(all, counts),
        },
{
    let n = less.len() as int;
    if before is Some {
        let span = before->0;
        let i: int = choose|i: int|
            0 <= i < less.len() && is_timed(#[trigger] less[i]) && counts(less[i]) && span.start_ns
                == less[i].first_ns->0;
        assert(all[i] == less[i]);
        let j: int = choose|j: int|
            0 <= j < less.len() && is_timed(#[trigger] less[j]) && counts(less[j]) && span.end_ns
                == less[j].last_ns->0;
        assert(all[j] == less[j]);
    }
    match now {
        Some(span) => {
            assert forall|i: int|
                0 <= i < all.len() && is_timed(#[trigger] all[i]) && counts(
                    all[i],
                ) implies span.start_ns <= all[i].first_ns->0 && all[i].last_ns->0 <= span.end_ns by {
                if i < n {
                    assert(less[i] == all[i]);
                    assert(some_counts(less, counts));
                }
            }
            assert(all[n] == e);
        },
        None => {
            assert forall|i: int| 0 <= i < all.len() && is_timed(#[trigger] all[i]) && counts(
                all[i],
            ) implies false by {
                if i < n {
                    assert(less[i] == all[i]);
                    assert(some_counts(less, counts));
                }
            }
        },
    }
}

proof fn full_hull_is_exact(extents: Seq<TableExtent>, n: nat)
    requires
        n <= extents.len(),
    ensures
        match full_hull(spans_of(extents, n)) {
            Some(span) => spans_exactly(span, extents.take(n as int), |e: TableExtent| true),
            None => !some_counts(extents.take(n as int), |e: TableExtent| true),
        },
    decreases n,
{
    if n > 0 {
        full_hull_is_exact(extents, (n - 1) as nat);
        let e = extents[n - 1];
        let less = extents.take(n - 1);
        let all = extents.take(n as int);
        assert(all[n - 1] == e);
        assert forall|i: int| 0 <= i < n - 1 implies all[i] == less[i] by {}
        if is_timed(e) {
            assert(spans_of(extents, n).drop_last() =~= spans_of(extents, (n - 1) as nat));
        }
        exact_step(
            less,
            all,
            e,
            |e: TableExtent| true,
            full_hull(spans_of(extents, (n - 1) as nat)),
            full_hull(spans_of(extents, n)),
        );
    }
}

proof fn tables_are_listed(table: Seq<char>)
    ensures
        primary_tables().contains(table) <==> is_primary(table),
        event_tables().contains(table) <==> is_event(table),
{
    let p = primary_tables();
    let e = event_tables();
    assert(p.len() == 5 && e.len() == 7);
    assert(p[0] == "CUPTI_ACTIVITY_KIND_KERNEL"@ && p[1] == "CUPTI_ACTIVITY_KIND_MEMCPY"@ && p[2]
        == "CUPTI_ACTIVITY_KIND_MEMSET"@ && p[3] == "CUPTI_ACTIVITY_KIND_RUNTIME"@ && p[4]
        == "CUPTI_ACTIVITY_KIND_SYNCHRONIZATION"@);
    assert(e[0] == p[0] && e[1] == p[1] && e[2] == p[2] && e[3] == p[3] && e[4] == p[4] && e[5]
        == "OSRT_API"@ && e[6] == "NVTX_EVENTS"@);
}

/// The full span of a trace reaches from the earliest to the latest time of its
/// event tables, or of its sample tables where no event table has times, or is
/// zero. The primary span does so for the tables of primary execution, or is the
/// full span where none of them has times.
pub proof fn origins_are_exact(
    events: Seq<TableExtent>,
    samples: Seq<TableExtent>,
    origins: TraceOrigins,
)
    requires
        origins == origins_of(
            spans_of(events, events.len()),
            spans_of(samples, samples.len()),
        ),
    ensures
        some_counts(events, |e: TableExtent| is_primary(e.table@)) ==> spans_exactly(
            origins.primary,
            events,
            |e: TableExtent| is_primary(e.table@),
        ),
        !some_counts(events, |e: TableExtent| is_primary(e.table@)) ==> origins.primary
            == origins.full,
        some_counts(events, |e: TableExtent| is_event(e.table@)) ==> spans_exactly(
            origins.full,
            events,
            |e: TableExtent| is_event(e.table@),
        ),
        !some_counts(events, |e: TableExtent| is_event(e.table@)) && some_counts(
            samples,
            |e: TableExtent| true,
        ) ==> spans_exactly(origins.full, samples, |e: TableExtent| true),
        !some_counts(events, |e: TableExtent| is_event(e.table@)) && !some_counts(
            samples,
            |e: TableExtent| true,
        ) ==> origins.full.start_ns == 0 && origins.full.end_ns == 0,
{
    let primary = |e: TableExtent| is_primary(e.table@);
    let event = |e: TableExtent| is_event(e.table@);
    assert forall|e: TableExtent| #[trigger] primary(e) <==> primary_tables().contains(e.table@) by {
        tables_are_listed(e.table@);
    }
    assert forall|e: TableExtent| #[trigger] event(e) <==> event_tables().contains(e.table@) by {
        tables_are_listed(e.table@);
    }
    assert(events.take(events.len() as int) =~= events);
    assert(samples.take(samples.len() as int) =~= samples);
    hull_is_exact(events, primary_tables(), primary, events.len());
    hull_is_exact(events, event_tables(), event, events.len());
    full_hull_is_exact(samples, samples.len());
    exact_counts(events, primary);
    exact_counts(events, event);
    exact_counts(samples, |e: TableExtent| true);
}

proof fn exact_counts(extents: Seq<TableExtent>, counts: spec_fn(TableExtent) -> bool)
    ensures
        forall|span: TimeSpan| #[trigger] spans_exactly(span, extents, counts) ==> some_counts(extents, counts),
{
}

/// Some table of the trace is called so.
pub open spec fn has_table(schema: &TraceSchema, name: Seq<char>) -> bool {
    exists|i: int| 0 <= i < schema.tables@.len() && (#[trigger] schema.tables@[i]).name@ == name
}

/// Each flag tells whether the tables are there that its name speaks of.
pub proof fn flags_tell_tables(schema: &TraceSchema, flags: CapabilityFlags)
    requires
        flags == capabilities_of(schema),
    ensures
        flags.has_kernels <==> has_table(schema, "CUPTI_ACTIVITY_KIND_KERNEL"@),
        flags.has_memcpy <==> has_table(schema, "CUPTI_ACTIVITY_KIND_MEMCPY"@),
        flags.has_memset <==> has_table(schema, "CUPTI_ACTIVITY_KIND_MEMSET"@),
        flags.has_sync <==> has_table(schema, "CUPTI_ACTIVITY_KIND_SYNCHRONIZATION"@),
        flags.has_runtime <==> has_table(schema, "CUPTI_ACTIVITY_KIND_RUNTIME"@),
        flags.has_osrt <==> has_table(schema, "OSRT_API"@),
        flags.has_nvtx <==> has_table(schema, "NVTX_EVENTS"@),
        flags.has_graph_trace <==> has_table(schema, "CUPTI_ACTIVITY_KIND_GRAPH_TRACE"@),
        flags.has_graph_nodes <==> has_table(schema, "CUDA_GRAPH_NODE_EVENTS"@),
        flags.has_graph_events <==> has_table(schema, "CUDA_GRAPH_EVENTS"@),
        flags.has_cuda_event_activity <==> has_table(schema, "CUPTI_ACTIVITY_KIND_CUDA_EVENT"@),
        flags.has_overhead <==> has_table(schema, "CUPTI_ACTIVITY_KIND_OVERHEAD"@),
        flags.has_cuda_contexts <==> has_table(schema, "TARGET_INFO_CUDA_CONTEXT_INFO"@),
        flags.has_sampling <==> has_table(schema, "SAMPLING_CALLCHAINS"@),
        flags.has_composite_events <==> has_table(schema, "COMPOSITE_EVENTS"@),
        flags.has_sched_events <==> has_table(schema, "SCHED_EVENTS"@),
        flags.has_gpu_metrics <==> has_table(schema, "GPU_METRICS"@) && has_table(
            schema,
            "TARGET_INFO_GPU_METRICS"@,
        ),
        flags.has_nic_metrics <==> has_table(schema, "NET_NIC_METRIC"@) && has_table(
            schema,
            "TARGET_INFO_NETWORK_METRICS"@,
        ) && has_table(schema, "NIC_ID_MAP"@) && has_table(schema, "TARGET_INFO_NIC_INFO"@),
        flags.has_target_info <==> has_table(schema, "TARGET_INFO_SYSTEM_ENV"@),
{
    assert forall|name: Seq<char>| #[trigger] schema.has(name) <==> has_table(schema, name) by {
        if schema.has(name) {
            let i: int = choose|i: int|
                0 <= i < schema.tables.len() && (#[trigger] schema.tables@[i]).name@ == name;
            assert(schema.tables@[i].name@ == name);
        }
        if has_table(schema, name) {
            let i: int = choose|i: int|
                0 <= i < schema.tables@.len() && (#[trigger] schema.tables@[i]).name@ == name;
            assert(schema.tables@[i].name@ == name);
        }
    }
}

/// The table is there with every one of the columns.
pub open spec fn has_table_with(schema: &TraceSchema, name: Seq<char>, columns: Seq<Seq<char>>) -> bool {
    &&& has_table(schema, name)
    &&& forall|c: int|
        0 <= c < columns.len() ==> exists|i: int, k: int|
            0 <= i < schema.tables@.len() && schema.tables@[i].name@ == name && 0 <= k
                < schema.tables@[i].columns@.len() && (#[trigger] schema.tables@[i].columns@[k])@
                == #[trigger] columns[c]
}

/// A trace that is accepted has a table of events or metrics, and one without any
/// table is not.
pub proof fn accepted_traces_have_tables(schema: &TraceSchema)
    requires
        is_standard(schema),
    ensures
        ({
            ||| has_table(schema, "CUPTI_ACTIVITY_KIND_KERNEL"@)
            ||| has_table(schema, "CUPTI_ACTIVITY_KIND_MEMCPY"@)
            ||| has_table(schema, "CUPTI_ACTIVITY_KIND_MEMSET"@)
            ||| has_table(schema, "CUPTI_ACTIVITY_KIND_RUNTIME"@)
            ||| has_table(schema, "CUPTI_ACTIVITY_KIND_SYNCHRONIZATION"@)
            ||| has_table(schema, "NVTX_EVENTS"@)
            ||| has_table(schema, "GPU_METRICS"@)
            ||| has_table(schema, "NET_NIC_METRIC"@)
            ||| has_table(schema, "COMPOSITE_EVENTS"@)
            ||| has_table(schema, "SCHED_EVENTS"@)
        }),
        schema.tables@.len() > 0,
{
    let list = crate::adapter::v3_standard::probe_tables();
    let i: int = choose|i: int|
        0 <= i < list.len() && schema.has_columns((#[trigger] list[i]).0, list[i].1);
    let name = list[i].0;
    assert(schema.has(name));
    let t: int = choose|t: int|
        0 <= t < schema.tables.len() && (#[trigger] schema.tables@[t]).name@ == name;
    assert(schema.tables@[t].name@ == name);
    assert(has_table(schema, name));
}

/// A trace that has one of the tables of primary execution with its two times is
/// accepted.
pub proof fn primary_tables_are_accepted(schema: &TraceSchema, name: Seq<char>)
    requires
        is_primary(name),
        has_table_with(schema, name, seq!["start"@, "end"@]),
    ensures
        is_standard(schema),
{
    let list = crate::adapter::v3_standard::probe_tables();
    let want = seq!["start"@, "end"@];
    let t: int = choose|t: int|
        0 <= t < schema.tables@.len() && (#[trigger] schema.tables@[t]).name@ == name;
    assert(schema.tables@[t].name@ == name);
    assert(schema.has(name));
    assert forall|c: int| 0 <= c < want.len() implies schema.has_column(name, #[trigger] want[c]) by {
        let (i, k): (int, int) = choose|i: int, k: int|
            0 <= i < schema.tables@.len() && schema.tables@[i].name@ == name && 0 <= k
                < schema.tables@[i].columns@.len() && (#[trigger] schema.tables@[i].columns@[k])@
                == want[c];
        assert(strings(schema.tables@[i].columns@)[k] == want[c]);
        assert(strings(schema.tables@[i].columns@).contains(want[c]));
        assert(schema.tables@[i].name@ == name);
    }
    assert(schema.has_columns(name, want));
    assert(list[0].0 == "CUPTI_ACTIVITY_KIND_KERNEL"@ && list[1].0 == "CUPTI_ACTIVITY_KIND_MEMCPY"@
        && list[2].0 == "CUPTI_ACTIVITY_KIND_MEMSET"@ && list[3].0 == "CUPTI_ACTIVITY_KIND_RUNTIME"@
        && list[4].0 == "CUPTI_ACTIVITY_KIND_SYNCHRONIZATION"@);
    assert(list[0].1 == want && list[1].1 == want && list[2].1 == want && list[3].1 == want
        && list[4].1 == want);
}

/// The value that counts for a name is that of the last row with that name whose
/// value may count.
pub proof fn last_rows_count(rows: Seq<MetaDataRow>, name: Seq<char>, non_empty: bool, n: nat)
    requires
        n <= rows.len(),
    ensures
        match last_value(rows, name, non_empty, n) {
            Some(value) => exists|i: int|
                0 <= i < n && (#[trigger] rows[i]).name@ == name && rows[i].value@ == value && (non_empty
                    ==> value.len() > 0) && forall|j: int|
                    i < j < n ==> (#[trigger] rows[j]).name@ != name || (non_empty
                        && rows[j].value@.len() == 0),
            None => forall|j: int|
                0 <= j < n ==> (#[trigger] rows[j]).name@ != name || (non_empty
                    && rows[j].value@.len() == 0),
        },
    decreases n,
{
    if n > 0 {
        if rows[n - 1].name@ == name && !(non_empty && rows[n - 1].value@.len() == 0) {
            assert(rows[n - 1].name@ == name);
        } else {
            last_rows_count(rows, name, non_empty, (n - 1) as nat);
        }
    }
}

} // verus!
