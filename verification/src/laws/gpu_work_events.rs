//! What becomes of the rows of GPU work.
use super::{cells, cells_cover, differ_first_at, is_cell, text_before};
use crate::gpu_work_events::{
    collected, event_keys, event_of, event_views, events_are_in_order, events_in, no_later,
    sorted_events, sorting_keeps_the_events, GpuWorkEventRecord, GpuWorkTable,
};
use crate::order::{char_codes, lex_lt, sort_order_exists, sort_order_of};
use vstd::prelude::*;

verus! {

/// How many rows the tables have.
pub open spec fn work_counts(tables: Seq<GpuWorkTable>) -> Seq<nat> {
    tables.map_values(|t: GpuWorkTable| t.rows@.len())
}

/// The event is that of row `c.1` of table `c.0`: it has the label of the table
/// and the row's number, device, stream and times.
pub open spec fn is_event_of(e: GpuWorkEventRecord, tables: Seq<GpuWorkTable>, c: (int, int)) -> bool {
    let row = tables[c.0].rows@[c.1];
    &&& 0 <= c.0 < tables.len()
    &&& 0 <= c.1 < tables[c.0].rows@.len()
    &&& e.kind@ == tables[c.0].kind.label@
    &&& e.row_id == row.row_id
    &&& e.device_id == row.device_id
    &&& e.stream_id == row.stream_id
    &&& e.start_ns == row.start_ns
    &&& e.end_ns == row.end_ns
}

/// The places name every row of every table, each once, and the events are those
/// of the places.
pub open spec fn lists_all_work(
    records: Seq<GpuWorkEventRecord>,
    tables: Seq<GpuWorkTable>,
    at: Seq<(int, int)>,
) -> bool {
    &&& at.len() == records.len()
    &&& at.no_duplicates()
    &&& forall|k: int| 0 <= k < records.len() ==> is_event_of(records[k], tables, #[trigger] at[k])
    &&& forall|t: int, i: int|
        0 <= t < tables.len() && 0 <= i < tables[t].rows@.len() ==> #[trigger] at.contains((t, i))
}

proof fn collected_is_by_cells(tables: Seq<GpuWorkTable>, n: nat)
    requires
        n <= tables.len(),
    ensures
        collected(tables, n).len() == cells(work_counts(tables), n).len(),
        forall|k: int|
            0 <= k < collected(tables, n).len() ==> {
                let c = cells(work_counts(tables), n)[k];
                (#[trigger] collected(tables, n)[k]) == event_of(
                    tables[c.0].kind.label@,
                    tables[c.0].rows@[c.1],
                )
            },
    decreases n,
{
    if n > 0 {
        collected_is_by_cells(tables, (n - 1) as nat);
        let counts = work_counts(tables);
        let less = collected(tables, (n - 1) as nat);
        let last = events_in(tables[n - 1]);
        assert forall|k: int| 0 <= k < collected(tables, n).len() implies {
            let c = cells(counts, n)[k];
            (#[trigger] collected(tables, n)[k]) == event_of(
                tables[c.0].kind.label@,
                tables[c.0].rows@[c.1],
            )
        } by {
            if k < less.len() {
                assert(collected(tables, n)[k] == less[k]);
                assert(cells(counts, n)[k] == cells(counts, (n - 1) as nat)[k]);
            } else {
                assert(collected(tables, n)[k] == last[k - less.len()]);
                assert(cells(counts, n)[k] == (n - 1, k - less.len()));
            }
        }
    }
}

/// Every row of every table has one event, with the label of its table and the
/// row's own number, device, stream, start and end; there are no other events.
pub proof fn events_are_the_rows(tables: Seq<GpuWorkTable>, records: Seq<GpuWorkEventRecord>)
    requires
        event_views(records) == sorted_events(collected(tables, tables.len())),
    ensures
        exists|at: Seq<(int, int)>| lists_all_work(records, tables, at),
{
    let counts = work_counts(tables);
    let places = cells(counts, tables.len());
    let events = collected(tables, tables.len());
    let ord = sort_order_of(event_keys(events));
    sorting_keeps_the_events(events);
    sort_order_exists(event_keys(events));
    collected_is_by_cells(tables, tables.len());
    cells_cover(counts, tables.len());
    let at = ord.map_values(|i: int| places[i]);
    assert(event_views(records).len() == records.len());
    assert forall|k: int| 0 <= k < records.len() implies is_event_of(
        records[k],
        tables,
        #[trigger] at[k],
    ) by {
        assert(event_views(records)[k] == records[k]@);
        assert(0 <= ord[k] < event_keys(events).len());
        assert(sorted_events(events)[k] == events[ord[k]]);
        assert(is_cell(counts, tables.len(), places[ord[k]]));
    }
    assert forall|t: int, i: int|
        0 <= t < tables.len() && 0 <= i < tables[t].rows@.len() implies #[trigger] at.contains(
        (t, i),
    ) by {
        assert(is_cell(counts, tables.len(), (t, i)));
        assert(places.contains((t, i)));
        let x: int = choose|x: int| 0 <= x < places.len() && places[x] == (t, i);
        assert(ord.contains(x));
        let k: int = choose|k: int| 0 <= k < ord.len() && ord[k] == x;
        assert(at[k] == (t, i));
    }
    assert(at.no_duplicates()) by {
        assert forall|j: int, k: int| 0 <= j < at.len() && 0 <= k < at.len() && j != k implies at[j]
            != at[k] by {
            assert(ord[j] != ord[k]);
            assert(0 <= ord[j] < event_keys(events).len() && 0 <= ord[k] < event_keys(events).len());
            assert(at[j] == places[ord[j]] && at[k] == places[ord[k]]);
        }
    }
    assert(lists_all_work(records, tables, at));
}

/// A text whose codes come first comes first.
pub proof fn codes_tell_order(a: Seq<char>, b: Seq<char>)
    requires
        lex_lt(char_codes(a), char_codes(b)),
    ensures
        text_before(a, b),
    decreases a.len(),
{
    let x = char_codes(a);
    let y = char_codes(b);
    assert(x.len() == a.len() && y.len() == b.len());
    if a.len() == 0 {
        assert(differ_first_at(a, b, 0));
    } else {
        assert(x[0] == a[0] as int && y[0] == b[0] as int);
        if a[0] == b[0] {
            let a1 = a.drop_first();
            let b1 = b.drop_first();
            assert(x.drop_first() =~= char_codes(a1));
            assert(y.drop_first() =~= char_codes(b1));
            codes_tell_order(a1, b1);
            let p: int = choose|p: int| differ_first_at(a1, b1, p);
            assert forall|i: int| 0 <= i < p + 1 implies a[i] == b[i] by {
                if i > 0 {
                    assert(a[i] == a1[i - 1] && b[i] == b1[i - 1]);
                }
            }
            assert(p < a1.len() ==> a[p + 1] == a1[p] && b[p + 1] == b1[p]);
            assert(differ_first_at(a, b, p + 1));
        } else {
            assert(differ_first_at(a, b, 0));
        }
    }
}

/// The events come in the order of their starts; at the same time by device, then
/// by stream, then by kind, then by row.
pub proof fn events_come_in_time_order(tables: Seq<GpuWorkTable>, records: Seq<GpuWorkEventRecord>, i: int, j: int)
    requires
        event_views(records) == sorted_events(collected(tables, tables.len())),
        0 <= i < j < records.len(),
    ensures
        records[i].start_ns <= records[j].start_ns,
        records[i].start_ns == records[j].start_ns ==> records[i].device_id <= records[j].device_id,
        records[i].start_ns == records[j].start_ns && records[i].device_id == records[j].device_id
            ==> records[i].stream_id <= records[j].stream_id,
        records[i].start_ns == records[j].start_ns && records[i].device_id == records[j].device_id
            && records[i].stream_id == records[j].stream_id ==> records[i].kind@ == records[j].kind@
            || text_before(records[i].kind@, records[j].kind@),
        records[i].start_ns == records[j].start_ns && records[i].device_id == records[j].device_id
            && records[i].stream_id == records[j].stream_id && records[i].kind@ == records[j].kind@
            ==> records[i].row_id <= records[j].row_id,
{
    let events = collected(tables, tables.len());
    assert(event_views(records).len() == records.len());
    assert(event_views(records)[i] == records[i]@ && event_views(records)[j] == records[j]@);
    events_are_in_order(events, i, j);
    assert(no_later(records[i]@, records[j]@));
    if records[i].start_ns == records[j].start_ns && records[i].device_id == records[j].device_id
        && records[i].stream_id == records[j].stream_id && records[i].kind@ != records[j].kind@ {
        codes_tell_order(records[i].kind@, records[j].kind@);
    }
}

} // verus!
