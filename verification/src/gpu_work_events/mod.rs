//! Normalized GPU work event sidecar for gaps-style interval queries.
//!
//! `<trace>.veloq/gpu-work-events.parquet` contains the minimal
//! kernel / memcpy / memset / graph-trace interval surface shared by
//! gap planning: event kind, source row id, device, stream, start, and
//! end. It does not store display names; queries look names up in the source
//! tables after they have cut their rows down, so that what a name means is
//! settled in one place.
use crate::gpu_work::GpuWorkKind;
use crate::laws::gpu_work_events::{events_are_the_rows, lists_all_work};
use crate::order::{
    char_codes, keys_of, lex_lt, lex_lt_after, numbers, placed_before,
    positions, sort_order, sort_order_covers, sort_order_exists, sort_order_of, ListKey, SortKey,
};
use crate::paths::{artifact, artifact_path};
use crate::text::str_chars;
use crate::views::{quote_sql_identifier, quoted, view_sql, view_text};
use vstd::prelude::*;
use vstd::string::StringExecFns;

pub mod parquet;

verus! {

/// Grows with every breaking change of the sidecar's columns; a sidecar of
/// another version is rebuilt.
pub const GPU_WORK_EVENTS_VERSION: u32 = 1;

/// One duration-bearing GPU work interval.
#[derive(Debug, Clone, PartialEq, Eq)]
pub struct GpuWorkEventRecord {
    pub kind: String,
    pub row_id: i64,
    pub device_id: i32,
    pub stream_id: i64,
    pub start_ns: i64,
    pub end_ns: i64,
}

/// A GPU work interval, its kind as text.
pub struct GpuWorkEventView {
    pub kind: Seq<char>,
    pub row_id: i64,
    pub device_id: i32,
    pub stream_id: i64,
    pub start_ns: i64,
    pub end_ns: i64,
}

impl View for GpuWorkEventRecord {
    type V = GpuWorkEventView;

    open spec fn view(&self) -> GpuWorkEventView {
        GpuWorkEventView {
            kind: self.kind@,
            row_id: self.row_id,
            device_id: self.device_id,
            stream_id: self.stream_id,
            start_ns: self.start_ns,
            end_ns: self.end_ns,
        }
    }
}

/// The records, their kinds as text.
pub open spec fn event_views(records: Seq<GpuWorkEventRecord>) -> Seq<GpuWorkEventView> {
    records.map_values(|r: GpuWorkEventRecord| r@)
}

/// One row of a GPU work table.
#[derive(Debug, Clone, Copy, PartialEq, Eq, Structural)]
pub struct GpuWorkRow {
    pub row_id: i64,
    pub device_id: i32,
    /// 0 where the table has no stream.
    pub stream_id: i64,
    pub start_ns: i64,
    pub end_ns: i64,
}

/// The rows of one GPU work table.
#[derive(Debug)]
pub struct GpuWorkTable {
    pub kind: GpuWorkKind,
    pub rows: Vec<GpuWorkRow>,
}

/// Path of the sidecar under `<trace>.veloq/`.
pub fn sidecar_path_for(trace_path: &str) -> (path: String)
    ensures
        path@ == artifact(trace_path@, "gpu-work-events.parquet"@),
{
    artifact_path(trace_path, "gpu-work-events.parquet")
}

/// SQL that shows the sidecar as `nsight.gpu_work_events`.
pub fn view_sql_for(sidecar_path: &str) -> (text: String)
    ensures
        text@ == view_text("gpu_work_events"@, sidecar_path@),
{
    view_sql("gpu_work_events", sidecar_path)
}

/// SQL for the rows of a GPU work table.
pub open spec fn rows_text(table: Seq<char>) -> Seq<char> {
    "SELECT t.rowid AS row_id, CAST(t.deviceId AS INTEGER) AS device_id, \
        CAST(COALESCE(t.streamId, 0) AS BIGINT) AS stream_id, t.start AS start_ns, \
        t.\"end\" AS end_ns FROM nsight."@
        + quoted(table) + " t ORDER BY start_ns, row_id"@
}

/// SQL for the rows of a GPU work table.
pub fn rows_sql(table: &str) -> (text: String)
    ensures
        text@ == rows_text(table@),
{
    let mut text = "SELECT t.rowid AS row_id, CAST(t.deviceId AS INTEGER) AS device_id, \
        CAST(COALESCE(t.streamId, 0) AS BIGINT) AS stream_id, t.start AS start_ns, \
        t.\"end\" AS end_ns FROM nsight.".to_owned();
    text.append(quote_sql_identifier(table).as_str());
    text.append(" t ORDER BY start_ns, row_id");
    text
}

/// A row of a table as an event of its kind.
pub open spec fn event_of(kind: Seq<char>, row: GpuWorkRow) -> GpuWorkEventView {
    GpuWorkEventView {
        kind,
        row_id: row.row_id,
        device_id: row.device_id,
        stream_id: row.stream_id,
        start_ns: row.start_ns,
        end_ns: row.end_ns,
    }
}

/// The events of a table, in the order of its rows.
pub open spec fn events_in(table: GpuWorkTable) -> Seq<GpuWorkEventView> {
    table.rows@.map_values(|row: GpuWorkRow| event_of(table.kind.label@, row))
}

/// The events of the first `n` tables, table by table.
pub open spec fn collected(tables: Seq<GpuWorkTable>, n: nat) -> Seq<GpuWorkEventView>
    decreases n,
{
    if n == 0 {
        seq![]
    } else {
        collected(tables, (n - 1) as nat) + events_in(tables[n - 1])
    }
}

/// Events are ordered by start, device, stream, kind and row.
///
/// The kind is closed by a number below every code point, so that one kind
/// that starts another comes before it.
pub open spec fn event_key(e: GpuWorkEventView) -> Seq<int> {
    seq![e.start_ns as int, e.device_id as int, e.stream_id as int] + char_codes(e.kind) + seq![
        -1int,
        e.row_id as int,
    ]
}

/// Sort keys of the events.
pub open spec fn event_keys(events: Seq<GpuWorkEventView>) -> Seq<Seq<int>> {
    events.map_values(|e: GpuWorkEventView| event_key(e))
}

/// The events in order.
pub open spec fn sorted_events(events: Seq<GpuWorkEventView>) -> Seq<GpuWorkEventView> {
    sort_order_of(event_keys(events)).map_values(|i: int| events[i])
}

fn code(c: char) -> (n: i128)
    ensures
        n == c as int,
{
    c as u32 as i128
}

fn key_of(record: &GpuWorkEventRecord) -> (key: ListKey)
    ensures
        key.sort_key() == event_key(record@),
{
    let chars = str_chars(record.kind.as_str());
    let mut parts: Vec<i128> = Vec::new();
    parts.push(record.start_ns as i128);
    parts.push(record.device_id as i128);
    parts.push(record.stream_id as i128);
    let mut i: usize = 0;
    while i < chars.len()
        invariant
            i <= chars.len(),
            chars@ == record.kind@,
            parts.len() == 3 + i,
            parts@[0] == record.start_ns,
            parts@[1] == record.device_id,
            parts@[2] == record.stream_id,
            forall|x: int| 0 <= x < i ==> #[trigger] parts@[3 + x] == chars@[x] as int,
        decreases chars.len() - i,
    {
        parts.push(code(chars[i]));
        i = i + 1;
    }
    parts.push(-1);
    parts.push(record.row_id as i128);
    let key = ListKey { parts };
    proof {
        let want = event_key(record@);
        let got = numbers(key.parts@);
        assert forall|x: int| 0 <= x < want.len() implies got[x] == want[x] by {
            if 3 <= x < 3 + chars.len() {
                assert(key.parts@[3 + (x - 3)] == chars@[x - 3] as int);
            }
        }
        assert(got =~= want);
    }
    key
}

/// Appends the events of one table.
fn collect_kind(table: &GpuWorkTable, out: &mut Vec<GpuWorkEventRecord>)
    ensures
        event_views(final(out)@) == event_views(old(out)@) + events_in(*table),
{
    let ghost before = event_views(out@);
    let ghost events = events_in(*table);
    let mut i: usize = 0;
    assert(event_views(out@) =~= before + events.take(0));
    while i < table.rows.len()
        invariant
            i <= table.rows.len(),
            events == events_in(*table),
            event_views(out@) == before + events.take(i as int),
        decreases table.rows.len() - i,
    {
        let row = table.rows[i];
        let ghost so_far = event_views(out@);
        out.push(
            GpuWorkEventRecord {
                kind: table.kind.label.to_owned(),
                row_id: row.row_id,
                device_id: row.device_id,
                stream_id: row.stream_id,
                start_ns: row.start_ns,
                end_ns: row.end_ns,
            },
        );
        proof {
            assert(out@.last()@ == events[i as int]);
            assert(event_views(out@) =~= so_far.push(events[i as int]));
            assert(events.take(i + 1) =~= events.take(i as int).push(events[i as int]));
            assert(event_views(out@) =~= before + events.take(i + 1));
        }
        i = i + 1;
    }
    assert(events.take(table.rows.len() as int) =~= events);
}

/// The events of the tables, in order. The tables come in the order of
/// [`crate::gpu_work::gpu_work_interval_kinds`], those that a trace lacks left
/// out.
pub fn compute(tables: &Vec<GpuWorkTable>) -> (records: Vec<GpuWorkEventRecord>)
    ensures
        event_views(records@) == sorted_events(collected(tables@, tables@.len())),
        exists|at: Seq<(int, int)>| lists_all_work(records@, tables@, at),
{
    let mut all: Vec<GpuWorkEventRecord> = Vec::new();
    let mut t: usize = 0;
    assert(event_views(all@) =~= seq![]);
    while t < tables.len()
        invariant
            t <= tables.len(),
            event_views(all@) == collected(tables@, t as nat),
        decreases tables.len() - t,
    {
        collect_kind(&tables[t], &mut all);
        t = t + 1;
    }
    let ghost events = collected(tables@, tables@.len());
    let mut keys: Vec<ListKey> = Vec::new();
    let mut i: usize = 0;
    while i < all.len()
        invariant
            i <= all.len(),
            keys.len() == i,
            forall|x: int| 0 <= x < i ==> (#[trigger] keys@[x]).sort_key() == event_key(all@[x]@),
        decreases all.len() - i,
    {
        keys.push(key_of(&all[i]));
        i = i + 1;
    }
    assert(keys_of(keys@) =~= event_keys(events)) by {
        assert forall|x: int| 0 <= x < events.len() implies #[trigger] keys_of(keys@)[x]
            == event_key(events[x]) by {
            assert(event_views(all@)[x] == all@[x]@);
        }
    }
    let order = sort_order(keys.as_slice());
    let ghost want = sorted_events(events);
    assert forall|x: int| 0 <= x < order.len() implies 0 <= #[trigger] order@[x] < all.len() by {
        assert(0 <= positions(order@)[x] < all.len());
    }
    let mut records: Vec<GpuWorkEventRecord> = Vec::new();
    let mut j: usize = 0;
    while j < order.len()
        invariant
            j <= order.len(),
            records.len() == j,
            events == event_views(all@),
            want == sorted_events(events),
            positions(order@) == sort_order_of(event_keys(events)),
            want.len() == order.len(),
            forall|x: int| 0 <= x < order.len() ==> 0 <= #[trigger] order@[x] < all.len(),
            forall|x: int| 0 <= x < j ==> (#[trigger] records@[x])@ == want[x],
        decreases order.len() - j,
    {
        assert(positions(order@)[j as int] == order@[j as int]);
        let from = &all[order[j]];
        records.push(
            GpuWorkEventRecord {
                kind: from.kind.clone(),
                row_id: from.row_id,
                device_id: from.device_id,
                stream_id: from.stream_id,
                start_ns: from.start_ns,
                end_ns: from.end_ns,
            },
        );
        assert(event_views(all@)[order@[j as int] as int] == from@);
        j = j + 1;
    }
    assert(event_views(records@) =~= want);
    proof {
        events_are_the_rows(tables@, records@);
    }
    records
}

/// `a` comes no later than `b` by start, then device, then stream, then kind,
/// then row.
pub open spec fn no_later(a: GpuWorkEventView, b: GpuWorkEventView) -> bool {
    if a.start_ns != b.start_ns {
        a.start_ns < b.start_ns
    } else if a.device_id != b.device_id {
        a.device_id < b.device_id
    } else if a.stream_id != b.stream_id {
        a.stream_id < b.stream_id
    } else if a.kind != b.kind {
        lex_lt(char_codes(a.kind), char_codes(b.kind))
    } else {
        a.row_id <= b.row_id
    }
}

proof fn code_is_natural(c: char)
    ensures
        c as int >= 0,
{
}

/// Of two texts that are closed by a number below every code point, the one that
/// is less comes first.
proof fn closed_text_order(a: Seq<char>, b: Seq<char>, p: int, q: int)
    requires
        a != b,
        lex_lt(char_codes(a) + seq![-1int, p], char_codes(b) + seq![-1int, q]),
    ensures
        lex_lt(char_codes(a), char_codes(b)),
    decreases a.len(),
{
    let x = char_codes(a) + seq![-1int, p];
    let y = char_codes(b) + seq![-1int, q];
    if a.len() == 0 {
        assert(b.len() > 0) by {
            if b.len() == 0 {
                assert(a =~= b);
            }
        }
        assert(char_codes(a).len() == 0 && char_codes(b).len() > 0);
    } else if b.len() == 0 {
        assert(y[0] == -1);
        assert(x[0] == a[0] as int);
        code_is_natural(a[0]);
        assert(!lex_lt(x, y));
    } else {
        assert(x[0] == a[0] as int && y[0] == b[0] as int);
        assert(char_codes(a)[0] == a[0] as int && char_codes(b)[0] == b[0] as int);
        if a[0] == b[0] {
            let a1 = a.drop_first();
            let b1 = b.drop_first();
            assert(x.drop_first() =~= char_codes(a1) + seq![-1int, p]);
            assert(y.drop_first() =~= char_codes(b1) + seq![-1int, q]);
            assert(a1 != b1) by {
                if a1 == b1 {
                    assert(a =~= seq![a[0]] + a1);
                    assert(b =~= seq![b[0]] + b1);
                }
            }
            assert(lex_lt(x.drop_first(), y.drop_first()));
            closed_text_order(a1, b1, p, q);
            assert(char_codes(a).drop_first() =~= char_codes(a1));
            assert(char_codes(b).drop_first() =~= char_codes(b1));
        }
    }
}

/// Events with equal keys have the same kind.
proof fn keys_tell_kinds(a: GpuWorkEventView, b: GpuWorkEventView)
    requires
        event_key(a) == event_key(b),
    ensures
        a.kind == b.kind,
{
    let x = event_key(a);
    let y = event_key(b);
    assert(x.len() == 5 + a.kind.len() && y.len() == 5 + b.kind.len());
    assert forall|i: int| 0 <= i < a.kind.len() implies a.kind[i] == b.kind[i] by {
        assert(x[3 + i] == a.kind[i] as int);
        assert(y[3 + i] == b.kind[i] as int);
    }
    assert(a.kind =~= b.kind);
}

proof fn key_order(a: GpuWorkEventView, b: GpuWorkEventView)
    requires
        lex_lt(event_key(a), event_key(b)) || event_key(a) == event_key(b),
    ensures
        no_later(a, b),
{
    let x = event_key(a);
    let y = event_key(b);
    assert(x[0] == a.start_ns && y[0] == b.start_ns);
    assert(x.drop_first()[0] == a.device_id && y.drop_first()[0] == b.device_id);
    assert(x.drop_first().drop_first()[0] == a.stream_id && y.drop_first().drop_first()[0]
        == b.stream_id);
    reveal_with_fuel(lex_lt, 4);
    let same = a.start_ns == b.start_ns && a.device_id == b.device_id && a.stream_id
        == b.stream_id;
    if same && a.kind != b.kind {
        assert(x.subrange(0, 3) =~= y.subrange(0, 3));
        lex_lt_after(x, y, 3);
        let p = x.subrange(3, x.len() as int);
        let q = y.subrange(3, y.len() as int);
        assert(p =~= char_codes(a.kind) + seq![-1int, a.row_id as int]);
        assert(q =~= char_codes(b.kind) + seq![-1int, b.row_id as int]);
        if x == y {
            keys_tell_kinds(a, b);
        }
        closed_text_order(a.kind, b.kind, a.row_id as int, b.row_id as int);
    } else if same {
        let n = 4 + a.kind.len() as int;
        assert(x.subrange(0, n) =~= y.subrange(0, n));
        lex_lt_after(x, y, n);
        assert(x[n] == a.row_id && y[n] == b.row_id);
        let p = x.subrange(n, x.len() as int);
        let q = y.subrange(n, y.len() as int);
        assert(p[0] == a.row_id && q[0] == b.row_id);
        assert(lex_lt(p, q) ==> a.row_id <= b.row_id);
    }
}

/// The events come by start, then by device, then by stream, then by kind, then
/// by row.
pub proof fn events_are_in_order(events: Seq<GpuWorkEventView>, i: int, j: int)
    requires
        0 <= i < j < sorted_events(events).len(),
    ensures
        no_later(sorted_events(events)[i], sorted_events(events)[j]),
{
    let keys = event_keys(events);
    let order = sort_order_of(keys);
    sort_order_exists(keys);
    assert(placed_before(keys, order[i], order[j]));
    key_order(events[order[i]], events[order[j]]);
}

/// Sorting keeps every event: the places of the events are those of the order,
/// which lists each of them once.
pub proof fn sorting_keeps_the_events(events: Seq<GpuWorkEventView>)
    ensures
        sorted_events(events).len() == events.len(),
        sort_order_of(event_keys(events)).no_duplicates(),
        forall|i: int|
            0 <= i < events.len() ==> #[trigger] sort_order_of(event_keys(events)).contains(i),
        forall|x: int|
            0 <= x < events.len() ==> (#[trigger] sorted_events(events)[x])
                == events[sort_order_of(event_keys(events))[x]],
{
    let keys = event_keys(events);
    sort_order_exists(keys);
    sort_order_covers(keys, sort_order_of(keys));
}

} // verus!
