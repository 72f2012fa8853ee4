//! What is asked of the tables of a trace.
use super::gpu_work_events::codes_tell_order;
use super::text_before;
use crate::cuda_identity::{
    bridged_join_text, context_candidate_text, global_pid_candidate_text, native_pid_sql_text,
    process_candidates, projection_text, runtime_candidate_text,
};
use crate::order::{char_codes, placed_before, sort_order_covers, sort_order_exists, sort_order_of};
use crate::queries::{default_domain_ids, default_range_ids, ids_or, known_ids};
use crate::schema::TraceSchema;
use crate::views::{file_keys, table_in, table_listing, table_names};
use vstd::prelude::*;

verus! {

/// Some identifier was found.
pub open spec fn finds_some(ids: Option<Seq<Option<i64>>>) -> bool {
    ids matches Some(list) && list.filter(|id: Option<i64>| id is Some).len() > 0
}

proof fn known_are_found(ids: Seq<Option<i64>>, n: nat)
    requires
        n <= ids.len(),
    ensures
        known_ids(ids, n) == ids.take(n as int).filter(|id: Option<i64>| id is Some).map_values(
            |id: Option<i64>| id->0,
        ),
    decreases n,
{
    reveal(Seq::filter);
    let p = |id: Option<i64>| id is Some;
    let f = |id: Option<i64>| id->0;
    if n > 0 {
        known_are_found(ids, (n - 1) as nat);
        let less = ids.take(n - 1).filter(p);
        assert(ids.take(n as int).drop_last() =~= ids.take(n - 1));
        assert(ids.take(n as int).last() == ids[n - 1]);
        if ids[n - 1] is Some {
            assert(less.push(ids[n - 1]).map_values(f) =~= less.map_values(f).push(ids[n - 1]->0));
        }
    } else {
        assert(ids.take(0) =~= Seq::<Option<i64>>::empty());
        assert(ids.take(0).filter(p).map_values(f) =~= Seq::<i64>::empty());
    }
}

/// The identifiers of event types are those that the trace names, in order, without
/// the nulls; where it names none they are the usual ones.
pub proof fn usual_identifiers_stand_in(ids: Option<Seq<Option<i64>>>, usual: Seq<i64>)
    ensures
        finds_some(ids) ==> ids_or(ids, usual) == ids->0.filter(
            |id: Option<i64>| id is Some,
        ).map_values(|id: Option<i64>| id->0),
        !finds_some(ids) ==> ids_or(ids, usual) == usual,
        default_range_ids() == seq![59i64, 60, 70, 71],
        default_domain_ids() == seq![75i64],
{
    if let Some(list) = ids {
        known_are_found(list, list.len());
        assert(list.take(list.len() as int) =~= list);
    }
}

/// The trace has a table of the name with the column.
pub open spec fn offers(schema: &TraceSchema, table: Seq<char>, column: Seq<char>) -> bool {
    exists|t: int, c: int|
        0 <= t < schema.tables@.len() && (#[trigger] schema.tables@[t]).name@ == table && 0 <= c
            < schema.tables@[t].columns@.len() && (#[trigger] schema.tables@[t].columns@[c])@ == column
}

proof fn offered_columns(schema: &TraceSchema, table: Seq<char>, column: Seq<char>)
    ensures
        offers(schema, table, column) <==> schema.has_column(table, column),
        offers(schema, table, column) ==> schema.has(table),
{
    if offers(schema, table, column) {
        let (t, c): (int, int) = choose|t: int, c: int|
            0 <= t < schema.tables@.len() && (#[trigger] schema.tables@[t]).name@ == table && 0 <= c
                < schema.tables@[t].columns@.len() && (#[trigger] schema.tables@[t].columns@[c])@
                == column;
        assert(crate::text::strings(schema.tables@[t].columns@)[c] == column);
    }
    if schema.has_column(table, column) {
        let t: int = choose|t: int|
            0 <= t < schema.tables.len() && (#[trigger] schema.tables@[t]).name@ == table
                && crate::text::strings(schema.tables@[t].columns@).contains(column);
        let texts = crate::text::strings(schema.tables@[t].columns@);
        let c: int = choose|c: int| 0 <= c < texts.len() && texts[c] == column;
        assert(schema.tables@[t].columns@[c]@ == column);
    }
}

/// The table of processes relates global and native numbers.
pub open spec fn relates_processes(schema: &TraceSchema) -> bool {
    offers(schema, "PROCESSES"@, "globalPid"@) && offers(schema, "PROCESSES"@, "pid"@)
}

/// How the process of an event is told goes by the columns of its table: work on a
/// device and context is looked up; calls of a thread tell it by the thread; events
/// of a global process are bridged; others have none.
pub proof fn projections_follow_columns(
    schema: &TraceSchema,
    table: Seq<char>,
    event: Seq<char>,
    join: Seq<char>,
    start: Seq<char>,
)
    ensures
        ({
            let (expr, from) = projection_text(schema, table, event, join, start);
            let located = offers(schema, table, "deviceId"@) && offers(schema, table, "contextId"@);
            let threaded = offers(schema, table, "globalTid"@);
            let bridged = offers(schema, table, "globalPid"@) && relates_processes(schema);
            &&& located ==> expr == join + ".process_id"@
            &&& !located && threaded ==> expr == native_pid_sql_text(event + ".globalTid"@)
            &&& !located && threaded ==> from.len() == 0
            &&& !located && !threaded && bridged ==> expr == "CAST("@ + join + ".pid AS BIGINT)"@
            &&& !located && !threaded && bridged ==> from == bridged_join_text(join, event)
            &&& !located && !threaded && !bridged ==> expr == "CAST(NULL AS BIGINT)"@
            &&& !located && !threaded && !bridged ==> from.len() == 0
        }),
{
    offered_columns(schema, table, "deviceId"@);
    offered_columns(schema, table, "contextId"@);
    offered_columns(schema, table, "globalTid"@);
    offered_columns(schema, table, "globalPid"@);
    offered_columns(schema, "PROCESSES"@, "globalPid"@);
    offered_columns(schema, "PROCESSES"@, "pid"@);
}

/// The process of work is looked for by its global process, by its call and by its
/// context, in this order, as far as the trace has what that needs.
pub proof fn candidates_follow_tables(
    schema: &TraceSchema,
    table: Seq<char>,
    event: Seq<char>,
    start: Seq<char>,
)
    ensures
        ({
            let found = process_candidates(schema, table, event, start);
            let by_pid = offers(schema, table, "globalPid"@) && relates_processes(schema);
            let by_context = has_table(schema, "TARGET_INFO_CUDA_CONTEXT_INFO"@);
            let by_call = by_context && has_table(schema, "CUPTI_ACTIVITY_KIND_RUNTIME"@) && offers(
                schema,
                table,
                "correlationId"@,
            );
            &&& found.len() == count(by_pid) + count(by_call) + count(by_context)
            &&& by_pid ==> found[0] == global_pid_candidate_text(event)
            &&& by_call ==> found[count(by_pid)] == runtime_candidate_text(
                event,
                start,
                native_pid_sql_text("r.globalTid"@),
            )
            &&& by_context ==> found[count(by_pid) + count(by_call)] == context_candidate_text(event)
        }),
{
    offered_columns(schema, table, "globalPid"@);
    offered_columns(schema, table, "correlationId"@);
    offered_columns(schema, "PROCESSES"@, "globalPid"@);
    offered_columns(schema, "PROCESSES"@, "pid"@);
}

/// One where it holds, none otherwise.
pub open spec fn count(holds: bool) -> int {
    if holds {
        1
    } else {
        0
    }
}

/// The trace has a table of the name.
pub open spec fn has_table(schema: &TraceSchema, name: Seq<char>) -> bool {
    exists|t: int| 0 <= t < schema.tables@.len() && (#[trigger] schema.tables@[t]).name@ == name
}

/// The file is a table's: its name is the table's, not empty, and `.parquet`.
pub open spec fn is_table_file(file: Seq<char>, table: Seq<char>) -> bool {
    table.len() > 0 && file == table + ".parquet"@
}

/// A file with a table in it is named after the table.
pub proof fn table_files_are_named(file: Seq<char>)
    ensures
        forall|table: Seq<char>| is_table_file(file, table) <==> #[trigger] table_in(file) == Some(table),
{
    let suffix = ".parquet"@;
    reveal_strlit(".parquet");
    assert forall|table: Seq<char>|
        is_table_file(file, table) <==> #[trigger] table_in(file) == Some(table) by {
        if is_table_file(file, table) {
            assert(file.skip(file.len() - suffix.len()) =~= suffix);
            assert(file.take(file.len() - suffix.len()) =~= table);
        }
        if table_in(file) == Some(table) {
            assert(file =~= table + suffix);
        }
    }
}

proof fn kept_are_tables(files: Seq<Seq<char>>, n: nat, file: Seq<char>)
    requires
        n <= files.len(),
    ensures
        table_names(files, n).contains(file) <==> files.take(n as int).contains(file) && table_in(file)
            is Some,
    decreases n,
{
    if n > 0 {
        kept_are_tables(files, (n - 1) as nat, file);
        let less = table_names(files, (n - 1) as nat);
        let all = table_names(files, n);
        let front = files.take(n - 1);
        let some = files.take(n as int);
        assert(some =~= front.push(files[n - 1]));
        assert(some[n - 1] == files[n - 1]);
        if front.contains(file) {
            let k: int = choose|k: int| 0 <= k < front.len() && front[k] == file;
            assert(some[k] == file);
        }
        if some.contains(file) {
            let k: int = choose|k: int| 0 <= k < some.len() && some[k] == file;
            if k < n - 1 {
                assert(front[k] == file);
            }
        }
        if less.contains(file) {
            let k: int = choose|k: int| 0 <= k < less.len() && less[k] == file;
            assert(all[k] == file);
        }
        if table_in(files[n - 1]) is Some {
            assert(all[all.len() - 1] == files[n - 1]);
        }
        if all.contains(file) {
            let k: int = choose|k: int| 0 <= k < all.len() && all[k] == file;
            if k < less.len() {
                assert(less[k] == file);
            }
        }
    } else {
        assert(!files.take(0).contains(file));
    }
}

/// The tables of a directory are its files that are named after one, by name.
pub proof fn tables_are_listed(files: Seq<Seq<char>>, file: Seq<char>)
    ensures
        table_listing(files).contains(file) <==> files.contains(file) && exists|table: Seq<char>|
            is_table_file(file, table),
        forall|i: int, j: int|
            #![trigger table_listing(files)[i], table_listing(files)[j]]
            0 <= i < j < table_listing(files).len() ==> table_listing(files)[i] == table_listing(
                files,
            )[j] || text_before(table_listing(files)[i], table_listing(files)[j]),
{
    let kept = table_names(files, files.len());
    let keys = file_keys(kept);
    let order = sort_order_of(keys);
    let listed = table_listing(files);
    sort_order_exists(keys);
    sort_order_covers(keys, order);
    kept_are_tables(files, files.len(), file);
    table_files_are_named(file);
    assert(files.take(files.len() as int) =~= files);
    if table_in(file) is Some {
        assert(is_table_file(file, table_in(file)->0));
    }
    assert(listed.contains(file) <==> kept.contains(file)) by {
        if listed.contains(file) {
            let k: int = choose|k: int| 0 <= k < listed.len() && listed[k] == file;
            assert(order.to_set().contains(order[k]));
            assert(kept[order[k]] == file);
        }
        if kept.contains(file) {
            let i: int = choose|i: int| 0 <= i < kept.len() && kept[i] == file;
            assert(order.contains(i));
            let k: int = choose|k: int| 0 <= k < order.len() && order[k] == i;
            assert(listed[k] == file);
        }
    }
    assert forall|i: int, j: int|
        #![trigger listed[i], listed[j]]
        0 <= i < j < listed.len() implies listed[i] == listed[j] || text_before(listed[i], listed[j]) by {
        assert(placed_before(keys, order[i], order[j]));
        assert(order.to_set().contains(order[i]) && order.to_set().contains(order[j]));
        if crate::order::lex_lt(char_codes(listed[i]), char_codes(listed[j])) {
            codes_tell_order(listed[i], listed[j]);
        } else {
            let a = listed[i];
            let b = listed[j];
            assert(char_codes(a) == char_codes(b));
            assert(a.len() == char_codes(a).len() && b.len() == char_codes(b).len());
            assert forall|x: int| 0 <= x < a.len() implies a[x] == b[x] by {
                assert(char_codes(a)[x] == a[x] as int);
                assert(char_codes(b)[x] == b[x] as int);
            }
            assert(a =~= b);
        }
    }
}

} // verus!
