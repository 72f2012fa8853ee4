//! Trace-map projection: what is this trace?
//!
//! - **devices**: count and CUDA ordinals, from `TARGET_INFO_GPU.cuDevice`
//!   (preferred) or the distinct devices of `CUPTI_ACTIVITY_KIND_KERNEL`.
//! - **processes**: count, sorted native pids and the launches recovered from
//!   the `PROCESS_N:` rows of `META_DATA_CAPTURE`, each labelled by its
//!   rank-style environment (`rank=`, `local_rank=`, `slurm_procid=`,
//!   `mpi_comm_world_rank=`, `pmi_rank=`).
//! - **nvtx**: domain inventory and the paths with the most time, from the
//!   NVTX tree; `None` when the trace has neither.
use crate::cuda_identity::{native_pid, native_pid_from_global_tid};
use crate::keymap::PairMap;
use crate::nvtx_tree::{NvtxTree, NvtxTreeRecord};
use crate::order::{
    char_codes, distinct_numbers, distinct_pairs, keys_of, lex_lt, numbers, numbers_grow,
    pairs_grow, placed_before, positions, sort_order, sort_order_covers, ListKey, SortKey,
};
use crate::paths::{file_tail, tail_start, text_of, without_prefix};
use crate::text::{
    decimal, join, joined, parse_unsigned, parsed_unsigned, slice_string, split_once,
    split_once_of, str_chars, str_eq, strings, trim_text, trimmed_text, u64_text,
};
use vstd::hash_map::StringHashMap;
use vstd::prelude::*;
use vstd::string::StringExecFns;

verus! {

/// Most paths that [`NvtxSummary::top_paths`] holds by default. The long tail
/// would blow the summary up on traces with thousands of distinct paths; ten
/// is enough to see the hierarchy and pick a scope.
pub const NVTX_TOP_PATHS_DEFAULT: usize = 10;

/// Snapshot of a trace. Devices and processes are always there but can be
/// empty when the source tables are missing.
#[derive(Debug)]
pub struct TraceMap {
    pub devices: DeviceInventory,
    pub processes: ProcessInventory,
    pub nvtx: Option<NvtxSummary>,
}

/// Distinct CUDA device ids seen in the trace.
#[derive(Debug, Clone)]
pub struct DeviceInventory {
    pub count: usize,
    /// Ascending.
    pub ids: Vec<i32>,
}

/// Distinct native pids that produced rows, and the launches of the capture.
#[derive(Debug)]
pub struct ProcessInventory {
    pub count: usize,
    /// Ascending.
    pub native_pids: Vec<i64>,
    pub launches: Vec<ProcessLaunch>,
}

/// One launch of the capture.
#[derive(Debug, Clone)]
pub struct ProcessLaunch {
    /// The `N` of `PROCESS_N`.
    pub index: u32,
    /// `"rank=0,local_rank=0"` style where one of the rank variables was set;
    /// else the short name of the command, or `"process_N"` as a last resort.
    pub label: String,
    /// `PROCESS_N:COMMAND`, where it is there.
    pub command: Option<String>,
}

/// Which domains the trace uses and its paths by total duration.
#[derive(Debug)]
pub struct NvtxSummary {
    pub domains: Vec<NvtxDomain>,
    pub top_paths: Vec<NvtxTopPath>,
}

/// One NVTX domain. Its id is a handle that a process hands out in the order
/// of creation, so the same id means different domains in different processes:
/// identity is the `(pid, id)` pair. Ranges of the default domain have id 0 and
/// no name.
#[derive(Debug, Clone, PartialEq, Eq)]
pub struct NvtxDomain {
    /// Owning process.
    pub pid: i64,
    pub id: i64,
    pub name: Option<String>,
}

/// One NVTX path: the time under it across all instances, and their number.
#[derive(Debug, Clone)]
pub struct NvtxTopPath {
    pub path: String,
    pub total_ns: i64,
    pub instances: u64,
}

/// The numbers are the distinct ones of the source, ascending.
pub open spec fn is_inventory(values: Seq<i64>, source: Seq<i64>) -> bool {
    numbers_grow(values) && forall|v: i64| #[trigger] values.contains(v) <==> source.contains(v)
}

/// The ids that are there.
pub open spec fn present_ids(ids: Seq<Option<i32>>, n: nat) -> Seq<i32>
    decreases n,
{
    if n == 0 {
        seq![]
    } else {
        match ids[n - 1] {
            Some(id) => present_ids(ids, (n - 1) as nat).push(id),
            None => present_ids(ids, (n - 1) as nat),
        }
    }
}

/// The device ids as wide integers.
pub open spec fn wide(ids: Seq<i32>) -> Seq<i64> {
    ids.map_values(|id: i32| id as i64)
}

/// The device ids that a trace shows: those of its GPU table, or those of its
/// kernels where that has none.
pub open spec fn seen_devices(
    gpus: Option<Seq<Option<i32>>>,
    kernels: Option<Seq<i32>>,
) -> Seq<i32> {
    if gpus is Some && present_ids(gpus->0, gpus->0.len()).len() > 0 {
        present_ids(gpus->0, gpus->0.len())
    } else {
        match kernels {
            Some(ids) => ids,
            None => seq![],
        }
    }
}

/// The contents of a list that is there.
pub open spec fn list_of<T>(list: Option<&Vec<T>>) -> Option<Seq<T>> {
    match list {
        Some(v) => Some(v@),
        None => None,
    }
}

/// The devices of a trace. `gpus` are the ordinals of its GPU table, `kernels`
/// the devices of its kernel table; each is `None` where the trace lacks the
/// table.
pub fn build_devices(gpus: Option<&Vec<Option<i32>>>, kernels: Option<&Vec<i32>>) -> (devices:
    DeviceInventory)
    ensures
        devices.count == devices.ids@.len(),
        is_inventory(wide(devices.ids@), wide(seen_devices(list_of(gpus), list_of(kernels)))),
{
    let ghost seen = seen_devices(list_of(gpus), list_of(kernels));
    let mut values: Vec<i64> = Vec::new();
    if let Some(list) = gpus {
        let mut i: usize = 0;
        while i < list.len()
            invariant
                i <= list.len(),
                values@ =~= wide(present_ids(list@, i as nat)),
            decreases list.len() - i,
        {
            if let Some(id) = list[i] {
                values.push(id as i64);
            }
            i = i + 1;
        }
    }
    if values.len() == 0 {
        if let Some(list) = kernels {
            let mut i: usize = 0;
            while i < list.len()
                invariant
                    i <= list.len(),
                    values@ =~= wide(list@.take(i as int)),
                decreases list.len() - i,
            {
                values.push(list[i] as i64);
                i = i + 1;
            }
            assert(list@.take(list.len() as int) =~= list@);
        }
    }
    assert(values@ =~= wide(seen));
    let distinct = distinct_numbers(&values);
    let mut ids: Vec<i32> = Vec::with_capacity(distinct.len());
    assert forall|x: int| 0 <= x < distinct.len() implies i32::MIN <= #[trigger] distinct@[x]
        <= i32::MAX by {
        assert(distinct@.contains(distinct@[x]));
        assert(values@.contains(distinct@[x]));
        let y = choose|y: int| 0 <= y < values@.len() && values@[y] == distinct@[x];
        assert(values@[y] == seen[y] as i64);
    }
    let mut i: usize = 0;
    while i < distinct.len()
        invariant
            i <= distinct.len(),
            ids.len() == i,
            forall|x: int|
                0 <= x < distinct.len() ==> i32::MIN <= #[trigger] distinct@[x] <= i32::MAX,
            forall|x: int| 0 <= x < i ==> #[trigger] ids@[x] as i64 == distinct@[x],
        decreases distinct.len() - i,
    {
        ids.push(distinct[i] as i32);
        i = i + 1;
    }
    assert(wide(ids@) =~= distinct@);
    DeviceInventory { count: ids.len(), ids }
}

/// The processes that a trace shows: those of its process table, or those of
/// its contexts where that has none.
pub open spec fn seen_processes(
    processes: Option<Seq<i64>>,
    contexts: Option<Seq<i64>>,
) -> Seq<i64> {
    if processes is Some && processes->0.len() > 0 {
        processes->0
    } else {
        match contexts {
            Some(pids) => pids,
            None => seq![],
        }
    }
}

/// The processes of a trace. `processes` are the pids of its process table,
/// `contexts` those of its context table; each is `None` where the trace lacks
/// the table. `capture` holds the rows of its capture metadata, empty where it
/// has none.
pub fn build_processes(
    processes: Option<&Vec<i64>>,
    contexts: Option<&Vec<i64>>,
    capture: &Vec<CaptureRow>,
) -> (inventory: ProcessInventory)
    ensures
        inventory.count == inventory.native_pids@.len(),
        is_inventory(
            inventory.native_pids@,
            seen_processes(list_of(processes), list_of(contexts)),
        ),
        are_launches(inventory.launches@, capture@),
{
    let native_pids = match processes {
        Some(pids) if pids.len() > 0 => distinct_numbers(pids),
        _ => match contexts {
            Some(pids) => distinct_numbers(pids),
            None => Vec::new(),
        },
    };
    let launches = collect_launches(capture);
    ProcessInventory { count: native_pids.len(), native_pids, launches }
}

/// One row of `META_DATA_CAPTURE`.
#[derive(Debug, Clone)]
pub struct CaptureRow {
    pub name: String,
    pub value: String,
}

/// The process and the field that a capture row is about.
pub open spec fn process_key(key: Seq<char>) -> Option<(u32, Seq<char>)> {
    match without_prefix(key, "PROCESS_"@) {
        None => None,
        Some(rest) => match split_once_of(rest, ':') {
            None => None,
            Some((index, field)) => match parsed_unsigned(index, u32::MAX as nat) {
                None => None,
                Some(n) => Some((n as u32, field)),
            },
        },
    }
}

/// The process and the field that a key is about.
pub fn split_process_key(key: &str) -> (parts: Option<(u32, String)>)
    ensures
        match parts {
            Some((index, field)) => process_key(key@) == Some((index, field@)),
            None => process_key(key@) is None,
        },
{
    let rest = match crate::paths::strip_prefix(key, "PROCESS_") {
        None => {
            return None;
        },
        Some(rest) => rest,
    };
    match split_once(rest.as_str(), ':') {
        None => None,
        Some((index, field)) => match parse_unsigned(index.as_str(), 0xffff_ffff) {
            Ok(n) => Some((n as u32, field)),
            Err(_) => None,
        },
    }
}

/// The text without one quote at its start and one at its end.
pub open spec fn unquoted(text: Seq<char>) -> Seq<char> {
    let rest = if text.len() > 0 && text[0] == '"' {
        text.skip(1)
    } else {
        text
    };
    if rest.len() > 0 && rest.last() == '"' {
        rest.drop_last()
    } else {
        rest
    }
}

/// The name and the value of an environment entry.
pub open spec fn env_assignment(raw: Seq<char>) -> Option<(Seq<char>, Seq<char>)> {
    match split_once_of(raw, '=') {
        None => None,
        Some((name, value)) => Some((name, unquoted(trimmed_text(value)))),
    }
}

fn unquote(text: &str) -> (rest: String)
    ensures
        rest@ == unquoted(text@),
{
    let chars = str_chars(text);
    let mut from: usize = 0;
    let mut to: usize = chars.len();
    if from < to && chars[from] == '"' {
        from = from + 1;
    }
    let ghost middle = chars@.subrange(from as int, to as int);
    assert(middle =~= if text@.len() > 0 && text@[0] == '"' {
        text@.skip(1)
    } else {
        text@
    });
    if from < to && chars[to - 1] == '"' {
        to = to - 1;
        assert(chars@.subrange(from as int, to as int) =~= middle.drop_last());
    }
    slice_string(chars.as_slice(), from, to)
}

/// The name and the value of an environment entry: `KEY=VALUE` or
/// `KEY="VALUE"`. The quotes do not belong to the value.
pub fn parse_env_assignment(raw: &str) -> (entry: Option<(String, String)>)
    ensures
        match entry {
            Some((name, value)) => env_assignment(raw@) == Some((name@, value@)),
            None => env_assignment(raw@) is None,
        },
{
    match split_once(raw, '=') {
        None => None,
        Some((name, value)) => {
            let value = unquote(trim_text(value.as_str()).as_str());
            Some((name, value))
        },
    }
}

/// Variables whose values labels show, in the order in which they show them,
/// and the names under which they do.
pub open spec fn rank_keys() -> Seq<(Seq<char>, Seq<char>)> {
    seq![
        ("RANK"@, "rank"@),
        ("LOCAL_RANK"@, "local_rank"@),
        ("SLURM_PROCID"@, "slurm_procid"@),
        ("MPI_COMM_WORLD_RANK"@, "mpi_comm_world_rank"@),
        ("PMI_RANK"@, "pmi_rank"@),
    ]
}

/// One environment variable.
#[derive(Debug, Clone)]
pub struct EnvVar {
    pub name: String,
    pub value: String,
}

/// A variable's name and value.
pub type Setting = (Seq<char>, Seq<char>);

/// The names and values of the variables.
pub open spec fn settings(env: Seq<EnvVar>) -> Seq<Setting> {
    env.map_values(|v: EnvVar| (v.name@, v.value@))
}

/// The value that the variable was set to last.
pub open spec fn env_value(env: Seq<Setting>, name: Seq<char>) -> Option<Seq<char>>
    decreases env.len(),
{
    if env.len() == 0 {
        None
    } else if env.last().0 == name {
        Some(env.last().1)
    } else {
        env_value(env.drop_last(), name)
    }
}

/// The label parts of the first `n` rank variables.
pub open spec fn rank_parts(env: Seq<Setting>, n: nat) -> Seq<Seq<char>>
    decreases n,
{
    if n == 0 {
        seq![]
    } else {
        let before = rank_parts(env, (n - 1) as nat);
        match env_value(env, rank_keys()[n - 1].0) {
            Some(value) => before.push(rank_keys()[n - 1].1 + "="@ + value),
            None => before,
        }
    }
}

/// The short name of a command.
pub open spec fn basename(command: Seq<char>) -> Seq<char> {
    trimmed_text(command.skip(tail_start(command)))
}

/// The label of a launch.
pub open spec fn label_of(index: u32, command: Option<Seq<char>>, env: Seq<Setting>) -> Seq<char> {
    let parts = rank_parts(env, 5);
    if parts.len() > 0 {
        joined(parts, ","@)
    } else if command is Some && basename(command->0).len() > 0 {
        basename(command->0)
    } else {
        "process_"@ + decimal(index as int)
    }
}

fn find_env<'a>(env: &'a Vec<EnvVar>, name: &str) -> (value: Option<&'a str>)
    ensures
        match value {
            Some(v) => env_value(settings(env@), name@) == Some(v@),
            None => env_value(settings(env@), name@) is None,
        },
{
    let ghost all = settings(env@);
    let mut n: usize = env.len();
    assert(all.take(n as int) =~= all);
    while n > 0
        invariant
            n <= env.len(),
            all == settings(env@),
            env_value(all, name@) == env_value(all.take(n as int), name@),
        decreases n,
    {
        assert(all.take(n as int).drop_last() =~= all.take(n - 1));
        assert(all.take(n as int).last() == (env@[n - 1].name@, env@[n - 1].value@));
        if str_eq(env[n - 1].name.as_str(), name) {
            return Some(env[n - 1].value.as_str());
        }
        n = n - 1;
    }
    None
}

fn rank_key(i: usize) -> (key: (&'static str, &'static str))
    requires
        i < 5,
    ensures
        (key.0@, key.1@) == rank_keys()[i as int],
{
    match i {
        0 => ("RANK", "rank"),
        1 => ("LOCAL_RANK", "local_rank"),
        2 => ("SLURM_PROCID", "slurm_procid"),
        3 => ("MPI_COMM_WORLD_RANK", "mpi_comm_world_rank"),
        _ => ("PMI_RANK", "pmi_rank"),
    }
}

/// The label of a launch: its rank variables in a fixed order, else the short
/// name of its command, else its index.
pub fn render_label(index: u32, command: Option<&str>, env: &Vec<EnvVar>) -> (label: String)
    ensures
        label@ == label_of(
            index,
            match command {
                Some(c) => Some(c@),
                None => None,
            },
            settings(env@),
        ),
{
    let mut parts: Vec<String> = Vec::new();
    let mut i: usize = 0;
    while i < 5
        invariant
            i <= 5,
            strings(parts@) =~= rank_parts(settings(env@), i as nat),
        decreases 5 - i,
    {
        let (name, shown) = rank_key(i);
        if let Some(value) = find_env(env, name) {
            let mut part = shown.to_owned();
            part.append("=");
            part.append(value);
            parts.push(part);
        }
        i = i + 1;
    }
    assert(strings(parts@).len() == parts@.len());
    if parts.len() > 0 {
        return join(&parts, ",");
    }
    if let Some(c) = command {
        let name = trim_text(file_tail(c).as_str());
        if !name.as_str().is_empty() {
            return name;
        }
    }
    let mut label = "process_".to_owned();
    label.append(u64_text(index as u64).as_str());
    label
}

/// The command of the process: that of the last of the first `n` rows.
pub open spec fn command_of(rows: Seq<CaptureRow>, index: u32, n: nat) -> Option<Seq<char>>
    decreases n,
{
    if n == 0 {
        None
    } else if process_key(rows[n - 1].name@) == Some((index, "COMMAND"@)) {
        Some(rows[n - 1].value@)
    } else {
        command_of(rows, index, (n - 1) as nat)
    }
}

/// The name is that of a rank variable.
pub open spec fn is_rank_key(name: Seq<char>) -> bool {
    exists|i: int| 0 <= i < 5 && (#[trigger] rank_keys()[i]).0 == name
}

/// The rank variables of the process among the first `n` rows, in order.
pub open spec fn env_of(rows: Seq<CaptureRow>, index: u32, n: nat) -> Seq<Setting>
    decreases n,
{
    if n == 0 {
        seq![]
    } else {
        let before = env_of(rows, index, (n - 1) as nat);
        let row = rows[n - 1];
        if process_key(row.name@) == Some((index, "ENVIRONMENT_VARIABLE"@)) && env_assignment(
            row.value@,
        ) is Some && is_rank_key((env_assignment(row.value@)->0).0) {
            before.push(env_assignment(row.value@)->0)
        } else {
            before
        }
    }
}

/// One of the rows is about the process.
pub open spec fn names_process(rows: Seq<CaptureRow>, index: u32) -> bool {
    exists|i: int|
        0 <= i < rows.len() && process_key((#[trigger] rows[i]).name@) is Some && (process_key(
            rows[i].name@,
        )->0).0 == index
}

/// The launch is that of its process.
pub open spec fn is_launch(launch: ProcessLaunch, rows: Seq<CaptureRow>) -> bool {
    let command = command_of(rows, launch.index, rows.len());
    &&& text_of(launch.command) == command
    &&& launch.label@ == label_of(
        launch.index,
        command,
        env_of(rows, launch.index, rows.len()),
    )
}

/// The launches are those of the processes that the rows are about, by index.
pub open spec fn are_launches(launches: Seq<ProcessLaunch>, rows: Seq<CaptureRow>) -> bool {
    &&& forall|i: int, j: int|
        0 <= i < j < launches.len() ==> (#[trigger] launches[i]).index < (#[trigger]
        launches[j]).index
    &&& forall|i: int|
        0 <= i < launches.len() ==> names_process(rows, (#[trigger] launches[i]).index)
            && is_launch(launches[i], rows)
    &&& forall|index: u32| #[trigger]
        names_process(rows, index) ==> exists|i: int|
            0 <= i < launches.len() && (#[trigger] launches[i]).index == index
}

/// Whether the name is that of a rank variable.
fn names_rank(name: &str) -> (b: bool)
    ensures
        b == is_rank_key(name@),
{
    let mut i: usize = 0;
    while i < 5
        invariant
            i <= 5,
            forall|x: int| 0 <= x < i ==> (#[trigger] rank_keys()[x]).0 != name@,
        decreases 5 - i,
    {
        if str_eq(rank_key(i).0, name) {
            assert(rank_keys()[i as int].0 == name@);
            return true;
        }
        i = i + 1;
    }
    false
}

/// The launch of one process.
fn launch_of(rows: &Vec<CaptureRow>, index: u32) -> (launch: ProcessLaunch)
    ensures
        launch.index == index,
        is_launch(launch, rows@),
{
    let mut command: Option<String> = None;
    let mut env: Vec<EnvVar> = Vec::new();
    let mut i: usize = 0;
    assert("COMMAND"@ != "ENVIRONMENT_VARIABLE"@) by {
        reveal_strlit("COMMAND");
        reveal_strlit("ENVIRONMENT_VARIABLE");
        assert("COMMAND"@.len() != "ENVIRONMENT_VARIABLE"@.len());
    }
    while i < rows.len()
        invariant
            i <= rows.len(),
            "COMMAND"@ != "ENVIRONMENT_VARIABLE"@,
            text_of(command) == command_of(rows@, index, i as nat),
            settings(env@) =~= env_of(rows@, index, i as nat),
        decreases rows.len() - i,
    {
        let row = &rows[i];
        if let Some((at, field)) = split_process_key(row.name.as_str()) {
            if at == index {
                if str_eq(field.as_str(), "COMMAND") {
                    command = Some(row.value.clone());
                } else if str_eq(field.as_str(), "ENVIRONMENT_VARIABLE") {
                    if let Some((name, value)) = parse_env_assignment(row.value.as_str()) {
                        if names_rank(name.as_str()) {
                            env.push(EnvVar { name, value });
                        }
                    }
                }
            }
        }
        i = i + 1;
    }
    let label = match &command {
        Some(c) => render_label(index, Some(c.as_str()), &env),
        None => render_label(index, None, &env),
    };
    ProcessLaunch { index, label, command }
}

/// The launches that the rows are about, by index. Rows with other names do
/// not count.
pub fn collect_launches(rows: &Vec<CaptureRow>) -> (launches: Vec<ProcessLaunch>)
    ensures
        are_launches(launches@, rows@),
{
    let mut found: Vec<i64> = Vec::new();
    let mut i: usize = 0;
    while i < rows.len()
        invariant
            i <= rows.len(),
            forall|x: int|
                0 <= x < found.len() ==> 0 <= #[trigger] found@[x] <= u32::MAX && names_process(
                    rows@,
                    found@[x] as u32,
                ),
            forall|x: int|
                0 <= x < i && process_key((#[trigger] rows@[x]).name@) is Some ==> found@.contains(
                    (process_key(rows@[x].name@)->0).0 as i64,
                ),
        decreases rows.len() - i,
    {
        let ghost before = found@;
        if let Some((index, field)) = split_process_key(rows[i].name.as_str()) {
            assert(names_process(rows@, index));
            found.push(index as i64);
            proof {
                assert(found@[before.len() as int] == index as i64);
                assert forall|v: i64| before.contains(v) implies found@.contains(v) by {
                    let x = choose|x: int| 0 <= x < before.len() && before[x] == v;
                    assert(found@[x] == v);
                }
            }
        }
        i = i + 1;
    }
    let indexes = distinct_numbers(&found);
    let mut launches: Vec<ProcessLaunch> = Vec::with_capacity(indexes.len());
    let mut j: usize = 0;
    assert forall|x: int| 0 <= x < indexes.len() implies 0 <= #[trigger] indexes@[x] <= u32::MAX
        && names_process(rows@, indexes@[x] as u32) by {
        assert(indexes@.contains(indexes@[x]));
        assert(found@.contains(indexes@[x]));
    }
    while j < indexes.len()
        invariant
            j <= indexes.len(),
            launches.len() == j,
            numbers_grow(indexes@),
            forall|x: int|
                0 <= x < indexes.len() ==> 0 <= #[trigger] indexes@[x] <= u32::MAX
                    && names_process(rows@, indexes@[x] as u32),
            forall|x: int|
                0 <= x < j ==> (#[trigger] launches@[x]).index == indexes@[x] && is_launch(
                    launches@[x],
                    rows@,
                ),
        decreases indexes.len() - j,
    {
        launches.push(launch_of(rows, indexes[j] as u32));
        j = j + 1;
    }
    proof {
        assert forall|x: int, y: int| 0 <= x < y < launches.len() implies (#[trigger]
        launches@[x]).index < (#[trigger] launches@[y]).index by {
            assert(indexes@[x] < indexes@[y]);
        }
        assert forall|index: u32| #[trigger] names_process(rows@, index) implies exists|x: int|
            0 <= x < launches@.len() && (#[trigger] launches@[x]).index == index by {
            let i = choose|i: int|
                0 <= i < rows@.len() && process_key((#[trigger] rows@[i]).name@) is Some && (
                process_key(rows@[i].name@)->0).0 == index;
            assert(found@.contains(index as i64));
            assert(indexes@.contains(index as i64));
            let x = choose|x: int| 0 <= x < indexes@.len() && indexes@[x] == index as i64;
            assert(launches@[x].index == index);
        }
        assert forall|x: int| 0 <= x < launches.len() implies names_process(
            rows@,
            (#[trigger] launches@[x]).index,
        ) by {
            assert(names_process(rows@, indexes@[x] as u32));
        }
    }
    launches
}

/// The process that hosts a thread.
pub fn pid_of(global_tid: i64) -> (pid: i64)
    ensures
        pid == native_pid(global_tid),
{
    native_pid_from_global_tid(global_tid)
}

/// One domain registration.
#[derive(Debug, Clone)]
pub struct DomainRow {
    pub global_tid: i64,
    pub domain_id: i64,
    pub name: String,
}

/// The names that the first `n` registrations give. An empty name gives none;
/// a later one replaces an earlier one of the same process.
pub open spec fn names_of(rows: Seq<DomainRow>, n: nat) -> Map<(i64, i64), Seq<char>>
    decreases n,
{
    if n == 0 {
        Map::empty()
    } else {
        let before = names_of(rows, (n - 1) as nat);
        let row = rows[n - 1];
        if row.name@.len() > 0 {
            before.insert((native_pid(row.global_tid), row.domain_id), row.name@)
        } else {
            before
        }
    }
}

/// The domains that the first `n` registrations name.
pub open spec fn named_pairs(rows: Seq<DomainRow>, n: nat) -> Seq<(i64, i64)>
    decreases n,
{
    if n == 0 {
        seq![]
    } else {
        let before = named_pairs(rows, (n - 1) as nat);
        let row = rows[n - 1];
        if row.name@.len() > 0 {
            before.push((native_pid(row.global_tid), row.domain_id))
        } else {
            before
        }
    }
}

/// The names as characters.
pub open spec fn name_texts(names: Map<(i64, i64), String>) -> Map<(i64, i64), Seq<char>> {
    Map::new(|k: (i64, i64)| names.contains_key(k), |k: (i64, i64)| names[k]@)
}

/// The `(pid, domain id)` to name map of a trace's domain registrations. One
/// process's registration cannot clobber another's.
pub fn nvtx_domain_names(rows: &Vec<DomainRow>) -> (names: PairMap<String>)
    ensures
        name_texts(names@) == names_of(rows@, rows@.len()),
{
    let mut names: PairMap<String> = PairMap::new();
    let mut i: usize = 0;
    assert(name_texts(names@) =~= names_of(rows@, 0));
    while i < rows.len()
        invariant
            i <= rows.len(),
            name_texts(names@) == names_of(rows@, i as nat),
        decreases rows.len() - i,
    {
        let row = &rows[i];
        let ghost before = names@;
        if !row.name.as_str().is_empty() {
            let pid: i64 = pid_of(row.global_tid);
            names.insert(pid, row.domain_id, row.name.clone());
            assert(name_texts(names@) =~= name_texts(before).insert(
                (pid, row.domain_id),
                row.name@,
            ));
        }
        i = i + 1;
    }
    names
}

/// The identities of the domains.
pub open spec fn domain_pairs(domains: Seq<NvtxDomain>) -> Seq<(i64, i64)> {
    domains.map_values(|d: NvtxDomain| (d.pid, d.id))
}

/// The domains are the distinct ones of the pairs, ascending, each with its own
/// name.
pub open spec fn are_domains(
    domains: Seq<NvtxDomain>,
    pairs: Seq<(i64, i64)>,
    names: Map<(i64, i64), Seq<char>>,
) -> bool {
    &&& pairs_grow(domain_pairs(domains))
    &&& forall|p: (i64, i64)| #[trigger]
        domain_pairs(domains).contains(p) <==> pairs.contains(p)
    &&& forall|i: int|
        0 <= i < domains.len() ==> {
            let d = #[trigger] domains[i];
            text_of(d.name) == if names.contains_key((d.pid, d.id)) {
                Some(names[(d.pid, d.id)])
            } else {
                None
            }
        }
}

/// The distinct domains among the pairs, each with the name that its own
/// process gave it.
pub fn domains_from(pairs: &Vec<(i64, i64)>, names: &PairMap<String>) -> (domains: Vec<NvtxDomain>)
    ensures
        are_domains(domains@, pairs@, name_texts(names@)),
{
    let seen = distinct_pairs(pairs);
    let mut domains: Vec<NvtxDomain> = Vec::with_capacity(seen.len());
    let mut i: usize = 0;
    while i < seen.len()
        invariant
            i <= seen.len(),
            domains.len() == i,
            forall|x: int|
                0 <= x < i ==> {
                    let d = #[trigger] domains@[x];
                    &&& (d.pid, d.id) == seen@[x]
                    &&& text_of(d.name) == if name_texts(names@).contains_key((d.pid, d.id)) {
                        Some(name_texts(names@)[(d.pid, d.id)])
                    } else {
                        None
                    }
                },
        decreases seen.len() - i,
    {
        let (pid, id) = seen[i];
        let name = match names.get(pid, id) {
            Some(name) => Some(name.clone()),
            None => None,
        };
        domains.push(NvtxDomain { pid, id, name });
        i = i + 1;
    }
    assert(domain_pairs(domains@) =~= seen@);
    domains
}

/// The domains that the ranges of the tree belong to.
pub open spec fn tree_pairs(records: Seq<NvtxTreeRecord>) -> Seq<(i64, i64)> {
    records.map_values(|r: NvtxTreeRecord| (native_pid(r.global_tid), r.domain_id))
}

/// The domains of a trace: those with ranges in the tree and those that were
/// registered, with or without ranges.
pub fn collect_domains(tree: &NvtxTree, rows: &Vec<DomainRow>) -> (domains: Vec<NvtxDomain>)
    ensures
        are_domains(
            domains@,
            tree_pairs(tree@) + named_pairs(rows@, rows@.len()),
            names_of(rows@, rows@.len()),
        ),
{
    let names = nvtx_domain_names(rows);
    let records = tree.records();
    let mut pairs: Vec<(i64, i64)> = Vec::with_capacity(records.len());
    let mut i: usize = 0;
    while i < records.len()
        invariant
            i <= records.len(),
            records@ == tree@,
            pairs@ =~= tree_pairs(tree@).take(i as int),
        decreases records.len() - i,
    {
        pairs.push((pid_of(records[i].global_tid), records[i].domain_id));
        i = i + 1;
    }
    assert(pairs@ =~= tree_pairs(tree@));
    let mut j: usize = 0;
    assert(pairs@ =~= tree_pairs(tree@) + named_pairs(rows@, 0));
    while j < rows.len()
        invariant
            j <= rows.len(),
            pairs@ == tree_pairs(tree@) + named_pairs(rows@, j as nat),
        decreases rows.len() - j,
    {
        if !rows[j].name.as_str().is_empty() {
            pairs.push((pid_of(rows[j].global_tid), rows[j].domain_id));
            assert(pairs@ =~= tree_pairs(tree@) + named_pairs(rows@, (j + 1) as nat));
        }
        j = j + 1;
    }
    domains_from(&pairs, &names)
}

/// Two registrations in different processes never share a name, and a domain
/// has the name that its own process registered last.
pub proof fn domains_keep_their_process(
    rows: Seq<DomainRow>,
    n: nat,
    pid: i64,
    id: i64,
)
    requires
        n <= rows.len(),
    ensures
        names_of(rows, n).contains_key((pid, id)) <==> exists|i: int|
            0 <= i < n && names_domain(#[trigger] rows[i], pid, id),
        forall|i: int|
            0 <= i < n && names_domain(#[trigger] rows[i], pid, id) && (forall|j: int|
                i < j < n ==> !names_domain(#[trigger] rows[j], pid, id)) ==> names_of(rows, n)[(
                pid,
                id,
            )] == rows[i].name@,
    decreases n,
{
    if n > 0 {
        domains_keep_their_process(rows, (n - 1) as nat, pid, id);
        let last = rows[n - 1];
        if names_domain(last, pid, id) {
            assert(names_of(rows, n).contains_key((pid, id)));
        } else {
            assert(names_of(rows, n).contains_key((pid, id)) == names_of(
                rows,
                (n - 1) as nat,
            ).contains_key((pid, id)));
        }
        assert forall|i: int|
            0 <= i < n && names_domain(#[trigger] rows[i], pid, id) && (forall|j: int|
                i < j < n ==> !names_domain(#[trigger] rows[j], pid, id)) implies names_of(
            rows,
            n,
        )[(pid, id)] == rows[i].name@ by {
            if i < n - 1 {
                assert(!names_domain(rows[n - 1], pid, id));
                assert(forall|j: int|
                    i < j < n - 1 ==> !names_domain(#[trigger] rows[j], pid, id));
                assert(names_of(rows, (n - 1) as nat)[(pid, id)] == rows[i].name@);
            }
        }
    }
}

/// The row registers the domain under a name.
pub open spec fn names_domain(row: DomainRow, pid: i64, id: i64) -> bool {
    row.name@.len() > 0 && native_pid(row.global_tid) == pid && row.domain_id == id
}

/// The sum as a 64-bit integer, cut off at the ends of its range.
pub open spec fn saturated(sum: int) -> i64 {
    if sum > i64::MAX {
        i64::MAX
    } else if sum < i64::MIN {
        i64::MIN
    } else {
        sum as i64
    }
}

fn saturating_sum(a: i64, b: i64) -> (sum: i64)
    ensures
        sum == saturated(a + b),
{
    let wide: i128 = a as i128 + b as i128;
    if wide > i64::MAX as i128 {
        i64::MAX
    } else if wide < i64::MIN as i128 {
        i64::MIN
    } else {
        wide as i64
    }
}

/// The record has a duration and this path.
pub open spec fn is_timed(r: NvtxTreeRecord, path: Seq<char>) -> bool {
    r.duration_ns is Some && r.path@ == path
}

/// Number of the first `n` records with the path.
pub open spec fn path_instances(records: Seq<NvtxTreeRecord>, path: Seq<char>, n: nat) -> nat
    decreases n,
{
    if n == 0 {
        0
    } else if is_timed(records[n - 1], path) {
        path_instances(records, path, (n - 1) as nat) + 1
    } else {
        path_instances(records, path, (n - 1) as nat)
    }
}

/// Time of the first `n` records with the path, cut off at the ends of the
/// range after each.
pub open spec fn path_total(records: Seq<NvtxTreeRecord>, path: Seq<char>, n: nat) -> i64
    decreases n,
{
    if n == 0 {
        0
    } else if is_timed(records[n - 1], path) {
        saturated(path_total(records, path, (n - 1) as nat) + records[n - 1].duration_ns->0)
    } else {
        path_total(records, path, (n - 1) as nat)
    }
}

/// Paths are ordered by time, most first, then by number of instances, most
/// first, then by name.
pub open spec fn top_key(records: Seq<NvtxTreeRecord>, path: Seq<char>) -> Seq<int> {
    let n = records.len();
    seq![-(path_total(records, path, n) as int), -(path_instances(records, path, n) as int)]
        + char_codes(path)
}

/// The listed paths are the first `k` of the paths of the records.
pub open spec fn are_top_paths(
    listed: Seq<NvtxTopPath>,
    records: Seq<NvtxTreeRecord>,
    k: nat,
) -> bool {
    let n = records.len();
    &&& listed.len() <= k
    &&& forall|i: int|
        0 <= i < listed.len() ==> {
            let p = #[trigger] listed[i];
            &&& path_instances(records, p.path@, n) > 0
            &&& p.instances == path_instances(records, p.path@, n)
            &&& p.total_ns == path_total(records, p.path@, n)
        }
    &&& forall|i: int, j: int|
        0 <= i < j < listed.len() ==> lex_lt(
            top_key(records, (#[trigger] listed[i]).path@),
            top_key(records, (#[trigger] listed[j]).path@),
        )
    &&& forall|path: Seq<char>| #[trigger]
        path_instances(records, path, n) > 0 ==> {
            ||| is_listed(listed, path)
            ||| listed.len() == k && forall|i: int|
                0 <= i < listed.len() ==> lex_lt(
                    top_key(records, (#[trigger] listed[i]).path@),
                    top_key(records, path),
                )
        }
}

/// The path is one of those listed.
pub open spec fn is_listed(listed: Seq<NvtxTopPath>, path: Seq<char>) -> bool {
    exists|i: int| 0 <= i < listed.len() && (#[trigger] listed[i]).path@ == path
}

proof fn instances_bounded(records: Seq<NvtxTreeRecord>, path: Seq<char>, n: nat)
    ensures
        path_instances(records, path, n) <= n,
    decreases n,
{
    if n > 0 {
        instances_bounded(records, path, (n - 1) as nat);
    }
}

/// Time and number of instances of each path.
struct PathTimes {
    paths: Vec<String>,
    totals: Vec<i64>,
    counts: Vec<u64>,
}

impl PathTimes {
    spec fn holds(&self, records: Seq<NvtxTreeRecord>, n: nat) -> bool {
        &&& self.totals@.len() == self.paths@.len()
        &&& self.counts@.len() == self.paths@.len()
        &&& forall|x: int|
            0 <= x < self.paths@.len() ==> {
                let path = (#[trigger] self.paths@[x])@;
                &&& path_instances(records, path, n) > 0
                &&& self.counts@[x] == path_instances(records, path, n)
                &&& self.totals@[x] == path_total(records, path, n)
            }
    }

    spec fn indexed(&self, records: Seq<NvtxTreeRecord>, n: nat, places: Map<Seq<char>, usize>) -> bool {
        &&& forall|path: Seq<char>| #[trigger]
            places.contains_key(path) <==> path_instances(records, path, n) > 0
        &&& forall|path: Seq<char>| #[trigger]
            places.contains_key(path) ==> places[path] < self.paths@.len()
                && self.paths@[places[path] as int]@ == path
        &&& forall|x: int|
            0 <= x < self.paths@.len() ==> places.contains_key((#[trigger] self.paths@[x])@)
                && places[self.paths@[x]@] == x
    }
}

/// Adds up the records by path.
fn path_times(records: &[NvtxTreeRecord]) -> (times: PathTimes)
    ensures
        times.holds(records@, records@.len()),
        forall|path: Seq<char>| #[trigger]
            path_instances(records@, path, records@.len()) > 0 ==> exists|x: int|
                0 <= x < times.paths@.len() && (#[trigger] times.paths@[x])@ == path,
        forall|x: int, y: int|
            0 <= x < y < times.paths@.len() ==> (#[trigger] times.paths@[x])@ != (#[trigger]
            times.paths@[y])@,
{
    let mut times = PathTimes { paths: Vec::new(), totals: Vec::new(), counts: Vec::new() };
    let mut places: StringHashMap<usize> = StringHashMap::new();
    let mut i: usize = 0;
    while i < records.len()
        invariant
            i <= records.len(),
            times.holds(records@, i as nat),
            times.indexed(records@, i as nat, places@),
        decreases records.len() - i,
    {
        let record = &records[i];
        let ghost old_places = places@;
        let ghost old_paths = times.paths@;
        if let Some(ns) = record.duration_ns {
            let path = record.path.as_str();
            let found: Option<usize> = match places.get(path) {
                Some(at) => Some(*at),
                None => None,
            };
            proof {
                instances_bounded(records@, path@, i as nat);
            }
            match found {
                Some(at) => {
                    assert(old_paths[at as int]@ == path@);
                    let total: i64 = saturating_sum(times.totals[at], ns);
                    let count: u64 = times.counts[at] + 1;
                    times.totals.set(at, total);
                    times.counts.set(at, count);
                    assert(times.holds(records@, (i + 1) as nat)) by {
                        assert forall|x: int| 0 <= x < times.paths@.len() implies {
                            let p = (#[trigger] times.paths@[x])@;
                            &&& path_instances(records@, p, (i + 1) as nat) > 0
                            &&& times.counts@[x] == path_instances(records@, p, (i + 1) as nat)
                            &&& times.totals@[x] == path_total(records@, p, (i + 1) as nat)
                        } by {
                            if x != at {
                                assert(places@[old_paths[x]@] == x);
                            }
                        }
                    }
                },
                None => {
                    let at: usize = times.paths.len();
                    times.paths.push(record.path.clone());
                    times.totals.push(ns);
                    times.counts.push(1);
                    places.insert(record.path.clone(), at);
                    assert(path_instances(records@, path@, i as nat) == 0);
                    proof {
                        no_instances_no_total(records@, path@, i as nat);
                    }
                    assert(times.holds(records@, (i + 1) as nat)) by {
                        assert forall|x: int| 0 <= x < times.paths@.len() implies {
                            let p = (#[trigger] times.paths@[x])@;
                            &&& path_instances(records@, p, (i + 1) as nat) > 0
                            &&& times.counts@[x] == path_instances(records@, p, (i + 1) as nat)
                            &&& times.totals@[x] == path_total(records@, p, (i + 1) as nat)
                        } by {
                            if x < old_paths.len() {
                                assert(times.paths@[x] == old_paths[x]);
                                assert(old_places.contains_key(old_paths[x]@));
                                assert(old_paths[x]@ != path@);
                            }
                        }
                    }
                    assert forall|x: int| 0 <= x < times.paths@.len() implies places@.contains_key(
                        (#[trigger] times.paths@[x])@,
                    ) && places@[times.paths@[x]@] == x by {
                        if x < old_paths.len() {
                            assert(times.paths@[x] == old_paths[x]);
                            assert(old_places.contains_key(old_paths[x]@));
                        }
                    }
                },
            }
            assert forall|p: Seq<char>| #[trigger] places@.contains_key(p) <==> path_instances(
                records@,
                p,
                (i + 1) as nat,
            ) > 0 by {
                assert(old_places.contains_key(p) <==> path_instances(records@, p, i as nat) > 0);
            }
        } else {
            assert forall|p: Seq<char>| #[trigger] places@.contains_key(p) <==> path_instances(
                records@,
                p,
                (i + 1) as nat,
            ) > 0 by {
                assert(old_places.contains_key(p) <==> path_instances(records@, p, i as nat) > 0);
            }
            assert(times.holds(records@, (i + 1) as nat));
        }
        i = i + 1;
    }
    assert forall|path: Seq<char>| #[trigger]
        path_instances(records@, path, records@.len()) > 0 implies exists|x: int|
        0 <= x < times.paths@.len() && (#[trigger] times.paths@[x])@ == path by {
        assert(places@.contains_key(path));
        assert(times.paths@[places@[path] as int]@ == path);
    }
    assert forall|x: int, y: int| 0 <= x < y < times.paths@.len() implies (#[trigger]
    times.paths@[x])@ != (#[trigger] times.paths@[y])@ by {
        assert(places@[times.paths@[x]@] == x);
        assert(places@[times.paths@[y]@] == y);
    }
    times
}

proof fn no_instances_no_total(records: Seq<NvtxTreeRecord>, path: Seq<char>, n: nat)
    requires
        path_instances(records, path, n) == 0,
    ensures
        path_total(records, path, n) == 0,
    decreases n,
{
    if n > 0 {
        no_instances_no_total(records, path, (n - 1) as nat);
    }
}

fn code(c: char) -> (n: i128)
    ensures
        n == c as int,
{
    c as u32 as i128
}

fn path_key(total: i64, count: u64, path: &str) -> (key: ListKey)
    ensures
        key.sort_key() == seq![-(total as int), -(count as int)] + char_codes(path@),
{
    let chars = str_chars(path);
    let mut parts: Vec<i128> = Vec::new();
    parts.push(-(total as i128));
    parts.push(-(count as i128));
    let mut i: usize = 0;
    while i < chars.len()
        invariant
            i <= chars.len(),
            chars@ == path@,
            parts.len() == 2 + i,
            parts@[0] == -(total as int),
            parts@[1] == -(count as int),
            forall|x: int| 0 <= x < i ==> #[trigger] parts@[2 + x] == chars@[x] as int,
        decreases chars.len() - i,
    {
        parts.push(code(chars[i]));
        i = i + 1;
    }
    let key = ListKey { parts };
    proof {
        let want = seq![-(total as int), -(count as int)] + char_codes(path@);
        let got = numbers(key.parts@);
        assert forall|x: int| 0 <= x < want.len() implies got[x] == want[x] by {
            if 2 <= x {
                assert(key.parts@[2 + (x - 2)] == chars@[x - 2] as int);
            }
        }
        assert(got =~= want);
    }
    key
}

proof fn keys_differ(records: Seq<NvtxTreeRecord>, a: Seq<char>, b: Seq<char>)
    requires
        top_key(records, a) == top_key(records, b),
    ensures
        a == b,
{
    let x = top_key(records, a);
    let y = top_key(records, b);
    assert(char_codes(a).len() == a.len() && char_codes(b).len() == b.len());
    assert(x.len() == 2 + a.len());
    assert(y.len() == 2 + b.len());
    assert forall|i: int| 0 <= i < a.len() implies a[i] == b[i] by {
        assert(x[2 + i] == char_codes(a)[i]);
        assert(y[2 + i] == char_codes(b)[i]);
        assert(char_codes(a)[i] == a[i] as int);
        assert(char_codes(b)[i] == b[i] as int);
    }
    assert(a =~= b);
}

/// The `top_k` paths of the tree with the most time. Records without a
/// duration do not count.
pub fn top_paths_from_tree(tree: &NvtxTree, top_k: usize) -> (listed: Vec<NvtxTopPath>)
    ensures
        are_top_paths(listed@, tree@, top_k as nat),
{
    let records = tree.records();
    let times = path_times(records);
    let ghost n = records@.len();
    let mut keys: Vec<ListKey> = Vec::with_capacity(times.paths.len());
    let mut i: usize = 0;
    while i < times.paths.len()
        invariant
            i <= times.paths.len(),
            times.holds(records@, n),
            n == records@.len(),
            keys.len() == i,
            forall|x: int|
                0 <= x < i ==> (#[trigger] keys@[x]).sort_key() == top_key(
                    records@,
                    times.paths@[x]@,
                ),
        decreases times.paths.len() - i,
    {
        assert(times.counts@[i as int] == path_instances(records@, times.paths@[i as int]@, n));
        keys.push(path_key(times.totals[i], times.counts[i], times.paths[i].as_str()));
        i = i + 1;
    }
    let order = sort_order(keys.as_slice());
    let ghost p = positions(order@);
    let ghost ks = keys_of(keys@);
    proof {
        sort_order_covers(ks, p);
        assert forall|x: int, y: int| 0 <= x < y < p.len() implies lex_lt(
            top_key(records@, times.paths@[#[trigger] p[x]]@),
            top_key(records@, times.paths@[#[trigger] p[y]]@),
        ) by {
            assert(placed_before(ks, p[x], p[y]));
            assert(ks[p[x]] == keys@[p[x]].sort_key());
            assert(ks[p[y]] == keys@[p[y]].sort_key());
            if ks[p[x]] == ks[p[y]] {
                keys_differ(records@, times.paths@[p[x]]@, times.paths@[p[y]]@);
                assert(p[x] != p[y]);
            }
        }
    }
    let mut listed: Vec<NvtxTopPath> = Vec::new();
    let mut j: usize = 0;
    while j < order.len() && j < top_k
        invariant
            j <= order.len(),
            j <= top_k,
            listed.len() == j,
            times.holds(records@, n),
            n == records@.len(),
            p == positions(order@),
            order.len() == times.paths.len(),
            forall|x: int| 0 <= x < p.len() ==> 0 <= #[trigger] p[x] < times.paths.len(),
            forall|x: int|
                0 <= x < j ==> {
                    let t = #[trigger] listed@[x];
                    &&& t.path@ == times.paths@[p[x]]@
                    &&& t.instances == path_instances(records@, t.path@, n)
                    &&& t.total_ns == path_total(records@, t.path@, n)
                    &&& path_instances(records@, t.path@, n) > 0
                },
        decreases order.len() - j,
    {
        assert(p[j as int] == order@[j as int]);
        let at: usize = order[j];
        assert(times.counts@[at as int] == path_instances(records@, times.paths@[at as int]@, n));
        listed.push(
            NvtxTopPath {
                path: times.paths[at].clone(),
                total_ns: times.totals[at],
                instances: times.counts[at],
            },
        );
        j = j + 1;
    }
    proof {
        assert forall|x: int, y: int| 0 <= x < y < listed@.len() implies lex_lt(
            top_key(records@, (#[trigger] listed@[x]).path@),
            top_key(records@, (#[trigger] listed@[y]).path@),
        ) by {
            assert(lex_lt(
                top_key(records@, times.paths@[p[x]]@),
                top_key(records@, times.paths@[p[y]]@),
            ));
        }
        assert forall|path: Seq<char>| #[trigger]
            path_instances(records@, path, n) > 0 implies {
            ||| is_listed(listed@, path)
            ||| listed@.len() == top_k && forall|x: int|
                0 <= x < listed@.len() ==> lex_lt(
                    top_key(records@, (#[trigger] listed@[x]).path@),
                    top_key(records@, path),
                )
        } by {
            let x = choose|x: int|
                0 <= x < times.paths@.len() && (#[trigger] times.paths@[x])@ == path;
            assert(p.contains(x));
            let y = choose|y: int| 0 <= y < p.len() && p[y] == x;
            if y < listed@.len() {
                assert(listed@[y].path@ == path);
            } else {
                assert forall|z: int| 0 <= z < listed@.len() implies lex_lt(
                    top_key(records@, (#[trigger] listed@[z]).path@),
                    top_key(records@, path),
                ) by {
                    assert(lex_lt(
                        top_key(records@, times.paths@[p[z]]@),
                        top_key(records@, times.paths@[p[y]]@),
                    ));
                }
            }
        }
    }
    listed
}

/// The NVTX summary of a trace with this tree and these registrations; `None`
/// where it has neither domains nor paths.
pub fn build_nvtx(tree: &NvtxTree, rows: &Vec<DomainRow>, top_k: usize) -> (summary: Option<
    NvtxSummary,
>)
    ensures
        match summary {
            Some(s) => {
                &&& s.domains@.len() > 0 || s.top_paths@.len() > 0
                &&& are_domains(
                    s.domains@,
                    tree_pairs(tree@) + named_pairs(rows@, rows@.len()),
                    names_of(rows@, rows@.len()),
                )
                &&& are_top_paths(s.top_paths@, tree@, top_k as nat)
            },
            None => tree@.len() == 0 && named_pairs(rows@, rows@.len()).len() == 0,
        },
{
    let domains = collect_domains(tree, rows);
    let top_paths = top_paths_from_tree(tree, top_k);
    if domains.len() == 0 && top_paths.len() == 0 {
        proof {
            let pairs = tree_pairs(tree@) + named_pairs(rows@, rows@.len());
            if pairs.len() > 0 {
                assert(pairs.contains(pairs[0]));
                assert(domain_pairs(domains@).contains(pairs[0]));
            }
            assert(tree_pairs(tree@).len() == tree@.len());
        }
        return None;
    }
    Some(NvtxSummary { domains, top_paths })
}

/// The rows that a trace map is made of. A table that the trace lacks is
/// `None`.
pub struct TraceMapRows<'a> {
    /// CUDA ordinals of the GPU table.
    pub gpus: Option<&'a Vec<Option<i32>>>,
    /// Devices of the kernel table.
    pub kernels: Option<&'a Vec<i32>>,
    /// Pids of the process table.
    pub processes: Option<&'a Vec<i64>>,
    /// Pids of the context table.
    pub contexts: Option<&'a Vec<i64>>,
    /// Capture metadata; empty where the trace has none.
    pub capture: &'a Vec<CaptureRow>,
    /// NVTX tree; `None` where the trace has no NVTX events.
    pub tree: Option<&'a NvtxTree>,
    /// Domain registrations.
    pub domains: &'a Vec<DomainRow>,
}

/// The map of a trace. [`NVTX_TOP_PATHS_DEFAULT`] is a reasonable `nvtx_top_k`.
///
/// No part fails on missing tables: each is empty instead, so that what a trace
/// does not have shows as that.
pub fn build(rows: &TraceMapRows<'_>, nvtx_top_k: usize) -> (map: TraceMap)
    ensures
        map.devices.count == map.devices.ids@.len(),
        is_inventory(
            wide(map.devices.ids@),
            wide(seen_devices(list_of(rows.gpus), list_of(rows.kernels))),
        ),
        map.processes.count == map.processes.native_pids@.len(),
        is_inventory(
            map.processes.native_pids@,
            seen_processes(list_of(rows.processes), list_of(rows.contexts)),
        ),
        are_launches(map.processes.launches@, rows.capture@),
        match (rows.tree, map.nvtx) {
            (None, found) => found is None,
            (Some(tree), None) => tree@.len() == 0 && named_pairs(
                rows.domains@,
                rows.domains@.len(),
            ).len() == 0,
            (Some(tree), Some(s)) => {
                &&& s.domains@.len() > 0 || s.top_paths@.len() > 0
                &&& are_domains(
                    s.domains@,
                    tree_pairs(tree@) + named_pairs(rows.domains@, rows.domains@.len()),
                    names_of(rows.domains@, rows.domains@.len()),
                )
                &&& are_top_paths(s.top_paths@, tree@, nvtx_top_k as nat)
            },
        },
{
    let devices = build_devices(rows.gpus, rows.kernels);
    let processes = build_processes(rows.processes, rows.contexts, rows.capture);
    let nvtx = match rows.tree {
        Some(tree) => build_nvtx(tree, rows.domains, nvtx_top_k),
        None => None,
    };
    TraceMap { devices, processes, nvtx }
}

} // verus!
