//! What a trace is about.
use super::gpu_work_events::codes_tell_order;
use super::text::splitting_is_at_the_first;
use super::text_before;
use crate::nvtx_tree::NvtxTreeRecord;
use crate::order::{char_codes, lex_lt, lex_lt_after};
use crate::paths::{tail_start, tail_start_bounds, text_of, without_prefix};
use crate::text::{decimal, joined, parsed_unsigned, split_once_of, trimmed_text};
use crate::trace_map::{
    are_domains, are_launches, are_top_paths, basename, command_of, domain_pairs, env_assignment,
    env_of, env_value, is_inventory, is_rank_key, label_of, named_pairs, names_domain,
    names_process, path_instances, path_total, present_ids, process_key, rank_keys, rank_parts,
    seen_devices, seen_processes, top_key, tree_pairs, unquoted, wide, CaptureRow, DeviceInventory,
    DomainRow, NvtxDomain, NvtxTopPath, ProcessLaunch, Setting,
};
use vstd::prelude::*;

verus! {

/// Some GPU has a number.
pub open spec fn some_gpu(gpus: Option<Seq<Option<i32>>>) -> bool {
    gpus matches Some(list) && exists|i: int| 0 <= i < list.len() && (#[trigger] list[i]) is Some
}

proof fn present_are_some(ids: Seq<Option<i32>>, n: nat, d: i32)
    requires
        n <= ids.len(),
    ensures
        present_ids(ids, n).contains(d) <==> exists|i: int| 0 <= i < n && #[trigger] ids[i] == Some(d),
        present_ids(ids, n).len() > 0 <==> exists|i: int| 0 <= i < n && (#[trigger] ids[i]) is Some,
    decreases n,
{
    if n > 0 {
        present_are_some(ids, (n - 1) as nat, d);
        let less = present_ids(ids, (n - 1) as nat);
        let all = present_ids(ids, n);
        if less.contains(d) {
            let k: int = choose|k: int| 0 <= k < less.len() && less[k] == d;
            assert(all[k] == d);
        }
        if ids[n - 1] == Some(d) {
            assert(all[all.len() - 1] == d);
        }
        if all.contains(d) {
            let k: int = choose|k: int| 0 <= k < all.len() && all[k] == d;
            if k < less.len() {
                assert(less[k] == d);
            }
        }
        if ids[n - 1] is Some {
            assert(all.len() > 0);
        }
    }
}

/// The devices of a trace are those of its GPU table that have a number; where
/// there are none, those of its kernels. They are listed once each, ascending.
pub proof fn devices_are_listed(
    gpus: Option<Seq<Option<i32>>>,
    kernels: Option<Seq<i32>>,
    devices: DeviceInventory,
    d: i32,
)
    requires
        is_inventory(wide(devices.ids@), wide(seen_devices(gpus, kernels))),
    ensures
        some_gpu(gpus) ==> (devices.ids@.contains(d) <==> exists|i: int|
            0 <= i < gpus->0.len() && #[trigger] gpus->0[i] == Some(d)),
        !some_gpu(gpus) ==> (devices.ids@.contains(d) <==> kernels is Some && kernels->0.contains(d)),
        forall|i: int, j: int|
            #![trigger devices.ids@[i], devices.ids@[j]]
            0 <= i < j < devices.ids@.len() ==> devices.ids@[i] < devices.ids@[j],
{
    let seen = seen_devices(gpus, kernels);
    if gpus is Some {
        present_are_some(gpus->0, gpus->0.len(), d);
    }
    wide_contains(devices.ids@, d);
    wide_contains(seen, d);
    assert(wide(devices.ids@).contains(d as i64) <==> wide(seen).contains(d as i64));
    assert forall|i: int, j: int|
        #![trigger devices.ids@[i], devices.ids@[j]]
        0 <= i < j < devices.ids@.len() implies devices.ids@[i] < devices.ids@[j] by {
        assert(wide(devices.ids@)[i] < wide(devices.ids@)[j]);
    }
}

proof fn wide_contains(ids: Seq<i32>, d: i32)
    ensures
        wide(ids).contains(d as i64) <==> ids.contains(d),
{
    if ids.contains(d) {
        let k: int = choose|k: int| 0 <= k < ids.len() && ids[k] == d;
        assert(wide(ids)[k] == d as i64);
    }
    if wide(ids).contains(d as i64) {
        let k: int = choose|k: int| 0 <= k < wide(ids).len() && wide(ids)[k] == d as i64;
        assert(ids[k] == d);
    }
}

/// The processes of a trace are those of its process table; where that is empty,
/// the owners of its contexts. They are listed once each, ascending.
pub proof fn processes_are_listed(
    processes: Option<Seq<i64>>,
    contexts: Option<Seq<i64>>,
    pids: Seq<i64>,
    pid: i64,
)
    requires
        is_inventory(pids, seen_processes(processes, contexts)),
    ensures
        processes is Some && processes->0.len() > 0 ==> (pids.contains(pid)
            <==> processes->0.contains(pid)),
        !(processes is Some && processes->0.len() > 0) ==> (pids.contains(pid) <==> contexts is Some
            && contexts->0.contains(pid)),
        forall|i: int, j: int|
            #![trigger pids[i], pids[j]]
            0 <= i < j < pids.len() ==> pids[i] < pids[j],
{
}

/// A key of capture metadata is `PROCESS_`, a number, a colon and the name of a
/// field; nothing else is one.
pub proof fn process_keys_are_split(key: Seq<char>)
    ensures
        forall|index: u32, field: Seq<char>|
            process_key(key) == Some((index, field)) <==> exists|digits: Seq<char>|
                #[trigger] spells_process_key(key, digits, index, field),
{
    reveal_strlit("PROCESS_");
    let prefix = "PROCESS_"@;
    assert forall|index: u32, field: Seq<char>|
        process_key(key) == Some((index, field)) implies exists|digits: Seq<char>|
        #[trigger] spells_process_key(key, digits, index, field) by {
        let rest = without_prefix(key, prefix)->0;
        splitting_is_at_the_first(rest, ':');
        let (digits, f) = split_once_of(rest, ':')->0;
        assert(key =~= prefix + rest);
        assert(key =~= prefix + digits + seq![':'] + field);
        assert(spells_process_key(key, digits, index, field));
    }
    assert forall|index: u32, field: Seq<char>|
        (exists|digits: Seq<char>|
            #[trigger] spells_process_key(key, digits, index, field)) implies process_key(key)
        == Some((index, field)) by {
        let digits: Seq<char> = choose|digits: Seq<char>|
            #[trigger] spells_process_key(key, digits, index, field);
        let rest = digits + seq![':'] + field;
        assert(key =~= prefix + rest);
        assert(key.take(prefix.len() as int) =~= prefix);
        assert(key.skip(prefix.len() as int) =~= rest);
        splits_at(digits, ':', field);
    }
}

/// The key is `PROCESS_`, the digits, a colon and the field, and the digits spell
/// the number.
pub open spec fn spells_process_key(
    key: Seq<char>,
    digits: Seq<char>,
    index: u32,
    field: Seq<char>,
) -> bool {
    &&& key == "PROCESS_"@ + digits + seq![':'] + field
    &&& !digits.contains(':')
    &&& parsed_unsigned(digits, u32::MAX as nat) == Some(index as nat)
}

proof fn splits_at(before: Seq<char>, c: char, after: Seq<char>)
    requires
        !before.contains(c),
    ensures
        split_once_of(before + seq![c] + after, c) == Some((before, after)),
    decreases before.len(),
{
    let s = before + seq![c] + after;
    if before.len() == 0 {
        assert(s[0] == c);
        assert(s.skip(1) =~= after);
        assert(before =~= Seq::<char>::empty());
    } else {
        assert(s[0] == before[0]);
        assert(before.contains(before[0]));
        let rest = before.skip(1);
        assert(!rest.contains(c)) by {
            if rest.contains(c) {
                let i: int = choose|i: int| 0 <= i < rest.len() && rest[i] == c;
                assert(before[i + 1] == c);
            }
        }
        splits_at(rest, c, after);
        assert(s.skip(1) =~= rest + seq![c] + after);
        assert(seq![before[0]] + rest =~= before);
    }
}

/// A setting is read from `NAME=value`: the name stands before the first equals
/// sign, the value behind it is trimmed and loses a quote at each end.
pub proof fn settings_are_read(name: Seq<char>, value: Seq<char>, raw: Seq<char>)
    requires
        !name.contains('='),
    ensures
        env_assignment(name + seq!['='] + value) == Some((name, unquoted(trimmed_text(value)))),
        !raw.contains('=') ==> env_assignment(raw) is None,
        !value.contains('"') ==> unquoted(value) == value,
        !value.contains('"') ==> unquoted(seq!['"'] + value + seq!['"']) == value,
{
    splits_at(name, '=', value);
    splitting_is_at_the_first(raw, '=');
    if !raw.contains('=') && split_once_of(raw, '=') is Some {
        let (before, after) = split_once_of(raw, '=')->0;
        assert(raw[before.len() as int] == '=');
    }
    if !value.contains('"') {
        let q = seq!['"'] + value + seq!['"'];
        assert(q[0] == '"');
        assert(q.skip(1) =~= value + seq!['"']);
        assert((value + seq!['"']).drop_last() =~= value);
        if value.len() > 0 {
            assert(value.contains(value[0]));
            assert(value.contains(value.last()));
        }
    }
}

/// The setting that counts for a name is the last one.
pub proof fn last_settings_count(env: Seq<Setting>, name: Seq<char>)
    ensures
        match env_value(env, name) {
            Some(value) => exists|i: int|
                0 <= i < env.len() && (#[trigger] env[i]) == (name, value) && forall|j: int|
                    i < j < env.len() ==> (#[trigger] env[j]).0 != name,
            None => forall|j: int| 0 <= j < env.len() ==> (#[trigger] env[j]).0 != name,
        },
    decreases env.len(),
{
    if env.len() > 0 {
        let n = env.len() - 1;
        if env.last().0 == name {
            assert(env[n] == (name, env.last().1));
        } else {
            last_settings_count(env.drop_last(), name);
            assert forall|j: int| 0 <= j < n implies env.drop_last()[j] == env[j] by {}
            match env_value(env, name) {
                Some(value) => {
                    let i: int = choose|i: int|
                        0 <= i < n && (#[trigger] env.drop_last()[i]) == (name, value) && forall|j: int|
                            i < j < n ==> (#[trigger] env.drop_last()[j]).0 != name;
                    assert(env[i] == (name, value));
                    assert forall|j: int| i < j < env.len() implies (#[trigger] env[j]).0 != name by {
                        if j < n {
                            assert(env.drop_last()[j].0 != name);
                        }
                    }
                },
                None => {
                    assert forall|j: int| 0 <= j < env.len() implies (#[trigger] env[j]).0 != name by {
                        if j < n {
                            assert(env.drop_last()[j].0 != name);
                        }
                    }
                },
            }
        }
    }
}

/// How a rank is shown, where its variable is set.
pub open spec fn shown(env: Seq<Setting>, name: Seq<char>, as_name: Seq<char>) -> Seq<Seq<char>> {
    match env_value(env, name) {
        Some(value) => seq![as_name + "="@ + value],
        None => Seq::empty(),
    }
}

/// The ranks that are set, in a fixed order.
pub open spec fn shown_ranks(env: Seq<Setting>) -> Seq<Seq<char>> {
    shown(env, "RANK"@, "rank"@) + shown(env, "LOCAL_RANK"@, "local_rank"@) + shown(
        env,
        "SLURM_PROCID"@,
        "slurm_procid"@,
    ) + shown(env, "MPI_COMM_WORLD_RANK"@, "mpi_comm_world_rank"@) + shown(
        env,
        "PMI_RANK"@,
        "pmi_rank"@,
    )
}

/// A launch is labelled by the ranks that are set, joined by commas; where none is,
/// by the last name of its command; where there is none, by its number.
pub proof fn launches_are_labelled(index: u32, command: Option<Seq<char>>, env: Seq<Setting>)
    ensures
        shown_ranks(env).len() > 0 ==> label_of(index, command, env) == joined(shown_ranks(env), ","@),
        shown_ranks(env).len() == 0 && (command matches Some(c) && basename(c).len() > 0)
            ==> label_of(index, command, env) == basename(command->0),
        shown_ranks(env).len() == 0 && !(command matches Some(c) && basename(c).len() > 0)
            ==> label_of(index, command, env) == "process_"@ + decimal(index as int),
{
    reveal_with_fuel(rank_parts, 6);
    let k = rank_keys();
    assert(k[0].0 == "RANK"@ && k[1].0 == "LOCAL_RANK"@ && k[2].0 == "SLURM_PROCID"@ && k[3].0
        == "MPI_COMM_WORLD_RANK"@ && k[4].0 == "PMI_RANK"@);
    assert(rank_parts(env, 5) =~= shown_ranks(env));
}

/// The last name of a command is what stands behind its last slash, trimmed.
pub proof fn commands_have_last_names(dir: Seq<char>, name: Seq<char>)
    requires
        !name.contains('/'),
        dir.len() > 0 ==> dir.last() == '/',
    ensures
        basename(dir + name) == trimmed_text(name),
{
    let c = dir + name;
    tail_start_bounds(c);
    let at = tail_start(c);
    assert(at >= dir.len()) by {
        if at < dir.len() {
            assert(c[dir.len() - 1] == '/');
        }
    }
    assert(at <= dir.len()) by {
        if at > dir.len() {
            assert(c[at - 1] == name[at - 1 - dir.len()]);
            assert(name.contains(c[at - 1]));
        }
    }
    assert(c.skip(at) =~= name);
}

/// The command of a launch is that of the last row that gives it.
pub proof fn last_commands_count(rows: Seq<CaptureRow>, index: u32, n: nat)
    requires
        n <= rows.len(),
    ensures
        match command_of(rows, index, n) {
            Some(command) => exists|i: int|
                0 <= i < n && process_key((#[trigger] rows[i]).name@) == Some((index, "COMMAND"@))
                    && rows[i].value@ == command && forall|j: int|
                    i < j < n ==> process_key((#[trigger] rows[j]).name@) != Some(
                        (index, "COMMAND"@),
                    ),
            None => forall|j: int|
                0 <= j < n ==> process_key((#[trigger] rows[j]).name@) != Some((index, "COMMAND"@)),
        },
    decreases n,
{
    if n > 0 {
        if process_key(rows[n - 1].name@) == Some((index, "COMMAND"@)) {
            assert(rows[n - 1].value@ == command_of(rows, index, n)->0);
        } else {
            last_commands_count(rows, index, (n - 1) as nat);
        }
    }
}

/// The row registers the domain of the process under a name. The process is in
/// bits 24 to 47 of the thread.
pub open spec fn registers(row: DomainRow, pid: i64, id: i64) -> bool {
    row.name@.len() > 0 && (row.global_tid >> 24) & 0xFF_FFFF == pid && row.domain_id == id
}

/// The range is of the domain of the process.
pub open spec fn is_in_domain(r: NvtxTreeRecord, pid: i64, id: i64) -> bool {
    (r.global_tid >> 24) & 0xFF_FFFF == pid && r.domain_id == id
}

proof fn named_pairs_have_rows(rows: Seq<DomainRow>, n: nat, pid: i64, id: i64)
    requires
        n <= rows.len(),
    ensures
        named_pairs(rows, n).contains((pid, id)) <==> exists|i: int|
            0 <= i < n && registers(#[trigger] rows[i], pid, id),
    decreases n,
{
    if n > 0 {
        named_pairs_have_rows(rows, (n - 1) as nat, pid, id);
        let less = named_pairs(rows, (n - 1) as nat);
        let all = named_pairs(rows, n);
        if less.contains((pid, id)) {
            let k: int = choose|k: int| 0 <= k < less.len() && less[k] == (pid, id);
            assert(all[k] == (pid, id));
        }
        if registers(rows[n - 1], pid, id) {
            assert(all[all.len() - 1] == (pid, id));
        }
        if all.contains((pid, id)) {
            let k: int = choose|k: int| 0 <= k < all.len() && all[k] == (pid, id);
            if k < less.len() {
                assert(less[k] == (pid, id));
            }
        }
    }
}

/// The domains are those that a range of the tree or a named registration is of,
/// each once, by process and number; each has the name of its last named
/// registration.
pub proof fn domains_are_listed(
    records: Seq<NvtxTreeRecord>,
    rows: Seq<DomainRow>,
    domains: Seq<NvtxDomain>,
    pid: i64,
    id: i64,
)
    requires
        are_domains(
            domains,
            tree_pairs(records) + named_pairs(rows, rows.len()),
            crate::trace_map::names_of(rows, rows.len()),
        ),
    ensures
        (exists|k: int| 0 <= k < domains.len() && (#[trigger] domains[k]).pid == pid && domains[k].id == id)
            <==> (exists|i: int| 0 <= i < records.len() && is_in_domain(#[trigger] records[i], pid, id))
            || (exists|i: int| 0 <= i < rows.len() && registers(#[trigger] rows[i], pid, id)),
        forall|i: int, j: int|
            #![trigger domains[i], domains[j]]
            0 <= i < j < domains.len() ==> domains[i].pid < domains[j].pid || (domains[i].pid
                == domains[j].pid && domains[i].id < domains[j].id),
        forall|k: int, i: int|
            #![trigger domains[k], rows[i]]
            0 <= k < domains.len() && domains[k].pid == pid && domains[k].id == id && 0 <= i < rows.len()
                && registers(rows[i], pid, id) && (forall|j: int|
                i < j < rows.len() ==> !registers(#[trigger] rows[j], pid, id)) ==> text_of(
                domains[k].name,
            ) == Some(rows[i].name@),
        forall|k: int|
            0 <= k < domains.len() && domains[k].pid == pid && domains[k].id == id && (forall|i: int|
                0 <= i < rows.len() ==> !registers(#[trigger] rows[i], pid, id)) ==> (
            #[trigger] domains[k]).name is None,
{
    let n = rows.len();
    let pairs = tree_pairs(records) + named_pairs(rows, n);
    let p = (pid, id);
    named_pairs_have_rows(rows, n, pid, id);
    crate::trace_map::domains_keep_their_process(rows, n, pid, id);
    assert forall|i: int| 0 <= i < n implies (names_domain(#[trigger] rows[i], pid, id) <==> registers(
        rows[i],
        pid,
        id,
    )) by {}
    let listed = domain_pairs(domains);
    assert(listed.contains(p) <==> exists|k: int|
        0 <= k < domains.len() && (#[trigger] domains[k]).pid == pid && domains[k].id == id) by {
        if listed.contains(p) {
            let k: int = choose|k: int| 0 <= k < listed.len() && listed[k] == p;
            assert(domains[k].pid == pid && domains[k].id == id);
        }
        if exists|k: int|
            0 <= k < domains.len() && (#[trigger] domains[k]).pid == pid && domains[k].id == id {
            let k: int = choose|k: int|
                0 <= k < domains.len() && (#[trigger] domains[k]).pid == pid && domains[k].id == id;
            assert(listed[k] == p);
        }
    }
    let tree = tree_pairs(records);
    let named = named_pairs(rows, n);
    assert(pairs.contains(p) <==> tree.contains(p) || named.contains(p)) by {
        if tree.contains(p) {
            let k: int = choose|k: int| 0 <= k < tree.len() && tree[k] == p;
            assert(pairs[k] == p);
        }
        if named.contains(p) {
            let k: int = choose|k: int| 0 <= k < named.len() && named[k] == p;
            assert(pairs[tree.len() + k] == p);
        }
        if pairs.contains(p) {
            let k: int = choose|k: int| 0 <= k < pairs.len() && pairs[k] == p;
            if k < tree.len() {
                assert(tree[k] == p);
            } else {
                assert(named[k - tree.len()] == p);
            }
        }
    }
    assert(tree.contains(p) <==> exists|i: int|
        0 <= i < records.len() && is_in_domain(#[trigger] records[i], pid, id)) by {
        if tree.contains(p) {
            let k: int = choose|k: int| 0 <= k < tree.len() && tree[k] == p;
            assert(is_in_domain(records[k], pid, id));
        }
        if exists|i: int| 0 <= i < records.len() && is_in_domain(#[trigger] records[i], pid, id) {
            let i: int = choose|i: int|
                0 <= i < records.len() && is_in_domain(#[trigger] records[i], pid, id);
            assert(tree[i] == p);
        }
    }
    assert forall|i: int, j: int|
        #![trigger domains[i], domains[j]]
        0 <= i < j < domains.len() implies domains[i].pid < domains[j].pid || (domains[i].pid
        == domains[j].pid && domains[i].id < domains[j].id) by {
        assert(crate::order::pair_lt(listed[i], listed[j]));
    }
    assert forall|k: int, i: int|
        #![trigger domains[k], rows[i]]
        0 <= k < domains.len() && domains[k].pid == pid && domains[k].id == id && 0 <= i < rows.len()
            && registers(rows[i], pid, id) && (forall|j: int|
            i < j < rows.len() ==> !registers(#[trigger] rows[j], pid, id)) implies text_of(
        domains[k].name,
    ) == Some(rows[i].name@) by {
        assert(names_domain(rows[i], pid, id));
        assert forall|j: int| i < j < n implies !names_domain(#[trigger] rows[j], pid, id) by {
            assert(!registers(rows[j], pid, id));
        }
    }
    assert forall|k: int|
        0 <= k < domains.len() && domains[k].pid == pid && domains[k].id == id && (forall|i: int|
            0 <= i < rows.len() ==> !registers(#[trigger] rows[i], pid, id)) implies (
    #[trigger] domains[k]).name is None by {
        assert(!crate::trace_map::names_of(rows, n).contains_key(p));
    }
}

/// The ranges of the path that have a duration.
pub open spec fn timed_on(records: Seq<NvtxTreeRecord>, path: Seq<char>) -> Seq<NvtxTreeRecord> {
    records.filter(|r: NvtxTreeRecord| r.duration_ns is Some && r.path@ == path)
}

/// Sum of the durations.
pub open spec fn time_of(records: Seq<NvtxTreeRecord>) -> int {
    records.fold_left(0int, |sum: int, r: NvtxTreeRecord| sum + r.duration_ns->0)
}

proof fn path_counts(records: Seq<NvtxTreeRecord>, path: Seq<char>, n: nat)
    requires
        n <= records.len(),
    ensures
        path_instances(records, path, n) == timed_on(records.take(n as int), path).len(),
        (forall|m: int|
            0 <= m <= n ==> i64::MIN <= #[trigger] time_of(timed_on(records.take(m), path))
                <= i64::MAX) ==> path_total(records, path, n) == time_of(
            timed_on(records.take(n as int), path),
        ),
    decreases n,
{
    reveal(Seq::filter);
    reveal_with_fuel(Seq::fold_left, 2);
    let p = |r: NvtxTreeRecord| r.duration_ns is Some && r.path@ == path;
    let f = |sum: int, r: NvtxTreeRecord| sum + r.duration_ns->0;
    if n > 0 {
        path_counts(records, path, (n - 1) as nat);
        let less = timed_on(records.take(n - 1), path);
        let r = records[n - 1];
        assert(records.take(n as int).drop_last() =~= records.take(n - 1));
        assert(records.take(n as int).last() == r);
        let all = timed_on(records.take(n as int), path);
        if p(r) {
            assert(all == less.push(r));
            assert(less.push(r).drop_last() =~= less);
            assert(time_of(all) == time_of(less) + r.duration_ns->0);
        } else {
            assert(all == less);
        }
        if forall|m: int|
            0 <= m <= n ==> i64::MIN <= #[trigger] time_of(timed_on(records.take(m), path)) <= i64::MAX {
            assert forall|m: int| 0 <= m <= n - 1 implies i64::MIN <= #[trigger] time_of(
                timed_on(records.take(m), path),
            ) <= i64::MAX by {}
            assert(i64::MIN <= time_of(timed_on(records.take(n as int), path)) <= i64::MAX);
        }
    } else {
        assert(records.take(0) =~= Seq::<NvtxTreeRecord>::empty());
    }
}

/// Each listed path has the number of its ranges that have a duration, and as its
/// time the sum of their durations, where the sums can be held. The paths come by
/// time, then by number, the largest first, then by text. At most as many are
/// listed as were asked for, and a path with timed ranges that is left out comes
/// after all that are listed.
pub proof fn top_paths_are_told(
    records: Seq<NvtxTreeRecord>,
    listed: Seq<NvtxTopPath>,
    k: nat,
    i: int,
    j: int,
)
    requires
        are_top_paths(listed, records, k),
        0 <= i < j < listed.len(),
    ensures
        listed.len() <= k,
        listed[i].instances == timed_on(records, listed[i].path@).len(),
        listed[i].instances > 0,
        (forall|m: int|
            0 <= m <= records.len() ==> i64::MIN <= #[trigger] time_of(
                timed_on(records.take(m), listed[i].path@),
            ) <= i64::MAX) ==> listed[i].total_ns == time_of(timed_on(records, listed[i].path@)),
        listed[i].path@ != listed[j].path@,
        listed[i].total_ns >= listed[j].total_ns,
        listed[i].total_ns == listed[j].total_ns ==> listed[i].instances >= listed[j].instances,
        listed[i].total_ns == listed[j].total_ns && listed[i].instances == listed[j].instances
            ==> text_before(listed[i].path@, listed[j].path@),
{
    path_counts(records, listed[i].path@, records.len());
    assert(records.take(records.len() as int) =~= records);
    let a = top_key(records, listed[i].path@);
    let b = top_key(records, listed[j].path@);
    assert(lex_lt(a, b));
    assert(a[0] == -(listed[i].total_ns as int) && b[0] == -(listed[j].total_ns as int));
    assert(a[1] == -(listed[i].instances as int) && b[1] == -(listed[j].instances as int));
    reveal_with_fuel(lex_lt, 3);
    assert(a.drop_first()[0] == a[1] && b.drop_first()[0] == b[1]);
    if listed[i].path@ == listed[j].path@ {
        crate::order::lex_lt_irreflexive(a);
    }
    if listed[i].total_ns == listed[j].total_ns && listed[i].instances == listed[j].instances {
        assert(a.subrange(0, 2) =~= b.subrange(0, 2));
        lex_lt_after(a, b, 2);
        assert(a.subrange(2, a.len() as int) =~= char_codes(listed[i].path@));
        assert(b.subrange(2, b.len() as int) =~= char_codes(listed[j].path@));
        codes_tell_order(listed[i].path@, listed[j].path@);
    }
}

/// Every path with timed ranges is listed, unless as many as were asked for are.
pub proof fn timed_paths_are_listed(
    records: Seq<NvtxTreeRecord>,
    listed: Seq<NvtxTopPath>,
    k: nat,
    path: Seq<char>,
)
    requires
        are_top_paths(listed, records, k),
        timed_on(records, path).len() > 0,
    ensures
        (exists|i: int| 0 <= i < listed.len() && (#[trigger] listed[i]).path@ == path) || listed.len()
            == k,
{
    path_counts(records, path, records.len());
    assert(records.take(records.len() as int) =~= records);
    assert(path_instances(records, path, records.len()) > 0);
}

/// The row sets the rank variable of the process.
pub open spec fn sets_rank(row: CaptureRow, index: u32, name: Seq<char>, value: Seq<char>) -> bool {
    &&& process_key(row.name@) == Some((index, "ENVIRONMENT_VARIABLE"@))
    &&& env_assignment(row.value@) == Some((name, value))
}

/// The row sets the variable of the process to something.
pub open spec fn sets_some(row: CaptureRow, index: u32, name: Seq<char>) -> bool {
    exists|value: Seq<char>| #[trigger] sets_rank(row, index, name, value)
}

/// One of the five rank variables.
pub open spec fn is_rank(name: Seq<char>) -> bool {
    ||| name == "RANK"@
    ||| name == "LOCAL_RANK"@
    ||| name == "SLURM_PROCID"@
    ||| name == "MPI_COMM_WORLD_RANK"@
    ||| name == "PMI_RANK"@
}

/// The rank variables of a launch are those that the rows about its process set,
/// each to what the last such row says.
pub proof fn last_ranks_count(rows: Seq<CaptureRow>, index: u32, name: Seq<char>, n: nat)
    requires
        n <= rows.len(),
        is_rank(name),
    ensures
        match env_value(env_of(rows, index, n), name) {
            Some(value) => exists|i: int|
                0 <= i < n && sets_rank(#[trigger] rows[i], index, name, value) && forall|j: int|
                    i < j < n ==> !sets_some(#[trigger] rows[j], index, name),
            None => forall|j: int| 0 <= j < n ==> !sets_some(#[trigger] rows[j], index, name),
        },
    decreases n,
{
    if n > 0 {
        let m = (n - 1) as nat;
        last_ranks_count(rows, index, name, m);
        let k = rank_keys();
        assert(k[0].0 == "RANK"@ && k[1].0 == "LOCAL_RANK"@ && k[2].0 == "SLURM_PROCID"@ && k[3].0
            == "MPI_COMM_WORLD_RANK"@ && k[4].0 == "PMI_RANK"@);
        assert(is_rank_key(name));
        let row = rows[n - 1];
        let less = env_of(rows, index, m);
        let all = env_of(rows, index, n);
        if all != less {
            let set = env_assignment(row.value@)->0;
            assert(all == less.push(set));
            assert(all.drop_last() =~= less);
            assert(all.last() == set);
            if set.0 == name {
                assert(sets_rank(row, index, name, set.1));
            } else {
                assert(!sets_some(row, index, name));
            }
        } else {
            if sets_some(row, index, name) {
                let value: Seq<char> = choose|value: Seq<char>| #[trigger]
                    sets_rank(row, index, name, value);
                assert(all == less.push((name, value)));
                assert(all.len() == less.len() + 1);
            }
        }
    }
}

/// The key of the row is about the process.
pub open spec fn is_about(row: CaptureRow, index: u32) -> bool {
    process_key(row.name@) matches Some((at, _)) && at == index
}

/// The launches are those of the processes that some key is about, each once, by
/// index. Each has the command of the last row that gives one, and the label that
/// goes with it.
pub proof fn launches_are_listed(rows: Seq<CaptureRow>, launches: Seq<ProcessLaunch>, index: u32)
    requires
        are_launches(launches, rows),
    ensures
        forall|i: int, j: int|
            #![trigger launches[i], launches[j]]
            0 <= i < j < launches.len() ==> launches[i].index < launches[j].index,
        (exists|i: int| 0 <= i < launches.len() && (#[trigger] launches[i]).index == index)
            <==> exists|r: int| 0 <= r < rows.len() && is_about(#[trigger] rows[r], index),
        forall|i: int|
            0 <= i < launches.len() ==> {
                let l = #[trigger] launches[i];
                &&& text_of(l.command) == command_of(rows, l.index, rows.len())
                &&& l.label@ == label_of(
                    l.index,
                    text_of(l.command),
                    env_of(rows, l.index, rows.len()),
                )
            },
{
    if exists|i: int| 0 <= i < launches.len() && (#[trigger] launches[i]).index == index {
        assert(names_process(rows, index));
        let r: int = choose|r: int|
            0 <= r < rows.len() && process_key((#[trigger] rows[r]).name@) is Some && (process_key(
                rows[r].name@,
            )->0).0 == index;
        assert(is_about(rows[r], index));
    }
    if exists|r: int| 0 <= r < rows.len() && is_about(#[trigger] rows[r], index) {
        assert(names_process(rows, index));
    }
}

} // verus!
