//! Identity and freshness of a trace that stays open.
//!
//! Two sessions may share an open trace where it has the same source and every
//! persistent input that can affect it is unchanged. The inputs are looked up by
//! the caller, which only reads metadata: nothing is exported or built.
use crate::fingerprint::{
    copied_bytes, hash_bytes, hash_u64, hashed, le_bytes, names_as_bytes, parquet_order, parquet_order_of,
    FileState, HASH_SEED,
};
use crate::nsys_rep::{
    alias_has_report_artifacts, alias_owner, generated_dir_belongs_to_report, is_nsys_rep,
    names_report, owner_of, pqtdir_of, pqtdir_path_for, report_name_ends, sidecar_source_path,
};
use crate::order::positions;
use crate::paths::{artifact, artifact_path, file_name_of, join_path, joined_path, same_path};
use crate::text::{hex16_text, hex_digits, strings};
use crate::views::{parquet_view_sql, quoted, view_text, TableFile};
use vstd::prelude::*;
use vstd::utf8::encode_utf8;

verus! {

/// Identity of a trace that stays open.
#[derive(Debug, Clone, PartialEq, Eq)]
pub struct ResidentTraceIdentity {
    pub canonical_source_path: String,
    pub freshness_key: String,
    pub resident_memory_estimate_bytes: u64,
}

/// The paths that the identity of a trace depends on.
#[derive(Debug)]
pub struct IdentityPaths {
    /// The source, aliases resolved.
    pub source: String,
    /// The directory of its tables.
    pub parquetdir: String,
    /// The sidecars, in the order of [`freshness_sidecars`].
    pub sidecars: Vec<String>,
}

/// The sidecars that an open trace depends on.
pub open spec fn freshness_sidecars() -> Seq<Seq<char>> {
    seq![
        "correlation.bin"@,
        "meta.bin"@,
        "gpu-work-events.parquet"@,
        "nvtx-parent.parquet"@,
        "nvtx-tree.parquet"@,
    ]
}

/// The source of a trace, aliases resolved.
pub open spec fn source_of(path: Seq<char>) -> Seq<char> {
    match owner_of(path) {
        Some(owner) => owner,
        None => path,
    }
}

/// The directory of a source's tables.
pub open spec fn tables_of(source: Seq<char>) -> Seq<char> {
    if names_report(source) {
        pqtdir_of(source)
    } else {
        source
    }
}

fn sidecar_name(i: usize) -> (name: &'static str)
    requires
        i < 5,
    ensures
        name@ == freshness_sidecars()[i as int],
{
    match i {
        0 => "correlation.bin",
        1 => "meta.bin",
        2 => "gpu-work-events.parquet",
        3 => "nvtx-parent.parquet",
        _ => "nvtx-tree.parquet",
    }
}

/// The paths that the identity of a trace depends on.
pub fn identity_paths(path: &str) -> (paths: IdentityPaths)
    ensures
        paths.source@ == source_of(path@),
        paths.parquetdir@ == tables_of(source_of(path@)),
        paths.sidecars@.len() == 5,
        forall|i: int|
            0 <= i < 5 ==> (#[trigger] paths.sidecars@[i])@ == artifact(
                source_of(path@),
                freshness_sidecars()[i],
            ),
{
    let source = sidecar_source_path(path);
    let parquetdir = if is_nsys_rep(source.as_str()) {
        pqtdir_path_for(source.as_str())
    } else {
        source.clone()
    };
    let mut sidecars: Vec<String> = Vec::new();
    let mut i: usize = 0;
    while i < 5
        invariant
            i <= 5,
            source@ == source_of(path@),
            sidecars.len() == i,
            forall|x: int|
                0 <= x < i ==> (#[trigger] sidecars@[x])@ == artifact(
                    source_of(path@),
                    freshness_sidecars()[x],
                ),
        decreases 5 - i,
    {
        sidecars.push(artifact_path(source.as_str(), sidecar_name(i)));
        i = i + 1;
    }
    IdentityPaths { source, parquetdir, sidecars }
}

/// One table file. Its state is `None` where it was gone when it was looked at.
#[derive(Debug)]
pub struct TableState {
    /// The bytes of its name.
    pub name: Vec<u8>,
    /// The name as text, what is no text in it replaced.
    pub label: String,
    pub state: Option<FileState>,
}

/// The bytes of `present`.
pub open spec fn present_mark() -> Seq<u8> {
    seq![112, 114, 101, 115, 101, 110, 116]
}

/// The bytes of `missing`.
pub open spec fn missing_mark() -> Seq<u8> {
    seq![109, 105, 115, 115, 105, 110, 103]
}

/// The hash with a file behind it: its label, whether it is there, and where it
/// is, its length and when it was written.
pub open spec fn state_hashed(hash: u64, label: Seq<char>, state: Option<FileState>) -> u64 {
    let labelled = hashed(hash, encode_utf8(label));
    match state {
        None => hashed(labelled, missing_mark()),
        Some(state) => {
            let sized = hashed(hashed(labelled, present_mark()), le_bytes(state.len, 8));
            match state.modified {
                Some(time) => hashed(
                    hashed(sized, le_bytes(time.secs as u64, 8)),
                    le_bytes(time.nanos as u64, 8),
                ),
                None => sized,
            }
        },
    }
}

/// The hash with these files behind it.
pub open spec fn states_hashed(hash: u64, files: Seq<TableState>, order: Seq<int>) -> u64
    decreases order.len(),
{
    if order.len() == 0 {
        hash
    } else {
        let file = files[order.last()];
        state_hashed(states_hashed(hash, files, order.drop_last()), file.label@, file.state)
    }
}

/// The hash with the first `n` sidecars behind it.
pub open spec fn sidecars_hashed(hash: u64, states: Seq<Option<FileState>>, n: nat) -> u64
    decreases n,
{
    if n == 0 {
        hash
    } else {
        state_hashed(
            sidecars_hashed(hash, states, (n - 1) as nat),
            freshness_sidecars()[n - 1],
            states[n - 1],
        )
    }
}

/// The names of the files.
pub open spec fn state_names(files: Seq<TableState>) -> Seq<Seq<u8>> {
    files.map_values(|f: TableState| f.name@)
}

/// The hash of a directory's tables: `None` is a directory that is not there.
pub open spec fn tables_hashed(hash: u64, files: Option<Seq<TableState>>) -> u64 {
    match files {
        None => hash,
        Some(files) => {
            let order = parquet_order_of(state_names(files));
            states_hashed(hashed(hash, le_bytes(order.len() as u64, 8)), files, order)
        },
    }
}

/// The freshness of a trace as a number.
pub open spec fn freshness(
    source: Option<FileState>,
    parquetdir: Option<FileState>,
    files: Option<Seq<TableState>>,
    sidecars: Seq<Option<FileState>>,
) -> u64 {
    let opened = state_hashed(
        state_hashed(HASH_SEED, "source"@, source),
        "parquetdir"@,
        parquetdir,
    );
    sidecars_hashed(tables_hashed(opened, files), sidecars, 5)
}

fn hash_state(hash: &mut u64, label: &str, state: &Option<FileState>)
    ensures
        *final(hash) == state_hashed(*old(hash), label@, *state),
{
    hash_bytes(hash, label.as_bytes());
    match state {
        None => {
            let mark: [u8; 7] = [109, 105, 115, 115, 105, 110, 103];
            assert(mark@ =~= missing_mark());
            hash_bytes(hash, &mark);
        },
        Some(state) => {
            let mark: [u8; 7] = [112, 114, 101, 115, 101, 110, 116];
            assert(mark@ =~= present_mark());
            hash_bytes(hash, &mark);
            hash_u64(hash, state.len);
            if let Some(time) = state.modified {
                hash_u64(hash, time.secs as u64);
                hash_u64(hash, time.nanos as u64);
            }
        },
    }
}

/// Hashes the tables of a directory.
fn hash_parquetdir(hash: &mut u64, files: &Vec<TableState>)
    ensures
        *final(hash) == tables_hashed(*old(hash), Some(files@)),
{
    let mut names: Vec<Vec<u8>> = Vec::with_capacity(files.len());
    let mut i: usize = 0;
    while i < files.len()
        invariant
            i <= files.len(),
            names.len() == i,
            forall|x: int| 0 <= x < i ==> (#[trigger] names@[x])@ == files@[x].name@,
        decreases files.len() - i,
    {
        names.push(copied_bytes(&files[i].name));
        i = i + 1;
    }
    assert(names_as_bytes(names@) =~= state_names(files@));
    let places = parquet_order(&names);
    let ghost order = positions(places@);
    assert(order.len() == places@.len());
    hash_u64(hash, places.len() as u64);
    let ghost start = *hash;
    let mut j: usize = 0;
    assert(order.take(0) =~= seq![]);
    while j < places.len()
        invariant
            j <= places.len(),
            order == positions(places@),
            forall|x: int| 0 <= x < places@.len() ==> 0 <= #[trigger] places@[x] < files@.len(),
            *hash == states_hashed(start, files@, order.take(j as int)),
        decreases places.len() - j,
    {
        assert(order.take(j + 1).drop_last() =~= order.take(j as int));
        assert(order.take(j + 1).last() == places@[j as int]);
        let file = &files[places[j]];
        hash_state(hash, file.label.as_str(), &file.state);
        j = j + 1;
    }
    assert(order.take(places.len() as int) =~= order);
}

/// The freshness key of a trace: it changes with the source, its tables and
/// its sidecars. `files` are the files of the table directory, in any order,
/// `None` where that is no directory; `sidecars` stand in the order of
/// [`freshness_sidecars`].
pub fn freshness_key(
    source: Option<FileState>,
    parquetdir: Option<FileState>,
    files: Option<&Vec<TableState>>,
    sidecars: &Vec<Option<FileState>>,
) -> (key: String)
    requires
        sidecars@.len() == 5,
    ensures
        key@ == hex_digits(
            freshness(
                source,
                parquetdir,
                match files {
                    Some(list) => Some(list@),
                    None => None,
                },
                sidecars@,
            ) as nat,
            16,
        ),
{
    let mut hash: u64 = HASH_SEED;
    hash_state(&mut hash, "source", &source);
    hash_state(&mut hash, "parquetdir", &parquetdir);
    if let Some(list) = files {
        hash_parquetdir(&mut hash, list);
    }
    let ghost start = hash;
    let mut i: usize = 0;
    while i < 5
        invariant
            i <= 5,
            sidecars@.len() == 5,
            hash == sidecars_hashed(start, sidecars@, i as nat),
        decreases 5 - i,
    {
        hash_state(&mut hash, sidecar_name(i), &sidecars[i]);
        i = i + 1;
    }
    hex16_text(hash)
}

/// Number of bytes of the text.
pub open spec fn byte_len(text: Seq<char>) -> nat {
    encode_utf8(text).len()
}

/// Bytes of the names and the view definitions of the first `n` tables.
pub open spec fn table_bytes(tables: Seq<TableFile>, parquetdir: Seq<char>, n: nat) -> nat
    decreases n,
{
    if n == 0 {
        0
    } else {
        let table = tables[n - 1];
        table_bytes(tables, parquetdir, (n - 1) as nat) + byte_len(table.table@) + byte_len(
            view_text(quoted(table.table@), joined_path(parquetdir, table.file@)),
        )
    }
}

/// The lesser of the two.
pub open spec fn capped(n: nat, limit: nat) -> nat {
    if n <= limit {
        n
    } else {
        limit
    }
}

/// What the daemon keeps of an open trace, in bytes.
pub open spec fn structure_bytes(
    handle_size: nat,
    string_size: nat,
    source: Seq<char>,
    parquetdir: Seq<char>,
    listed: nat,
    tables: Seq<TableFile>,
    views: Seq<Seq<char>>,
) -> nat {
    handle_size + byte_len(source) + byte_len(parquetdir) + capped(
        listed * string_size,
        usize::MAX as nat,
    ) + byte_len("CREATE SCHEMA IF NOT EXISTS nsight"@) + table_bytes(
        tables,
        parquetdir,
        tables.len(),
    ) + view_bytes(views, views.len())
}

/// Bytes of the first `n` definitions.
pub open spec fn view_bytes(views: Seq<Seq<char>>, n: nat) -> nat
    decreases n,
{
    if n == 0 {
        0
    } else {
        view_bytes(views, (n - 1) as nat) + byte_len(views[n - 1])
    }
}

fn more(bytes: u64, additional: usize) -> (sum: u64)
    ensures
        sum == capped((bytes + additional) as nat, u64::MAX as nat),
{
    if additional as u64 > u64::MAX - bytes {
        u64::MAX
    } else {
        bytes + additional as u64
    }
}

/// The part that is counted so far, cut off at the largest number.
proof fn capped_sum(total: nat, part: nat)
    ensures
        capped(capped(total, u64::MAX as nat) + part, u64::MAX as nat) == capped(
            total + part,
            u64::MAX as nat,
        ),
{
}

/// What the daemon keeps of an open trace, in bytes, cut off at the largest
/// number.
///
/// The bytes of tables and sidecars stay on disk and do not count. DuckDB's
/// catalog is represented by the definitions of its views: those of the tables
/// and `views`, those of the optional sidecars that are there. `listed` is the
/// number of parquet files, those included whose names are no text.
/// `handle_size` and `string_size` are what the handle and a string take.
pub fn resident_structure_estimate(
    handle_size: usize,
    string_size: usize,
    source: &str,
    parquetdir: &str,
    listed: usize,
    tables: &Vec<TableFile>,
    views: &Vec<String>,
) -> (bytes: u64)
    ensures
        bytes == capped(
            structure_bytes(
                handle_size as nat,
                string_size as nat,
                source@,
                parquetdir@,
                listed as nat,
                tables@,
                strings(views@),
            ),
            u64::MAX as nat,
        ),
{
    let ghost limit = u64::MAX as nat;
    let strings_size: usize = match listed.checked_mul(string_size) {
        Some(n) => n,
        None => usize::MAX,
    };
    assert(strings_size == capped((listed * string_size) as nat, usize::MAX as nat));
    let mut bytes: u64 = handle_size as u64;
    let ghost mut total: nat = handle_size as nat;
    bytes = more(bytes, source.as_bytes().len());
    proof {
        capped_sum(total, byte_len(source@));
        total = total + byte_len(source@);
    }
    bytes = more(bytes, parquetdir.as_bytes().len());
    proof {
        capped_sum(total, byte_len(parquetdir@));
        total = total + byte_len(parquetdir@);
    }
    bytes = more(bytes, strings_size);
    proof {
        capped_sum(total, strings_size as nat);
        total = total + strings_size as nat;
    }
    bytes = more(bytes, "CREATE SCHEMA IF NOT EXISTS nsight".as_bytes().len());
    proof {
        capped_sum(total, byte_len("CREATE SCHEMA IF NOT EXISTS nsight"@));
        total = total + byte_len("CREATE SCHEMA IF NOT EXISTS nsight"@);
    }
    let ghost base = total;
    let mut i: usize = 0;
    while i < tables.len()
        invariant
            i <= tables.len(),
            limit == u64::MAX as nat,
            total == base + table_bytes(tables@, parquetdir@, i as nat),
            bytes == capped(total, limit),
        decreases tables.len() - i,
    {
        let table = &tables[i];
        let path = join_path(parquetdir, table.file.as_str());
        let sql = parquet_view_sql(table.table.as_str(), path.as_str());
        bytes = more(bytes, table.table.as_str().as_bytes().len());
        proof {
            capped_sum(total, byte_len(table.table@));
            total = total + byte_len(table.table@);
        }
        bytes = more(bytes, sql.as_str().as_bytes().len());
        proof {
            capped_sum(total, byte_len(sql@));
            total = total + byte_len(sql@);
        }
        i = i + 1;
    }
    let ghost with_tables = total;
    let ghost texts = strings(views@);
    let mut j: usize = 0;
    while j < views.len()
        invariant
            j <= views.len(),
            limit == u64::MAX as nat,
            texts == strings(views@),
            total == with_tables + view_bytes(texts, j as nat),
            bytes == capped(total, limit),
        decreases views.len() - j,
    {
        bytes = more(bytes, views[j].as_str().as_bytes().len());
        proof {
            assert(texts[j as int] == views@[j as int]@);
            capped_sum(total, byte_len(texts[j as int]));
            total = total + byte_len(texts[j as int]);
        }
        j = j + 1;
    }
    bytes
}

/// The identity of a trace. `canonical` is the absolute path of its source where
/// that could be told.
pub fn resident_trace_identity(
    path: &str,
    canonical: Option<String>,
    freshness_key: String,
    resident_memory_estimate_bytes: u64,
) -> (identity: ResidentTraceIdentity)
    ensures
        identity.canonical_source_path@ == match canonical {
            Some(absolute) => absolute@,
            None => source_of(path@),
        },
        identity.freshness_key == freshness_key,
        identity.resident_memory_estimate_bytes == resident_memory_estimate_bytes,
{
    let canonical_source_path = match canonical {
        Some(absolute) => absolute,
        None => sidecar_source_path(path),
    };
    ResidentTraceIdentity { canonical_source_path, freshness_key, resident_memory_estimate_bytes }
}

/// A report is nobody's generated directory.
pub proof fn report_is_its_own_source(report: Seq<char>)
    requires
        names_report(report),
    ensures
        source_of(report) == report,
{
    report_name_ends(report);
    reveal_strlit("parquetdir");
    assert("parquetdir"@.last() == 'r');
    assert(file_name_of(report) != Some("parquetdir"@));
}

/// A report and the directory that it was exported to have the same identity:
/// it depends on the same paths, which are written the same where the
/// owner of that directory is written as the report.
pub proof fn alias_has_report_identity(report: Seq<char>)
    requires
        names_report(report),
    ensures
        source_of(report) == report,
        same_path(source_of(pqtdir_of(report)), report),
        same_path(tables_of(source_of(pqtdir_of(report))), tables_of(report)),
        alias_owner(report) == report ==> source_of(pqtdir_of(report)) == report,
{
    generated_dir_belongs_to_report(report);
    report_is_its_own_source(report);
    reveal_strlit("parquetdir");
    alias_has_report_artifacts(report, "parquetdir"@);
}

} // verus!
