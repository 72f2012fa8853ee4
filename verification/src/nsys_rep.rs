//! Transparent `.nsys-rep` to parquetdir conversion.
//!
//! The `.nsys-rep` input is exported by `nsys export --type parquetdir` to a
//! directory of per-table Parquet files under the report's `<report>.veloq/`
//! artifact root. The directory is the parquet cache itself.
//!
//! ```text
//! <stem>.nsys-rep
//! <stem>.nsys-rep.veloq/
//!   parquetdir/                       # exported by nsys, cached here
//!     CUPTI_ACTIVITY_KIND_KERNEL.parquet
//!     NVTX_EVENTS.parquet
//!     ...                             # one .parquet per nsys table
//!   export.lock                       # advisory lock for the export
//! ```
//!
//! A cached directory is fresh when its `META_DATA_EXPORT.parquet` changed no
//! earlier than the report did.
//!
//! Two processes can race on a fresh report. The first to take the lock
//! exports; the second waits, checks the cache again and goes on with it.
//!
//! What touches the disk or starts `nsys` is left to the caller: the functions
//! here decide, over what the caller found, what is to be done next.
use crate::error::{NsysDataError, NsysDataResult};
use crate::paths::{
    artifact, artifact_dir, artifact_path, extension, extension_of, file_name, file_name_of,
    join_path, joined_path, last_dot, last_dot_bounds, parent, parent_of, parts_behind,
    rejoined_is_same, same_path, strip_suffix, tail_start, tail_start_bounds, text_of, trimmed,
    trimmed_is_same, without_suffix,
};
use crate::text::{contains_text, holds_text, str_eq, strings, trim_text, trimmed_text};
use vstd::prelude::*;
use vstd::string::StringExecFns;

verus! {

/// Directory suffix of nsys's own naming.
pub const PQTDIR_SUFFIX: &'static str = "_pqtdir";

/// Table that every export holds: a parquetdir without it is partial.
pub const SENTINEL_TABLE: &'static str = "META_DATA_EXPORT.parquet";

/// OS error "text file busy".
pub const ETXTBSY: i32 = 26;

/// How often a start of `nsys` is tried again while its file is busy.
pub const TEXT_BUSY_RETRIES: usize = 20;

/// Where a trace comes from and where its tables are.
#[derive(Debug, Clone, PartialEq, Eq)]
pub struct ResolvedTracePath {
    /// Canonical source identity for derived sidecars.
    pub source_path: String,
    /// Directory of NSys-exported parquet tables opened by DuckDB.
    pub pqtdir_path: String,
}

/// The path names a report.
pub open spec fn names_report(path: Seq<char>) -> bool {
    extension_of(path) == Some("nsys-rep"@)
}

/// The path names a directory that nsys exported.
pub open spec fn names_parquetdir(path: Seq<char>) -> bool {
    match file_name_of(path) {
        Some(name) => without_suffix(name, "_pqtdir"@) is Some,
        None => false,
    }
}

/// The report whose artifact root holds this `parquetdir`.
pub open spec fn owner_of(path: Seq<char>) -> Option<Seq<char>> {
    if file_name_of(path) != Some("parquetdir"@) {
        None
    } else {
        match parent_of(path) {
            None => None,
            Some(root) => match file_name_of(root) {
                None => None,
                Some(root_name) => match without_suffix(root_name, ".veloq"@) {
                    None => None,
                    Some(owner_name) => {
                        let owner = match parent_of(root) {
                            Some(dir) => joined_path(dir, owner_name),
                            None => owner_name,
                        };
                        if names_report(owner) {
                            Some(owner)
                        } else {
                            None
                        }
                    },
                },
            },
        }
    }
}

/// The exported tables of a report.
pub open spec fn pqtdir_of(report: Seq<char>) -> Seq<char> {
    artifact(report, "parquetdir"@)
}

/// The file whose presence decides whether the path can be resolved; none
/// where that does not depend on the disk.
pub open spec fn needed_path(path: Seq<char>) -> Option<Seq<char>> {
    if names_report(path) {
        Some(path)
    } else {
        match owner_of(path) {
            Some(owner) => Some(owner),
            None => if names_parquetdir(path) {
                Some(path)
            } else {
                None
            },
        }
    }
}

/// The resolution is this pair of paths.
pub open spec fn resolves_to(
    found: NsysDataResult<ResolvedTracePath>,
    source: Seq<char>,
    pqtdir: Seq<char>,
) -> bool {
    found matches Ok(r) && r.source_path@ == source && r.pqtdir_path@ == pqtdir
}

/// What a path stands for, where `present` says whether its needed file is
/// there.
pub open spec fn is_resolution(
    path: Seq<char>,
    present: bool,
    found: NsysDataResult<ResolvedTracePath>,
) -> bool {
    if names_report(path) {
        if present {
            resolves_to(found, path, pqtdir_of(path))
        } else {
            found matches Err(NsysDataError::TraceNotFound { path: p }) && p@ == path
        }
    } else if owner_of(path) is Some {
        let owner = owner_of(path)->0;
        if present {
            resolves_to(found, owner, pqtdir_of(owner))
        } else {
            found matches Err(NsysDataError::GeneratedParquetdirSourceMissing { source_path: p })
                && p@ == owner
        }
    } else if names_parquetdir(path) {
        if present {
            resolves_to(found, path, path)
        } else {
            found matches Err(NsysDataError::ParquetdirNotFound { path: p }) && p@ == path
        }
    } else if extension_of(path) == Some("sqlite"@) {
        found matches Err(NsysDataError::SqliteInputUnsupported { path: p }) && p@ == path
    } else {
        resolves_to(found, path, path)
    }
}

fn has_extension(path: &str, wanted: &str) -> (b: bool)
    ensures
        b == (extension_of(path@) == Some(wanted@)),
{
    match extension(path) {
        Some(e) => str_eq(e.as_str(), wanted),
        None => false,
    }
}

/// Whether the path names a report.
pub fn is_nsys_rep(path: &str) -> (b: bool)
    ensures
        b == names_report(path@),
{
    has_extension(path, "nsys-rep")
}

/// Whether the path names a directory that nsys exported.
pub fn is_parquetdir(path: &str) -> (b: bool)
    ensures
        b == names_parquetdir(path@),
{
    match file_name(path) {
        Some(name) => strip_suffix(name.as_str(), PQTDIR_SUFFIX).is_some(),
        None => false,
    }
}

/// The `.nsys-rep` owner of a generated `<report>.veloq/parquetdir/` path.
///
/// Not every directory named `parquetdir` is one: only the exact child of a
/// `.veloq` artifact root is a generated alias. Direct user exports keep the
/// `_pqtdir` suffix.
pub fn generated_parquetdir_owner(path: &str) -> (owner: Option<String>)
    ensures
        text_of(owner) == owner_of(path@),
{
    match file_name(path) {
        None => {
            return None;
        },
        Some(name) => {
            if !str_eq(name.as_str(), "parquetdir") {
                return None;
            }
        },
    }
    let root = match parent(path) {
        None => {
            return None;
        },
        Some(root) => root,
    };
    let root_name = match file_name(root.as_str()) {
        None => {
            return None;
        },
        Some(root_name) => root_name,
    };
    let owner_name = match strip_suffix(root_name.as_str(), ".veloq") {
        None => {
            return None;
        },
        Some(owner_name) => owner_name,
    };
    let owner = match parent(root.as_str()) {
        Some(dir) => join_path(dir.as_str(), owner_name.as_str()),
        None => owner_name,
    };
    if is_nsys_rep(owner.as_str()) {
        Some(owner)
    } else {
        None
    }
}

/// Whether the path is a generated parquetdir child whose owning report is
/// still there; `owner_present` says whether the owner is.
pub fn is_valid_generated_parquetdir(path: &str, owner_present: bool) -> (b: bool)
    ensures
        b == (owner_of(path@) is Some && owner_present),
{
    generated_parquetdir_owner(path).is_some() && owner_present
}

/// Source identity for sidecar readers that get a raw path and must not start
/// an export.
pub fn sidecar_source_path(path: &str) -> (source: String)
    ensures
        source@ == match owner_of(path@) {
            Some(owner) => owner,
            None => path@,
        },
{
    match generated_parquetdir_owner(path) {
        Some(owner) => owner,
        None => path.to_owned(),
    }
}

/// `<report>.veloq/parquetdir`.
pub fn pqtdir_path_for(nsys_rep: &str) -> (dir: String)
    ensures
        dir@ == pqtdir_of(nsys_rep@),
{
    artifact_path(nsys_rep, "parquetdir")
}

/// `<report>.veloq/export.lock`.
pub fn lock_path_for(nsys_rep: &str) -> (file: String)
    ensures
        file@ == artifact(nsys_rep@, "export.lock"@),
{
    artifact_path(nsys_rep, "export.lock")
}

/// Where nsys puts its output, run in this directory: releases differ in
/// whether they append their own suffix to the name that they are given.
pub fn nsys_generated_pqtdir_paths_for(export_cwd: &str) -> (paths: Vec<String>)
    ensures
        strings(paths@) == seq![
            joined_path(export_cwd@, "nsys-export"@),
            joined_path(export_cwd@, "nsys-export_pqtdir"@),
        ],
{
    let mut paths: Vec<String> = Vec::new();
    paths.push(join_path(export_cwd, "nsys-export"));
    paths.push(join_path(export_cwd, "nsys-export_pqtdir"));
    assert(strings(paths@) =~= seq![
        joined_path(export_cwd@, "nsys-export"@),
        joined_path(export_cwd@, "nsys-export_pqtdir"@),
    ]);
    paths
}

/// The file whose presence the caller has to look up before it resolves the
/// path.
pub fn path_to_check(path: &str) -> (needed: Option<String>)
    ensures
        text_of(needed) == needed_path(path@),
{
    if is_nsys_rep(path) {
        return Some(path.to_owned());
    }
    match generated_parquetdir_owner(path) {
        Some(owner) => Some(owner),
        None => if is_parquetdir(path) {
            Some(path.to_owned())
        } else {
            None
        },
    }
}

/// Resolves an NSys input into source identity and parquetdir. `present` says
/// whether the path of [`path_to_check`] is there.
///
/// `.nsys-rep` inputs are exported to `<report>.veloq/parquetdir/`, which the
/// caller brings up to date step by step ([`next_step`]).
/// Direct user-provided `_pqtdir/` inputs are source data in their own
/// right, so derived sidecars live under `<pqtdir>.veloq/`.
/// Generated `<report>.veloq/parquetdir/` paths are an alias for the owning
/// `.nsys-rep`, so repeated calls cannot fork a second
/// `<report>.veloq/parquetdir.veloq/` cache root.
///
/// `.sqlite` inputs are rejected outright. Every other path passes unchanged.
pub fn resolve_trace(path: &str, present: bool) -> (found: NsysDataResult<ResolvedTracePath>)
    ensures
        is_resolution(path@, present, found),
{
    if is_nsys_rep(path) {
        if !present {
            return Err(NsysDataError::trace_not_found(path));
        }
        return Ok(
            ResolvedTracePath { source_path: path.to_owned(), pqtdir_path: pqtdir_path_for(path) },
        );
    }
    if let Some(owner) = generated_parquetdir_owner(path) {
        if !present {
            return Err(NsysDataError::generated_parquetdir_source_missing(owner.as_str()));
        }
        let pqtdir_path = pqtdir_path_for(owner.as_str());
        return Ok(ResolvedTracePath { source_path: owner, pqtdir_path });
    }
    if is_parquetdir(path) {
        if !present {
            return Err(NsysDataError::parquetdir_not_found(path));
        }
        return Ok(ResolvedTracePath { source_path: path.to_owned(), pqtdir_path: path.to_owned() });
    }
    if has_extension(path, "sqlite") {
        return Err(NsysDataError::sqlite_input_unsupported(path));
    }
    Ok(ResolvedTracePath { source_path: path.to_owned(), pqtdir_path: path.to_owned() })
}

/// The parquetdir alone of what the path resolves to.
pub fn resolve_trace_path(path: &str, present: bool) -> (found: NsysDataResult<String>)
    ensures
        exists|r: NsysDataResult<ResolvedTracePath>|
            is_resolution(path@, present, r) && #[trigger] is_pqtdir_of(r, found),
{
    let resolved = resolve_trace(path, present);
    let ghost r = resolved;
    let found = match resolved {
        Ok(r) => Ok(r.pqtdir_path),
        Err(error) => Err(error),
    };
    assert(is_resolution(path@, present, r) && is_pqtdir_of(r, found));
    found
}

/// The second result is the parquetdir of the first, or the same error.
pub open spec fn is_pqtdir_of(
    resolved: NsysDataResult<ResolvedTracePath>,
    found: NsysDataResult<String>,
) -> bool {
    match resolved {
        Ok(r) => found matches Ok(dir) && dir@ == r.pqtdir_path@,
        Err(error) => found == Err::<String, NsysDataError>(error),
    }
}

/// The path is written plainly: it is the directory in front of its last
/// separator, that separator and what stands behind it.
pub open spec fn is_plain(path: Seq<char>) -> bool {
    let at = tail_start(path);
    path == joined_path(trimmed(path.take(at)), path.skip(at))
}

/// The name of a report ends like its extension.
pub proof fn report_name_ends(path: Seq<char>)
    requires
        names_report(path),
    ensures
        file_name_of(path)->0.len() > 0,
        file_name_of(path)->0.last() == 'p',
{
    reveal_strlit("nsys-rep");
    let name = file_name_of(path)->0;
    last_dot_bounds(name);
    let tail = name.skip(last_dot(name) + 1);
    assert(tail == "nsys-rep"@);
    assert(tail.last() == 'p');
}

/// The file name of a path whose last part is a name.
proof fn named_tail(front: Seq<char>, tail: Seq<char>)
    requires
        front.len() > 0 ==> front.last() == '/',
        tail.len() > 0,
        forall|i: int| 0 <= i < tail.len() ==> tail[i] != '/',
        tail != seq!['.'],
    ensures
        trimmed(front + tail) == front + tail,
        tail_start(front + tail) == front.len(),
        file_name_of(front + tail) == if tail == seq!['.', '.'] {
            None
        } else {
            Some(tail)
        },
{
    let path = front + tail;
    parts_behind(front, tail);
    assert(path.last() == tail.last());
    if path.len() > 1 && path.last() == '.' && path[path.len() - 2] == '/' {
        if tail.len() > 1 {
            assert(path[path.len() - 2] == tail[tail.len() - 2]);
        } else {
            assert(tail =~= seq!['.']);
        }
    }
    assert(path.subrange(front.len() as int, path.len() as int) =~= tail);
}

/// Where the artifact root of a report is, and what it is called.
proof fn root_of_report(report: Seq<char>)
    ensures
        ({
            let at = tail_start(report);
            let root = artifact_dir(report);
            &&& 0 <= at <= report.len()
            &&& trimmed(root) == root
            &&& tail_start(root) == at
            &&& file_name_of(root) == Some(report.skip(at) + ".veloq"@)
            &&& parent_of(root) == Some(trimmed(report.take(at)))
        }),
{
    reveal_strlit(".veloq");
    tail_start_bounds(report);
    let at = tail_start(report);
    let front = report.take(at);
    let name = report.skip(at) + ".veloq"@;
    let root = artifact_dir(report);
    assert(root =~= front + name);
    assert(name.last() == 'q');
    assert forall|i: int| 0 <= i < name.len() implies name[i] != '/' by {
        if i < report.len() - at {
            assert(name[i] == report[at + i]);
        }
    }
    named_tail(front, name);
    assert(root.last() == 'q');
    assert(root.take(at) =~= front);
}

/// What belongs to the `parquetdir` under a root.
proof fn generated_under(root: Seq<char>)
    requires
        root.len() > 0,
        root.last() == 'q',
    ensures
        file_name_of(joined_path(root, "parquetdir"@)) == Some("parquetdir"@),
        parent_of(joined_path(root, "parquetdir"@)) == Some(trimmed(root)),
        !names_report(joined_path(root, "parquetdir"@)),
{
    reveal_strlit("parquetdir");
    reveal_strlit("nsys-rep");
    reveal_strlit("/");
    let front = root + "/"@;
    let path = joined_path(root, "parquetdir"@);
    assert(path =~= front + "parquetdir"@);
    named_tail(front, "parquetdir"@);
    assert(path.take(front.len() as int) =~= front);
    assert(front.drop_last() =~= root);
    assert(path.last() == 'r');
    assert("parquetdir"@.drop_last() =~= seq!['p', 'a', 'r', 'q', 'u', 'e', 't', 'd', 'i']);
    assert(last_dot("parquetdir"@) == -1) by {
        reveal_with_fuel(last_dot, 11);
    }
}

/// A report, taken apart into its directory and its last part and joined anew,
/// is the same report.
proof fn rejoined_report(report: Seq<char>)
    requires
        names_report(report),
    ensures
        ({
            let at = tail_start(report);
            let owner = joined_path(trimmed(report.take(at)), report.skip(at));
            &&& same_path(owner, report)
            &&& file_name_of(owner) == file_name_of(report)
        }),
{
    reveal_strlit("/");
    tail_start_bounds(report);
    let at = tail_start(report);
    let front = report.take(at);
    let tail = report.skip(at);
    let dir = trimmed(front);
    let owner = joined_path(dir, tail);
    assert(report =~= front + tail);
    trimmed_is_same(front);
    trimmed_is_same(report);
    if tail.len() == 0 {
        assert(front =~= report);
        assert(dir.last() != '/') by {
            if dir.last() == '/' {
                assert(dir =~= seq!['/']);
                assert(tail_start(dir) == 1);
            }
        }
        assert(owner =~= dir + "/"@);
        assert(owner.drop_last() =~= dir);
        assert(trimmed(owner) == dir);
    } else {
        assert forall|i: int| 0 <= i < tail.len() implies tail[i] != '/' by {
            assert(tail[i] == report[at + i]);
        }
        rejoined_is_same(report, tail);
        if tail == seq!['.'] {
            if at == 0 {
                assert(report =~= seq!['.']);
                assert(trimmed(report) == report);
                assert(report.subrange(0, 1) =~= seq!['.']);
            }
            assert(report.last() == '.' && report[report.len() - 2] == '/');
            assert(report.drop_last() =~= front);
            assert(trimmed(report) == dir);
            assert(dir.last() != '/') by {
                if dir.last() == '/' {
                    assert(dir =~= seq!['/']);
                    assert(tail_start(dir) == 1);
                }
            }
            assert(owner =~= dir + "/"@ + seq!['.']);
            assert(owner.drop_last() =~= dir + "/"@);
            assert((dir + "/"@).drop_last() =~= dir);
            assert(trimmed(dir + "/"@) == dir);
            assert(trimmed(owner) == dir);
        } else {
            named_tail(front, tail);
            let open = if dir.len() == 0 || dir.last() == '/' {
                dir
            } else {
                dir + "/"@
            };
            assert(owner =~= open + tail);
            named_tail(open, tail);
        }
    }
}

/// The directory that a report is exported to belongs to that report: its owner
/// is the same path, and is written the same exactly where the report is written
/// plainly, with or without a separator at its end.
pub proof fn generated_dir_belongs_to_report(report: Seq<char>)
    requires
        names_report(report),
    ensures
        owner_of(pqtdir_of(report)) matches Some(owner) && same_path(owner, report) && names_report(
            owner,
        ),
        is_plain(report) <==> owner_of(pqtdir_of(report)) == Some(report),
        !names_report(pqtdir_of(report)),
{
    reveal_strlit(".veloq");
    let at = tail_start(report);
    let root = artifact_dir(report);
    let tail = report.skip(at);
    root_of_report(report);
    assert(root.last() == 'q');
    generated_under(root);
    let root_name = tail + ".veloq"@;
    assert(root_name.skip(root_name.len() - ".veloq"@.len()) =~= ".veloq"@);
    assert(root_name.take(root_name.len() - ".veloq"@.len()) =~= tail);
    rejoined_report(report);
}

/// The owner that a generated directory of the report has.
pub open spec fn alias_owner(report: Seq<char>) -> Seq<char> {
    owner_of(pqtdir_of(report))->0
}

/// What is derived from a report and what is derived from the owner of its
/// generated directory is in the same place.
pub proof fn alias_has_report_artifacts(report: Seq<char>, name: Seq<char>)
    requires
        names_report(report),
        name.len() > 0,
        name != seq!['.'],
        forall|i: int| 0 <= i < name.len() ==> name[i] != '/',
    ensures
        same_path(artifact(alias_owner(report), name), artifact(report, name)),
{
    reveal_strlit(".veloq");
    reveal_strlit("/");
    tail_start_bounds(report);
    let at = tail_start(report);
    let front = report.take(at);
    let tail = report.skip(at);
    let dir = trimmed(front);
    let owner = joined_path(dir, tail);
    assert(owner == alias_owner(report)) by {
        root_of_report(report);
        let root = artifact_dir(report);
        assert(root.last() == 'q');
        generated_under(root);
        let root_name = tail + ".veloq"@;
        assert(root_name.skip(root_name.len() - ".veloq"@.len()) =~= ".veloq"@);
        assert(root_name.take(root_name.len() - ".veloq"@.len()) =~= tail);
        rejoined_report(report);
    }
    let root_name = tail + ".veloq"@;
    assert forall|i: int| 0 <= i < root_name.len() implies root_name[i] != '/' by {
        if i < tail.len() {
            assert(root_name[i] == report[at + i]);
        }
    }
    rejoined_is_same(report, root_name);
    let a = artifact_dir(owner);
    let b = artifact_dir(report);
    assert(a =~= joined_path(dir, root_name));
    assert(b =~= front + root_name);
    assert(a.last() == 'q' && b.last() == 'q');
    assert((a + "/"@).drop_last() =~= a && (b + "/"@).drop_last() =~= b);
    parts_behind(a + "/"@, name);
    parts_behind(b + "/"@, name);
    assert(artifact(owner, name) =~= a + "/"@ + name);
    assert(artifact(report, name) =~= b + "/"@ + name);
}

/// The root is called `.veloq` or `..veloq` and stands in a directory that is
/// called like a report: it is taken for the root of that report.
pub open spec fn stands_in_report(root: Seq<char>) -> bool {
    (file_name_of(root) == Some(".veloq"@) || file_name_of(root) == Some("..veloq"@)) && (
    parent_of(root) matches Some(dir) && names_report(dir))
}

/// Joining nothing, or the directory itself, keeps the last name of a directory.
proof fn joined_to_itself(dir: Seq<char>, tail: Seq<char>)
    requires
        trimmed(dir) == dir,
        tail.len() == 0 || tail == seq!['.'],
    ensures
        file_name_of(joined_path(dir, tail)) == file_name_of(dir),
{
    reveal_strlit("/");
    let joined = joined_path(dir, tail);
    let open = if dir.len() == 0 || dir.last() == '/' {
        dir
    } else {
        dir + "/"@
    };
    assert(joined =~= open + tail);
    if dir.len() > 0 {
        assert(trimmed(open) == dir) by {
            if dir.last() != '/' {
                assert(open.drop_last() =~= dir);
            }
        }
        if tail.len() == 0 {
            assert(joined =~= open);
        } else {
            assert(joined.drop_last() =~= open);
        }
        assert(trimmed(joined) == dir);
    } else if tail.len() == 0 {
        assert(joined =~= dir);
    } else {
        reveal_with_fuel(tail_start, 2);
        assert(joined =~= seq!['.']);
        assert(joined.subrange(0, 1) =~= seq!['.']);
    }
}

/// A path that is not called `parquetdir` has no owner, and neither has one
/// whose parent is not called `<something>.nsys-rep.veloq`. Left out is only a
/// parent that [`stands_in_report`].
pub proof fn other_dirs_have_no_owner(path: Seq<char>)
    requires
        file_name_of(path) != Some("parquetdir"@) || match parent_of(path) {
            None => true,
            Some(root) => match file_name_of(root) {
                None => true,
                Some(name) => without_suffix(name, ".nsys-rep.veloq"@) is None
                    && !stands_in_report(root),
            },
        },
    ensures
        owner_of(path) is None,
{
    if owner_of(path) is Some {
        reveal_strlit(".veloq");
        reveal_strlit("..veloq");
        reveal_strlit("nsys-rep");
        reveal_strlit(".nsys-rep.veloq");
        reveal_strlit("/");
        let root = parent_of(path)->0;
        let name = file_name_of(root)->0;
        let owner_name = without_suffix(name, ".veloq"@)->0;
        let owner = owner_of(path)->0;
        assert(name =~= owner_name + ".veloq"@);
        let body = trimmed(root);
        tail_start_bounds(body);
        assert forall|i: int| 0 <= i < owner_name.len() implies owner_name[i] != '/' by {
            assert(owner_name[i] == name[i]);
            assert(name[i] == body[tail_start(body) + i]);
        }
        let dir = parent_of(root)->0;
        assert(owner == joined_path(dir, owner_name));
        assert(owner_name.len() > 0 && owner_name != seq!['.']) by {
            if owner_name.len() == 0 || owner_name == seq!['.'] {
                if owner_name.len() == 0 {
                    assert(name =~= ".veloq"@);
                } else {
                    assert(name =~= "..veloq"@);
                }
                trimmed_is_same(body.take(tail_start(body)));
                joined_to_itself(dir, owner_name);
                assert(stands_in_report(root));
            }
        }
        let open = if dir.len() == 0 || dir.last() == '/' {
            dir
        } else {
            dir + "/"@
        };
        assert(owner =~= open + owner_name);
        named_tail(open, owner_name);
        last_dot_bounds(owner_name);
        let dot = last_dot(owner_name);
        assert(owner_name.skip(dot + 1) == "nsys-rep"@);
        let from = name.len() - ".nsys-rep.veloq"@.len();
        assert(from == dot);
        assert forall|i: int| 0 <= i < ".nsys-rep.veloq"@.len() implies name.skip(from)[i]
            == ".nsys-rep.veloq"@[i] by {
            if 0 < i < 9 {
                assert(owner_name[dot + i] == owner_name.skip(dot + 1)[i - 1]);
            }
        }
        assert(name.skip(from) =~= ".nsys-rep.veloq"@);
    }
}

/// A report and the directory that it was exported to resolve to the same
/// source and the same tables: no second cache root comes up. The two are
/// written the same where the owner of that directory is written as the report.
pub proof fn alias_resolves_as_report(
    report: Seq<char>,
    by_report: NsysDataResult<ResolvedTracePath>,
    by_alias: NsysDataResult<ResolvedTracePath>,
)
    requires
        names_report(report),
        is_resolution(report, true, by_report),
        is_resolution(pqtdir_of(report), true, by_alias),
    ensures
        by_report is Ok,
        by_alias is Ok,
        by_report->Ok_0.source_path@ == report,
        by_report->Ok_0.pqtdir_path@ == pqtdir_of(report),
        same_path(by_alias->Ok_0.source_path@, report),
        same_path(by_alias->Ok_0.pqtdir_path@, pqtdir_of(report)),
        alias_owner(report) == report ==> by_alias->Ok_0.source_path@ == report
            && by_alias->Ok_0.pqtdir_path@ == pqtdir_of(report),
{
    reveal_strlit("parquetdir");
    generated_dir_belongs_to_report(report);
    alias_has_report_artifacts(report, "parquetdir"@);
}

/// Every resolution keeps its source: what a source path resolves to has that
/// path as its source again.
pub proof fn source_resolves_to_itself(
    path: Seq<char>,
    first: NsysDataResult<ResolvedTracePath>,
    second: NsysDataResult<ResolvedTracePath>,
)
    requires
        is_resolution(path, true, first),
        first is Ok,
        is_resolution(first->Ok_0.source_path@, true, second),
    ensures
        second is Ok,
        second->Ok_0.source_path@ == first->Ok_0.source_path@,
        second->Ok_0.pqtdir_path@ == first->Ok_0.pqtdir_path@,
{
}

/// When a file last changed: seconds and nanoseconds.
#[derive(Debug, Clone, Copy, PartialEq, Eq, Structural)]
pub struct ChangeTime {
    pub secs: i64,
    pub nanos: i64,
}

/// `a` is no later than `b`.
pub open spec fn no_later(a: ChangeTime, b: ChangeTime) -> bool {
    a.secs < b.secs || (a.secs == b.secs && a.nanos <= b.nanos)
}

/// Whether a parquetdir can stand for its report: it is a directory that holds
/// the sentinel table, and the sentinel changed no earlier than the report.
/// Times that cannot be read make it stale.
pub fn cache_valid(
    is_dir: bool,
    has_sentinel: bool,
    source: Option<ChangeTime>,
    sentinel: Option<ChangeTime>,
) -> (valid: bool)
    ensures
        valid == (is_dir && has_sentinel && match (source, sentinel) {
            (Some(a), Some(b)) => no_later(a, b),
            _ => false,
        }),
{
    if !is_dir || !has_sentinel {
        return false;
    }
    match (source, sentinel) {
        (Some(a), Some(b)) => a.secs < b.secs || (a.secs == b.secs && a.nanos <= b.nanos),
        _ => false,
    }
}

/// One step of bringing a report's parquetdir up to date.
#[derive(Debug, Clone, Copy, PartialEq, Eq, Structural)]
pub enum ExportStep {
    /// Is the cached directory valid? Asked without the lock.
    CheckCache,
    /// Take the export lock.
    TakeLock,
    /// Is the cached directory valid by now? Another process may have made it
    /// while the lock was held.
    RecheckCache,
    /// Is the generated directory of this place valid, left from an export
    /// that was not published?
    CheckGenerated { index: usize },
    /// Move the generated directory of this place to the cache.
    Publish { index: usize },
    /// Make sure that nsys can export parquetdirs.
    Probe,
    /// Run the export.
    Export,
    /// The cached directory is there.
    Ready,
}

/// The step behind `step`, where `held` is the answer to the question that the
/// step asks.
pub open spec fn step_after(step: ExportStep, held: bool) -> ExportStep {
    match step {
        ExportStep::CheckCache => if held {
            ExportStep::Ready
        } else {
            ExportStep::TakeLock
        },
        ExportStep::TakeLock => ExportStep::RecheckCache,
        ExportStep::RecheckCache => if held {
            ExportStep::Ready
        } else {
            ExportStep::CheckGenerated { index: 0 }
        },
        ExportStep::CheckGenerated { index } => if held {
            ExportStep::Publish { index }
        } else if index == 0 {
            ExportStep::CheckGenerated { index: 1 }
        } else {
            ExportStep::Probe
        },
        ExportStep::Publish { index } => ExportStep::Ready,
        ExportStep::Probe => ExportStep::Export,
        ExportStep::Export => ExportStep::Ready,
        ExportStep::Ready => ExportStep::Ready,
    }
}

/// The step behind `step`. A step that asks no question ignores `held`; one
/// that fails ends the walk with its error.
pub fn next_step(step: ExportStep, held: bool) -> (next: ExportStep)
    ensures
        next == step_after(step, held),
{
    match step {
        ExportStep::CheckCache => if held {
            ExportStep::Ready
        } else {
            ExportStep::TakeLock
        },
        ExportStep::TakeLock => ExportStep::RecheckCache,
        ExportStep::RecheckCache => if held {
            ExportStep::Ready
        } else {
            ExportStep::CheckGenerated { index: 0 }
        },
        ExportStep::CheckGenerated { index } => if held {
            ExportStep::Publish { index }
        } else if index == 0 {
            ExportStep::CheckGenerated { index: 1 }
        } else {
            ExportStep::Probe
        },
        ExportStep::Publish { index: _ } => ExportStep::Ready,
        ExportStep::Probe => ExportStep::Export,
        ExportStep::Export => ExportStep::Ready,
        ExportStep::Ready => ExportStep::Ready,
    }
}

/// Answers to the questions of a walk: the cache before and under the lock,
/// and the two generated directories.
pub struct ExportAnswers {
    pub cached: bool,
    pub cached_under_lock: bool,
    pub generated: Seq<bool>,
}

/// The answer to the question of the step.
pub open spec fn answer(answers: ExportAnswers, step: ExportStep) -> bool {
    match step {
        ExportStep::CheckCache => answers.cached,
        ExportStep::RecheckCache => answers.cached_under_lock,
        ExportStep::CheckGenerated { index } => answers.generated[index as int],
        _ => true,
    }
}

/// Step `n` of the walk.
pub open spec fn nth_step(answers: ExportAnswers, n: nat) -> ExportStep
    decreases n,
{
    if n == 0 {
        ExportStep::CheckCache
    } else {
        let before = nth_step(answers, (n - 1) as nat);
        step_after(before, answer(answers, before))
    }
}

/// The walk comes by the step.
pub open spec fn visits(answers: ExportAnswers, step: ExportStep) -> bool {
    exists|n: nat| nth_step(answers, n) == step
}

/// Every walk ends with the directory ready, and stays there.
pub proof fn export_walk_ends(answers: ExportAnswers, n: nat)
    requires
        n >= 7,
    ensures
        nth_step(answers, n) == ExportStep::Ready,
    decreases n,
{
    if n > 7 {
        export_walk_ends(answers, (n - 1) as nat);
    } else {
        reveal_with_fuel(nth_step, 8);
    }
}

/// nsys is run exactly when neither the cache, before or under the lock, nor
/// one of the generated directories is valid.
pub proof fn exports_only_when_nothing_is_valid(answers: ExportAnswers)
    ensures
        visits(answers, ExportStep::Export) <==> !answers.cached && !answers.cached_under_lock
            && !answers.generated[0] && !answers.generated[1],
{
    reveal_with_fuel(nth_step, 8);
    let run = !answers.cached && !answers.cached_under_lock && !answers.generated[0]
        && !answers.generated[1];
    if run {
        assert(nth_step(answers, 6) == ExportStep::Export);
    } else if visits(answers, ExportStep::Export) {
        let n = choose|n: nat| nth_step(answers, n) == ExportStep::Export;
        if n >= 7 {
            export_walk_ends(answers, n);
        } else {
            assert(n == 0 || n == 1 || n == 2 || n == 3 || n == 4 || n == 5 || n == 6);
        }
    }
}

/// A valid cache is used as it is: nothing is locked, moved or exported.
pub proof fn valid_cache_is_left_alone(answers: ExportAnswers, n: nat)
    requires
        answers.cached,
        n >= 1,
    ensures
        nth_step(answers, n) == ExportStep::Ready,
    decreases n,
{
    if n > 1 {
        valid_cache_is_left_alone(answers, (n - 1) as nat);
    } else {
        reveal_with_fuel(nth_step, 2);
    }
}

/// Whether the help text of `nsys export` names the parquetdir format. Some
/// releases write it to the error stream, so both are read.
pub fn has_parquetdir_support(stdout: &str, stderr: &str) -> (b: bool)
    ensures
        b == contains_text(stdout@ + stderr@, "parquetdir"@),
{
    let mut combined = stdout.to_owned();
    combined.append(stderr);
    holds_text(combined.as_str(), "parquetdir")
}

/// The version that `nsys --version` printed.
pub fn nsys_version_string(stdout: &str, stderr: &str) -> (version: String)
    ensures
        version@ == if trimmed_text(stdout@).len() == 0 {
            trimmed_text(stderr@)
        } else {
            trimmed_text(stdout@)
        },
{
    let version = trim_text(stdout);
    if version.as_str().is_empty() {
        trim_text(stderr)
    } else {
        version
    }
}

/// What a probe of nsys comes to. `support` is what [`has_parquetdir_support`]
/// said, or why nsys could not be run; `detected` is its version where that
/// could be read.
pub fn probe_nsys_capability(support: Result<bool, String>, detected: Option<String>) -> (done:
    NsysDataResult<()>)
    ensures
        match support {
            Ok(true) => done is Ok,
            Ok(false) => done matches Err(NsysDataError::NsysParquetdirUnsupported { detected: d })
                && d@ == match detected {
                Some(version) => version@,
                None => "unknown"@,
            },
            Err(why) => done matches Err(NsysDataError::NsysParquetdirProbeFailed { message: m })
                && m@ == why@,
        },
{
    match support {
        Ok(true) => Ok(()),
        Ok(false) => match detected {
            Some(version) => Err(NsysDataError::nsys_parquetdir_unsupported(version.as_str())),
            None => Err(NsysDataError::nsys_parquetdir_unsupported("unknown")),
        },
        Err(why) => Err(NsysDataError::nsys_parquetdir_probe_failed(why.as_str())),
    }
}

/// Arguments of the export, run in the artifact root. `source` is the absolute
/// path of the report.
pub fn export_args(source: &str) -> (args: Vec<String>)
    ensures
        strings(args@) == seq![
            "export"@,
            "-t"@,
            "parquetdir"@,
            "-f"@,
            "true"@,
            "-o"@,
            "nsys-export"@,
            source@,
        ],
{
    let mut args: Vec<String> = Vec::new();
    args.push("export".to_owned());
    args.push("-t".to_owned());
    args.push("parquetdir".to_owned());
    args.push("-f".to_owned());
    args.push("true".to_owned());
    args.push("-o".to_owned());
    args.push("nsys-export".to_owned());
    args.push(source.to_owned());
    assert(strings(args@) =~= seq![
        "export"@,
        "-t"@,
        "parquetdir"@,
        "-f"@,
        "true"@,
        "-o"@,
        "nsys-export"@,
        source@,
    ]);
    args
}

/// What stands in the way of an export at one of its output paths.
#[derive(Debug, Clone, Copy, PartialEq, Eq, Structural)]
pub enum StaleOutput {
    Directory,
    File,
    Nothing,
}

/// What has to be removed at an output path before an export.
pub fn stale_output(is_dir: bool, present: bool) -> (stale: StaleOutput)
    ensures
        stale == if is_dir {
            StaleOutput::Directory
        } else if present {
            StaleOutput::File
        } else {
            StaleOutput::Nothing
        },
{
    if is_dir {
        StaleOutput::Directory
    } else if present {
        StaleOutput::File
    } else {
        StaleOutput::Nothing
    }
}

/// The generated directory that a finished export left. `success` and
/// `exit_code` are how nsys ended, and the two flags say which of the paths of
/// [`nsys_generated_pqtdir_paths_for`] is a directory now.
pub fn exported_dir(
    source: &str,
    success: bool,
    exit_code: Option<i32>,
    first_is_dir: bool,
    second_is_dir: bool,
) -> (generated: NsysDataResult<String>)
    ensures
        ({
            let root = artifact_dir(source@);
            let first = joined_path(root, "nsys-export"@);
            let second = joined_path(root, "nsys-export_pqtdir"@);
            if !success {
                generated matches Err(
                    NsysDataError::NsysExportFailed { command: c, exit_code: e, source_path: s },
                ) && c@ == "nsys export -t parquetdir"@ && e == exit_code && s@ == source@
            } else if first_is_dir {
                generated matches Ok(dir) && dir@ == first
            } else if second_is_dir {
                generated matches Ok(dir) && dir@ == second
            } else {
                generated matches Err(NsysDataError::NsysExportOutputMissing { expected: e })
                    && e@ == first + " or "@ + second
            }
        }),
{
    if !success {
        return Err(
            NsysDataError::nsys_export_failed("nsys export -t parquetdir", exit_code, source),
        );
    }
    let first = artifact_path(source, "nsys-export");
    let second = artifact_path(source, "nsys-export_pqtdir");
    if first_is_dir {
        return Ok(first);
    }
    if second_is_dir {
        return Ok(second);
    }
    let mut expected = first;
    expected.append(" or ");
    expected.append(second.as_str());
    Err(NsysDataError::nsys_export_output_missing(expected.as_str()))
}

/// What publishing a generated directory takes, in this order.
#[derive(Debug, Clone, Copy, PartialEq, Eq, Structural)]
pub struct PublishPlan {
    /// Remove the directory that stands at the target.
    pub remove_target: bool,
    /// Move the generated directory to the target.
    pub rename: bool,
}

/// How to publish `generated` at `target`; `target_present` says whether
/// something stands there.
pub fn publish_plan(generated: &str, target: &str, target_present: bool) -> (plan: PublishPlan)
    ensures
        plan.rename == (generated@ != target@),
        plan.remove_target == (generated@ != target@ && target_present),
{
    let rename = !str_eq(generated, target);
    PublishPlan { remove_target: rename && target_present, rename }
}

/// Whether the published directory is there in the end.
pub fn published(target: &str, is_dir: bool) -> (done: NsysDataResult<()>)
    ensures
        match done {
            Ok(_) => is_dir,
            Err(error) => !is_dir && (error matches NsysDataError::NsysExportOutputMissing {
                expected: e,
            } && e@ == target@),
        },
{
    if is_dir {
        Ok(())
    } else {
        Err(NsysDataError::nsys_export_output_missing(target))
    }
}

/// Whether the output of nsys, passed on to the terminal, wants a line break
/// behind it.
pub fn wants_line_break(output: &Vec<u8>) -> (b: bool)
    ensures
        b == (output@.len() > 0 && output@.last() != 10 && output@.last() != 13),
{
    output.len() > 0 && output[output.len() - 1] != 10 && output[output.len() - 1] != 13
}

/// Whether a start of nsys that failed with this OS error is tried again:
/// right after it was written the file of a program can be busy. Counts the
/// attempts.
pub fn retry_text_file_busy(os_error: Option<i32>, attempts: &mut usize) -> (again: bool)
    ensures
        again == (os_error == Some(ETXTBSY) && *old(attempts) < TEXT_BUSY_RETRIES),
        *final(attempts) == if again {
            *old(attempts) + 1
        } else {
            *old(attempts) as int
        },
{
    match os_error {
        Some(code) => if code == ETXTBSY && *attempts < TEXT_BUSY_RETRIES {
            *attempts = *attempts + 1;
            true
        } else {
            false
        },
        None => false,
    }
}

} // verus!
