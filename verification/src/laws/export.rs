//! How a trace is exported, and which file a path stands for.
use crate::error::NsysDataResult;
use crate::nsys_rep::{
    is_resolution, names_parquetdir, nth_step, owner_of, ExportAnswers, ExportStep,
    ResolvedTracePath,
};
use crate::paths::{
    extension_of, file_name_of, last_dot, last_dot_bounds, parent_of, tail_start, tail_start_bounds,
    trimmed,
};
use vstd::prelude::*;

verus! {

/// What is done after so many answers.
pub open spec fn walk(answers: ExportAnswers) -> Seq<ExportStep> {
    if answers.cached {
        seq![ExportStep::CheckCache, ExportStep::Ready]
    } else if answers.cached_under_lock {
        seq![
            ExportStep::CheckCache,
            ExportStep::TakeLock,
            ExportStep::RecheckCache,
            ExportStep::Ready,
        ]
    } else if answers.generated[0] {
        seq![
            ExportStep::CheckCache,
            ExportStep::TakeLock,
            ExportStep::RecheckCache,
            ExportStep::CheckGenerated { index: 0 },
            ExportStep::Publish { index: 0 },
            ExportStep::Ready,
        ]
    } else if answers.generated[1] {
        seq![
            ExportStep::CheckCache,
            ExportStep::TakeLock,
            ExportStep::RecheckCache,
            ExportStep::CheckGenerated { index: 0 },
            ExportStep::CheckGenerated { index: 1 },
            ExportStep::Publish { index: 1 },
            ExportStep::Ready,
        ]
    } else {
        seq![
            ExportStep::CheckCache,
            ExportStep::TakeLock,
            ExportStep::RecheckCache,
            ExportStep::CheckGenerated { index: 0 },
            ExportStep::CheckGenerated { index: 1 },
            ExportStep::Probe,
            ExportStep::Export,
            ExportStep::Ready,
        ]
    }
}

/// An export goes through these steps: a valid cache is used as it is; under the
/// lock the cache is looked at again, then what an earlier export left is
/// published, and only where there is nothing is a new export made.
pub proof fn exports_walk(answers: ExportAnswers, n: nat)
    requires
        n < walk(answers).len(),
    ensures
        nth_step(answers, n) == walk(answers)[n as int],
    decreases n,
{
    reveal_with_fuel(nth_step, 9);
    if n > 0 {
        exports_walk(answers, (n - 1) as nat);
    }
}

proof fn tail_is_behind(front: Seq<char>, name: Seq<char>)
    requires
        front.len() > 0 ==> front.last() == '/',
        !name.contains('/'),
    ensures
        tail_start(front + name) == front.len(),
{
    let path = front + name;
    tail_start_bounds(path);
    let at = tail_start(path);
    assert(at >= front.len()) by {
        if at < front.len() {
            assert(path[front.len() - 1] == '/');
        }
    }
    assert(at <= front.len()) by {
        if at > front.len() {
            assert(path[at - 1] == name[at - 1 - front.len()]);
            assert(name.contains(path[at - 1]));
        }
    }
}

/// A path of a directory and a name: the name is the file's, the directory the
/// parent, without the slashes at its end.
pub proof fn paths_are_split(front: Seq<char>, name: Seq<char>)
    requires
        front.len() > 0 ==> front.last() == '/',
        name.len() > 0,
        !name.contains('/'),
        name != seq!['.'],
        name != seq!['.', '.'],
    ensures
        file_name_of(front + name) == Some(name),
        parent_of(front + name) == Some(trimmed(front)),
        file_name_of(front + name + seq!['/']) == Some(name),
{
    let path = front + name;
    tail_is_behind(front, name);
    assert(path.last() == name.last());
    assert(name.contains(name.last()));
    assert(trimmed(path) == path) by {
        if path.len() > 1 && path.last() == '.' && path[path.len() - 2] == '/' {
            if name.len() > 1 {
                assert(path[path.len() - 2] == name[name.len() - 2]);
                assert(name.contains(name[name.len() - 2]));
            } else {
                assert(name =~= seq!['.']);
            }
        }
    }
    assert(path.subrange(front.len() as int, path.len() as int) =~= name);
    assert(path.take(front.len() as int) =~= front);
    let slashed = path + seq!['/'];
    assert(slashed.drop_last() =~= path);
    assert(slashed.last() == '/');
    assert(trimmed(slashed) == trimmed(path));
    assert(path != seq!['/']) by {
        if path == seq!['/'] {
            assert(path.last() == '/');
        }
    }
}

/// The directory is cut to what is before its trailing slashes and dots.
pub proof fn trailing_slashes_go(path: Seq<char>)
    requires
        path.len() > 0,
    ensures
        trimmed(path + seq!['/']) == trimmed(path),
        trimmed(path + seq!['/', '.']) == trimmed(path),
{
    let slashed = path + seq!['/'];
    assert(slashed.drop_last() =~= path);
    let dotted = path + seq!['/', '.'];
    assert(dotted.drop_last() =~= slashed);
}

/// What stands behind the last dot of a file's name is its extension; a dot at the
/// start of the name counts for none.
pub proof fn extensions_are_found(front: Seq<char>, stem: Seq<char>, ext: Seq<char>)
    requires
        front.len() > 0 ==> front.last() == '/',
        !stem.contains('/'),
        !ext.contains('/'),
        !ext.contains('.'),
        ext.len() > 0,
    ensures
        stem.len() > 0 ==> extension_of(front + (stem + seq!['.'] + ext)) == Some(ext),
        extension_of(front + (seq!['.'] + ext)) is None,
        extension_of(front + ext) is None,
{
    let full = stem + seq!['.'] + ext;
    let hidden = seq!['.'] + ext;
    dot_is_last(stem, ext);
    dot_is_last(Seq::empty(), ext);
    assert(Seq::<char>::empty() + seq!['.'] + ext =~= hidden);
    no_dot(ext);
    assert(!full.contains('/')) by {
        if full.contains('/') {
            let i: int = choose|i: int| 0 <= i < full.len() && full[i] == '/';
            if i < stem.len() {
                assert(stem[i] == '/');
            } else {
                assert(ext[i - stem.len() - 1] == '/');
            }
        }
    }
    assert(!hidden.contains('/')) by {
        if hidden.contains('/') {
            let i: int = choose|i: int| 0 <= i < hidden.len() && hidden[i] == '/';
            assert(ext[i - 1] == '/');
        }
    }
    assert(ext.contains(ext[0]));
    assert(ext.contains(ext.last()));
    assert(full.last() == ext.last() && hidden.last() == ext.last());
    assert(ext != seq!['.'] && ext != seq!['.', '.']) by {
        assert(seq!['.'][0] == '.' && seq!['.', '.'][0] == '.');
    }
    assert(full != seq!['.'] && full != seq!['.', '.'] && hidden != seq!['.'] && hidden != seq!['.', '.'])
        by {
        assert(seq!['.'].last() == '.' && seq!['.', '.'].last() == '.');
    }
    paths_are_split(front, full);
    paths_are_split(front, hidden);
    paths_are_split(front, ext);
    assert(full.skip(stem.len() as int + 1) =~= ext);
}

proof fn dot_is_last(stem: Seq<char>, ext: Seq<char>)
    requires
        !ext.contains('.'),
    ensures
        last_dot(stem + seq!['.'] + ext) == stem.len(),
    decreases ext.len(),
{
    let name = stem + seq!['.'] + ext;
    if ext.len() == 0 {
        assert(name.last() == '.');
    } else {
        assert(ext.contains(ext.last()));
        assert(name.last() == ext.last());
        let less = ext.drop_last();
        assert(!less.contains('.')) by {
            if less.contains('.') {
                let i: int = choose|i: int| 0 <= i < less.len() && less[i] == '.';
                assert(ext[i] == '.');
            }
        }
        dot_is_last(stem, less);
        assert(name.drop_last() =~= stem + seq!['.'] + less);
    }
}

proof fn no_dot(name: Seq<char>)
    requires
        !name.contains('.'),
    ensures
        last_dot(name) == -1,
{
    last_dot_bounds(name);
    if last_dot(name) >= 0 {
        assert(name.contains(name[last_dot(name)]));
    }
}

/// The path is a file's whose name ends so.
pub open spec fn file_ends(path: Seq<char>, end: Seq<char>) -> bool {
    file_name_of(path) matches Some(name) && name.len() >= end.len() && name.skip(
        name.len() - end.len(),
    ) == end
}

/// A path is resolved by what it names. A report stands for itself, and its tables
/// for those beside it; generated tables stand for the report they were made of;
/// exported tables for themselves; another path too, but no SQLite file. What does
/// not exist is refused, with the path that is missing.
pub proof fn paths_are_resolved(
    path: Seq<char>,
    present: bool,
    found: NsysDataResult<ResolvedTracePath>,
)
    requires
        is_resolution(path, present, found),
    ensures
        extension_of(path) == Some("nsys-rep"@) && present ==> (found matches Ok(r)
            && r.source_path@ == path && r.pqtdir_path@ == path + ".veloq"@ + "/"@ + "parquetdir"@),
        extension_of(path) == Some("nsys-rep"@) && !present ==> (found
            matches Err(crate::error::NsysDataError::TraceNotFound { path: p }) && p@ == path),
        extension_of(path) != Some("nsys-rep"@) ==> match owner_of(path) {
            Some(owner) => if present {
                found matches Ok(r) && r.source_path@ == owner && r.pqtdir_path@ == owner + ".veloq"@
                    + "/"@ + "parquetdir"@
            } else {
                found matches Err(
                    crate::error::NsysDataError::GeneratedParquetdirSourceMissing { source_path },
                ) && source_path@ == owner
            },
            None => if file_ends(path, "_pqtdir"@) && !present {
                found matches Err(crate::error::NsysDataError::ParquetdirNotFound { path: p }) && p@
                    == path
            } else if !file_ends(path, "_pqtdir"@) && extension_of(path) == Some("sqlite"@) {
                found matches Err(crate::error::NsysDataError::SqliteInputUnsupported { path: p })
                    && p@ == path
            } else {
                found matches Ok(r) && r.source_path@ == path && r.pqtdir_path@ == path
            },
        },
{
    reveal_strlit(".veloq");
    reveal_strlit("/");
    let dir = path + ".veloq"@;
    assert(dir.last() == 'q');
    assert(file_ends(path, "_pqtdir"@) <==> names_parquetdir(path));
    if let Some(owner) = owner_of(path) {
        assert((owner + ".veloq"@).last() == 'q');
    }
}

} // verus!
