//! Paths as text.
//!
//! A path is a `/`-separated sequence of names. Repeated separators, a
//! trailing separator and `.` behind a separator carry no meaning, so
//! `a/b`, `a/b/` and `a/b/.` have the same last name and the same parent.
use crate::text::{slice_string, str_chars};
use vstd::prelude::*;
use vstd::string::StringExecFns;

verus! {

/// The path without the separators and the `.` names at its end.
pub open spec fn trimmed(path: Seq<char>) -> Seq<char>
    decreases path.len(),
{
    if path.len() > 1 && path.last() == '/' {
        trimmed(path.drop_last())
    } else if path.len() > 1 && path.last() == '.' && path[path.len() - 2] == '/' {
        trimmed(path.drop_last())
    } else {
        path
    }
}

/// Where the part behind the last separator starts.
pub open spec fn tail_start(path: Seq<char>) -> int
    decreases path.len(),
{
    if path.len() == 0 {
        0
    } else if path.last() == '/' {
        path.len() as int
    } else {
        tail_start(path.drop_last())
    }
}

/// Place of the last `.`; -1 where there is none.
pub open spec fn last_dot(name: Seq<char>) -> int
    decreases name.len(),
{
    if name.len() == 0 {
        -1
    } else if name.last() == '.' {
        name.len() - 1
    } else {
        last_dot(name.drop_last())
    }
}

/// The last name of the path. A path that ends in a root, in `..` or in a
/// lone `.` has none.
pub open spec fn file_name_of(path: Seq<char>) -> Option<Seq<char>> {
    let body = trimmed(path);
    let name = body.subrange(tail_start(body), body.len() as int);
    if name.len() == 0 || name == seq!['.'] || name == seq!['.', '.'] {
        None
    } else {
        Some(name)
    }
}

/// The path without its last part. The empty path and a root have none.
pub open spec fn parent_of(path: Seq<char>) -> Option<Seq<char>> {
    let body = trimmed(path);
    if body.len() == 0 || body == seq!['/'] {
        None
    } else {
        Some(trimmed(body.take(tail_start(body))))
    }
}

/// What stands behind the last `.` of the last name, where the `.` does not
/// start the name.
pub open spec fn extension_of(path: Seq<char>) -> Option<Seq<char>> {
    match file_name_of(path) {
        Some(name) => if last_dot(name) > 0 {
            Some(name.skip(last_dot(name) + 1))
        } else {
            None
        },
        None => None,
    }
}

/// The relative path `name` taken from `base`.
pub open spec fn joined_path(base: Seq<char>, name: Seq<char>) -> Seq<char> {
    if base.len() == 0 || base.last() == '/' {
        base + name
    } else {
        base + "/"@ + name
    }
}

/// The names of the path. Empty names do not count, nor does `.` but at the very
/// front.
pub open spec fn parts(path: Seq<char>) -> Seq<Seq<char>>
    decreases path.len(),
    via parts_decreases
{
    if path.len() == 0 {
        Seq::empty()
    } else if path.last() == '/' {
        parts(path.drop_last())
    } else {
        let at = tail_start(path);
        let before = parts(path.take(at));
        if path.skip(at) == seq!['.'] && at > 0 {
            before
        } else {
            before.push(path.skip(at))
        }
    }
}

#[via_fn]
proof fn parts_decreases(path: Seq<char>) {
    tail_start_bounds(path);
    if path.len() > 0 && path.last() != '/' {
        tail_start_bounds(path.drop_last());
    }
}

/// The path starts at the root.
pub open spec fn is_absolute(path: Seq<char>) -> bool {
    path.len() > 0 && path[0] == '/'
}

/// The paths are the same, name by name.
pub open spec fn same_path(a: Seq<char>, b: Seq<char>) -> bool {
    is_absolute(a) == is_absolute(b) && parts(a) == parts(b)
}

/// Directory for what is derived from the source.
pub open spec fn artifact_dir(path: Seq<char>) -> Seq<char> {
    path + ".veloq"@
}

/// File `name` of the directory for what is derived from the source.
pub open spec fn artifact(path: Seq<char>, name: Seq<char>) -> Seq<char> {
    joined_path(artifact_dir(path), name)
}

/// The text without the suffix, where it ends in it.
pub open spec fn without_suffix(text: Seq<char>, suffix: Seq<char>) -> Option<Seq<char>> {
    if suffix.len() <= text.len() && text.skip(text.len() - suffix.len()) == suffix {
        Some(text.take(text.len() - suffix.len()))
    } else {
        None
    }
}

/// The optional text as characters.
pub open spec fn text_of(text: Option<String>) -> Option<Seq<char>> {
    match text {
        Some(t) => Some(t@),
        None => None,
    }
}

/// The part behind the last separator lies in the path and holds none.
pub proof fn tail_start_bounds(path: Seq<char>)
    ensures
        0 <= tail_start(path) <= path.len(),
        tail_start(path) > 0 ==> path[tail_start(path) - 1] == '/',
        forall|i: int| tail_start(path) <= i < path.len() ==> path[i] != '/',
    decreases path.len(),
{
    if path.len() > 0 && path.last() != '/' {
        tail_start_bounds(path.drop_last());
        assert forall|i: int| tail_start(path) <= i < path.len() implies path[i] != '/' by {
            if i < path.len() - 1 {
                assert(path.drop_last()[i] == path[i]);
            }
        }
    }
}

/// The last `.` lies in the name.
pub proof fn last_dot_bounds(name: Seq<char>)
    ensures
        -1 <= last_dot(name) < name.len(),
        last_dot(name) >= 0 ==> name[last_dot(name)] == '.',
    decreases name.len(),
{
    if name.len() > 0 && name.last() != '.' {
        last_dot_bounds(name.drop_last());
    }
}

/// A path without the separators and the `.` names at its end is the same path,
/// and stays so when it is trimmed again.
pub proof fn trimmed_is_same(path: Seq<char>)
    ensures
        same_path(trimmed(path), path),
        trimmed(trimmed(path)) == trimmed(path),
        path.len() > 0 ==> trimmed(path).len() > 0,
        trimmed(path).len() > 1 ==> trimmed(path).last() != '/',
    decreases path.len(),
{
    if path.len() > 1 && path.last() == '/' {
        trimmed_is_same(path.drop_last());
    } else if path.len() > 1 && path.last() == '.' && path[path.len() - 2] == '/' {
        let less = path.drop_last();
        trimmed_is_same(less);
        assert(less.last() == '/');
        reveal_with_fuel(tail_start, 2);
        assert(tail_start(path) == less.len());
        assert(path.take(tail_start(path)) =~= less);
        assert(path.skip(tail_start(path)) =~= seq!['.']);
    }
}

/// What stands behind a separator is a name of its own.
pub proof fn parts_behind(front: Seq<char>, name: Seq<char>)
    requires
        front.len() > 0 ==> front.last() == '/',
        name.len() > 0,
        forall|i: int| 0 <= i < name.len() ==> name[i] != '/',
    ensures
        tail_start(front + name) == front.len(),
        parts(front + name) == if name == seq!['.'] && front.len() > 0 {
            parts(front)
        } else {
            parts(front).push(name)
        },
{
    tail_start_behind(front, name);
    let path = front + name;
    assert(path.take(front.len() as int) =~= front);
    assert(path.skip(front.len() as int) =~= name);
    assert(path.last() == name.last());
}

/// A name without separators does not move the part that it extends.
pub proof fn tail_start_behind(path: Seq<char>, name: Seq<char>)
    requires
        forall|i: int| 0 <= i < name.len() ==> name[i] != '/',
    ensures
        tail_start(path + name) == tail_start(path),
    decreases name.len(),
{
    if name.len() == 0 {
        assert(path + name =~= path);
    } else {
        assert((path + name).drop_last() =~= path + name.drop_last());
        tail_start_behind(path, name.drop_last());
    }
}

/// A directory and a name joined anew are the path that was taken apart, up to
/// how it is written; so is that path with another name in place of the last.
pub proof fn rejoined_is_same(path: Seq<char>, name: Seq<char>)
    requires
        name.len() > 0,
        forall|i: int| 0 <= i < name.len() ==> name[i] != '/',
    ensures
        same_path(
            joined_path(trimmed(path.take(tail_start(path))), name),
            path.take(tail_start(path)) + name,
        ),
        tail_start(joined_path(trimmed(path.take(tail_start(path))), name))
            == joined_path(trimmed(path.take(tail_start(path))), name).len() - name.len(),
{
    reveal_strlit("/");
    tail_start_bounds(path);
    let front = path.take(tail_start(path));
    let dir = trimmed(front);
    trimmed_is_same(front);
    parts_behind(front, name);
    let open = if dir.len() == 0 || dir.last() == '/' {
        dir
    } else {
        dir + "/"@
    };
    assert(joined_path(dir, name) =~= open + name);
    assert(dir.len() > 0 && dir.last() != '/' ==> (dir + "/"@).drop_last() =~= dir);
    assert(parts(open) == parts(dir));
    parts_behind(open, name);
}

/// Length of the path without the separators and the `.` names at its end.
fn trimmed_len(path: &Vec<char>, end: usize) -> (n: usize)
    requires
        end <= path.len(),
    ensures
        n <= end,
        path@.take(n as int) == trimmed(path@.take(end as int)),
{
    let mut n: usize = end;
    while n > 1 && (path[n - 1] == '/' || (path[n - 1] == '.' && path[n - 2] == '/'))
        invariant
            n <= end <= path.len(),
            trimmed(path@.take(n as int)) == trimmed(path@.take(end as int)),
        decreases n,
    {
        assert(path@.take(n as int).drop_last() =~= path@.take(n - 1));
        n = n - 1;
    }
    n
}

fn tail_from(path: &Vec<char>, end: usize) -> (at: usize)
    requires
        end <= path.len(),
    ensures
        at <= end,
        at == tail_start(path@.take(end as int)),
{
    let mut at: usize = end;
    while at > 0 && path[at - 1] != '/'
        invariant
            at <= end <= path.len(),
            tail_start(path@.take(at as int)) == tail_start(path@.take(end as int)),
        decreases at,
    {
        assert(path@.take(at as int).drop_last() =~= path@.take(at - 1));
        at = at - 1;
    }
    at
}

/// The last name of the path.
pub fn file_name(path: &str) -> (name: Option<String>)
    ensures
        text_of(name) == file_name_of(path@),
{
    let chars = str_chars(path);
    let n: usize = trimmed_len(&chars, chars.len());
    let at: usize = tail_from(&chars, n);
    let ghost body = trimmed(path@);
    let ghost name = body.subrange(tail_start(body), body.len() as int);
    assert(path@.take(path@.len() as int) =~= path@);
    assert(name =~= path@.subrange(at as int, n as int));
    if n == at || (n - at == 1 && chars[at] == '.') || (n - at == 2 && chars[at] == '.' && chars[at
        + 1] == '.') {
        assert(name.len() == 0 || name =~= seq!['.'] || name =~= seq!['.', '.']);
        None
    } else {
        assert(name.len() == 1 ==> name[0] != '.');
        assert(name.len() == 2 ==> name[0] != '.' || name[1] != '.');
        Some(slice_string(chars.as_slice(), at, n))
    }
}

/// The path without its last part.
pub fn parent(path: &str) -> (dir: Option<String>)
    ensures
        text_of(dir) == parent_of(path@),
{
    let chars = str_chars(path);
    let n: usize = trimmed_len(&chars, chars.len());
    let at: usize = tail_from(&chars, n);
    let ghost body = trimmed(path@);
    assert(path@.take(path@.len() as int) =~= path@);
    assert(body == path@.take(n as int));
    if n == 0 || (n == 1 && chars[0] == '/') {
        assert(body.len() == 0 || body =~= seq!['/']);
        None
    } else {
        assert(body.len() == 1 ==> body[0] != '/');
        let end: usize = trimmed_len(&chars, at);
        assert(body.take(at as int) =~= path@.take(at as int));
        assert(path@.take(end as int) =~= path@.subrange(0, end as int));
        Some(slice_string(chars.as_slice(), 0, end))
    }
}

/// What stands behind the last `.` of the last name, where the `.` does not
/// start the name.
pub fn extension(path: &str) -> (found: Option<String>)
    ensures
        text_of(found) == extension_of(path@),
{
    match file_name(path) {
        Some(name) => {
            let chars = str_chars(name.as_str());
            assert(chars@.take(chars.len() as int) =~= chars@);
            let mut n: usize = chars.len();
            while n > 0 && chars[n - 1] != '.'
                invariant
                    n <= chars.len(),
                    last_dot(chars@.take(n as int)) == last_dot(chars@),
                decreases n,
            {
                assert(chars@.take(n as int).drop_last() =~= chars@.take(n - 1));
                n = n - 1;
            }
            assert(n > 0 ==> chars@.take(n as int).last() == '.');
            if n > 1 {
                assert(chars@.skip(n as int) =~= chars@.subrange(n as int, chars.len() as int));
                Some(slice_string(chars.as_slice(), n, chars.len()))
            } else {
                None
            }
        },
        None => None,
    }
}

/// The text without the suffix, where it ends in it.
pub fn strip_suffix(text: &str, suffix: &str) -> (rest: Option<String>)
    ensures
        text_of(rest) == without_suffix(text@, suffix@),
{
    let chars = str_chars(text);
    let tail = str_chars(suffix);
    if tail.len() > chars.len() {
        return None;
    }
    let from: usize = chars.len() - tail.len();
    let mut i: usize = 0;
    while i < tail.len()
        invariant
            i <= tail.len(),
            chars@ == text@,
            tail@ == suffix@,
            from + tail.len() == chars.len(),
            forall|x: int| 0 <= x < i ==> chars@[from + x] == tail@[x],
        decreases tail.len() - i,
    {
        if chars[from + i] != tail[i] {
            assert(text@.skip(from as int)[i as int] != suffix@[i as int]);
            return None;
        }
        i = i + 1;
    }
    assert(text@.skip(from as int) =~= suffix@);
    assert(text@.take(from as int) =~= text@.subrange(0, from as int));
    Some(slice_string(chars.as_slice(), 0, from))
}

/// The text without the prefix, where it starts with it.
pub open spec fn without_prefix(text: Seq<char>, prefix: Seq<char>) -> Option<Seq<char>> {
    if prefix.len() <= text.len() && text.take(prefix.len() as int) == prefix {
        Some(text.skip(prefix.len() as int))
    } else {
        None
    }
}

/// The text without the prefix, where it starts with it.
pub fn strip_prefix(text: &str, prefix: &str) -> (rest: Option<String>)
    ensures
        text_of(rest) == without_prefix(text@, prefix@),
{
    let chars = str_chars(text);
    let head = str_chars(prefix);
    if head.len() > chars.len() {
        return None;
    }
    let mut i: usize = 0;
    while i < head.len()
        invariant
            i <= head.len() <= chars.len(),
            chars@ == text@,
            head@ == prefix@,
            forall|x: int| 0 <= x < i ==> chars@[x] == head@[x],
        decreases head.len() - i,
    {
        if chars[i] != head[i] {
            assert(text@.take(prefix@.len() as int)[i as int] != prefix@[i as int]);
            return None;
        }
        i = i + 1;
    }
    assert(text@.take(prefix@.len() as int) =~= prefix@);
    assert(text@.skip(prefix@.len() as int) =~= text@.subrange(
        head.len() as int,
        chars.len() as int,
    ));
    Some(slice_string(chars.as_slice(), head.len(), chars.len()))
}

/// The part behind the last separator.
pub fn file_tail(path: &str) -> (tail: String)
    ensures
        tail@ == path@.skip(tail_start(path@)),
{
    let chars = str_chars(path);
    let at: usize = tail_from(&chars, chars.len());
    assert(path@.take(path@.len() as int) =~= path@);
    assert(path@.skip(at as int) =~= path@.subrange(at as int, path@.len() as int));
    slice_string(chars.as_slice(), at, chars.len())
}

/// The relative path `name` taken from `base`.
pub fn join_path(base: &str, name: &str) -> (path: String)
    ensures
        path@ == joined_path(base@, name@),
{
    let chars = str_chars(base);
    let mut path = base.to_owned();
    if chars.len() > 0 && chars[chars.len() - 1] != '/' {
        path.append("/");
    }
    path.append(name);
    path
}

/// `<path>.veloq`: the directory for what is derived from the source.
pub fn artifact_dir_for(path: &str) -> (dir: String)
    ensures
        dir@ == artifact_dir(path@),
{
    let mut dir = path.to_owned();
    dir.append(".veloq");
    dir
}

/// `<path>.veloq/<name>`.
pub fn artifact_path(path: &str, name: &str) -> (file: String)
    ensures
        file@ == artifact(path@, name@),
{
    join_path(artifact_dir_for(path).as_str(), name)
}

} // verus!
