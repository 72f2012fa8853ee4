//! Per-trace flattened NVTX interval tree.
//!
//! One row per NVTX range, decorated with its parent range, depth in
//! the nesting stack, and a slash-joined `path` of ancestor names. Lets
//! every NVTX query collapse to a single parquet scan:
//!
//! ```sql
//! -- stack at timestamp T on globalTid X
//! SELECT path, depth, name
//! FROM nvtx_tree
//! WHERE global_tid = ? AND start <= ? AND (end IS NULL OR end > ?)
//! ORDER BY depth ASC;
//!
//! -- time per NVTX path across the whole trace
//! SELECT path, SUM(duration_ns), COUNT(*)
//! FROM nvtx_tree GROUP BY path ORDER BY 2 DESC LIMIT 20;
//! ```
//!
//! The sidecar is `<trace>.veloq/nvtx-tree.parquet`, one row per NVTX range
//! with `start IS NOT NULL`, sorted by `(start ASC, depth ASC)`:
//!
//! | column            | type          | notes                              |
//! | ----------------- | ------------- | ---------------------------------- |
//! | `range_id`        | INT64         | original `NVTX_EVENTS.rowid`       |
//! | `parent_range_id` | INT64 (null)  | NULL at the top of the stack       |
//! | `depth`           | INT32         | 0 at the top                       |
//! | `domain_id`       | INT64         | `COALESCE(NVTX_EVENTS.domainId, 0)` |
//! | `name`            | VARCHAR       | `COALESCE(text, StringIds.value, '')` |
//! | `path`            | VARCHAR       | `/`-joined ancestor names ending in self; `/` in names escaped as `\/` |
//! | `start`           | INT64         | ns from session epoch              |
//! | `end`             | INT64 (null)  | NULL for instant markers           |
//! | `duration_ns`     | INT64 (null)  | `end - start`; NULL when `end` is NULL |
//! | `global_tid`      | INT64         | host thread that hosts the range   |
use crate::order::{
    is_sort_order, keys_of, lex_lt, lex_lt_pair, lex_lt_total, lex_lt_transitive, lex_lt_triple, placed_before, positions, sort_order,
    sort_order_covers, Key2, SortKey,
};
use crate::paths::{artifact, artifact_path};
use crate::views::{view_sql, view_text};
use std::collections::HashMap;
use vstd::prelude::*;

pub mod compute;
pub mod lanes;
pub mod laws;
pub mod parquet;

verus! {

/// Grows with every breaking change of the sidecar's columns; a sidecar of
/// another version is rebuilt.
pub const NVTX_TREE_VERSION: u32 = 1;

/// Path of the sidecar under `<trace>.veloq/`.
pub fn sidecar_path_for(trace_path: &str) -> (path: String)
    ensures
        path@ == artifact(trace_path@, "nvtx-tree.parquet"@),
{
    artifact_path(trace_path, "nvtx-tree.parquet")
}

/// SQL that shows the sidecar as `nsight.nvtx_tree`.
pub fn view_sql_for(sidecar_path: &str) -> (text: String)
    ensures
        text@ == view_text("nvtx_tree"@, sidecar_path@),
{
    view_sql("nvtx_tree", sidecar_path)
}

/// One NVTX range with parent linkage, depth, and ancestor path.
#[derive(Debug, Clone, PartialEq, Eq)]
pub struct NvtxTreeRecord {
    pub range_id: i64,
    pub parent_range_id: Option<i64>,
    pub depth: i32,
    pub domain_id: i64,
    pub name: String,
    pub path: String,
    pub start: i64,
    /// `None` for instant markers (`NVTX_EVENTS."end" IS NULL`).
    pub end: Option<i64>,
    pub duration_ns: Option<i64>,
    pub global_tid: i64,
}

/// What a record holds, with text as characters.
#[verifier::ext_equal]
pub struct NvtxTreeRecordView {
    pub range_id: i64,
    pub parent_range_id: Option<i64>,
    pub depth: i32,
    pub domain_id: i64,
    pub name: Seq<char>,
    pub path: Seq<char>,
    pub start: i64,
    pub end: Option<i64>,
    pub duration_ns: Option<i64>,
    pub global_tid: i64,
}

impl View for NvtxTreeRecord {
    type V = NvtxTreeRecordView;

    open spec fn view(&self) -> NvtxTreeRecordView {
        NvtxTreeRecordView {
            range_id: self.range_id,
            parent_range_id: self.parent_range_id,
            depth: self.depth,
            domain_id: self.domain_id,
            name: self.name@,
            path: self.path@,
            start: self.start,
            end: self.end,
            duration_ns: self.duration_ns,
            global_tid: self.global_tid,
        }
    }
}

impl NvtxTreeRecord {
    /// A copy of the record.
    pub fn copied(&self) -> (copy: NvtxTreeRecord)
        ensures
            copy == *self,
    {
        NvtxTreeRecord {
            range_id: self.range_id,
            parent_range_id: self.parent_range_id,
            depth: self.depth,
            domain_id: self.domain_id,
            name: self.name.clone(),
            path: self.path.clone(),
            start: self.start,
            end: self.end,
            duration_ns: self.duration_ns,
            global_tid: self.global_tid,
        }
    }
}

/// The last of the first `n` records whose range id is `id`.
pub open spec fn find_last(recs: Seq<NvtxTreeRecord>, id: i64, n: nat) -> Option<nat>
    decreases n,
{
    if n == 0 {
        None
    } else if recs[n - 1].range_id == id {
        Some((n - 1) as nat)
    } else {
        find_last(recs, id, (n - 1) as nat)
    }
}

/// The record that `id` names: the last one with that range id.
pub open spec fn find(recs: Seq<NvtxTreeRecord>, id: i64) -> Option<nat> {
    find_last(recs, id, recs.len())
}

pub proof fn find_last_is_last(recs: Seq<NvtxTreeRecord>, id: i64, n: nat)
    ensures
        find_last(recs, id, n) matches Some(i) ==> i < n && recs[i as int].range_id == id
            && forall|x: int| i < x < n ==> (#[trigger] recs[x]).range_id != id,
        find_last(recs, id, n) is None ==> forall|x: int|
            0 <= x < n ==> (#[trigger] recs[x]).range_id != id,
    decreases n,
{
    if n > 0 && recs[n - 1].range_id != id {
        find_last_is_last(recs, id, (n - 1) as nat);
    }
}

/// The record's parent, where it has one that is present.
pub open spec fn parent_of(recs: Seq<NvtxTreeRecord>, i: nat) -> Option<nat> {
    match recs[i as int].parent_range_id {
        Some(id) => find(recs, id),
        None => None,
    }
}

/// `start <= t < end`, with a missing end taken as infinitely late.
pub open spec fn covers(r: NvtxTreeRecord, t: i64) -> bool {
    r.start <= t && (r.end matches Some(end) ==> end > t)
}

/// Record `i` is on the thread and covers `t`.
pub open spec fn active(recs: Seq<NvtxTreeRecord>, global_tid: i64, t: i64, i: int) -> bool {
    0 <= i < recs.len() && recs[i].global_tid == global_tid && covers(recs[i], t)
}

/// What makes a record more inner than another.
pub open spec fn inner_key(r: NvtxTreeRecord) -> Seq<int> {
    seq![r.depth as int, r.start as int, r.range_id as int]
}

/// Record `i` is not less inner than record `j`.
pub open spec fn at_least_as_inner(recs: Seq<NvtxTreeRecord>, i: int, j: int) -> bool {
    lex_lt(inner_key(recs[j]), inner_key(recs[i])) || (inner_key(recs[j]) == inner_key(recs[i]) && j
        <= i)
}

/// Record `i` is the innermost of those on the thread that cover `t`: the
/// deepest; then the latest to start; then the one with the largest id.
pub open spec fn innermost_at(recs: Seq<NvtxTreeRecord>, global_tid: i64, t: i64, i: int) -> bool {
    active(recs, global_tid, t, i) && forall|j: int| #[trigger]
        active(recs, global_tid, t, j) ==> at_least_as_inner(recs, i, j)
}

/// Record `i`, its parent, its parent's parent and so on, for at most `fuel`
/// steps and as long as they are on the thread and cover `t`.
pub open spec fn active_chain(
    recs: Seq<NvtxTreeRecord>,
    global_tid: i64,
    t: i64,
    i: nat,
    fuel: nat,
) -> Seq<nat>
    decreases fuel,
{
    if fuel == 0 || !active(recs, global_tid, t, i as int) {
        Seq::empty()
    } else {
        seq![i] + match parent_of(recs, i) {
            Some(p) => active_chain(recs, global_tid, t, p, (fuel - 1) as nat),
            None => Seq::empty(),
        }
    }
}

/// The stack of ranges on the thread at `t`, outermost first.
pub open spec fn stack_of(recs: Seq<NvtxTreeRecord>, global_tid: i64, t: i64) -> Seq<nat> {
    if exists|i: int| innermost_at(recs, global_tid, t, i) {
        let i: int = choose|i: int| innermost_at(recs, global_tid, t, i);
        active_chain(recs, global_tid, t, i as nat, recs.len()).reverse()
    } else {
        Seq::empty()
    }
}

/// The parent links that start at `cursor` end within `n` records.
pub open spec fn ends_within(recs: Seq<NvtxTreeRecord>, cursor: Option<nat>, n: nat) -> bool
    decreases n,
{
    match cursor {
        None => true,
        Some(i) => n > 0 && ends_within(recs, parent_of(recs, i), (n - 1) as nat),
    }
}

/// `cursor` and its ancestors, for at most `n` records.
pub open spec fn ancestors_of(recs: Seq<NvtxTreeRecord>, cursor: Option<nat>, n: nat) -> Seq<nat>
    decreases n,
{
    if cursor is None || n == 0 {
        Seq::empty()
    } else {
        seq![cursor->0] + ancestors_of(recs, parent_of(recs, cursor->0), (n - 1) as nat)
    }
}

/// `refs` point to the records at the positions `at`.
pub open spec fn refer_to(refs: Seq<&NvtxTreeRecord>, recs: Seq<NvtxTreeRecord>, at: Seq<nat>) -> bool {
    refs.len() == at.len() && forall|k: int|
        0 <= k < at.len() ==> *(#[trigger] refs[k]) == recs[at[k] as int]
}

/// In-memory flattened NVTX tree for a trace.
///
/// Carries auxiliary indices so that "stack at T" and "ancestors of range R"
/// are answered without re-scanning the whole table.
pub struct NvtxTree {
    records: Vec<NvtxTreeRecord>,
    /// `range_id -> records index`. Each `range_id` is unique where it is the
    /// source `NVTX_EVENTS.rowid`; otherwise the last record stands.
    by_id: HashMap<i64, usize>,
    /// Record indices by `(global_tid, start)`, for the binary search of
    /// [`NvtxTree::stack_at`].
    by_tid_start: Vec<usize>,
}

pub open spec fn tid_start_key(r: NvtxTreeRecord) -> Seq<int> {
    seq![r.global_tid as int, r.start as int]
}

impl View for NvtxTree {
    type V = Seq<NvtxTreeRecord>;

    closed spec fn view(&self) -> Seq<NvtxTreeRecord> {
        self.records@
    }
}

impl NvtxTree {
    #[verifier::type_invariant]
    spec fn indexed(&self) -> bool {
        let recs = self.records@;
        &&& forall|id: i64|
            self.by_id@.contains_key(id) <==> (#[trigger] find_last(recs, id, recs.len())) is Some
        &&& forall|id: i64|
            #![trigger self.by_id@[id]]
            self.by_id@.contains_key(id) ==> self.by_id@[id] == find_last(recs, id, recs.len())->0
        &&& is_sort_order(
            recs.map_values(|r: NvtxTreeRecord| tid_start_key(r)),
            positions(self.by_tid_start@),
        )
    }

    pub fn empty() -> (tree: Self)
        ensures
            tree@ == Seq::<NvtxTreeRecord>::empty(),
    {
        Self::from_records(Vec::new())
    }

    pub fn len(&self) -> (n: usize)
        ensures
            n == self@.len(),
    {
        self.records.len()
    }

    pub fn is_empty(&self) -> (b: bool)
        ensures
            b == (self@.len() == 0),
    {
        self.records.len() == 0
    }

    pub fn records(&self) -> (records: &[NvtxTreeRecord])
        ensures
            records@ == self@,
    {
        self.records.as_slice()
    }

    /// Position of the record that `range_id` names.
    fn position(&self, range_id: i64) -> (at: Option<usize>)
        ensures
            match find(self@, range_id) {
                Some(i) => at matches Some(a) && a == i && a < self@.len(),
                None => at is None,
            },
    {
        broadcast use vstd::std_specs::hash::group_hash_axioms;

        proof {
            use_type_invariant(self);
            find_last_is_last(self.records@, range_id, self.records@.len());
        }
        match self.by_id.get(&range_id) {
            Some(i) => Some(*i),
            None => None,
        }
    }

    /// Range record for `range_id`, if present.
    pub fn get(&self, range_id: i64) -> (record: Option<&NvtxTreeRecord>)
        ensures
            match find(self@, range_id) {
                Some(i) => record matches Some(r) && *r == self@[i as int],
                None => record is None,
            },
    {
        match self.position(range_id) {
            Some(i) => Some(&self.records[i]),
            None => None,
        }
    }

    /// Number of entries of the `(global_tid, start)` index that stand at or
    /// before `(tid, start)`, or strictly before thread `tid` when `start` is
    /// `None`.
    fn entries_up_to(&self, tid: i64, start: Option<i64>) -> (n: usize)
        ensures
            n <= self.by_tid_start.len(),
            forall|x: int|
                0 <= x < n ==> up_to(self.records@[#[trigger] self.by_tid_start@[x] as int], tid, start),
            forall|x: int|
                n <= x < self.by_tid_start.len() ==> !up_to(
                    self.records@[#[trigger] self.by_tid_start@[x] as int],
                    tid,
                    start,
                ),
    {
        proof {
            use_type_invariant(self);
        }
        let ghost recs = self.records@;
        let ghost keys = recs.map_values(|r: NvtxTreeRecord| tid_start_key(r));
        let ghost p = positions(self.by_tid_start@);
        let mut lo: usize = 0;
        let mut hi: usize = self.by_tid_start.len();
        while lo < hi
            invariant
                lo <= hi <= self.by_tid_start.len(),
                recs == self.records@,
                keys == recs.map_values(|r: NvtxTreeRecord| tid_start_key(r)),
                p == positions(self.by_tid_start@),
                is_sort_order(keys, p),
                forall|x: int|
                    0 <= x < lo ==> up_to(
                        recs[#[trigger] self.by_tid_start@[x] as int],
                        tid,
                        start,
                    ),
                forall|x: int|
                    hi <= x < self.by_tid_start.len() ==> !up_to(
                        recs[#[trigger] self.by_tid_start@[x] as int],
                        tid,
                        start,
                    ),
            decreases hi - lo,
        {
            let mid: usize = lo + (hi - lo) / 2;
            assert(0 <= p[mid as int] < keys.len());
            let r = &self.records[self.by_tid_start[mid]];
            let before: bool = match start {
                Some(s) => r.global_tid < tid || (r.global_tid == tid && r.start <= s),
                None => r.global_tid < tid,
            };
            assert forall|x: int, y: int| 0 <= x < y < p.len() implies {
                let a = #[trigger] recs[p[x]];
                let b = #[trigger] recs[p[y]];
                a.global_tid < b.global_tid || (a.global_tid == b.global_tid && a.start <= b.start)
            } by {
                assert(placed_before(keys, p[x], p[y]));
                lex_lt_pair(keys[p[x]], keys[p[y]]);
                assert(keys[p[x]][0] == recs[p[x]].global_tid && keys[p[x]][1] == recs[p[x]].start);
                assert(keys[p[y]][0] == recs[p[y]].global_tid && keys[p[y]][1] == recs[p[y]].start);
            }
            if before {
                proof {
                    assert forall|x: int| 0 <= x < mid + 1 implies up_to(
                        recs[#[trigger] self.by_tid_start@[x] as int],
                        tid,
                        start,
                    ) by {
                        if x < mid {
                            assert(p[x] == self.by_tid_start@[x] && p[mid as int]
                                == self.by_tid_start@[mid as int]);
                            let a = recs[p[x]];
                            let b = recs[p[mid as int]];
                        }
                    }
                }
                lo = mid + 1;
            } else {
                proof {
                    assert forall|x: int| mid <= x < self.by_tid_start.len() implies !up_to(
                        recs[#[trigger] self.by_tid_start@[x] as int],
                        tid,
                        start,
                    ) by {
                        if x > mid {
                            assert(p[x] == self.by_tid_start@[x] && p[mid as int]
                                == self.by_tid_start@[mid as int]);
                            let a = recs[p[mid as int]];
                            let b = recs[p[x]];
                        }
                    }
                }
                hi = mid;
            }
        }
        lo
    }

    /// Innermost stack on `global_tid` whose interval covers `t`
    /// (containment `start <= t < end`, with `end IS NULL` treated as
    /// `+inf`), returned outer->inner. Empty when the tid has no NVTX
    /// activity or no enclosing range at `t`.
    ///
    /// Well-formed NVTX ranges produce a single active chain. If a trace
    /// has unrelated covering chains on the same tid (for example,
    /// different domains or malformed overlaps), this chooses the
    /// deepest covering record and walks its covering parents so the
    /// result remains one chain.
    pub fn stack_at(&self, global_tid: i64, t: i64) -> (stack: Vec<&NvtxTreeRecord>)
        ensures
            refer_to(stack@, self@, stack_of(self@, global_tid, t)),
    {
        let innermost = self.innermost(global_tid, t);
        let mut inner_first: Vec<usize> = Vec::new();
        let ghost recs = self.records@;
        let mut cursor: Option<usize> = innermost;
        let ghost goal: Seq<nat> = match innermost {
            Some(i) => active_chain(recs, global_tid, t, i as nat, recs.len()),
            None => Seq::empty(),
        };
        let mut remaining: usize = self.records.len();
        let mut going: bool = true;
        while going
            invariant
                recs == self.records@,
                recs == self@,
                remaining <= recs.len(),
                cursor matches Some(c) ==> c < recs.len(),
                forall|x: int| 0 <= x < inner_first.len() ==> (#[trigger] inner_first[x]) < recs.len(),
                goal == places(inner_first@) + if going && cursor is Some {
                    active_chain(recs, global_tid, t, cursor->0 as nat, remaining as nat)
                } else {
                    Seq::empty()
                },
            decreases remaining, (if going {
                1int
            } else {
                0int
            }),
        {
            let ghost before = places(inner_first@);
            match cursor {
                Some(at) if remaining > 0 && self.records[at].global_tid == global_tid
                    && covers_timestamp(&self.records[at], t) => {
                    inner_first.push(at);
                    remaining = remaining - 1;
                    cursor = match self.records[at].parent_range_id {
                        Some(id) => self.position(id),
                        None => None,
                    };
                    proof {
                        assert(places(inner_first@) =~= before.push(at as nat));
                        assert(goal =~= before.push(at as nat) + match parent_of(recs, at as nat) {
                            Some(p) => active_chain(recs, global_tid, t, p, remaining as nat),
                            None => Seq::empty(),
                        });
                    }
                },
                _ => {
                    going = false;
                },
            }
        }
        let mut stack: Vec<&NvtxTreeRecord> = Vec::with_capacity(inner_first.len());
        let mut k: usize = inner_first.len();
        while k > 0
            invariant
                k <= inner_first.len(),
                recs == self.records@,
                forall|x: int| 0 <= x < inner_first.len() ==> (#[trigger] inner_first[x]) < recs.len(),
                stack.len() == inner_first.len() - k,
                forall|x: int|
                    0 <= x < stack.len() ==> *(#[trigger] stack[x]) == recs[inner_first[
                    inner_first.len() - 1 - x] as int],
            decreases k,
        {
            k = k - 1;
            stack.push(&self.records[inner_first[k]]);
        }
        proof {
            assert(goal =~= places(inner_first@));
            if innermost is Some {
                innermost_is_unique(recs, global_tid, t, innermost->0 as int);
                assert(stack_of(recs, global_tid, t) =~= goal.reverse());
            }
        }
        stack
    }

    /// Position of the innermost record on the thread that covers `t`.
    fn innermost(&self, global_tid: i64, t: i64) -> (at: Option<usize>)
        ensures
            match at {
                Some(i) => innermost_at(self@, global_tid, t, i as int),
                None => forall|i: int| !active(self@, global_tid, t, i),
            },
    {
        let first: usize = self.entries_up_to(global_tid, None);
        let cut: usize = self.entries_up_to(global_tid, Some(t));
        let ghost recs = self.records@;
        let ghost keys = recs.map_values(|r: NvtxTreeRecord| tid_start_key(r));
        let ghost p = positions(self.by_tid_start@);
        proof {
            use_type_invariant(self);
            sort_order_covers(keys, p);
        }
        let mut best: Option<usize> = None;
        let mut x: usize = first;
        while x < cut
            invariant
                cut <= self.by_tid_start.len(),
                recs == self.records@,
                recs == self@,
                p == positions(self.by_tid_start@),
                keys == recs.map_values(|r: NvtxTreeRecord| tid_start_key(r)),
                is_sort_order(keys, p),
                best is None ==> forall|y: int|
                    first <= y < x ==> !active(recs, global_tid, t, #[trigger] p[y]),
                best matches Some(b) ==> active(recs, global_tid, t, b as int) && forall|y: int|
                    first <= y < x && active(recs, global_tid, t, #[trigger] p[y])
                        ==> at_least_as_inner(recs, b as int, p[y]),
                first <= x,
            decreases cut - x,
        {
            assert(0 <= p[x as int] < keys.len());
            let at: usize = self.by_tid_start[x];
            let r = &self.records[at];
            if r.global_tid == global_tid && covers_timestamp(r, t) {
                match best {
                    None => {
                        best = Some(at);
                    },
                    Some(b) => {
                        if at_least_as_inner_than(&self.records, at, b) {
                            proof {
                                assert forall|y: int|
                                    first <= y < x && active(
                                        recs,
                                        global_tid,
                                        t,
                                        #[trigger] p[y],
                                    ) implies at_least_as_inner(recs, at as int, p[y]) by {
                                    assert(at_least_as_inner(recs, b as int, p[y]));
                                    inner_transitive(recs, at as int, b as int, p[y]);
                                }
                            }
                            best = Some(at);
                        } else {
                            proof {
                                inner_total(recs, at as int, b as int);
                            }
                        }
                    },
                }
            }
            x = x + 1;
        }
        proof {
            assert forall|i: int| active(recs, global_tid, t, i) implies exists|y: int|
                first <= y < cut && #[trigger] p[y] == i by {
                assert(p.contains(i));
                let y: int = choose|y: int| 0 <= y < p.len() && p[y] == i;
                assert(self.by_tid_start@[y] as int == i);
                if y < first {
                    assert(up_to(recs[self.by_tid_start@[y] as int], global_tid, None));
                }
                if y >= cut {
                    assert(!up_to(recs[self.by_tid_start@[y] as int], global_tid, Some(t)));
                }
            }
            assert forall|i: int| #[trigger] active(recs, global_tid, t, i) implies best is Some
                && at_least_as_inner(recs, best->0 as int, i) by {
                let y: int = choose|y: int| first <= y < cut && #[trigger] p[y] == i;
                assert(active(recs, global_tid, t, p[y]));
            }
        }
        best
    }

    /// Walk parent links from `range_id` to root, yielding the range
    /// itself first. Stops on missing parent linkage (a sidecar
    /// corruption or truncated build that lost an ancestor).
    pub fn ancestors(&self, range_id: i64) -> (out: Vec<&NvtxTreeRecord>)
        requires
            ends_within(self@, find(self@, range_id), self@.len()),
        ensures
            refer_to(out@, self@, ancestors_of(self@, find(self@, range_id), self@.len())),
    {
        let ghost recs = self.records@;
        let ghost goal = ancestors_of(recs, find(recs, range_id), recs.len());
        let ghost mut left: nat = recs.len();
        let ghost mut done: Seq<nat> = Seq::empty();
        let mut cursor = self.position(range_id);
        let mut out: Vec<&NvtxTreeRecord> = Vec::new();
        while cursor.is_some()
            invariant
                recs == self.records@,
                recs == self@,
                refer_to(out@, recs, done),
                cursor matches Some(c) ==> c < recs.len(),
                ends_within(recs, place(cursor), left),
                goal == done + ancestors_of(recs, place(cursor), left),
            decreases left,
        {
            let at: usize = cursor.unwrap();
            out.push(&self.records[at]);
            cursor = match self.records[at].parent_range_id {
                Some(id) => self.position(id),
                None => None,
            };
            proof {
                let rest = ancestors_of(recs, place(cursor), (left - 1) as nat);
                assert(done + (seq![at as nat] + rest) =~= done.push(at as nat) + rest);
                done = done.push(at as nat);
                left = (left - 1) as nat;
            }
        }
        assert(goal =~= done);
        out
    }

    /// The tree over `records`.
    pub fn from_records(records: Vec<NvtxTreeRecord>) -> (tree: Self)
        ensures
            tree@ == records@,
    {
        broadcast use vstd::std_specs::hash::group_hash_axioms;

        let ghost recs = records@;
        let mut by_id: HashMap<i64, usize> = HashMap::new();
        let mut keys: Vec<Key2> = Vec::with_capacity(records.len());
        let mut i: usize = 0;
        while i < records.len()
            invariant
                i <= records.len(),
                recs == records@,
                keys.len() == i,
                forall|x: int| 0 <= x < i ==> (#[trigger] keys[x]).sort_key() == tid_start_key(recs[x]),
                forall|id: i64|
                    by_id@.contains_key(id) <==> (#[trigger] find_last(recs, id, i as nat)) is Some,
                forall|id: i64|
                    #![trigger by_id@[id]]
                    by_id@.contains_key(id) ==> by_id@[id] == find_last(recs, id, i as nat)->0,
            decreases records.len() - i,
        {
            let ghost old_ids = by_id@;
            by_id.insert(records[i].range_id, i);
            keys.push(Key2 { first: records[i].global_tid, second: records[i].start });
            proof {
                assert forall|id: i64| by_id@.contains_key(id) <==> (#[trigger] find_last(
                    recs,
                    id,
                    (i + 1) as nat,
                )) is Some by {
                    assert(old_ids.contains_key(id) <==> find_last(recs, id, i as nat) is Some);
                }
                assert forall|id: i64| #![trigger by_id@[id]] by_id@.contains_key(
                    id,
                ) implies by_id@[id] == find_last(recs, id, (i + 1) as nat)->0 by {
                    if id != recs[i as int].range_id {
                        assert(old_ids[id] == find_last(recs, id, i as nat)->0);
                    }
                }
            }
            i = i + 1;
        }
        let by_tid_start = sort_order(keys.as_slice());
        assert(keys_of(keys@) =~= recs.map_values(|r: NvtxTreeRecord| tid_start_key(r)));
        Self { records, by_id, by_tid_start }
    }
}

/// The record stands at or before `(tid, start)`, or strictly before thread
/// `tid` when `start` is `None`.
spec fn up_to(r: NvtxTreeRecord, tid: i64, start: Option<i64>) -> bool {
    match start {
        Some(s) => r.global_tid < tid || (r.global_tid == tid && r.start <= s),
        None => r.global_tid < tid,
    }
}

spec fn place(cursor: Option<usize>) -> Option<nat> {
    match cursor {
        Some(i) => Some(i as nat),
        None => None,
    }
}

spec fn places(at: Seq<usize>) -> Seq<nat> {
    at.map_values(|i: usize| i as nat)
}

proof fn inner_transitive(recs: Seq<NvtxTreeRecord>, i: int, j: int, k: int)
    requires
        at_least_as_inner(recs, i, j),
        at_least_as_inner(recs, j, k),
    ensures
        at_least_as_inner(recs, i, k),
{
    let a = inner_key(recs[i]);
    let b = inner_key(recs[j]);
    let c = inner_key(recs[k]);
    if lex_lt(b, a) && lex_lt(c, b) {
        lex_lt_transitive(c, b, a);
    }
}

proof fn inner_total(recs: Seq<NvtxTreeRecord>, i: int, j: int)
    ensures
        at_least_as_inner(recs, i, j) || at_least_as_inner(recs, j, i),
{
    lex_lt_total(inner_key(recs[i]), inner_key(recs[j]));
}

/// At most one record is innermost.
pub proof fn innermost_is_unique(recs: Seq<NvtxTreeRecord>, global_tid: i64, t: i64, i: int)
    requires
        innermost_at(recs, global_tid, t, i),
    ensures
        forall|j: int| innermost_at(recs, global_tid, t, j) ==> j == i,
{
    assert forall|j: int| innermost_at(recs, global_tid, t, j) implies j == i by {
        assert(active(recs, global_tid, t, i) && active(recs, global_tid, t, j));
        let a = inner_key(recs[i]);
        let b = inner_key(recs[j]);
        crate::order::lex_lt_irreflexive(a);
        if lex_lt(a, b) && lex_lt(b, a) {
            lex_lt_transitive(a, b, a);
        }
    }
}

/// Whether record `i` is not less inner than record `j`.
fn at_least_as_inner_than(records: &Vec<NvtxTreeRecord>, i: usize, j: usize) -> (b: bool)
    requires
        i < records.len(),
        j < records.len(),
    ensures
        b == at_least_as_inner(records@, i as int, j as int),
{
    let a = &records[i];
    let c = &records[j];
    proof {
        lex_lt_triple(inner_key(*c), inner_key(*a));
        assert(inner_key(*c) == inner_key(*a) <==> c.depth == a.depth && c.start == a.start
            && c.range_id == a.range_id) by {
            if inner_key(*c) == inner_key(*a) {
                assert(inner_key(*c)[0] == inner_key(*a)[0]);
                assert(inner_key(*c)[1] == inner_key(*a)[1]);
                assert(inner_key(*c)[2] == inner_key(*a)[2]);
            }
        }
    }
    if c.depth != a.depth {
        c.depth < a.depth
    } else if c.start != a.start {
        c.start < a.start
    } else if c.range_id != a.range_id {
        c.range_id < a.range_id
    } else {
        j <= i
    }
}

/// Whether the record covers `t`.
fn covers_timestamp(record: &NvtxTreeRecord, t: i64) -> (b: bool)
    ensures
        b == covers(*record, t),
{
    record.start <= t && match record.end {
        Some(end) => end > t,
        None => true,
    }
}

} // verus!
