//! Nesting of NVTX ranges.
//!
//! The nesting index (depth and per-name iteration index) and the range tree
//! (parent, depth and path) place the ranges of one `(global_tid, domain_id)`
//! lane in the same way, so the touching-boundary rule is stated once, here.
//!
//! (Attribution of runtime calls to ranges, [`crate::runtime_nvtx_parent`], is
//! a containment join between two sets of rows and does not use this.)
use crate::order::{
    is_sort_order, keys_of, positions, sort_order, sort_order_covers, sort_order_of, SortKey,
};
use vstd::prelude::*;

verus! {

/// A row that can be placed in a nesting: its span and the `rowid` by which
/// it is reported as a parent. `end == None` is an instant marker.
pub trait NvtxScanRow {
    /// `(start, end, rowid)` of the row.
    spec fn scan_span(&self) -> (i64, Option<i64>, i64);

    fn start(&self) -> (start: i64)
        ensures
            start == self.scan_span().0,
    ;

    fn end(&self) -> (end: Option<i64>)
        ensures
            end == self.scan_span().1,
    ;

    fn rowid(&self) -> (rowid: i64)
        ensures
            rowid == self.scan_span().2,
    ;
}

/// What the scan keeps of a row: its lane, its span and its row id.
#[derive(Debug, Clone, Copy)]
pub struct ScanSlot {
    pub global_tid: i64,
    pub domain_id: i64,
    pub start: i64,
    pub end: Option<i64>,
    pub rowid: i64,
}

impl ScanSlot {
    /// Both ranges belong to one lane.
    pub open spec fn same_lane(self, other: ScanSlot) -> bool {
        self.global_tid == other.global_tid && self.domain_id == other.domain_id
    }
}

impl SortKey for ScanSlot {
    open spec fn sort_key(&self) -> Seq<int> {
        seq![self.global_tid as int, self.domain_id as int, self.start as int]
    }

    fn precedes(&self, other: &Self) -> (b: bool) {
        proof {
            let a = self.sort_key();
            let b = other.sort_key();
            assert(a.drop_first().drop_first() =~= seq![self.start as int]);
            assert(b.drop_first().drop_first() =~= seq![other.start as int]);
            reveal_with_fuel(crate::order::lex_lt, 4);
        }
        if self.global_tid != other.global_tid {
            self.global_tid < other.global_tid
        } else if self.domain_id != other.domain_id {
            self.domain_id < other.domain_id
        } else {
            self.start < other.start
        }
    }
}

/// Where a range stands in the nesting of its lane.
#[derive(Debug, Clone, Copy)]
pub struct Placement {
    /// Row id of the immediately enclosing range.
    pub parent: Option<i64>,
    /// Number of enclosing ranges.
    pub depth: usize,
}

/// In a listing `s` of slots by lane and start, the range at `j` is still open
/// when the one at `k` starts. A range that ends exactly there is closed, and
/// an instant marker is never open.
pub open spec fn encloses(s: Seq<ScanSlot>, j: int, k: int) -> bool {
    &&& 0 <= j < k
    &&& s[j].same_lane(s[k])
    &&& s[j].end is Some
    &&& s[j].end->0 > s[k].start
}

/// All ranges that are open when the one at `k` starts.
pub open spec fn enclosing_set(s: Seq<ScanSlot>, k: int) -> Set<int> {
    Set::new(|j: int| encloses(s, j, k))
}

/// The range at `j` is the open range that closes first; among those that
/// close together, the one that opened last.
pub open spec fn is_innermost(s: Seq<ScanSlot>, j: int, k: int) -> bool {
    &&& encloses(s, j, k)
    &&& forall|i: int| #[trigger]
        encloses(s, i, k) ==> s[j].end->0 < s[i].end->0 || (s[j].end->0 == s[i].end->0 && i <= j)
}

/// Number of ranges that are open when the one at `k` starts.
pub open spec fn nesting_depth(s: Seq<ScanSlot>, k: int) -> nat {
    enclosing_set(s, k).len()
}

/// Row id of the innermost range that is open when the one at `k` starts.
pub open spec fn nesting_parent(s: Seq<ScanSlot>, k: int) -> Option<i64> {
    if exists|j: int| is_innermost(s, j, k) {
        Some(s[choose|j: int| is_innermost(s, j, k)].rowid)
    } else {
        None
    }
}

/// Lanes stand together in `s`, and starts do not decrease within a lane.
pub open spec fn laned(s: Seq<ScanSlot>) -> bool {
    &&& forall|i: int, j: int, k: int|
        #![trigger s[i], s[j], s[k]]
        0 <= i < j < k < s.len() && s[i].same_lane(s[k]) ==> s[j].same_lane(s[k])
    &&& forall|i: int, j: int|
        #![trigger s[i], s[j]]
        0 <= i < j < s.len() && s[i].same_lane(s[j]) ==> s[i].start <= s[j].start
}

/// The rearrangement of `s` by the positions `p`.
pub open spec fn arranged<T>(s: Seq<T>, p: Seq<int>) -> Seq<T> {
    p.map_values(|i: int| s[i])
}

/// Stable order of slots by lane, then start.
pub open spec fn lane_order(s: Seq<ScanSlot>) -> Seq<int> {
    sort_order_of(keys_of(s))
}

/// Slots that are sorted by lane and start satisfy [`laned`].
pub proof fn sorted_slots_are_laned(s: Seq<ScanSlot>)
    ensures
        laned(arranged(s, lane_order(s))),
{
    let keys = keys_of(s);
    let p = lane_order(s);
    let t = arranged(s, p);
    crate::order::sort_order_exists(keys);
    reveal_with_fuel(crate::order::lex_lt, 4);
    assert forall|i: int, j: int| 0 <= i < j < t.len() implies lane_le(t[i], t[j]) by {
        assert(crate::order::placed_before(keys, p[i], p[j]));
        let a = keys[p[i]];
        let b = keys[p[j]];
        assert(a == t[i].sort_key());
        assert(b == t[j].sort_key());
        assert(a[0] == t[i].global_tid && a[1] == t[i].domain_id && a[2] == t[i].start);
        assert(b[0] == t[j].global_tid && b[1] == t[j].domain_id && b[2] == t[j].start);
        assert(a.drop_first()[0] == a[1] && a.drop_first().drop_first()[0] == a[2]);
        assert(b.drop_first()[0] == b[1] && b.drop_first().drop_first()[0] == b[2]);
    }
    assert forall|i: int, j: int, k: int|
        #![trigger t[i], t[j], t[k]]
        0 <= i < j < k < t.len() && t[i].same_lane(t[k]) implies t[j].same_lane(t[k]) by {
        assert(lane_le(t[i], t[j]));
        assert(lane_le(t[j], t[k]));
    }
    assert forall|i: int, j: int|
        #![trigger t[i], t[j]]
        0 <= i < j < t.len() && t[i].same_lane(t[j]) implies t[i].start <= t[j].start by {
        assert(lane_le(t[i], t[j]));
    }
}

spec fn lane_le(a: ScanSlot, b: ScanSlot) -> bool {
    a.global_tid < b.global_tid || (a.global_tid == b.global_tid && (a.domain_id < b.domain_id || (
    a.domain_id == b.domain_id && a.start <= b.start)))
}

/// `ids` are the positions behind an open stack: soonest-closing last, and of
/// two that close together the younger one last.
spec fn stack_matches(s: Seq<ScanSlot>, stack: Seq<(i64, i64)>, ids: Seq<int>, k: int) -> bool {
    &&& stack.len() == ids.len()
    &&& forall|x: int|
        0 <= x < ids.len() ==> {
            let i = #[trigger] ids[x];
            &&& 0 <= i < k
            &&& s[i].end is Some
            &&& stack[x] == (s[i].end->0, s[i].rowid)
        }
    &&& forall|x: int, y: int|
        0 <= x < y < ids.len() ==> #[trigger] closes_later(stack, ids, x, y)
}

/// Entry `x` of the stack stands below entry `y`.
spec fn closes_later(stack: Seq<(i64, i64)>, ids: Seq<int>, x: int, y: int) -> bool {
    stack[x].0 > stack[y].0 || (stack[x].0 == stack[y].0 && ids[x] < ids[y])
}

/// Every range before `k` in the lane of `lane` that is open after `start` is
/// on the stack, and only ranges of that lane are.
spec fn stack_covers(s: Seq<ScanSlot>, ids: Seq<int>, k: int, lane: ScanSlot, start: i64) -> bool {
    &&& forall|x: int| 0 <= x < ids.len() ==> s[#[trigger] ids[x]].same_lane(lane)
    &&& forall|j: int|
        0 <= j < k && s[j].same_lane(lane) && s[j].end is Some && s[j].end->0 > start
            ==> #[trigger] ids.contains(j)
}

/// Once everything that closed is popped, the stack holds the enclosing ranges.
proof fn stack_is_enclosing_set(s: Seq<ScanSlot>, stack: Seq<(i64, i64)>, ids: Seq<int>, k: int)
    requires
        0 <= k < s.len(),
        stack_matches(s, stack, ids, k),
        stack_covers(s, ids, k, s[k], s[k].start),
        stack.len() > 0 ==> stack.last().0 > s[k].start,
    ensures
        nesting_depth(s, k) == stack.len(),
        nesting_parent(s, k) == if stack.len() > 0 {
            Some(stack.last().1)
        } else {
            None
        },
{
    assert forall|x: int| 0 <= x < ids.len() implies encloses(s, #[trigger] ids[x], k) by {
        let last = ids.len() - 1;
        if x < last {
            assert(closes_later(stack, ids, x, last));
        }
    }
    assert forall|x: int, y: int| 0 <= x < ids.len() && 0 <= y < ids.len() && x != y implies ids[x]
        != ids[y] by {
        if x < y {
            assert(closes_later(stack, ids, x, y));
        } else {
            assert(closes_later(stack, ids, y, x));
        }
    }
    ids.unique_seq_to_set();
    assert(ids.to_set() =~= enclosing_set(s, k)) by {
        assert forall|j: int| ids.to_set().contains(j) <==> enclosing_set(s, k).contains(j) by {
            if ids.to_set().contains(j) {
                let x: int = choose|x: int| 0 <= x < ids.len() && ids[x] == j;
                assert(encloses(s, ids[x], k));
            }
            if encloses(s, j, k) {
                assert(ids.contains(j));
            }
        }
    }
    if stack.len() > 0 {
        let last = ids.len() - 1;
        let m = ids[last];
        assert(is_innermost(s, m, k)) by {
            assert forall|i: int| #[trigger] encloses(s, i, k) implies s[m].end->0 < s[i].end->0 || (
            s[m].end->0 == s[i].end->0 && i <= m) by {
                assert(ids.contains(i));
                let x: int = choose|x: int| 0 <= x < ids.len() && ids[x] == i;
                if x < last {
                    assert(closes_later(stack, ids, x, last));
                }
            }
        }
        let c: int = choose|j: int| is_innermost(s, j, k);
        assert(is_innermost(s, c, k));
        assert(encloses(s, m, k) && encloses(s, c, k));
        assert(c == m);
    } else {
        assert forall|j: int| !is_innermost(s, j, k) by {
            if encloses(s, j, k) {
                assert(ids.contains(j));
            }
        }
    }
}

/// Popping a range that closed keeps the stack in shape.
proof fn stack_popped(s: Seq<ScanSlot>, stack: Seq<(i64, i64)>, ids: Seq<int>, k: int, slot: ScanSlot)
    requires
        stack_matches(s, stack, ids, k),
        stack_covers(s, ids, k, slot, slot.start),
        stack.len() > 0,
        stack.last().0 <= slot.start,
    ensures
        stack_matches(s, stack.drop_last(), ids.drop_last(), k),
        stack_covers(s, ids.drop_last(), k, slot, slot.start),
{
    let rest = ids.drop_last();
    let low = stack.drop_last();
    assert forall|j: int|
        0 <= j < k && s[j].same_lane(slot) && s[j].end is Some && s[j].end->0
            > slot.start implies #[trigger] rest.contains(j) by {
        assert(ids.contains(j));
        let x: int = choose|x: int| 0 <= x < ids.len() && ids[x] == j;
        assert(stack[x] == (s[ids[x]].end->0, s[ids[x]].rowid));
        assert(x < ids.len() - 1);
        assert(rest[x] == j);
    }
    assert forall|x: int, y: int| 0 <= x < y < rest.len() implies #[trigger] closes_later(
        low,
        rest,
        x,
        y,
    ) by {
        assert(closes_later(stack, ids, x, y));
    }
    assert forall|x: int| 0 <= x < rest.len() implies {
        let i = #[trigger] rest[x];
        &&& 0 <= i < k
        &&& s[i].end is Some
        &&& low[x] == (s[i].end->0, s[i].rowid)
        &&& s[i].same_lane(slot)
    } by {
        assert(rest[x] == ids[x]);
    }
}

/// Pushing the range at `k` below everything that closes earlier keeps the
/// stack in shape.
proof fn stack_pushed(s: Seq<ScanSlot>, stack: Seq<(i64, i64)>, ids: Seq<int>, k: int, pos: int)
    requires
        0 <= k < s.len(),
        stack_matches(s, stack, ids, k),
        stack_covers(s, ids, k, s[k], s[k].start),
        s[k].end is Some,
        0 <= pos <= stack.len(),
        pos > 0 ==> stack[pos - 1].0 >= s[k].end->0,
        forall|x: int| pos <= x < stack.len() ==> (#[trigger] stack[x]).0 < s[k].end->0,
    ensures
        stack_matches(s, stack.insert(pos, (s[k].end->0, s[k].rowid)), ids.insert(pos, k), k + 1),
        stack_covers(s, ids.insert(pos, k), k + 1, s[k], s[k].start),
{
    let end = s[k].end->0;
    let more = ids.insert(pos, k);
    let high = stack.insert(pos, (end, s[k].rowid));
    assert forall|x: int| 0 <= x < pos implies (#[trigger] stack[x]).0 >= end by {
        if x < pos - 1 {
            assert(closes_later(stack, ids, x, pos - 1));
        }
    }
    assert forall|x: int, y: int| 0 <= x < y < more.len() implies #[trigger] closes_later(
        high,
        more,
        x,
        y,
    ) by {
        let ox: int = if x < pos {
            x
        } else {
            x - 1
        };
        let oy: int = if y < pos {
            y
        } else {
            y - 1
        };
        if x != pos && y != pos {
            assert(closes_later(stack, ids, ox, oy));
        } else if x == pos {
            assert(stack[oy].0 < end);
        } else {
            assert(stack[ox].0 >= end);
            assert(0 <= ids[ox] < k);
        }
    }
    assert forall|x: int| 0 <= x < more.len() implies {
        let i = #[trigger] more[x];
        &&& 0 <= i < k + 1
        &&& s[i].end is Some
        &&& high[x] == (s[i].end->0, s[i].rowid)
        &&& s[i].same_lane(s[k])
    } by {
        if x < pos {
            assert(more[x] == ids[x]);
        } else if x > pos {
            assert(more[x] == ids[x - 1]);
        }
    }
    assert(more[pos] == k);
    assert forall|j: int|
        0 <= j < k + 1 && s[j].same_lane(s[k]) && s[j].end is Some && s[j].end->0
            > s[k].start implies #[trigger] more.contains(j) by {
        if j < k {
            assert(ids.contains(j));
            let x: int = choose|x: int| 0 <= x < ids.len() && ids[x] == j;
            if x < pos {
                assert(more[x] == j);
            } else {
                assert(more[x + 1] == j);
            }
        }
    }
}

/// Places every slot of a listing by lane and start.
///
/// The open ranges of the current lane are kept on a stack by descending end,
/// so that the last one is the soonest-closing; a range stands above those that
/// close together with it and opened before it.
pub fn place_slots(slots: &Vec<ScanSlot>) -> (out: Vec<Placement>)
    requires
        laned(slots@),
    ensures
        out.len() == slots.len(),
        forall|k: int|
            0 <= k < slots.len() ==> (#[trigger] out[k]).depth == nesting_depth(slots@, k)
                && out[k].parent == nesting_parent(slots@, k),
{
    let ghost s = slots@;
    let mut stack: Vec<(i64, i64)> = Vec::new();
    let ghost mut ids: Seq<int> = Seq::empty();
    let mut out: Vec<Placement> = Vec::with_capacity(slots.len());
    let mut k: usize = 0;
    while k < slots.len()
        invariant
            k <= slots.len(),
            s == slots@,
            laned(s),
            out.len() == k,
            stack_matches(s, stack@, ids, k as int),
            k > 0 ==> stack_covers(s, ids, k as int, s[k - 1], s[k - 1].start),
            k == 0 ==> stack.len() == 0,
            forall|i: int|
                0 <= i < k ==> (#[trigger] out[i]).depth == nesting_depth(s, i) && out[i].parent
                    == nesting_parent(s, i),
        decreases slots.len() - k,
    {
        let slot = slots[k];
        if k > 0 {
            let prev = slots[k - 1];
            if prev.global_tid != slot.global_tid || prev.domain_id != slot.domain_id {
                stack.clear();
                proof {
                    ids = Seq::empty();
                    assert forall|j: int| 0 <= j < k implies !s[j].same_lane(s[k as int]) by {
                        if j < k - 1 && s[j].same_lane(s[k as int]) {
                            assert(s[k - 1].same_lane(s[k as int]));
                        }
                    }
                }
            } else {
                assert(s[k - 1].same_lane(s[k as int]));
                assert(s[k - 1].start <= s[k as int].start);
            }
        }
        assert(stack_covers(s, ids, k as int, slot, slot.start));
        while stack.len() > 0 && stack[stack.len() - 1].0 <= slot.start
            invariant
                k < slots.len(),
                s == slots@,
                slot == s[k as int],
                stack_matches(s, stack@, ids, k as int),
                stack_covers(s, ids, k as int, slot, slot.start),
            decreases stack.len(),
        {
            let ghost before = ids;
            let ghost old_stack = stack@;
            stack.pop();
            proof {
                ids = before.drop_last();
                stack_popped(s, old_stack, before, k as int, slot);
            }
        }
        proof {
            stack_is_enclosing_set(s, stack@, ids, k as int);
        }
        let depth: usize = stack.len();
        let parent: Option<i64> = if depth > 0 {
            Some(stack[depth - 1].1)
        } else {
            None
        };
        out.push(Placement { parent, depth });
        if let Some(end) = slot.end {
            if end > slot.start {
                let mut pos: usize = stack.len();
                while pos > 0 && stack[pos - 1].0 < end
                    invariant
                        pos <= stack.len(),
                        forall|x: int| pos <= x < stack.len() ==> (#[trigger] stack[x]).0 < end,
                    decreases pos,
                {
                    pos = pos - 1;
                }
                let ghost before = ids;
                let ghost old_stack = stack@;
                stack.insert(pos, (end, slot.rowid));
                proof {
                    ids = before.insert(pos as int, k as int);
                    stack_pushed(s, old_stack, before, k as int, pos as int);
                }
            }
        }
        assert(stack_covers(s, ids, k + 1, slot, slot.start));
        assert(stack_matches(s, stack@, ids, k + 1));
        k = k + 1;
    }
    out
}

/// The slots of one bucket of rows, all in the same lane.
pub open spec fn bucket_slots<R: NvtxScanRow>(group: Seq<R>) -> Seq<ScanSlot> {
    group.map_values(
        |r: R|
            ScanSlot {
                global_tid: 0,
                domain_id: 0,
                start: r.scan_span().0,
                end: r.scan_span().1,
                rowid: r.scan_span().2,
            },
    )
}

/// `emit`, given `row` with this parent and depth, can answer `value`.
pub open spec fn emits<R, T, F: Fn(&R, Option<i64>, usize) -> T>(
    emit: F,
    row: R,
    parent: Option<i64>,
    depth: nat,
    value: T,
) -> bool {
    exists|d: usize| d == depth && #[trigger] call_ensures(emit, (&row, parent, d), value)
}

/// Moves the rows into the given order.
fn reorder<R>(rows: &mut Vec<R>, order: &Vec<usize>)
    requires
        order.len() == old(rows).len(),
        positions(order@).no_duplicates(),
        forall|x: int|
            0 <= x < order.len() ==> 0 <= #[trigger] positions(order@)[x] < old(rows).len(),
    ensures
        final(rows)@ == arranged(old(rows)@, positions(order@)),
{
    let ghost given = rows@;
    let ghost p = positions(order@);
    let n: usize = rows.len();
    let mut held: Vec<Option<R>> = Vec::with_capacity(n);
    while rows.len() > 0
        invariant
            n == given.len(),
            rows.len() + held.len() == n,
            rows@ == given.subrange(0, rows.len() as int),
            forall|x: int| 0 <= x < held.len() ==> (#[trigger] held@[x]) == Some(given[n - 1 - x]),
        decreases rows.len(),
    {
        let last = rows.pop();
        held.push(last);
    }
    let mut k: usize = 0;
    while k < order.len()
        invariant
            k <= order.len(),
            order.len() == n,
            n == given.len(),
            held.len() == n,
            p == positions(order@),
            p.no_duplicates(),
            forall|x: int| 0 <= x < order.len() ==> 0 <= #[trigger] p[x] < n,
            rows@ == arranged(given, p).subrange(0, k as int),
            forall|x: int|
                k <= x < order.len() ==> held@[n - 1 - #[trigger] p[x]] == Some(given[p[x]]),
        decreases order.len() - k,
    {
        assert(0 <= p[k as int] < n);
        let at: usize = n - 1 - order[k];
        let ghost before = held@;
        let mut item: Option<R> = None;
        held.set_and_swap(at, &mut item);
        proof {
            assert(before[n - 1 - p[k as int]] == Some(given[p[k as int]]));
            assert forall|x: int| k + 1 <= x < order.len() implies held@[n - 1 - #[trigger] p[x]]
                == Some(given[p[x]]) by {
                assert(p[x] != p[k as int]);
            }
        }
        if let Some(row) = item {
            rows.push(row);
        }
        k = k + 1;
        assert(rows@ =~= arranged(given, p).subrange(0, k as int));
    }
    assert(rows@ =~= arranged(given, p));
}

/// Places the rows of one already-grouped bucket (one
/// `(global_tid, domain_id)`): sorts them by start and calls
/// `emit(row, parent_rowid, depth)` for each in that order. `parent_rowid` is
/// the immediately enclosing open range (`None` at depth 0), `depth` the number
/// of open enclosing ranges. Returns the emitted values in that order.
///
/// - **Touching boundaries do not nest**: a range that ends exactly when the
///   next starts is a sibling, not a parent.
/// - **Zero-duration and instant rows take a depth but never become a
///   parent.**
/// - Rows with equal starts keep their input order.
pub fn scan_group<R: NvtxScanRow, T, F: Fn(&R, Option<i64>, usize) -> T>(
    group: &mut Vec<R>,
    emit: F,
) -> (out: Vec<T>)
    requires
        forall|i: int, parent: Option<i64>, depth: usize|
            0 <= i < old(group).len() ==> #[trigger] call_requires(
                emit,
                (&old(group)@[i], parent, depth),
            ),
    ensures
        ({
            let order = lane_order(bucket_slots(old(group)@));
            let sorted = bucket_slots(final(group)@);
            &&& is_sort_order(keys_of(bucket_slots(old(group)@)), order)
            &&& final(group)@ == arranged(old(group)@, order)
            &&& out.len() == final(group).len()
            &&& forall|k: int|
                0 <= k < out.len() ==> emits(
                    emit,
                    final(group)@[k],
                    nesting_parent(sorted, k),
                    nesting_depth(sorted, k),
                    #[trigger] out[k],
                )
        }),
{
    let ghost given = group@;
    let mut slots: Vec<ScanSlot> = Vec::with_capacity(group.len());
    let mut i: usize = 0;
    while i < group.len()
        invariant
            i <= group.len(),
            group@ == given,
            slots@ =~= bucket_slots(given).subrange(0, i as int),
        decreases group.len() - i,
    {
        let row = &group[i];
        slots.push(
            ScanSlot {
                global_tid: 0,
                domain_id: 0,
                start: row.start(),
                end: row.end(),
                rowid: row.rowid(),
            },
        );
        i = i + 1;
    }
    assert(slots@ =~= bucket_slots(given));
    let order = sort_order(slots.as_slice());
    let ghost p = positions(order@);
    let sorted = arrange_slots(&slots, &order);
    proof {
        sorted_slots_are_laned(slots@);
        sort_order_covers(keys_of(slots@), p);
        assert forall|x: int| 0 <= x < p.len() implies 0 <= #[trigger] p[x] < given.len() by {
            assert(0 <= p[x] < keys_of(slots@).len());
        }
    }
    let placements = place_slots(&sorted);
    reorder(group, &order);
    assert(sorted@ =~= bucket_slots(group@));
    let ghost rows = group@;
    assert forall|i: int, parent: Option<i64>, depth: usize|
        0 <= i < rows.len() implies #[trigger] call_requires(emit, (&rows[i], parent, depth)) by {
        assert(0 <= p[i] < given.len());
        assert(call_requires(emit, (&given[p[i]], parent, depth)));
    }
    let mut out: Vec<T> = Vec::with_capacity(group.len());
    let mut k: usize = 0;
    while k < group.len()
        invariant
            k <= group.len(),
            group@ == rows,
            sorted@ == bucket_slots(rows),
            placements.len() == group.len(),
            out.len() == k,
            forall|i: int, parent: Option<i64>, depth: usize|
                0 <= i < rows.len() ==> #[trigger] call_requires(emit, (&rows[i], parent, depth)),
            forall|i: int|
                0 <= i < placements.len() ==> (#[trigger] placements[i]).depth == nesting_depth(
                    sorted@,
                    i,
                ) && placements[i].parent == nesting_parent(sorted@, i),
            forall|i: int|
                0 <= i < k ==> emits(
                    emit,
                    rows[i],
                    nesting_parent(sorted@, i),
                    nesting_depth(sorted@, i),
                    #[trigger] out[i],
                ),
        decreases group.len() - k,
    {
        let placed = placements[k];
        let value = emit(&group[k], placed.parent, placed.depth);
        assert(call_ensures(emit, (&rows[k as int], placed.parent, placed.depth), value));
        out.push(value);
        k = k + 1;
    }
    out
}

/// The slots in the given order.
pub fn arrange_slots(slots: &Vec<ScanSlot>, order: &Vec<usize>) -> (sorted: Vec<ScanSlot>)
    requires
        forall|x: int| 0 <= x < order.len() ==> 0 <= #[trigger] positions(order@)[x] < slots.len(),
    ensures
        sorted@ == arranged(slots@, positions(order@)),
{
    let mut sorted: Vec<ScanSlot> = Vec::with_capacity(order.len());
    let mut k: usize = 0;
    while k < order.len()
        invariant
            k <= order.len(),
            forall|x: int|
                0 <= x < order.len() ==> 0 <= #[trigger] positions(order@)[x] < slots.len(),
            sorted@ =~= arranged(slots@, positions(order@)).subrange(0, k as int),
        decreases order.len() - k,
    {
        assert(0 <= positions(order@)[k as int] < slots.len());
        sorted.push(slots[order[k]]);
        k = k + 1;
    }
    sorted
}

} // verus!
