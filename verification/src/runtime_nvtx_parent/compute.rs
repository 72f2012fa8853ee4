//! Attributes runtime calls to the NVTX ranges that contain them.
use super::{chain_view, entry_views, EnclosingNvtx, EnclosingNvtxView, RuntimeParentEntry, RuntimeParentEntryView};
use super::gpu_activity::{DevCtxMap, DevCtxValue, DevCtxView};
use crate::laws::runtime_nvtx_parent::{attributes, calls_are_attributed};
use crate::nvtx_stack::arranged;
use crate::order::{
    keys_of, lex_lt_pair, lex_lt_triple, placed_before, positions,
    sort_order, sort_order_covers, sort_order_exists, sort_order_of, Key1, Key2, SortKey,
};
use std::collections::HashMap;
use vstd::prelude::*;

verus! {

broadcast use vstd::std_specs::hash::group_hash_axioms;

/// One closed NVTX range of a thread.
#[derive(Debug, Clone)]
pub struct NvtxRangeRow {
    pub rowid: i64,
    pub start: i64,
    pub end: i64,
    pub name: String,
}

/// One runtime call.
#[derive(Debug)]
pub struct RuntimeRow {
    pub rowid: i64,
    pub correlation_id: Option<i64>,
    pub native_pid: i64,
    pub global_tid: i64,
    pub start: i64,
    pub end: i64,
    /// From the matching GPU activity (kernel/memcpy/memset/sync); `None` when
    /// the call has none.
    pub device_id: Option<i32>,
    pub context_id: Option<i64>,
}

/// The call lies within the range.
pub open spec fn contains(n: NvtxRangeRow, r: RuntimeRow) -> bool {
    n.start <= r.start && r.end <= n.end
}

/// Positions of those of the first `n` ranges that contain the call.
pub open spec fn containing(ranges: Seq<NvtxRangeRow>, r: RuntimeRow, n: nat) -> Seq<nat>
    decreases n,
{
    if n == 0 {
        Seq::empty()
    } else if contains(ranges[n - 1], r) {
        containing(ranges, r, (n - 1) as nat).push((n - 1) as nat)
    } else {
        containing(ranges, r, (n - 1) as nat)
    }
}

/// Outer ranges first: earlier start, then later end, then smaller row id.
pub open spec fn outer_key(n: NvtxRangeRow) -> Seq<int> {
    seq![n.start as int, -(n.end as int), n.rowid as int]
}

/// The ranges that contain the call, outermost first.
pub open spec fn enclosing_chain(ranges: Seq<NvtxRangeRow>, r: RuntimeRow) -> Seq<
    EnclosingNvtxView,
> {
    let inside = containing(ranges, r, ranges.len()).map_values(|i: nat| ranges[i as int]);
    arranged(inside, sort_order_of(inside.map_values(|n: NvtxRangeRow| outer_key(n)))).map_values(
        |n: NvtxRangeRow| EnclosingNvtxView { nvtx_rowid: n.rowid, nvtx_name: n.name@ },
    )
}

/// The ranges of a thread.
pub open spec fn ranges_of(by_tid: Map<i64, Vec<NvtxRangeRow>>, tid: i64) -> Seq<NvtxRangeRow> {
    if by_tid.contains_key(tid) {
        by_tid[tid]@
    } else {
        Seq::empty()
    }
}

/// The entry of a call.
pub open spec fn walked_entry(
    by_tid: Map<i64, Vec<NvtxRangeRow>>,
    r: RuntimeRow,
) -> RuntimeParentEntryView {
    RuntimeParentEntryView {
        rt_rowid: r.rowid,
        correlation_id: r.correlation_id,
        native_pid: r.native_pid,
        device_id: r.device_id,
        context_id: r.context_id,
        enclosing: enclosing_chain(ranges_of(by_tid, r.global_tid), r),
    }
}

/// The entries of those of the first `n` calls that lie within a range.
pub open spec fn walked(
    by_tid: Map<i64, Vec<NvtxRangeRow>>,
    runtime: Seq<RuntimeRow>,
    n: nat,
) -> Seq<RuntimeParentEntryView>
    decreases n,
{
    if n == 0 {
        Seq::empty()
    } else {
        let entry = walked_entry(by_tid, runtime[n - 1]);
        if entry.enclosing.len() > 0 {
            walked(by_tid, runtime, (n - 1) as nat).push(entry)
        } else {
            walked(by_tid, runtime, (n - 1) as nat)
        }
    }
}

/// What orders an enclosing range.
pub struct LinkKey {
    pub start: i64,
    pub end: i64,
    pub rowid: i64,
}

impl SortKey for LinkKey {
    open spec fn sort_key(&self) -> Seq<int> {
        seq![self.start as int, -(self.end as int), self.rowid as int]
    }

    fn precedes(&self, other: &Self) -> (b: bool) {
        proof {
            lex_lt_triple(self.sort_key(), other.sort_key());
        }
        if self.start != other.start {
            self.start < other.start
        } else if self.end != other.end {
            self.end > other.end
        } else {
            self.rowid < other.rowid
        }
    }
}

spec fn range_places(at: Seq<usize>) -> Seq<nat> {
    at.map_values(|i: usize| i as nat)
}

proof fn containing_in_range(ranges: Seq<NvtxRangeRow>, r: RuntimeRow, n: nat)
    requires
        n <= ranges.len(),
    ensures
        forall|x: int|
            0 <= x < containing(ranges, r, n).len() ==> (#[trigger] containing(ranges, r, n)[x])
                < n && contains(ranges[containing(ranges, r, n)[x] as int], r),
    decreases n,
{
    if n > 0 {
        containing_in_range(ranges, r, (n - 1) as nat);
        let shorter = containing(ranges, r, (n - 1) as nat);
        let longer = containing(ranges, r, n);
        assert forall|x: int| 0 <= x < longer.len() implies (#[trigger] longer[x]) < n && contains(
            ranges[longer[x] as int],
            r,
        ) by {
            if x < shorter.len() {
                assert(longer[x] == shorter[x]);
            }
        }
    }
}

/// Appends `value` to the list at `at`.
fn push_at(lists: &mut Vec<Vec<usize>>, at: usize, value: usize)
    requires
        at < old(lists).len(),
    ensures
        final(lists).len() == old(lists).len(),
        final(lists)@[at as int]@ == old(lists)@[at as int]@.push(value),
        forall|x: int|
            0 <= x < old(lists).len() && x != at ==> #[trigger] final(lists)@[x] == old(lists)@[x],
{
    lists[at].push(value);
}

/// The chain of one call, outermost first, from the positions of the ranges
/// that contain it.
fn sorted_chain(
    ranges: &Vec<NvtxRangeRow>,
    at: &Vec<usize>,
    Ghost(r): Ghost<RuntimeRow>,
) -> (chain: Vec<EnclosingNvtx>)
    requires
        range_places(at@) == containing(ranges@, r, ranges.len() as nat),
    ensures
        chain_view(chain@) == enclosing_chain(ranges@, r),
{
    proof {
        containing_in_range(ranges@, r, ranges.len() as nat);
    }
    let ghost inside = range_places(at@).map_values(|i: nat| ranges@[i as int]);
    let mut keys: Vec<LinkKey> = Vec::with_capacity(at.len());
    let mut x: usize = 0;
    while x < at.len()
        invariant
            x <= at.len(),
            range_places(at@) == containing(ranges@, r, ranges.len() as nat),
            forall|y: int| 0 <= y < at.len() ==> (#[trigger] range_places(at@)[y]) < ranges.len(),
            inside == range_places(at@).map_values(|i: nat| ranges@[i as int]),
            keys.len() == x,
            forall|y: int| 0 <= y < x ==> (#[trigger] keys[y]).sort_key() == outer_key(inside[y]),
        decreases at.len() - x,
    {
        assert(range_places(at@)[x as int] < ranges.len());
        let n = &ranges[at[x]];
        keys.push(LinkKey { start: n.start, end: n.end, rowid: n.rowid });
        x = x + 1;
    }
    let order = sort_order(keys.as_slice());
    let ghost ord = positions(order@);
    assert(keys_of(keys@) =~= inside.map_values(|n: NvtxRangeRow| outer_key(n)));
    let mut chain: Vec<EnclosingNvtx> = Vec::with_capacity(at.len());
    let mut k: usize = 0;
    while k < order.len()
        invariant
            k <= order.len(),
            order.len() == at.len(),
            ord == positions(order@),
            forall|y: int| 0 <= y < ord.len() ==> 0 <= #[trigger] ord[y] < at.len(),
            forall|y: int| 0 <= y < at.len() ==> (#[trigger] range_places(at@)[y]) < ranges.len(),
            inside == range_places(at@).map_values(|i: nat| ranges@[i as int]),
            chain.len() == k,
            forall|y: int|
                0 <= y < k ==> (#[trigger] chain@[y])@ == (EnclosingNvtxView {
                    nvtx_rowid: inside[ord[y]].rowid,
                    nvtx_name: inside[ord[y]].name@,
                }),
        decreases order.len() - k,
    {
        assert(0 <= ord[k as int] < at.len());
        assert(range_places(at@)[ord[k as int]] < ranges.len());
        let n = &ranges[at[order[k]]];
        chain.push(EnclosingNvtx { nvtx_rowid: n.rowid, nvtx_name: n.name.clone() });
        k = k + 1;
    }
    assert(chain_view(chain@) =~= enclosing_chain(ranges@, r));
    chain
}

/// The positions `from..to` of the listing `p` hold the calls of thread `tid`,
/// by start.
spec fn is_run(runtime: Seq<RuntimeRow>, p: Seq<int>, from: int, to: int, tid: i64) -> bool {
    &&& 0 <= from <= to <= p.len()
    &&& forall|x: int| from <= x < to ==> 0 <= #[trigger] p[x] < runtime.len()
    &&& forall|x: int| from <= x < to ==> runtime[#[trigger] p[x]].global_tid == tid
    &&& forall|x: int, y: int|
        #![trigger p[x], p[y]]
        from <= x < y < to ==> runtime[p[x]].start <= runtime[p[y]].start
}

/// First position of the run whose call starts at `start` or later.
fn first_at_or_after(
    runtime: &[RuntimeRow],
    order: &Vec<usize>,
    from: usize,
    to: usize,
    start: i64,
    Ghost(tid): Ghost<i64>,
) -> (lo: usize)
    requires
        is_run(runtime@, positions(order@), from as int, to as int, tid),
    ensures
        from <= lo <= to,
        forall|x: int| from <= x < lo ==> runtime@[#[trigger] positions(order@)[x]].start < start,
        forall|x: int| lo <= x < to ==> runtime@[#[trigger] positions(order@)[x]].start >= start,
{
    let ghost p = positions(order@);
    let mut lo: usize = from;
    let mut hi: usize = to;
    while lo < hi
        invariant
            from <= lo <= hi <= to,
            p == positions(order@),
            is_run(runtime@, p, from as int, to as int, tid),
            forall|x: int| from <= x < lo ==> runtime@[#[trigger] p[x]].start < start,
            forall|x: int| hi <= x < to ==> runtime@[#[trigger] p[x]].start >= start,
        decreases hi - lo,
    {
        let mid: usize = lo + (hi - lo) / 2;
        assert(0 <= p[mid as int] < runtime.len());
        if runtime[order[mid]].start < start {
            assert forall|x: int| from <= x < mid + 1 implies runtime@[#[trigger] p[x]].start
                < start by {
                if x < mid {
                    assert(runtime@[p[x]].start <= runtime@[p[mid as int]].start);
                }
            }
            lo = mid + 1;
        } else {
            assert forall|x: int| mid <= x < to implies runtime@[#[trigger] p[x]].start >= start by {
                if mid < x {
                    assert(runtime@[p[mid as int]].start <= runtime@[p[x]].start);
                }
            }
            hi = mid;
        }
    }
    lo
}

/// Whether no call of the run ends before it starts.
fn ends_in_order(
    runtime: &[RuntimeRow],
    order: &Vec<usize>,
    from: usize,
    to: usize,
    Ghost(tid): Ghost<i64>,
) -> (b: bool)
    requires
        is_run(runtime@, positions(order@), from as int, to as int, tid),
    ensures
        b ==> forall|x: int|
            from <= x < to ==> runtime@[#[trigger] positions(order@)[x]].start
                <= runtime@[positions(order@)[x]].end,
{
    let ghost p = positions(order@);
    let mut x: usize = from;
    while x < to
        invariant
            from <= x <= to,
            p == positions(order@),
            is_run(runtime@, p, from as int, to as int, tid),
            forall|y: int|
                from <= y < x ==> runtime@[#[trigger] p[y]].start <= runtime@[p[y]].end,
        decreases to - x,
    {
        assert(0 <= p[x as int] < runtime.len());
        if runtime[order[x]].end < runtime[order[x]].start {
            return false;
        }
        x = x + 1;
    }
    true
}

/// Links every range of a thread to the calls of the thread that it contains.
///
/// For each range the calls it can contain are one slice of the calls by start:
/// its front is found by binary search, and it ends where calls start behind the
/// range, unless some call ends before it starts.
fn link_run(
    ranges: &Vec<NvtxRangeRow>,
    runtime: &[RuntimeRow],
    order: &Vec<usize>,
    from: usize,
    to: usize,
    chains: &mut Vec<Vec<usize>>,
    Ghost(tid): Ghost<i64>,
)
    requires
        is_run(runtime@, positions(order@), from as int, to as int, tid),
        positions(order@).no_duplicates(),
        old(chains).len() == runtime.len(),
        forall|x: int|
            from <= x < to ==> old(chains)@[#[trigger] positions(order@)[x]]@.len() == 0,
    ensures
        final(chains).len() == runtime.len(),
        forall|x: int|
            from <= x < to ==> range_places(final(chains)@[#[trigger] positions(order@)[x]]@)
                == containing(ranges@, runtime@[positions(order@)[x]], ranges.len() as nat),
        forall|x: int|
            0 <= x < order.len() && !(from <= x < to) && 0 <= positions(order@)[x] < runtime.len()
                ==> final(chains)@[#[trigger] positions(order@)[x]] == old(chains)@[positions(order@)[x]],
{
    let ghost p = positions(order@);
    let ghost initial = chains@;
    assert forall|x: int| from <= x < to implies range_places(chains@[#[trigger] p[x]]@)
        == containing(ranges@, runtime@[p[x]], 0) by {
        assert(range_places(chains@[p[x]]@) =~= Seq::<nat>::empty());
    }
    let ordered: bool = ends_in_order(runtime, order, from, to, Ghost(tid));
    let mut m: usize = 0;
    while m < ranges.len()
        invariant
            m <= ranges.len(),
            p == positions(order@),
            ordered ==> forall|x: int|
                from <= x < to ==> runtime@[#[trigger] p[x]].start <= runtime@[p[x]].end,
            is_run(runtime@, p, from as int, to as int, tid),
            p.no_duplicates(),
            chains.len() == runtime.len(),
            initial.len() == runtime.len(),
            forall|x: int|
                from <= x < to ==> range_places(chains@[#[trigger] p[x]]@) == containing(
                    ranges@,
                    runtime@[p[x]],
                    m as nat,
                ),
            forall|x: int|
                0 <= x < p.len() && !(from <= x < to) && 0 <= p[x] < runtime.len()
                    ==> chains@[#[trigger] p[x]] == initial[p[x]],
        decreases ranges.len() - m,
    {
        let n = &ranges[m];
        let lo: usize = first_at_or_after(runtime, order, from, to, n.start, Ghost(tid));
        assert forall|y: int| from <= y < to implies (#[trigger] order@[y]) < runtime.len() by {
            assert(0 <= p[y] < runtime.len());
        }
        let mut x: usize = lo;
        while x < to && (!ordered || runtime[order[x]].start <= n.end)
            invariant
                m < ranges.len(),
                n == ranges@[m as int],
                p == positions(order@),
                is_run(runtime@, p, from as int, to as int, tid),
                p.no_duplicates(),
                from <= lo <= x <= to,
                to <= order.len(),
                forall|y: int| from <= y < to ==> (#[trigger] order@[y]) < runtime.len(),
                chains.len() == runtime.len(),
                initial.len() == runtime.len(),
                forall|y: int| lo <= y < to ==> runtime@[#[trigger] p[y]].start >= n.start,
                forall|y: int|
                    lo <= y < x ==> range_places(chains@[#[trigger] p[y]]@) == containing(
                        ranges@,
                        runtime@[p[y]],
                        (m + 1) as nat,
                    ),
                forall|y: int|
                    from <= y < to && !(lo <= y < x) ==> range_places(chains@[#[trigger] p[y]]@)
                        == containing(ranges@, runtime@[p[y]], m as nat),
                forall|y: int|
                    0 <= y < p.len() && !(from <= y < to) && 0 <= p[y] < runtime.len()
                        ==> chains@[#[trigger] p[y]] == initial[p[y]],
            decreases to - x,
        {
            let at: usize = order[x];
            assert(p[x as int] == at);
            let ghost before = chains@;
            if runtime[at].end <= n.end {
                push_at(chains, at, m);
                proof {
                    assert forall|y: int| 0 <= y < p.len() && y != x && 0 <= p[y]
                        < runtime.len() implies chains@[#[trigger] p[y]] == before[p[y]] by {
                        assert(p[y] != p[x as int]);
                    }
                    assert(contains(ranges@[m as int], runtime@[p[x as int]]));
                    assert(range_places(chains@[p[x as int]]@) =~= range_places(
                        before[p[x as int]]@,
                    ).push(m as nat));
                }
            }
            x = x + 1;
        }
        proof {
            assert forall|y: int| from <= y < to implies range_places(chains@[#[trigger] p[y]]@)
                == containing(ranges@, runtime@[p[y]], (m + 1) as nat) by {
                if y < lo {
                    assert(runtime@[p[y]].start < n.start);
                } else if y >= x {
                    assert(ordered && runtime@[p[x as int]].start > n.end);
                    if x < y {
                        assert(runtime@[p[x as int]].start <= runtime@[p[y]].start);
                    }
                    assert(runtime@[p[y]].start <= runtime@[p[y]].end);
                }
            }
        }
        m = m + 1;
    }
}

/// Per runtime row, collects *every* enclosing NVTX range on the same
/// `globalTid`. The chains are outermost-first, so that the innermost range is
/// `.last()`; rows without an enclosing range are left out.
pub fn walk(
    nvtx_by_tid: &HashMap<i64, Vec<NvtxRangeRow>>,
    runtime: &[RuntimeRow],
) -> (out: Vec<RuntimeParentEntry>)
    ensures
        entry_views(out@) == walked(nvtx_by_tid@, runtime@, runtime@.len()),
{
    let ghost by_tid = nvtx_by_tid@;
    let mut keys: Vec<Key2> = Vec::with_capacity(runtime.len());
    let mut chains: Vec<Vec<usize>> = Vec::with_capacity(runtime.len());
    let mut i: usize = 0;
    while i < runtime.len()
        invariant
            i <= runtime.len(),
            keys.len() == i,
            chains.len() == i,
            forall|x: int|
                0 <= x < i ==> (#[trigger] keys[x]).first == runtime@[x].global_tid && keys[x].second
                    == runtime@[x].start,
            forall|x: int| 0 <= x < i ==> (#[trigger] chains@[x])@.len() == 0,
        decreases runtime.len() - i,
    {
        keys.push(Key2 { first: runtime[i].global_tid, second: runtime[i].start });
        chains.push(Vec::new());
        i = i + 1;
    }
    let order = sort_order(keys.as_slice());
    let ghost p = positions(order@);
    let ghost ks = keys_of(keys@);
    proof {
        sort_order_covers(ks, p);
    }
    assert forall|x: int, y: int|
        #![trigger p[x], p[y]]
        0 <= x < y < p.len() implies runtime@[p[x]].global_tid < runtime@[p[y]].global_tid || (
    runtime@[p[x]].global_tid == runtime@[p[y]].global_tid && runtime@[p[x]].start
        <= runtime@[p[y]].start) by {
        assert(placed_before(ks, p[x], p[y]));
        lex_lt_pair(ks[p[x]], ks[p[y]]);
        assert(ks[p[x]] == keys@[p[x]].sort_key());
        assert(ks[p[y]] == keys@[p[y]].sort_key());
        assert(ks[p[x]][0] == runtime@[p[x]].global_tid && ks[p[x]][1] == runtime@[p[x]].start);
        assert(ks[p[y]][0] == runtime@[p[y]].global_tid && ks[p[y]][1] == runtime@[p[y]].start);
    }
    let mut from: usize = 0;
    while from < order.len()
        invariant
            from <= order.len(),
            order.len() == runtime.len(),
            p == positions(order@),
            p.no_duplicates(),
            by_tid == nvtx_by_tid@,
            chains.len() == runtime.len(),
            forall|x: int| 0 <= x < p.len() ==> 0 <= #[trigger] p[x] < runtime.len(),
            forall|x: int, y: int|
                #![trigger p[x], p[y]]
                0 <= x < y < p.len() ==> runtime@[p[x]].global_tid < runtime@[p[y]].global_tid || (
                runtime@[p[x]].global_tid == runtime@[p[y]].global_tid && runtime@[p[x]].start
                    <= runtime@[p[y]].start),
            forall|x: int|
                0 <= x < from ==> range_places(chains@[#[trigger] p[x]]@) == containing(
                    ranges_of(by_tid, runtime@[p[x]].global_tid),
                    runtime@[p[x]],
                    ranges_of(by_tid, runtime@[p[x]].global_tid).len(),
                ),
            forall|x: int| from <= x < p.len() ==> chains@[#[trigger] p[x]]@.len() == 0,
        decreases order.len() - from,
    {
        assert(p[from as int] == order@[from as int]);
        let tid: i64 = runtime[order[from]].global_tid;
        let mut to: usize = from + 1;
        assert forall|x: int| 0 <= x < order.len() implies (#[trigger] order@[x]) < runtime.len() by {
            assert(0 <= p[x] < runtime.len());
        }
        while to < order.len() && runtime[order[to]].global_tid == tid
            invariant
                from < to <= order.len(),
                order.len() == runtime.len(),
                p == positions(order@),
                forall|x: int| 0 <= x < order.len() ==> (#[trigger] order@[x]) < runtime.len(),
                forall|x: int| from <= x < to ==> runtime@[#[trigger] p[x]].global_tid == tid,
            decreases order.len() - to,
        {
            assert(p[to as int] == order@[to as int]);
            to = to + 1;
        }
        let ghost before = chains@;
        match nvtx_by_tid.get(&tid) {
            Some(ranges) => {
                link_run(ranges, runtime, &order, from, to, &mut chains, Ghost(tid));
                assert(ranges@ == ranges_of(by_tid, tid));
            },
            None => {
                assert forall|x: int| from <= x < to implies range_places(
                    chains@[#[trigger] p[x]]@,
                ) == containing(ranges_of(by_tid, tid), runtime@[p[x]], 0) by {
                    assert(range_places(chains@[p[x]]@) =~= Seq::<nat>::empty());
                }
            },
        }
        assert forall|x: int| 0 <= x < to implies range_places(chains@[#[trigger] p[x]]@)
            == containing(
            ranges_of(by_tid, runtime@[p[x]].global_tid),
            runtime@[p[x]],
            ranges_of(by_tid, runtime@[p[x]].global_tid).len(),
        ) by {
            if x < from {
                assert(chains@[p[x]] == before[p[x]]);
            }
        }
        from = to;
    }
    assert forall|i: int| 0 <= i < runtime.len() implies range_places((#[trigger] chains@[i])@)
        == containing(
        ranges_of(by_tid, runtime@[i].global_tid),
        runtime@[i],
        ranges_of(by_tid, runtime@[i].global_tid).len(),
    ) by {
        assert(p.contains(i));
        let x: int = choose|x: int| 0 <= x < p.len() && p[x] == i;
        assert(chains@[p[x]] == chains@[i]);
    }
    let mut out: Vec<RuntimeParentEntry> = Vec::new();
    let mut i: usize = 0;
    while i < runtime.len()
        invariant
            i <= runtime.len(),
            by_tid == nvtx_by_tid@,
            chains.len() == runtime.len(),
            forall|i: int|
                0 <= i < runtime.len() ==> range_places((#[trigger] chains@[i])@) == containing(
                    ranges_of(by_tid, runtime@[i].global_tid),
                    runtime@[i],
                    ranges_of(by_tid, runtime@[i].global_tid).len(),
                ),
            entry_views(out@) == walked(by_tid, runtime@, i as nat),
        decreases runtime.len() - i,
    {
        let r = &runtime[i];
        let at = &chains[i];
        let ghost ranges = ranges_of(by_tid, r.global_tid);
        assert(range_places(at@) == containing(ranges, *r, ranges.len()));
        assert(range_places(at@).len() == at.len());
        assert(enclosing_chain(ranges, *r).len() == at.len()) by {
            let inside = containing(ranges, *r, ranges.len()).map_values(|i: nat| ranges[i as int]);
            crate::order::sort_order_exists(inside.map_values(|n: NvtxRangeRow| outer_key(n)));
        }
        if at.len() > 0 {
            match nvtx_by_tid.get(&r.global_tid) {
                Some(ranges) => {
                    let enclosing = sorted_chain(ranges, at, Ghost(*r));
                    let ghost before = out@;
                    out.push(
                        RuntimeParentEntry {
                            rt_rowid: r.rowid,
                            correlation_id: r.correlation_id,
                            native_pid: r.native_pid,
                            device_id: r.device_id,
                            context_id: r.context_id,
                            enclosing,
                        },
                    );
                    assert(out@.last()@ == walked_entry(by_tid, *r));
                    assert(entry_views(out@) =~= entry_views(before).push(walked_entry(by_tid, *r)));
                },
                None => {},
            }
        }
        i = i + 1;
    }
    out
}

/// The entry on each of the `(device, context)` pairs.
pub open spec fn on_devices(
    entry: RuntimeParentEntryView,
    pairs: Seq<(i32, i64)>,
) -> Seq<RuntimeParentEntryView> {
    pairs.map_values(
        |dx: (i32, i64)|
            RuntimeParentEntryView { device_id: Some(dx.0), context_id: Some(dx.1), ..entry },
    )
}

/// What becomes of an entry: one entry for each `(device, context)` that its
/// correlation reached, or the entry itself where none is known.
pub open spec fn fanned_out(
    entry: RuntimeParentEntryView,
    dev_ctx: Map<(i64, i64), DevCtxView>,
) -> Seq<RuntimeParentEntryView> {
    match entry.correlation_id {
        Some(corr) => {
            let key = (entry.native_pid, corr);
            if dev_ctx.contains_key(key) {
                on_devices(entry, dev_ctx[key].pairs())
            } else {
                seq![entry]
            }
        },
        None => seq![entry],
    }
}

/// What becomes of the first `n` entries.
pub open spec fn merged(
    entries: Seq<RuntimeParentEntryView>,
    dev_ctx: Map<(i64, i64), DevCtxView>,
    n: nat,
) -> Seq<RuntimeParentEntryView>
    decreases n,
{
    if n == 0 {
        Seq::empty()
    } else {
        merged(entries, dev_ctx, (n - 1) as nat) + fanned_out(entries[n - 1], dev_ctx)
    }
}

/// Per attributed runtime row, looks up its `(device_id, context_id)` in
/// `dev_ctx` and either sets the fields (the common case of exactly one match)
/// or fans out to several entries, one per candidate.
///
/// The enclosing chain is the same across the copies.
pub fn merge_dev_ctx(walked: Vec<RuntimeParentEntry>, dev_ctx: &DevCtxMap) -> (out: Vec<
    RuntimeParentEntry,
>)
    ensures
        entry_views(out@) == merged(entry_views(walked@), dev_ctx@, walked@.len()),
{
    let ghost entries = entry_views(walked@);
    let mut out: Vec<RuntimeParentEntry> = Vec::with_capacity(walked.len());
    let mut i: usize = 0;
    while i < walked.len()
        invariant
            i <= walked.len(),
            entries == entry_views(walked@),
            entry_views(out@) == merged(entries, dev_ctx@, i as nat),
        decreases walked.len() - i,
    {
        let entry = &walked[i];
        let ghost before = entry_views(out@);
        let ghost view = entries[i as int];
        assert(view == entry@);
        let found: Option<&DevCtxValue> = match entry.correlation_id {
            Some(corr) => dev_ctx.get(entry.native_pid, corr),
            None => None,
        };
        match found {
            None => {
                out.push(entry.copied());
                assert(entry_views(out@) =~= before + seq![view]);
            },
            Some(DevCtxValue::Single(dx)) => {
                out.push(entry.on_device(dx.0, dx.1));
                assert(entry_views(out@) =~= before + on_devices(view, seq![*dx]));
            },
            Some(DevCtxValue::Many(many)) => {
                let mut k: usize = 0;
                assert(entry_views(out@) =~= before + on_devices(
                    view,
                    many@,
                ).subrange(0, 0));
                while k < many.len()
                    invariant
                        k <= many.len(),
                        view == entry@,
                        entry_views(out@) == before + on_devices(view, many@).subrange(
                            0,
                            k as int,
                        ),
                    decreases many.len() - k,
                {
                    let ghost sofar = entry_views(out@);
                    out.push(entry.on_device(many[k].0, many[k].1));
                    proof {
                        let next = on_devices(view, many@)[k as int];
                        assert(out@.last()@ == next);
                        assert(entry_views(out@) =~= sofar.push(next));
                        assert(on_devices(view, many@).subrange(0, k + 1) =~= on_devices(
                            view,
                            many@,
                        ).subrange(0, k as int).push(next));
                        assert(entry_views(out@) =~= before + on_devices(view, many@).subrange(
                            0,
                            k + 1,
                        ));
                    }
                    k = k + 1;
                }
                assert(on_devices(view, many@).subrange(0, k as int) =~= on_devices(view, many@));
            },
        }
        i = i + 1;
    }
    out
}

/// One closed NVTX range with its thread.
#[derive(Debug, Clone)]
pub struct NvtxThreadRow {
    pub rowid: i64,
    pub start: i64,
    pub end: i64,
    pub global_tid: i64,
    pub name: String,
}

impl NvtxThreadRow {
    /// The range without its thread.
    pub open spec fn range(self) -> NvtxRangeRow {
        NvtxRangeRow { rowid: self.rowid, start: self.start, end: self.end, name: self.name }
    }
}

/// The ranges of the thread among the first `n` rows.
pub open spec fn thread_ranges(rows: Seq<NvtxThreadRow>, tid: i64, n: nat) -> Seq<NvtxRangeRow>
    decreases n,
{
    if n == 0 {
        Seq::empty()
    } else if rows[n - 1].global_tid == tid {
        thread_ranges(rows, tid, (n - 1) as nat).push(rows[n - 1].range())
    } else {
        thread_ranges(rows, tid, (n - 1) as nat)
    }
}

/// The ranges by start.
pub open spec fn by_start(ranges: Seq<NvtxRangeRow>) -> Seq<NvtxRangeRow> {
    arranged(
        ranges,
        sort_order_of(ranges.map_values(|n: NvtxRangeRow| seq![n.start as int])),
    )
}

/// Sorts ranges by start.
fn sort_by_start(ranges: &Vec<NvtxRangeRow>) -> (sorted: Vec<NvtxRangeRow>)
    ensures
        sorted@ == by_start(ranges@),
{
    let mut keys: Vec<Key1> = Vec::with_capacity(ranges.len());
    let mut i: usize = 0;
    while i < ranges.len()
        invariant
            i <= ranges.len(),
            keys.len() == i,
            forall|x: int| 0 <= x < i ==> (#[trigger] keys[x]).first == ranges@[x].start,
        decreases ranges.len() - i,
    {
        keys.push(Key1 { first: ranges[i].start });
        i = i + 1;
    }
    let order = sort_order(keys.as_slice());
    let ghost ord = positions(order@);
    assert(keys_of(keys@) =~= ranges@.map_values(|n: NvtxRangeRow| seq![n.start as int]));
    let mut sorted: Vec<NvtxRangeRow> = Vec::with_capacity(ranges.len());
    let mut k: usize = 0;
    while k < order.len()
        invariant
            k <= order.len(),
            ord == positions(order@),
            forall|x: int| 0 <= x < ord.len() ==> 0 <= #[trigger] ord[x] < ranges.len(),
            sorted@ =~= arranged(ranges@, ord).subrange(0, k as int),
        decreases order.len() - k,
    {
        assert(0 <= ord[k as int] < ranges.len());
        let r = &ranges[order[k]];
        sorted.push(
            NvtxRangeRow { rowid: r.rowid, start: r.start, end: r.end, name: r.name.clone() },
        );
        assert(sorted@.last() == arranged(ranges@, ord)[k as int]);
        k = k + 1;
    }
    sorted
}

/// Buckets ranges by thread, each bucket sorted by start.
pub fn group_by_tid(rows: &Vec<NvtxThreadRow>) -> (by_tid: HashMap<i64, Vec<NvtxRangeRow>>)
    ensures
        forall|tid: i64|
            by_tid@.contains_key(tid) <==> (#[trigger] thread_ranges(rows@, tid, rows@.len())).len()
                > 0,
        forall|tid: i64|
            by_tid@.contains_key(tid) ==> (#[trigger] by_tid@[tid])@ == by_start(
                thread_ranges(rows@, tid, rows@.len()),
            ),
{
    let mut by_tid: HashMap<i64, Vec<NvtxRangeRow>> = HashMap::new();
    let mut tids: Vec<i64> = Vec::new();
    let mut i: usize = 0;
    while i < rows.len()
        invariant
            i <= rows.len(),
            tids@.no_duplicates(),
            forall|tid: i64| by_tid@.contains_key(tid) <==> #[trigger] tids@.contains(tid),
            forall|tid: i64|
                by_tid@.contains_key(tid) <==> (#[trigger] thread_ranges(
                    rows@,
                    tid,
                    i as nat,
                )).len() > 0,
            forall|tid: i64|
                by_tid@.contains_key(tid) ==> (#[trigger] by_tid@[tid])@ == thread_ranges(
                    rows@,
                    tid,
                    i as nat,
                ),
        decreases rows.len() - i,
    {
        let row = &rows[i];
        let tid: i64 = row.global_tid;
        let ghost old_map = by_tid@;
        let ghost old_tids = tids@;
        assert(old_map.contains_key(tid) <==> thread_ranges(rows@, tid, i as nat).len() > 0);
        let mut group: Vec<NvtxRangeRow> = match by_tid.remove(&tid) {
            Some(group) => group,
            None => {
                assert(!old_tids.contains(tid));
                tids.push(tid);
                Vec::new()
            },
        };
        assert(group@ =~= thread_ranges(rows@, tid, i as nat));
        group.push(
            NvtxRangeRow {
                rowid: row.rowid,
                start: row.start,
                end: row.end,
                name: row.name.clone(),
            },
        );
        assert(group@.last() == rows@[i as int].range());
        by_tid.insert(tid, group);
        proof {
            assert(by_tid@ =~= old_map.insert(tid, group));
            assert forall|t: i64| by_tid@.contains_key(t) <==> #[trigger] tids@.contains(t) by {
                assert(old_map.contains_key(t) <==> old_tids.contains(t));
                if old_tids.contains(t) {
                    let x: int = choose|x: int| 0 <= x < old_tids.len() && old_tids[x] == t;
                    assert(tids@[x] == t);
                }
                if t == tid && !old_tids.contains(t) {
                    assert(tids@[tids.len() - 1] == t);
                }
            }
        }
        i = i + 1;
        proof {
            assert forall|t: i64| by_tid@.contains_key(t) <==> (#[trigger] thread_ranges(
                rows@,
                t,
                i as nat,
            )).len() > 0 by {
                assert(old_map.contains_key(t) <==> thread_ranges(
                    rows@,
                    t,
                    (i - 1) as nat,
                ).len() > 0);
            }
            assert forall|t: i64| by_tid@.contains_key(t) implies (#[trigger] by_tid@[t])@
                == thread_ranges(rows@, t, i as nat) by {
                if t != tid {
                    assert(old_map[t]@ == thread_ranges(rows@, t, (i - 1) as nat));
                }
            }
        }
    }
    assert forall|x: int| 0 <= x < tids.len() implies by_tid@[#[trigger] tids@[x]]@
        == thread_ranges(rows@, tids@[x], rows@.len()) by {
        assert(tids@.contains(tids@[x]));
    }
    let mut k: usize = 0;
    while k < tids.len()
        invariant
            k <= tids.len(),
            tids@.no_duplicates(),
            forall|tid: i64| by_tid@.contains_key(tid) <==> #[trigger] tids@.contains(tid),
            forall|tid: i64|
                by_tid@.contains_key(tid) <==> (#[trigger] thread_ranges(
                    rows@,
                    tid,
                    rows@.len(),
                )).len() > 0,
            forall|x: int|
                k <= x < tids.len() ==> by_tid@[#[trigger] tids@[x]]@ == thread_ranges(
                    rows@,
                    tids@[x],
                    rows@.len(),
                ),
            forall|x: int|
                0 <= x < k ==> by_tid@[#[trigger] tids@[x]]@ == by_start(
                    thread_ranges(rows@, tids@[x], rows@.len()),
                ),
        decreases tids.len() - k,
    {
        let tid: i64 = tids[k];
        assert(tids@.contains(tids@[k as int]));
        let ghost old_map = by_tid@;
        if let Some(group) = by_tid.remove(&tid) {
            let sorted = sort_by_start(&group);
            by_tid.insert(tid, sorted);
            assert(by_tid@ =~= old_map.insert(tid, sorted));
        }
        assert forall|x: int| 0 <= x < tids.len() && x != k implies by_tid@[#[trigger] tids@[x]]
            == old_map[tids@[x]] by {
            assert(tids@[x] != tids@[k as int]);
        }
        k = k + 1;
    }
    assert forall|tid: i64| by_tid@.contains_key(tid) implies (#[trigger] by_tid@[tid])@
        == by_start(thread_ranges(rows@, tid, rows@.len())) by {
        assert(tids@.contains(tid));
        let x: int = choose|x: int| 0 <= x < tids.len() && tids@[x] == tid;
        assert(by_tid@[tids@[x]]@ == by_start(thread_ranges(rows@, tids@[x], rows@.len())));
    }
    by_tid
}

/// The element of the chain stands for a range that contains the call.
pub open spec fn is_containing(
    ranges: Seq<NvtxRangeRow>,
    r: RuntimeRow,
    e: EnclosingNvtxView,
) -> bool {
    exists|i: int|
        0 <= i < ranges.len() && contains(#[trigger] ranges[i], r) && is_view_of(e, ranges[i])
}

/// The range stands in the chain.
pub open spec fn is_listed(chain: Seq<EnclosingNvtxView>, n: NvtxRangeRow) -> bool {
    exists|k: int| 0 <= k < chain.len() && is_view_of(#[trigger] chain[k], n)
}

/// A chain lists the ranges that contain the call, all of them and no others,
/// and is as long as there are such ranges.
pub proof fn chain_is_complete(ranges: Seq<NvtxRangeRow>, r: RuntimeRow)
    ensures
        enclosing_chain(ranges, r).len() == containing(ranges, r, ranges.len()).len(),
        forall|k: int|
            0 <= k < enclosing_chain(ranges, r).len() ==> is_containing(
                ranges,
                r,
                #[trigger] enclosing_chain(ranges, r)[k],
            ),
        forall|i: int|
            0 <= i < ranges.len() && contains(#[trigger] ranges[i], r) ==> is_listed(
                enclosing_chain(ranges, r),
                ranges[i],
            ),
{
    let at = containing(ranges, r, ranges.len());
    let inside = at.map_values(|i: nat| ranges[i as int]);
    let keys = inside.map_values(|n: NvtxRangeRow| outer_key(n));
    let ord = sort_order_of(keys);
    let chain = enclosing_chain(ranges, r);
    crate::order::sort_order_exists(keys);
    sort_order_covers(keys, ord);
    containing_in_range(ranges, r, ranges.len());
    assert forall|k: int| 0 <= k < chain.len() implies is_containing(
        ranges,
        r,
        #[trigger] chain[k],
    ) by {
        let x = ord[k];
        assert(0 <= x < keys.len());
        let i = at[x] as int;
        assert(at[x] < ranges.len() && contains(ranges[i], r));
        assert(is_view_of(chain[k], ranges[i]));
    }
    assert forall|i: int| 0 <= i < ranges.len() && contains(
        #[trigger] ranges[i],
        r,
    ) implies is_listed(chain, ranges[i]) by {
        containing_lists_all(ranges, r, ranges.len(), i);
        let x: int = choose|x: int| 0 <= x < at.len() && at[x] == i as nat;
        assert(ord.contains(x));
        let k: int = choose|k: int| 0 <= k < ord.len() && ord[k] == x;
        assert(is_view_of(chain[k], ranges[i]));
    }
}

/// The element of a chain stands for the range.
pub open spec fn is_view_of(e: EnclosingNvtxView, n: NvtxRangeRow) -> bool {
    e.nvtx_rowid == n.rowid && e.nvtx_name == n.name@
}

proof fn containing_lists_all(ranges: Seq<NvtxRangeRow>, r: RuntimeRow, n: nat, i: int)
    requires
        n <= ranges.len(),
        0 <= i < n,
        contains(ranges[i], r),
    ensures
        containing(ranges, r, n).contains(i as nat),
    decreases n,
{
    let all = containing(ranges, r, n);
    if i == n - 1 {
        assert(all[all.len() - 1] == i as nat);
    } else {
        containing_lists_all(ranges, r, (n - 1) as nat, i);
        let shorter = containing(ranges, r, (n - 1) as nat);
        let x: int = choose|x: int| 0 <= x < shorter.len() && shorter[x] == i as nat;
        assert(all[x] == i as nat);
    }
}

/// Chains are listed outermost first: an earlier range starts no later, of two
/// that start together the earlier one ends no earlier, and of two that also end
/// together it has the smaller row id.
pub proof fn chain_is_outermost_first(ranges: Seq<NvtxRangeRow>, r: RuntimeRow)
    ensures
        ({
            let inside = containing(ranges, r, ranges.len()).map_values(
                |i: nat| ranges[i as int],
            );
            let sorted = arranged(
                inside,
                sort_order_of(inside.map_values(|n: NvtxRangeRow| outer_key(n))),
            );
            &&& enclosing_chain(ranges, r).len() == sorted.len()
            &&& forall|k: int|
                0 <= k < sorted.len() ==> is_view_of(
                    #[trigger] enclosing_chain(ranges, r)[k],
                    sorted[k],
                )
            &&& forall|j: int, k: int|
                #![trigger sorted[j], sorted[k]]
                0 <= j < k < sorted.len() ==> sorted[j].start < sorted[k].start || (
                sorted[j].start == sorted[k].start && (sorted[j].end > sorted[k].end || (
                sorted[j].end == sorted[k].end && sorted[j].rowid <= sorted[k].rowid)))
        }),
{
    let inside = containing(ranges, r, ranges.len()).map_values(|i: nat| ranges[i as int]);
    let keys = inside.map_values(|n: NvtxRangeRow| outer_key(n));
    let ord = sort_order_of(keys);
    let sorted = arranged(inside, ord);
    crate::order::sort_order_exists(keys);
    assert forall|j: int, k: int|
        #![trigger sorted[j], sorted[k]]
        0 <= j < k < sorted.len() implies sorted[j].start < sorted[k].start || (sorted[j].start
        == sorted[k].start && (sorted[j].end > sorted[k].end || (sorted[j].end == sorted[k].end
        && sorted[j].rowid <= sorted[k].rowid))) by {
        assert(placed_before(keys, ord[j], ord[k]));
        let a = keys[ord[j]];
        let b = keys[ord[k]];
        lex_lt_triple(a, b);
        assert(a == outer_key(sorted[j]));
        assert(b == outer_key(sorted[k]));
        assert(a[0] == sorted[j].start && a[1] == -(sorted[j].end as int));
        assert(b[0] == sorted[k].start && b[1] == -(sorted[k].end as int));
        assert(a[2] == sorted[j].rowid && b[2] == sorted[k].rowid);
    }
}

proof fn walked_has_chains(by_tid: Map<i64, Vec<NvtxRangeRow>>, runtime: Seq<RuntimeRow>, n: nat)
    requires
        n <= runtime.len(),
    ensures
        forall|k: int|
            0 <= k < walked(by_tid, runtime, n).len() ==> (#[trigger] walked(
                by_tid,
                runtime,
                n,
            )[k]).enclosing.len() > 0,
    decreases n,
{
    if n > 0 {
        walked_has_chains(by_tid, runtime, (n - 1) as nat);
        let shorter = walked(by_tid, runtime, (n - 1) as nat);
        let longer = walked(by_tid, runtime, n);
        assert forall|k: int| 0 <= k < longer.len() implies (#[trigger] longer[k]).enclosing.len()
            > 0 by {
            if k < shorter.len() {
                assert(longer[k] == shorter[k]);
            }
        }
    }
}

/// No entry has an empty chain: a call outside every range is absent.
pub proof fn attributed_rows_have_chains(
    by_tid: Map<i64, Vec<NvtxRangeRow>>,
    runtime: Seq<RuntimeRow>,
)
    ensures
        forall|k: int|
            0 <= k < walked(by_tid, runtime, runtime.len()).len() ==> (#[trigger] walked(
                by_tid,
                runtime,
                runtime.len(),
            )[k]).enclosing.len() > 0,
{
    walked_has_chains(by_tid, runtime, runtime.len());
}

/// The ranges of a thread, by start.
pub open spec fn thread_listing(rows: Seq<NvtxThreadRow>, tid: i64) -> Seq<NvtxRangeRow> {
    by_start(thread_ranges(rows, tid, rows.len()))
}

/// The entries of those of the first `n` calls that lie within a range of their
/// thread.
pub open spec fn attributed(
    nvtx: Seq<NvtxThreadRow>,
    runtime: Seq<RuntimeRow>,
    n: nat,
) -> Seq<RuntimeParentEntryView>
    decreases n,
{
    if n == 0 {
        Seq::empty()
    } else {
        let before = attributed(nvtx, runtime, (n - 1) as nat);
        let r = runtime[n - 1];
        let chain = enclosing_chain(thread_listing(nvtx, r.global_tid), r);
        if chain.len() > 0 {
            before.push(
                RuntimeParentEntryView {
                    rt_rowid: r.rowid,
                    correlation_id: r.correlation_id,
                    native_pid: r.native_pid,
                    device_id: r.device_id,
                    context_id: r.context_id,
                    enclosing: chain,
                },
            )
        } else {
            before
        }
    }
}

/// The map holds the ranges of each thread, by start.
spec fn is_grouping(rows: Seq<NvtxThreadRow>, by_tid: Map<i64, Vec<NvtxRangeRow>>) -> bool {
    &&& forall|tid: i64|
        by_tid.contains_key(tid) <==> (#[trigger] thread_ranges(rows, tid, rows.len())).len() > 0
    &&& forall|tid: i64|
        by_tid.contains_key(tid) ==> (#[trigger] by_tid[tid])@ == thread_listing(rows, tid)
}

proof fn walked_is_attributed(
    nvtx: Seq<NvtxThreadRow>,
    by_tid: Map<i64, Vec<NvtxRangeRow>>,
    runtime: Seq<RuntimeRow>,
    n: nat,
)
    requires
        is_grouping(nvtx, by_tid),
    ensures
        walked(by_tid, runtime, n) == attributed(nvtx, runtime, n),
    decreases n,
{
    if n > 0 {
        walked_is_attributed(nvtx, by_tid, runtime, (n - 1) as nat);
        let tid = runtime[n - 1].global_tid;
        let ranges = thread_ranges(nvtx, tid, nvtx.len());
        assert(ranges_of(by_tid, tid) =~= thread_listing(nvtx, tid)) by {
            if ranges.len() == 0 {
                sort_order_exists(ranges.map_values(|n: NvtxRangeRow| seq![n.start as int]));
            }
        }
    }
}

/// The entries of the runtime calls, each on every `(device, context)` that it
/// reached.
///
/// Where nothing is known of the devices, `dev_ctx` is empty and the entries
/// keep what they have.
pub fn compute(
    nvtx: &Vec<NvtxThreadRow>,
    runtime: &Vec<RuntimeRow>,
    dev_ctx: &DevCtxMap,
) -> (entries: Vec<RuntimeParentEntry>)
    ensures
        ({
            let found = attributed(nvtx@, runtime@, runtime@.len());
            entry_views(entries@) == merged(found, dev_ctx@, found.len())
        }),
        exists|from: Seq<(int, int)>| attributes(entries@, nvtx@, runtime@, dev_ctx@, from),
{
    let by_tid = group_by_tid(nvtx);
    let found = walk(&by_tid, runtime.as_slice());
    proof {
        assert(is_grouping(nvtx@, by_tid@));
        walked_is_attributed(nvtx@, by_tid@, runtime@, runtime@.len());
        assert(entry_views(found@).len() == found@.len());
    }
    let entries = merge_dev_ctx(found, dev_ctx);
    proof {
        calls_are_attributed(nvtx@, runtime@, dev_ctx@, entries@);
    }
    entries
}

} // verus!
