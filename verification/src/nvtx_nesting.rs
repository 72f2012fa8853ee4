//! Nesting depth and per-(tid, domain, name) iteration index for NVTX events.
//!
//! NSys's `NVTX_EVENTS` is a flat table: every NVTX range is one row,
//! with no hint that range B starts while range A is still open, and no
//! hint that two same-named ranges on one thread are repeats of an
//! outer loop's iterations. For callers asking "which iteration step
//! does this kernel belong to", both shapes matter:
//!
//! * `depth` is the range's nesting depth: 0 for outermost ranges, 1 for
//!   ranges inside a single depth-0 range, etc.
//! * `iter_index` is the 0-based ordinal of this range among
//!   same-`(global_tid, domain_id, name)` repeats, in start-time order.
use crate::nvtx_stack::{
    arrange_slots, arranged, lane_order, nesting_depth, place_slots, sorted_slots_are_laned,
    ScanSlot,
};
use crate::nvtx_tree::compute::{row_slots, sorted_slots, NvtxRow};
use crate::order::{
    char_codes, is_sort_order, keys_of, lex_lt_irreflexive, lex_lt_transitive, placed_before, positions, sort_order,
    sort_order_covers, SortKey, TextKey,
};
use crate::text::{str_chars, str_eq};
use std::collections::HashMap;
use vstd::prelude::*;

verus! {

broadcast use vstd::std_specs::hash::group_hash_axioms;

/// One NVTX row's derived attributes: nesting depth and iteration index
/// among same-named repeats.
#[derive(Debug, Clone, Copy)]
pub struct NvtxEntry {
    /// Stack-nesting depth: 0 = outermost. Instant markers
    /// (`end IS NULL`) get the active stack size at their `start_ns`
    /// but never push.
    pub depth: u8,
    /// 0-based ordinal among `(global_tid, domain_id, name)` repeats,
    /// in start-time order. `0` for the first occurrence.
    pub iter_index: u32,
}

/// Per-NVTX-row derived attributes, keyed by table `rowid`.
pub type NvtxNesting = HashMap<i64, NvtxEntry>;

/// The rows by lane and start.
pub open spec fn listed_rows(rows: Seq<NvtxRow>) -> Seq<NvtxRow> {
    arranged(rows, lane_order(row_slots(rows)))
}

/// Both rows have the same lane and name.
pub open spec fn repeats(a: NvtxRow, b: NvtxRow) -> bool {
    a.global_tid == b.global_tid && a.domain_id == b.domain_id && a.name@ == b.name@
}

/// The rows before `k` that row `k` repeats.
pub open spec fn earlier_repeats(listed: Seq<NvtxRow>, k: int) -> Set<int> {
    Set::new(|j: int| 0 <= j < k && repeats(listed[j], listed[k]))
}

/// What is derived for the row at `k` of the listing.
pub open spec fn entry_at(rows: Seq<NvtxRow>, k: int) -> NvtxEntry {
    let depth = nesting_depth(sorted_slots(rows), k);
    let before = earlier_repeats(listed_rows(rows), k).len();
    NvtxEntry {
        depth: if depth <= u8::MAX {
            depth as u8
        } else {
            u8::MAX
        },
        iter_index: if before <= u32::MAX {
            before as u32
        } else {
            u32::MAX
        },
    }
}

/// The last of the first `n` listed rows with the row id.
pub open spec fn last_listed(listed: Seq<NvtxRow>, rowid: i64, n: nat) -> Option<nat>
    decreases n,
{
    if n == 0 {
        None
    } else if listed[n - 1].rowid == rowid {
        Some((n - 1) as nat)
    } else {
        last_listed(listed, rowid, (n - 1) as nat)
    }
}

/// What orders rows by lane and name.
spec fn repeat_key(r: NvtxRow) -> Seq<int> {
    seq![r.global_tid as int, r.domain_id as int] + char_codes(r.name@)
}

proof fn repeat_keys_agree(a: NvtxRow, b: NvtxRow)
    ensures
        repeat_key(a) == repeat_key(b) <==> repeats(a, b),
{
    let x = repeat_key(a);
    let y = repeat_key(b);
    if x == y {
        assert(x[0] == y[0] && x[1] == y[1]);
        assert(x.len() == y.len());
        assert(a.name@ =~= b.name@) by {
            assert(a.name@.len() == b.name@.len());
            assert forall|i: int| 0 <= i < a.name@.len() implies a.name@[i] == b.name@[i] by {
                assert(x[i + 2] == a.name@[i] as int);
                assert(y[i + 2] == b.name@[i] as int);
            }
        }
    }
}

/// In the listing `q` by lane, name and place, the run that starts at `from`
/// and reaches past `x` lists exactly the earlier repeats of the row at `x`.
proof fn run_counts_repeats(
    listed: Seq<NvtxRow>,
    keys: Seq<Seq<int>>,
    q: Seq<int>,
    from: int,
    x: int,
)
    requires
        is_sort_order(keys, q),
        keys.len() == listed.len(),
        forall|i: int| 0 <= i < listed.len() ==> #[trigger] keys[i] == repeat_key(listed[i]),
        0 <= from <= x < q.len(),
        forall|y: int|
            from <= y <= x ==> repeats(listed[#[trigger] q[y]], listed[q[x]]),
        from > 0 ==> !repeats(listed[q[from - 1]], listed[q[from]]),
    ensures
        earlier_repeats(listed, q[x]).len() == x - from,
{
    sort_order_covers(keys, q);
    let run = q.subrange(from, x);
    let set = earlier_repeats(listed, q[x]);
    let k = q[x];
    assert(0 <= k < listed.len());
    assert forall|v: int| run.to_set().contains(v) <==> set.contains(v) by {
        if run.contains(v) {
            let y: int = choose|y: int| 0 <= y < run.len() && run[y] == v;
            assert(q[from + y] == v);
            assert(placed_before(keys, q[from + y], q[x]));
            repeat_keys_agree(listed[v], listed[k]);
            assert(0 <= v < listed.len());
            lex_lt_irreflexive(keys[v]);
        }
        if set.contains(v) {
            assert(0 <= v < k && repeats(listed[v], listed[k]));
            assert(q.contains(v));
            let z: int = choose|z: int| 0 <= z < q.len() && q[z] == v;
            repeat_keys_agree(listed[v], listed[k]);
            lex_lt_irreflexive(keys[k]);
            if z > x {
                assert(placed_before(keys, q[x], q[z]));
            }
            assert(z != x);
            if z < from {
                let b = q[from - 1];
                let c = q[from];
                assert(0 <= b < listed.len() && 0 <= c < listed.len());
                repeat_keys_agree(listed[b], listed[c]);
                repeat_keys_agree(listed[c], listed[k]);
                assert(repeats(listed[q[from]], listed[q[x]]));
                assert(placed_before(keys, b, c));
                assert(keys[b] != keys[c] && keys[v] == keys[c]);
                if z < from - 1 {
                    assert(placed_before(keys, q[z], b));
                    lex_lt_transitive(keys[b], keys[c], keys[b]);
                    lex_lt_irreflexive(keys[b]);
                }
                assert(false);
            }
            assert(run[z - from] == v);
        }
    }
    assert(run.to_set() =~= set);
    assert(run.no_duplicates());
    run.unique_seq_to_set();
}

/// 0-based ordinals among same-named repeats of a lane, by place in the
/// listing.
fn iteration_indices(listed: &Vec<NvtxRow>) -> (indices: Vec<u32>)
    ensures
        indices.len() == listed.len(),
        forall|k: int|
            0 <= k < listed.len() ==> (#[trigger] indices@[k]) == {
                let before = earlier_repeats(listed@, k).len();
                if before <= u32::MAX {
                    before as u32
                } else {
                    u32::MAX
                }
            },
{
    let mut keys: Vec<TextKey> = Vec::with_capacity(listed.len());
    let mut indices: Vec<u32> = Vec::with_capacity(listed.len());
    let mut i: usize = 0;
    while i < listed.len()
        invariant
            i <= listed.len(),
            keys.len() == i,
            indices.len() == i,
            forall|x: int| 0 <= x < i ==> (#[trigger] keys[x]).sort_key() == repeat_key(listed@[x]),
        decreases listed.len() - i,
    {
        let r = &listed[i];
        keys.push(
            TextKey {
                first: r.global_tid,
                second: r.domain_id,
                text: str_chars(r.name.as_str()),
            },
        );
        indices.push(0);
        i = i + 1;
    }
    let order = sort_order(keys.as_slice());
    let ghost q = positions(order@);
    let ghost ks = keys_of(keys@);
    proof {
        sort_order_covers(ks, q);
        assert forall|i: int| 0 <= i < listed.len() implies #[trigger] ks[i] == repeat_key(
            listed@[i],
        ) by {
            assert(keys@[i].sort_key() == repeat_key(listed@[i]));
        }
    }
    let mut from: usize = 0;
    let mut x: usize = 0;
    while x < order.len()
        invariant
            from <= x <= order.len(),
            order.len() == listed.len(),
            indices.len() == listed.len(),
            q == positions(order@),
            is_sort_order(ks, q),
            q.no_duplicates(),
            ks.len() == listed.len(),
            forall|i: int|
                0 <= i < listed.len() ==> #[trigger] ks[i] == repeat_key(listed@[i]),
            x > 0 ==> from < x,
            x > 0 ==> forall|y: int|
                from <= y < x ==> repeats(listed@[#[trigger] q[y]], listed@[q[x - 1]]),
            from > 0 ==> !repeats(listed@[q[from - 1]], listed@[q[from as int]]),
            forall|y: int|
                0 <= y < x ==> indices@[#[trigger] q[y]] == {
                    let before = earlier_repeats(listed@, q[y]).len();
                    if before <= u32::MAX {
                        before as u32
                    } else {
                        u32::MAX
                    }
                },
        decreases order.len() - x,
    {
        assert(0 <= q[x as int] < ks.len());
        let at: usize = order[x];
        if x > 0 {
            assert(0 <= q[x - 1] < ks.len());
            let a = &listed[order[x - 1]];
            let b = &listed[at];
            let same: bool = a.global_tid == b.global_tid && a.domain_id == b.domain_id && str_eq(
                a.name.as_str(),
                b.name.as_str(),
            );
            if !same {
                from = x;
            }
        }
        proof {
            assert forall|y: int| from <= y <= x implies repeats(
                listed@[#[trigger] q[y]],
                listed@[q[x as int]],
            ) by {
                if y < x {
                    assert(repeats(listed@[q[y]], listed@[q[x - 1]]));
                }
            }
            run_counts_repeats(listed@, ks, q, from as int, x as int);
        }
        let count: usize = x - from;
        let index: u32 = if count <= 0xffff_ffff {
            count as u32
        } else {
            u32::MAX
        };
        let ghost before = indices@;
        indices.set(at, index);
        proof {
            assert forall|y: int| 0 <= y < x implies indices@[#[trigger] q[y]] == before[q[y]] by {
                assert(q[y] != q[x as int]);
            }
        }
        x = x + 1;
    }
    proof {
        assert forall|k: int| 0 <= k < listed.len() implies (#[trigger] indices@[k]) == {
            let before = earlier_repeats(listed@, k).len();
            if before <= u32::MAX {
                before as u32
            } else {
                u32::MAX
            }
        } by {
            assert(q.contains(k));
            let y: int = choose|y: int| 0 <= y < q.len() && q[y] == k;
            assert(indices@[q[y]] == indices@[k]);
        }
    }
    indices
}

/// Computes the per-rowid nesting and iteration index of `rows`.
pub fn compute_from_rows(rows: Vec<NvtxRow>) -> (entries: NvtxNesting)
    ensures
        ({
            let listed = listed_rows(rows@);
            &&& forall|id: i64|
                entries@.contains_key(id) <==> (#[trigger] last_listed(listed, id, listed.len()))
                    is Some
            &&& forall|id: i64|
                entries@.contains_key(id) ==> (#[trigger] entries@[id]) == entry_at(
                    rows@,
                    last_listed(listed, id, listed.len())->0 as int,
                )
        }),
{
    let mut slots: Vec<ScanSlot> = Vec::with_capacity(rows.len());
    let mut i: usize = 0;
    while i < rows.len()
        invariant
            i <= rows.len(),
            slots@ =~= row_slots(rows@).subrange(0, i as int),
        decreases rows.len() - i,
    {
        let r = &rows[i];
        slots.push(
            ScanSlot {
                global_tid: r.global_tid,
                domain_id: r.domain_id,
                start: r.start,
                end: r.end,
                rowid: r.rowid,
            },
        );
        i = i + 1;
    }
    assert(slots@ =~= row_slots(rows@));
    let order = sort_order(slots.as_slice());
    let sorted = arrange_slots(&slots, &order);
    proof {
        sorted_slots_are_laned(slots@);
    }
    let placements = place_slots(&sorted);
    let ghost listed_seq = listed_rows(rows@);
    let mut listed: Vec<NvtxRow> = Vec::with_capacity(rows.len());
    let mut k: usize = 0;
    while k < order.len()
        invariant
            k <= order.len(),
            order.len() == rows.len(),
            slots.len() == rows.len(),
            positions(order@) == lane_order(row_slots(rows@)),
            listed_seq == listed_rows(rows@),
            is_sort_order(keys_of(slots@), positions(order@)),
            listed@ =~= listed_seq.subrange(0, k as int),
        decreases order.len() - k,
    {
        assert(0 <= positions(order@)[k as int] < keys_of(slots@).len());
        let r = &rows[order[k]];
        listed.push(
            NvtxRow {
                rowid: r.rowid,
                start: r.start,
                end: r.end,
                global_tid: r.global_tid,
                domain_id: r.domain_id,
                name: r.name.clone(),
            },
        );
        assert(listed@.last() == listed_seq[k as int]);
        k = k + 1;
    }
    assert(listed@ =~= listed_seq);
    let indices = iteration_indices(&listed);
    let mut entries: NvtxNesting = HashMap::new();
    let mut k: usize = 0;
    while k < listed.len()
        invariant
            k <= listed.len(),
            listed@ == listed_seq,
            listed_seq == listed_rows(rows@),
            sorted@ == sorted_slots(rows@),
            listed.len() == sorted.len(),
            placements.len() == sorted.len(),
            indices.len() == listed.len(),
            forall|x: int|
                0 <= x < sorted.len() ==> (#[trigger] placements@[x]).depth == nesting_depth(
                    sorted@,
                    x,
                ),
            forall|x: int|
                0 <= x < listed.len() ==> (#[trigger] indices@[x]) == entry_at(rows@, x).iter_index,
            forall|id: i64|
                entries@.contains_key(id) <==> (#[trigger] last_listed(listed_seq, id, k as nat))
                    is Some,
            forall|id: i64|
                entries@.contains_key(id) ==> (#[trigger] entries@[id]) == entry_at(
                    rows@,
                    last_listed(listed_seq, id, k as nat)->0 as int,
                ),
        decreases listed.len() - k,
    {
        let depth: u8 = if placements[k].depth <= 255 {
            placements[k].depth as u8
        } else {
            u8::MAX
        };
        let entry = NvtxEntry { depth, iter_index: indices[k] };
        assert(placements@[k as int].depth == nesting_depth(sorted@, k as int));
        assert(entry == entry_at(rows@, k as int));
        let ghost old_entries = entries@;
        entries.insert(listed[k].rowid, entry);
        k = k + 1;
        proof {
            assert forall|id: i64| entries@.contains_key(id) <==> (#[trigger] last_listed(
                listed_seq,
                id,
                k as nat,
            )) is Some by {
                assert(old_entries.contains_key(id) <==> last_listed(
                    listed_seq,
                    id,
                    (k - 1) as nat,
                ) is Some);
            }
            assert forall|id: i64| entries@.contains_key(id) implies (#[trigger] entries@[id])
                == entry_at(rows@, last_listed(listed_seq, id, k as nat)->0 as int) by {
                if id != listed_seq[k - 1].rowid {
                    assert(old_entries[id] == entry_at(
                        rows@,
                        last_listed(listed_seq, id, (k - 1) as nat)->0 as int,
                    ));
                }
            }
        }
    }
    entries
}

proof fn repeats_are_finite(listed: Seq<NvtxRow>, k: int)
    ensures
        earlier_repeats(listed, k).finite(),
{
    let range = vstd::set_lib::set_int_range(0, k);
    vstd::set_lib::lemma_int_range(0, if k >= 0 {
        k
    } else {
        0
    });
    if k >= 0 {
        assert(earlier_repeats(listed, k).subset_of(range));
        vstd::set_lib::lemma_len_subset(earlier_repeats(listed, k), range);
    } else {
        assert(earlier_repeats(listed, k) =~= Set::empty());
    }
}

/// Repeats of a name on one lane count up in the order of their starts.
pub proof fn repeats_count_up(rows: Seq<NvtxRow>, j: int, k: int)
    requires
        0 <= j < k < listed_rows(rows).len(),
        repeats(listed_rows(rows)[j], listed_rows(rows)[k]),
        earlier_repeats(listed_rows(rows), k).len() <= u32::MAX,
    ensures
        entry_at(rows, j).iter_index < entry_at(rows, k).iter_index,
{
    let listed = listed_rows(rows);
    let a = earlier_repeats(listed, j);
    let b = earlier_repeats(listed, k);
    repeats_are_finite(listed, j);
    repeats_are_finite(listed, k);
    assert(a.insert(j).subset_of(b));
    vstd::set_lib::lemma_len_subset(a.insert(j), b);
    assert(a.insert(j).len() == a.len() + 1);
}

/// The first range of its name on a lane has index 0.
pub proof fn first_of_its_name_is_zero(rows: Seq<NvtxRow>, k: int)
    requires
        0 <= k < listed_rows(rows).len(),
        forall|j: int|
            0 <= j < k ==> !repeats(#[trigger] listed_rows(rows)[j], listed_rows(rows)[k]),
    ensures
        entry_at(rows, k).iter_index == 0,
{
    let listed = listed_rows(rows);
    assert(earlier_repeats(listed, k) =~= Set::empty());
}

} // verus!
