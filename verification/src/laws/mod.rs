//! What the operations do, told of their inputs and their results.
//!
//! The laws here speak of the rows that go into an operation and of the fields
//! of what comes out, for all inputs. Each takes the contract of an operation as
//! its premise and draws from it what a reader of the result relies on.
use vstd::prelude::*;

pub mod correlation;
pub mod cuda_identity;
pub mod export;
pub mod fingerprint;
pub mod gpu_activity;
pub mod gpu_work_events;
pub mod hardware;
pub mod nvtx;
pub mod runtime_nvtx_parent;
pub mod scope;
pub mod sidecar;
pub mod sql;
pub mod stored;
pub mod text;
pub mod trace;
pub mod trace_map;

verus! {

/// The places `(t, i)` of row `i` of list `t`, for the first `n` lists with these
/// many rows, list by list.
pub open spec fn cells(counts: Seq<nat>, n: nat) -> Seq<(int, int)>
    decreases n,
{
    if n == 0 {
        Seq::empty()
    } else {
        cells(counts, (n - 1) as nat) + Seq::new(counts[n - 1], |i: int| (n - 1, i))
    }
}

/// The place is one of the first `n` lists.
pub open spec fn is_cell(counts: Seq<nat>, n: nat, c: (int, int)) -> bool {
    0 <= c.0 < n && 0 <= c.1 < counts[c.0]
}

/// The places are those of the lists, each once, list by list.
pub proof fn cells_cover(counts: Seq<nat>, n: nat)
    requires
        n <= counts.len(),
    ensures
        forall|k: int| 0 <= k < cells(counts, n).len() ==> is_cell(counts, n, #[trigger] cells(counts, n)[k]),
        forall|c: (int, int)| is_cell(counts, n, c) ==> #[trigger] cells(counts, n).contains(c),
        cells(counts, n).no_duplicates(),
        forall|j: int, k: int| #![trigger cells(counts, n)[j], cells(counts, n)[k]]
            0 <= j < k < cells(counts, n).len() ==> {
                let a = cells(counts, n)[j];
                let b = cells(counts, n)[k];
                a.0 < b.0 || (a.0 == b.0 && a.1 < b.1)
            },
    decreases n,
{
    if n > 0 {
        cells_cover(counts, (n - 1) as nat);
        let less = cells(counts, (n - 1) as nat);
        let row = Seq::new(counts[n - 1], |i: int| (n - 1, i));
        let all = cells(counts, n);
        assert forall|k: int| 0 <= k < all.len() implies is_cell(counts, n, #[trigger] all[k]) by {
            if k < less.len() {
                assert(all[k] == less[k]);
            } else {
                assert(all[k] == row[k - less.len()]);
            }
        }
        assert forall|c: (int, int)| is_cell(counts, n, c) implies #[trigger] all.contains(c) by {
            if c.0 < n - 1 {
                assert(less.contains(c));
                let x: int = choose|x: int| 0 <= x < less.len() && less[x] == c;
                assert(all[x] == c);
            } else {
                assert(all[less.len() + c.1] == c);
            }
        }
        assert forall|j: int, k: int| #![trigger all[j], all[k]] 0 <= j < k < all.len() implies all[j].0
            < all[k].0 || (all[j].0 == all[k].0 && all[j].1 < all[k].1) by {
            if k < less.len() {
                assert(all[j] == less[j] && all[k] == less[k]);
            } else if j < less.len() {
                assert(all[j] == less[j] && all[k] == row[k - less.len()]);
                assert(is_cell(counts, (n - 1) as nat, less[j]));
            } else {
                assert(all[j] == row[j - less.len()] && all[k] == row[k - less.len()]);
            }
        }
        assert(all.no_duplicates());
    }
}

/// The numbers are places of `n` rows and grow.
pub open spec fn ascending(at: Seq<int>, n: nat) -> bool {
    &&& forall|k: int| 0 <= k < at.len() ==> 0 <= #[trigger] at[k] < n
    &&& forall|j: int, k: int| 0 <= j < k < at.len() ==> #[trigger] at[j] < #[trigger] at[k]
}

/// The numbers are those of `n` rows, each once, in any order.
pub open spec fn rearranges(at: Seq<int>, n: nat) -> bool {
    &&& at.len() == n
    &&& at.no_duplicates()
    &&& forall|k: int| 0 <= k < at.len() ==> 0 <= #[trigger] at[k] < n
    &&& forall|i: int| 0 <= i < n ==> #[trigger] at.contains(i)
}

/// The one text comes before the other: where they first differ it has the
/// smaller character, or it ends there.
pub open spec fn text_before(a: Seq<char>, b: Seq<char>) -> bool {
    exists|p: int| #[trigger] differ_first_at(a, b, p)
}

/// The texts agree up to `p`, and there the first one is less.
pub open spec fn differ_first_at(a: Seq<char>, b: Seq<char>, p: int) -> bool {
    &&& 0 <= p <= a.len()
    &&& p < b.len()
    &&& forall|i: int| 0 <= i < p ==> a[i] == b[i]
    &&& p < a.len() ==> (a[p] as int) < (b[p] as int)
}

} // verus!
