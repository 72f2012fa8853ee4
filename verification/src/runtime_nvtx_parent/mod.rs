//! Per-trace NVTX-parent attribution index.
//!
//! For every runtime call on a host thread that sits inside one or more NVTX
//! ranges, this index records the full outermost-to-innermost list of
//! enclosing ranges. Runtime rows whose interval is not contained by any NVTX
//! range are simply absent.
use crate::keymap::TripleMap;
use crate::paths::{artifact, artifact_path};
use std::collections::HashMap;
use vstd::prelude::*;

pub mod compute;
pub mod gpu_activity;
pub mod parquet;

verus! {

/// Grows with every breaking change of the sidecar's columns; a sidecar of
/// another version is rebuilt.
pub const RUNTIME_NVTX_PARENT_VERSION: u32 = 1;

/// Path of the sidecar under `<trace>.veloq/`.
pub fn sidecar_path_for(trace_path: &str) -> (path: String)
    ensures
        path@ == artifact(trace_path@, "nvtx-parent.parquet"@),
{
    artifact_path(trace_path, "nvtx-parent.parquet")
}

/// One enclosing NVTX range on the path from outermost to innermost
/// for a given runtime row.
#[derive(Debug, Clone, PartialEq, Eq)]
pub struct EnclosingNvtx {
    pub nvtx_rowid: i64,
    pub nvtx_name: String,
}

/// What an [`EnclosingNvtx`] holds.
#[verifier::ext_equal]
pub struct EnclosingNvtxView {
    pub nvtx_rowid: i64,
    pub nvtx_name: Seq<char>,
}

impl View for EnclosingNvtx {
    type V = EnclosingNvtxView;

    open spec fn view(&self) -> EnclosingNvtxView {
        EnclosingNvtxView { nvtx_rowid: self.nvtx_rowid, nvtx_name: self.nvtx_name@ }
    }
}

/// The views of a chain of ranges.
pub open spec fn chain_view(chain: Seq<EnclosingNvtx>) -> Seq<EnclosingNvtxView> {
    chain.map_values(|e: EnclosingNvtx| e@)
}

/// One mapping in the index. `enclosing` is sorted outermost-first so
/// the innermost range is `.last()`. A non-attributed runtime row
/// never appears in the index.
///
/// `correlation_id` is `None` for runtime calls that don't emit GPU
/// work (e.g. `cudaGetDeviceCount`, `cudaDeviceCanAccessPeer`). Such
/// rows still attribute to NVTX ranges (containment is on
/// `globalTid`/start/end, not correlation), but they can't be the
/// target of a GPU-side reverse lookup.
///
/// `device_id` / `context_id` come from the corresponding GPU
/// activity (kernel/memcpy/memset/sync) whose `correlationId` matches
/// the runtime row's. Both are `None` when there is none.
#[derive(Debug, Clone, PartialEq, Eq)]
pub struct RuntimeParentEntry {
    pub rt_rowid: i64,
    pub correlation_id: Option<i64>,
    pub native_pid: i64,
    pub device_id: Option<i32>,
    pub context_id: Option<i64>,
    pub enclosing: Vec<EnclosingNvtx>,
}

/// What a [`RuntimeParentEntry`] holds.
#[verifier::ext_equal]
pub struct RuntimeParentEntryView {
    pub rt_rowid: i64,
    pub correlation_id: Option<i64>,
    pub native_pid: i64,
    pub device_id: Option<i32>,
    pub context_id: Option<i64>,
    pub enclosing: Seq<EnclosingNvtxView>,
}

impl View for RuntimeParentEntry {
    type V = RuntimeParentEntryView;

    open spec fn view(&self) -> RuntimeParentEntryView {
        RuntimeParentEntryView {
            rt_rowid: self.rt_rowid,
            correlation_id: self.correlation_id,
            native_pid: self.native_pid,
            device_id: self.device_id,
            context_id: self.context_id,
            enclosing: chain_view(self.enclosing@),
        }
    }
}

/// The views of a list of entries.
pub open spec fn entry_views(entries: Seq<RuntimeParentEntry>) -> Seq<RuntimeParentEntryView> {
    entries.map_values(|e: RuntimeParentEntry| e@)
}

impl EnclosingNvtx {
    /// A copy of the range.
    pub fn copied(&self) -> (copy: EnclosingNvtx)
        ensures
            copy == *self,
    {
        EnclosingNvtx { nvtx_rowid: self.nvtx_rowid, nvtx_name: self.nvtx_name.clone() }
    }
}

/// A copy of a chain.
fn copied_chain(chain: &Vec<EnclosingNvtx>) -> (copy: Vec<EnclosingNvtx>)
    ensures
        copy@ == chain@,
{
    let mut copy: Vec<EnclosingNvtx> = Vec::with_capacity(chain.len());
    let mut i: usize = 0;
    while i < chain.len()
        invariant
            i <= chain.len(),
            copy@ =~= chain@.subrange(0, i as int),
        decreases chain.len() - i,
    {
        copy.push(chain[i].copied());
        i = i + 1;
    }
    copy
}

impl RuntimeParentEntry {
    /// Innermost (deepest) enclosing range.
    pub fn innermost(&self) -> (range: Option<&EnclosingNvtx>)
        ensures
            match range {
                Some(r) => self.enclosing.len() > 0 && *r == self.enclosing@.last(),
                None => self.enclosing.len() == 0,
            },
    {
        if self.enclosing.len() == 0 {
            None
        } else {
            Some(&self.enclosing[self.enclosing.len() - 1])
        }
    }

    /// Does any enclosing range's name satisfy `pred`?
    pub fn any_enclosing_name<F: Fn(&str) -> bool>(&self, pred: F) -> (found: bool)
        requires
            forall|name: &str| #[trigger] call_requires(pred, (name,)),
        ensures
            found ==> exists|i: int|
                0 <= i < self.enclosing.len() && name_answers(pred, self.enclosing@[i], true),
            !found ==> forall|i: int|
                0 <= i < self.enclosing.len() ==> #[trigger] name_answers(
                    pred,
                    self.enclosing@[i],
                    false,
                ),
    {
        let mut i: usize = 0;
        while i < self.enclosing.len()
            invariant
                i <= self.enclosing.len(),
                forall|name: &str| #[trigger] call_requires(pred, (name,)),
                forall|x: int|
                    0 <= x < i ==> #[trigger] name_answers(pred, self.enclosing@[x], false),
            decreases self.enclosing.len() - i,
        {
            let name = self.enclosing[i].nvtx_name.as_str();
            let answer = pred(name);
            assert(name_answers(pred, self.enclosing@[i as int], answer)) by {
                assert(call_ensures(pred, (name,), answer));
            }
            if answer {
                return true;
            }
            i = i + 1;
        }
        false
    }

    /// A copy of the entry.
    pub fn copied(&self) -> (copy: RuntimeParentEntry)
        ensures
            copy@ == self@,
    {
        RuntimeParentEntry {
            rt_rowid: self.rt_rowid,
            correlation_id: self.correlation_id,
            native_pid: self.native_pid,
            device_id: self.device_id,
            context_id: self.context_id,
            enclosing: copied_chain(&self.enclosing),
        }
    }

    /// The entry with another `(device, context)`.
    pub fn on_device(&self, device_id: i32, context_id: i64) -> (entry: RuntimeParentEntry)
        ensures
            entry@ == (RuntimeParentEntryView {
                device_id: Some(device_id),
                context_id: Some(context_id),
                ..self@
            }),
    {
        RuntimeParentEntry {
            rt_rowid: self.rt_rowid,
            correlation_id: self.correlation_id,
            native_pid: self.native_pid,
            device_id: Some(device_id),
            context_id: Some(context_id),
            enclosing: copied_chain(&self.enclosing),
        }
    }
}

/// `pred` can answer `answer` for the name of the range.
pub open spec fn name_answers<F: Fn(&str) -> bool>(
    pred: F,
    range: EnclosingNvtx,
    answer: bool,
) -> bool {
    exists|name: &str|
        name@ == range.nvtx_name@ && #[trigger] call_ensures(pred, (name,), answer)
}

/// The last of the first `n` records of the runtime row.
pub open spec fn last_of_runtime(
    recs: Seq<RuntimeParentEntry>,
    rt_rowid: i64,
    n: nat,
) -> Option<nat>
    decreases n,
{
    if n == 0 {
        None
    } else if recs[n - 1].rt_rowid == rt_rowid {
        Some((n - 1) as nat)
    } else {
        last_of_runtime(recs, rt_rowid, (n - 1) as nat)
    }
}

/// The record is of the GPU work with this device, context and correlation.
pub open spec fn is_of(
    r: RuntimeParentEntry,
    device_id: i32,
    context_id: i64,
    correlation_id: i64,
) -> bool {
    r.device_id == Some(device_id) && r.context_id == Some(context_id) && r.correlation_id == Some(
        correlation_id,
    )
}

/// The last of the first `n` records of the GPU work.
pub open spec fn last_of_correlation(
    recs: Seq<RuntimeParentEntry>,
    device_id: i32,
    context_id: i64,
    correlation_id: i64,
    n: nat,
) -> Option<nat>
    decreases n,
{
    if n == 0 {
        None
    } else if is_of(recs[n - 1], device_id, context_id, correlation_id) {
        Some((n - 1) as nat)
    } else {
        last_of_correlation(recs, device_id, context_id, correlation_id, (n - 1) as nat)
    }
}

/// The runtime rows of the records.
pub open spec fn runtime_rows(recs: Seq<RuntimeParentEntry>) -> Set<i64> {
    recs.map_values(|r: RuntimeParentEntry| r.rt_rowid).to_set()
}

/// In-memory NVTX-parent attribution index for a trace.
///
/// Two lookup paths so callers don't pay for the wrong key:
/// - by runtime row, used when the caller has one (e.g. `inspect runtime:N`);
/// - by `(device_id, context_id, correlation_id)`, used when the caller has a
///   GPU-side row (kernel/memcpy/memset/sync), which brings all three.
pub struct RuntimeNvtxParent {
    records: Vec<RuntimeParentEntry>,
    by_rt_rowid: HashMap<i64, usize>,
    by_correlation: TripleMap<usize>,
}

impl View for RuntimeNvtxParent {
    type V = Seq<RuntimeParentEntry>;

    closed spec fn view(&self) -> Seq<RuntimeParentEntry> {
        self.records@
    }
}

proof fn last_of_runtime_in_range(recs: Seq<RuntimeParentEntry>, rt_rowid: i64, n: nat)
    ensures
        last_of_runtime(recs, rt_rowid, n) matches Some(i) ==> i < n && recs[i as int].rt_rowid
            == rt_rowid,
        last_of_runtime(recs, rt_rowid, n) is None ==> forall|x: int|
            0 <= x < n ==> (#[trigger] recs[x]).rt_rowid != rt_rowid,
    decreases n,
{
    if n > 0 && recs[n - 1].rt_rowid != rt_rowid {
        last_of_runtime_in_range(recs, rt_rowid, (n - 1) as nat);
    }
}

proof fn last_of_correlation_in_range(
    recs: Seq<RuntimeParentEntry>,
    device_id: i32,
    context_id: i64,
    correlation_id: i64,
    n: nat,
)
    ensures
        last_of_correlation(recs, device_id, context_id, correlation_id, n) matches Some(i) ==> i
            < n && is_of(recs[i as int], device_id, context_id, correlation_id),
    decreases n,
{
    if n > 0 && !is_of(recs[n - 1], device_id, context_id, correlation_id) {
        last_of_correlation_in_range(
            recs,
            device_id,
            context_id,
            correlation_id,
            (n - 1) as nat,
        );
    }
}

/// Every attributed runtime row is found by its row id, with or without a
/// correlation.
pub proof fn every_row_is_found(recs: Seq<RuntimeParentEntry>, i: int)
    requires
        0 <= i < recs.len(),
    ensures
        last_of_runtime(recs, recs[i].rt_rowid, recs.len()) matches Some(at) && at < recs.len()
            && recs[at as int].rt_rowid == recs[i].rt_rowid,
{
    last_of_runtime_in_range(recs, recs[i].rt_rowid, recs.len());
}

/// What is found from a GPU-side row is correlated and has the row's device,
/// context and correlation: an entry without a correlation leaves no trace
/// there.
pub proof fn only_correlated_rows_bridge(
    recs: Seq<RuntimeParentEntry>,
    device_id: i32,
    context_id: i64,
    correlation_id: i64,
)
    ensures
        last_of_correlation(recs, device_id, context_id, correlation_id, recs.len()) matches Some(
            i,
        ) ==> i < recs.len() && recs[i as int].correlation_id == Some(correlation_id)
            && recs[i as int].device_id == Some(device_id) && recs[i as int].context_id == Some(
            context_id,
        ),
{
    last_of_correlation_in_range(recs, device_id, context_id, correlation_id, recs.len());
}

/// The runtime index of the first `n` records.
spec fn indexes_runtime(recs: Seq<RuntimeParentEntry>, map: Map<i64, usize>, n: nat) -> bool {
    &&& forall|id: i64|
        map.contains_key(id) <==> (#[trigger] last_of_runtime(recs, id, n)) is Some
    &&& forall|id: i64|
        #![trigger map[id]]
        map.contains_key(id) ==> map[id] == last_of_runtime(recs, id, n)->0
}

/// The correlation index of the first `n` records.
spec fn indexes_correlation(
    recs: Seq<RuntimeParentEntry>,
    map: Map<(i64, i64, i64), usize>,
    n: nat,
) -> bool {
    &&& forall|d: i32, c: i64, r: i64|
        map.contains_key((c, r, d as i64)) <==> (#[trigger] last_of_correlation(recs, d, c, r, n))
            is Some
    &&& forall|d: i32, c: i64, r: i64|
        (#[trigger] last_of_correlation(recs, d, c, r, n)) matches Some(i) ==> map[(c, r, d as i64)]
            == i
}

impl RuntimeNvtxParent {
    #[verifier::type_invariant]
    spec fn indexed(&self) -> bool {
        &&& indexes_runtime(self.records@, self.by_rt_rowid@, self.records@.len())
        &&& indexes_correlation(self.records@, self.by_correlation@, self.records@.len())
    }

    pub fn empty() -> (index: Self)
        ensures
            index@ == Seq::<RuntimeParentEntry>::empty(),
    {
        Self::from_records(Vec::new())
    }

    /// Number of attributed runtime rows.
    pub fn len(&self) -> (n: usize)
        ensures
            n == runtime_rows(self@).len(),
    {
        broadcast use vstd::std_specs::hash::group_hash_axioms;

        proof {
            use_type_invariant(self);
            runtime_rows_are_keys(self.records@, self.by_rt_rowid@);
        }
        self.by_rt_rowid.len()
    }

    pub fn is_empty(&self) -> (b: bool)
        ensures
            b == (self@.len() == 0),
    {
        self.records.len() == 0
    }

    /// Parent chain of the runtime row at `rt_rowid`, if any.
    pub fn get_by_runtime(&self, rt_rowid: i64) -> (entry: Option<&RuntimeParentEntry>)
        ensures
            match last_of_runtime(self@, rt_rowid, self@.len()) {
                Some(i) => entry matches Some(e) && *e == self@[i as int],
                None => entry is None,
            },
    {
        broadcast use vstd::std_specs::hash::group_hash_axioms;

        proof {
            use_type_invariant(self);
            last_of_runtime_in_range(self.records@, rt_rowid, self.records@.len());
        }
        match self.by_rt_rowid.get(&rt_rowid) {
            Some(i) => Some(&self.records[*i]),
            None => None,
        }
    }

    /// Parent chain of any GPU-side event keyed by the disambiguating trio
    /// `(device_id, context_id, correlation_id)`: raw `correlationId` is only
    /// unique within `(device, context)`.
    pub fn get_by_correlation(
        &self,
        device_id: i32,
        context_id: i64,
        correlation_id: i64,
    ) -> (entry: Option<&RuntimeParentEntry>)
        ensures
            match last_of_correlation(
                self@,
                device_id,
                context_id,
                correlation_id,
                self@.len(),
            ) {
                Some(i) => entry matches Some(e) && *e == self@[i as int],
                None => entry is None,
            },
    {
        proof {
            use_type_invariant(self);
            last_of_correlation_in_range(
                self.records@,
                device_id,
                context_id,
                correlation_id,
                self.records@.len(),
            );
        }
        match self.by_correlation.get(context_id, correlation_id, device_id as i64) {
            Some(i) => Some(&self.records[*i]),
            None => None,
        }
    }

    /// The index over `records`.
    pub fn from_records(records: Vec<RuntimeParentEntry>) -> (index: Self)
        ensures
            index@ == records@,
    {
        broadcast use vstd::std_specs::hash::group_hash_axioms;

        let ghost recs = records@;
        let mut by_rt_rowid: HashMap<i64, usize> = HashMap::new();
        let mut by_correlation: TripleMap<usize> = TripleMap::new();
        let mut i: usize = 0;
        while i < records.len()
            invariant
                i <= records.len(),
                recs == records@,
                indexes_runtime(recs, by_rt_rowid@, i as nat),
                indexes_correlation(recs, by_correlation@, i as nat),
            decreases records.len() - i,
        {
            let r = &records[i];
            let ghost old_rt = by_rt_rowid@;
            let ghost old_corr = by_correlation@;
            by_rt_rowid.insert(r.rt_rowid, i);
            if let (Some(dev), Some(ctx), Some(corr)) = (
                r.device_id,
                r.context_id,
                r.correlation_id,
            ) {
                by_correlation.insert(ctx, corr, dev as i64, i);
            }
            proof {
                let n = (i + 1) as nat;
                assert forall|id: i64| by_rt_rowid@.contains_key(id) <==> (
                #[trigger] last_of_runtime(recs, id, n)) is Some by {
                    assert(old_rt.contains_key(id) <==> last_of_runtime(recs, id, i as nat)
                        is Some);
                }
                assert forall|id: i64| #![trigger by_rt_rowid@[id]] by_rt_rowid@.contains_key(
                    id,
                ) implies by_rt_rowid@[id] == last_of_runtime(recs, id, n)->0 by {
                    if id != recs[i as int].rt_rowid {
                        assert(old_rt[id] == last_of_runtime(recs, id, i as nat)->0);
                    }
                }
                assert forall|d: i32, c: i64, r: i64| by_correlation@.contains_key(
                    (c, r, d as i64),
                ) <==> (#[trigger] last_of_correlation(recs, d, c, r, n)) is Some by {
                    assert(old_corr.contains_key((c, r, d as i64)) <==> last_of_correlation(
                        recs,
                        d,
                        c,
                        r,
                        i as nat,
                    ) is Some);
                }
                assert forall|d: i32, c: i64, r: i64| (#[trigger] last_of_correlation(
                    recs,
                    d,
                    c,
                    r,
                    n,
                )) is Some implies by_correlation@[(c, r, d as i64)] == last_of_correlation(
                    recs,
                    d,
                    c,
                    r,
                    n,
                )->0 by {
                    let before = last_of_correlation(recs, d, c, r, i as nat);
                    if !is_of(recs[i as int], d, c, r) {
                        assert(before matches Some(b) ==> old_corr[(c, r, d as i64)] == b);
                    }
                }
            }
            i = i + 1;
        }
        RuntimeNvtxParent { records, by_rt_rowid, by_correlation }
    }
}

proof fn runtime_rows_are_keys(recs: Seq<RuntimeParentEntry>, map: Map<i64, usize>)
    requires
        indexes_runtime(recs, map, recs.len()),
    ensures
        map.dom() == runtime_rows(recs),
{
    let ids = recs.map_values(|r: RuntimeParentEntry| r.rt_rowid);
    assert forall|id: i64| map.dom().contains(id) <==> runtime_rows(recs).contains(id) by {
        last_of_runtime_in_range(recs, id, recs.len());
        assert(map.contains_key(id) <==> last_of_runtime(recs, id, recs.len()) is Some);
        if last_of_runtime(recs, id, recs.len()) is Some {
            let i = last_of_runtime(recs, id, recs.len())->0;
            assert(ids[i as int] == id);
        }
        if ids.to_set().contains(id) {
            let i: int = choose|i: int| 0 <= i < ids.len() && ids[i] == id;
            assert(recs[i].rt_rowid == id);
        }
    }
    assert(map.dom() =~= runtime_rows(recs));
}

} // verus!
