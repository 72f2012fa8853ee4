//! Correlation index: `correlation_id` to kernels, memcpys and runtime calls.
//!
//! NSys's `correlationId` is **not globally unique**: different processes
//! can reuse the same value. To disambiguate, the correlation id is packed
//! together with `(device_id, context_id)` into a *synthetic correlation
//! id*, and the index is keyed on that.
//!
//! For runtime API events (`CUPTI_ACTIVITY_KIND_RUNTIME`) the source row
//! has `globalTid` but not `(device_id, context_id)`.
//! `TARGET_INFO_CUDA_CONTEXT_INFO` closes that gap with its
//! `(device_id, context_id)` to `processId` mapping; the runtime row's
//! native PID is in its `globalTid`.
use crate::cuda_identity::native_pid;
use crate::laws::correlation::{is_built, is_lookup};
use crate::text::{hex16_text, hex_digits};
use std::borrow::Cow;
use std::collections::HashMap;
use crate::paths::{artifact, artifact_path};
use vstd::prelude::*;
use vstd::string::StringExecFns;

verus! {

broadcast use vstd::std_specs::hash::group_hash_axioms;

/// Version of the cached index.
pub const CACHE_VERSION: u32 = 4;

/// Path of the cache under `<trace>.veloq/`.
pub fn path_for(trace_path: &str) -> (path: String)
    ensures
        path@ == artifact(trace_path@, "correlation.bin"@),
{
    artifact_path(trace_path, "correlation.bin")
}

/// Group of correlated table row ids for one synthetic correlation id.
#[derive(Debug, Clone)]
pub struct CorrelatedRowIds {
    pub kernel: Vec<i64>,
    pub memcpy: Vec<i64>,
    pub memset: Vec<i64>,
    pub runtime: Vec<i64>,
    pub sync: Vec<i64>,
    pub graph: Vec<i64>,
}

/// What a [`CorrelatedRowIds`] holds.
#[verifier::ext_equal]
pub struct RowIdsView {
    pub kernel: Seq<i64>,
    pub memcpy: Seq<i64>,
    pub memset: Seq<i64>,
    pub runtime: Seq<i64>,
    pub sync: Seq<i64>,
    pub graph: Seq<i64>,
}

impl View for CorrelatedRowIds {
    type V = RowIdsView;

    open spec fn view(&self) -> RowIdsView {
        RowIdsView {
            kernel: self.kernel@,
            memcpy: self.memcpy@,
            memset: self.memset@,
            runtime: self.runtime@,
            sync: self.sync@,
            graph: self.graph@,
        }
    }
}

/// No rows.
pub open spec fn no_rows() -> RowIdsView {
    RowIdsView {
        kernel: Seq::empty(),
        memcpy: Seq::empty(),
        memset: Seq::empty(),
        runtime: Seq::empty(),
        sync: Seq::empty(),
        graph: Seq::empty(),
    }
}

impl RowIdsView {
    /// The rows of one kind.
    pub open spec fn of(self, kind: ItemKind) -> Seq<i64> {
        match kind {
            ItemKind::Kernel => self.kernel,
            ItemKind::Memcpy => self.memcpy,
            ItemKind::Memset => self.memset,
            ItemKind::Runtime => self.runtime,
            ItemKind::Sync => self.sync,
            ItemKind::Graph => self.graph,
        }
    }

    /// The rows with one more of a kind.
    pub open spec fn with(self, kind: ItemKind, rowid: i64) -> RowIdsView {
        match kind {
            ItemKind::Kernel => RowIdsView { kernel: self.kernel.push(rowid), ..self },
            ItemKind::Memcpy => RowIdsView { memcpy: self.memcpy.push(rowid), ..self },
            ItemKind::Memset => RowIdsView { memset: self.memset.push(rowid), ..self },
            ItemKind::Runtime => RowIdsView { runtime: self.runtime.push(rowid), ..self },
            ItemKind::Sync => RowIdsView { sync: self.sync.push(rowid), ..self },
            ItemKind::Graph => RowIdsView { graph: self.graph.push(rowid), ..self },
        }
    }

    /// The rows followed by those of another group, kind by kind.
    pub open spec fn followed_by(self, other: RowIdsView) -> RowIdsView {
        RowIdsView {
            kernel: self.kernel + other.kernel,
            memcpy: self.memcpy + other.memcpy,
            memset: self.memset + other.memset,
            runtime: self.runtime + other.runtime,
            sync: self.sync + other.sync,
            graph: self.graph + other.graph,
        }
    }
}

impl Default for CorrelatedRowIds {
    fn default() -> (rows: Self)
        ensures
            rows@ == no_rows(),
    {
        let rows = CorrelatedRowIds {
            kernel: Vec::new(),
            memcpy: Vec::new(),
            memset: Vec::new(),
            runtime: Vec::new(),
            sync: Vec::new(),
            graph: Vec::new(),
        };
        assert(rows@ =~= no_rows());
        rows
    }
}

/// Appends a copy of `more`.
fn extend_rows(list: &mut Vec<i64>, more: &Vec<i64>)
    ensures
        final(list)@ == old(list)@ + more@,
{
    let mut i: usize = 0;
    while i < more.len()
        invariant
            i <= more.len(),
            list@ =~= old(list)@ + more@.subrange(0, i as int),
        decreases more.len() - i,
    {
        list.push(more[i]);
        i = i + 1;
    }
}

impl CorrelatedRowIds {
    pub fn is_empty(&self) -> (b: bool)
        ensures
            b == (self@ == no_rows()),
    {
        let b: bool = self.kernel.len() == 0 && self.memcpy.len() == 0 && self.memset.len() == 0
            && self.runtime.len() == 0 && self.sync.len() == 0 && self.graph.len() == 0;
        proof {
            if b {
                assert(self@ =~= no_rows());
            }
        }
        b
    }

    /// Adds a row.
    fn add_row(&mut self, kind: ItemKind, rowid: i64)
        ensures
            final(self)@ == old(self)@.with(kind, rowid),
    {
        match kind {
            ItemKind::Kernel => self.kernel.push(rowid),
            ItemKind::Memcpy => self.memcpy.push(rowid),
            ItemKind::Memset => self.memset.push(rowid),
            ItemKind::Runtime => self.runtime.push(rowid),
            ItemKind::Sync => self.sync.push(rowid),
            ItemKind::Graph => self.graph.push(rowid),
        }
        assert(self@ =~= old(self)@.with(kind, rowid));
    }

    /// Appends the rows of another group.
    fn append_rows(&mut self, other: &CorrelatedRowIds)
        ensures
            final(self)@ == old(self)@.followed_by(other@),
    {
        extend_rows(&mut self.kernel, &other.kernel);
        extend_rows(&mut self.memcpy, &other.memcpy);
        extend_rows(&mut self.memset, &other.memset);
        extend_rows(&mut self.runtime, &other.runtime);
        extend_rows(&mut self.sync, &other.sync);
        extend_rows(&mut self.graph, &other.graph);
        assert(self@ =~= old(self)@.followed_by(other@));
    }
}

/// The kinds of correlated rows.
#[derive(Debug, Clone, Copy, PartialEq, Eq, Structural)]
pub enum ItemKind {
    Kernel,
    Memcpy,
    Memset,
    Runtime,
    Sync,
    Graph,
}

/// One row under a synthetic id.
#[derive(Debug, Clone, Copy)]
pub struct CorrelationItem {
    pub syn_id: u64,
    pub rowid: i64,
    pub kind: ItemKind,
}

/// Packed `(device, context, raw_correlation_id)` triple in a single
/// u64. Layout: `| device(8) | context(16) | raw(40) |`.
///
/// Newtype rather than raw u64 so callers can't accidentally feed a
/// bare correlation_id where a synthetic id is wanted.
#[derive(Debug, Clone, Copy, PartialEq, Eq, Structural, Hash)]
pub struct SyntheticId(u64);

/// The packed triple: 8 bits of device, 16 of context, 40 of correlation.
pub open spec fn packed(device: u64, context: u64, raw_corr: u64) -> u64 {
    ((device % 0x100) * 0x100_0000_0000_0000 + (context % 0x1_0000) * 0x100_0000_0000 + raw_corr
        % 0x100_0000_0000) as u64
}

impl View for SyntheticId {
    type V = u64;

    closed spec fn view(&self) -> u64 {
        self.0
    }
}

impl Default for SyntheticId {
    fn default() -> (id: Self)
        ensures
            id@ == 0,
    {
        SyntheticId(0)
    }
}

impl SyntheticId {
    /// Pack a `(device, context, raw_corr)` triple into the canonical
    /// layout. The bit-fields are masked at their assigned widths, so
    /// out-of-range device/context bits silently drop.
    #[inline]
    pub fn pack(device: u64, context: u64, raw_corr: u64) -> (id: Self)
        ensures
            id@ == packed(device, context, raw_corr),
    {
        let id: u64 = ((device & 0xFF) << 56) | ((context & 0xFFFF) << 40) | (raw_corr
            & 0xFF_FFFF_FFFF);
        proof {
            let d: u64 = (device % 0x100) as u64;
            let c: u64 = (context % 0x1_0000) as u64;
            let r: u64 = (raw_corr % 0x100_0000_0000) as u64;
            assert(device & 0xFF == device % 0x100) by (bit_vector);
            assert(context & 0xFFFF == context % 0x1_0000) by (bit_vector);
            assert(raw_corr & 0xFF_FFFF_FFFF == raw_corr % 0x100_0000_0000) by (bit_vector);
            assert((d << 56) | (c << 40) | r == d * 0x100_0000_0000_0000 + c * 0x100_0000_0000
                + r) by (bit_vector)
                requires
                    d < 0x100,
                    c < 0x1_0000,
                    r < 0x100_0000_0000,
            ;
        }
        SyntheticId(id)
    }

    /// The raw u64 representation, the key inside [`CorrelationIndex`].
    #[inline]
    pub fn raw(self) -> (raw: u64)
        ensures
            raw == self@,
    {
        self.0
    }

    /// Hex representation with leading `0x` and zero-padded to the
    /// full 16-digit width, so output stays column-aligned.
    pub fn to_hex(&self) -> (text: String)
        ensures
            text@ == "0x"@ + hex_digits(self@ as nat, 16),
    {
        let mut text = "0x".to_owned();
        text.append(hex16_text(self.0).as_str());
        text
    }
}

/// The key of a `(device, context, raw_corr)` triple.
#[inline]
pub fn synthetic_id(device: u64, context: u64, raw_corr: u64) -> (id: u64)
    ensures
        id == packed(device, context, raw_corr),
{
    SyntheticId::pack(device, context, raw_corr).raw()
}

/// Triples within the field widths have different synthetic ids.
pub proof fn packed_is_injective(d1: u64, c1: u64, r1: u64, d2: u64, c2: u64, r2: u64)
    requires
        d1 < 0x100,
        c1 < 0x1_0000,
        r1 < 0x100_0000_0000,
        d2 < 0x100,
        c2 < 0x1_0000,
        r2 < 0x100_0000_0000,
        packed(d1, c1, r1) == packed(d2, c2, r2),
    ensures
        d1 == d2,
        c1 == c2,
        r1 == r2,
{
    assert(d1 % 0x100 == d1 && c1 % 0x1_0000 == c1 && r1 % 0x100_0000_0000 == r1);
    assert(d2 % 0x100 == d2 && c2 % 0x1_0000 == c2 && r2 % 0x100_0000_0000 == r2);
}

/// Two triples have the same synthetic id exactly where they agree within the
/// field widths.
pub proof fn packed_tells_fields_apart(d1: u64, c1: u64, r1: u64, d2: u64, c2: u64, r2: u64)
    ensures
        packed(d1, c1, r1) == packed(d2, c2, r2) <==> d1 % 0x100 == d2 % 0x100 && c1 % 0x1_0000
            == c2 % 0x1_0000 && r1 % 0x100_0000_0000 == r2 % 0x100_0000_0000,
{
}

/// Extract native PID from NSys `globalTid`. The bit layout reserves
/// bits 16-23 for a "source domain" byte that's not part of the PID, so
/// the shift is by 24, not 16.
#[inline]
pub fn native_pid_from_global_tid(global_tid: i64) -> (pid: u64)
    ensures
        pid == native_pid(global_tid) as u64,
        pid <= 0xFF_FFFF,
{
    assert(0 <= ((global_tid >> 24) & 0xFF_FFFF) <= 0xFF_FFFF) by (bit_vector);
    ((global_tid >> 24) & 0xFF_FFFF) as u64
}

/// `correlation_id`-keyed index of CPU and GPU related events.
///
/// Lookups against the index are O(1) on the synthetic id.
#[derive(Debug, Clone)]
pub struct CorrelationIndex {
    /// `(device_id, context_id)`, packed by [`context_key`], to process_id,
    /// from `TARGET_INFO_CUDA_CONTEXT_INFO`.
    pub context_to_process: HashMap<u128, u64>,
    /// process_id to all (device_id, context_id) pairs that process owns.
    /// Multi-GPU runs (or any process with secondary contexts) put more
    /// than one entry here; runtime API rows must consider every candidate
    /// because the row itself doesn't carry (device, context).
    pub process_to_contexts: HashMap<u64, Vec<(u64, u64)>>,
    /// synthetic_id to all events with that correlation.
    pub groups: HashMap<u64, CorrelatedRowIds>,
}

/// `(device_id, context_id)` in one integer.
pub open spec fn context_key_of(device: u64, context: u64) -> u128 {
    (device * 0x1_0000_0000_0000_0000 + context) as u128
}

/// `(device_id, context_id)` in one integer.
pub fn context_key(device: u64, context: u64) -> (key: u128)
    ensures
        key == context_key_of(device, context),
{
    (device as u128) * 0x1_0000_0000_0000_0000 + context as u128
}

/// Sizes of an index.
#[derive(Debug, Clone, Copy)]
pub struct CorrelationIndexStats {
    pub contexts: usize,
    pub processes: usize,
    pub unique_groups: usize,
    pub kernel_rows: usize,
    pub memcpy_rows: usize,
    pub memset_rows: usize,
    pub runtime_rows: usize,
    pub sync_rows: usize,
    pub graph_rows: usize,
}

/// The views of the groups.
pub open spec fn group_views(groups: Map<u64, CorrelatedRowIds>) -> Map<u64, RowIdsView> {
    groups.map_values(|g: CorrelatedRowIds| g@)
}

/// The group under a key; empty where there is none.
pub open spec fn group_at(groups: Map<u64, RowIdsView>, id: u64) -> RowIdsView {
    if groups.contains_key(id) {
        groups[id]
    } else {
        no_rows()
    }
}

/// The groups with one more item.
pub open spec fn with_item(groups: Map<u64, RowIdsView>, item: CorrelationItem) -> Map<
    u64,
    RowIdsView,
> {
    groups.insert(item.syn_id, group_at(groups, item.syn_id).with(item.kind, item.rowid))
}

/// The groups with the first `n` items.
pub open spec fn with_items(
    groups: Map<u64, RowIdsView>,
    items: Seq<CorrelationItem>,
    n: nat,
) -> Map<u64, RowIdsView>
    decreases n,
{
    if n == 0 {
        groups
    } else {
        with_item(with_items(groups, items, (n - 1) as nat), items[n - 1])
    }
}

/// The contexts of a process.
pub open spec fn contexts_of(processes: Map<u64, Vec<(u64, u64)>>, pid: u64) -> Seq<(u64, u64)> {
    if processes.contains_key(pid) {
        processes[pid]@
    } else {
        Seq::empty()
    }
}

/// The groups of the correlation under the first `n` contexts that have one.
pub open spec fn hits(
    groups: Map<u64, RowIdsView>,
    contexts: Seq<(u64, u64)>,
    raw_corr: u64,
    n: nat,
) -> Seq<RowIdsView>
    decreases n,
{
    if n == 0 {
        Seq::empty()
    } else {
        let rest = hits(groups, contexts, raw_corr, (n - 1) as nat);
        let id = packed(contexts[n - 1].0, contexts[n - 1].1, raw_corr);
        if groups.contains_key(id) {
            rest.push(groups[id])
        } else {
            rest
        }
    }
}

/// The first `n` groups, one after the other.
pub open spec fn merged(found: Seq<RowIdsView>, n: nat) -> RowIdsView
    decreases n,
{
    if n == 0 {
        no_rows()
    } else {
        merged(found, (n - 1) as nat).followed_by(found[n - 1])
    }
}

impl Default for CorrelationIndex {
    fn default() -> (index: Self)
        ensures
            index.context_to_process@ == Map::<u128, u64>::empty(),
            index.process_to_contexts@ == Map::<u64, Vec<(u64, u64)>>::empty(),
            index.groups@ == Map::<u64, CorrelatedRowIds>::empty(),
    {
        CorrelationIndex {
            context_to_process: HashMap::new(),
            process_to_contexts: HashMap::new(),
            groups: HashMap::new(),
        }
    }
}

/// What a group lookup gives: a borrowed group or an owned merge.
pub open spec fn cow_view(rows: Cow<'_, CorrelatedRowIds>) -> RowIdsView {
    match rows {
        Cow::Borrowed(g) => g@,
        Cow::Owned(g) => g@,
    }
}

impl CorrelationIndex {
    /// Lookup by exact `(device, context, correlation_id)`.
    pub fn lookup(&self, device: u64, context: u64, raw_corr: u64) -> (rows: Option<
        &CorrelatedRowIds,
    >)
        ensures
            match rows {
                Some(g) => self.groups@.contains_key(packed(device, context, raw_corr)) && *g
                    == self.groups@[packed(device, context, raw_corr)],
                None => !self.groups@.contains_key(packed(device, context, raw_corr)),
            },
            is_lookup(
                *self,
                device,
                context,
                raw_corr,
                match rows {
                    Some(g) => Some(*g),
                    None => None,
                },
            ),
    {
        self.groups.get(&synthetic_id(device, context, raw_corr))
    }

    /// Lookup by `correlation_id` when the caller has a runtime API event
    /// (only knows `globalTid`, not device/context). Resolves PID to all
    /// candidate (device, context) pairs via `TARGET_INFO_CUDA_CONTEXT_INFO`.
    ///
    /// In the common case (single context per PID) the matching group is
    /// borrowed; only when multiple contexts contribute is a merged owned
    /// copy made.
    pub fn lookup_by_runtime(&self, global_tid: i64, raw_corr: u64) -> (rows: Option<
        Cow<'_, CorrelatedRowIds>,
    >)
        ensures
            ({
                let contexts = contexts_of(
                    self.process_to_contexts@,
                    native_pid(global_tid) as u64,
                );
                let found = hits(group_views(self.groups@), contexts, raw_corr, contexts.len());
                match rows {
                    Some(r) => found.len() > 0 && cow_view(r) == merged(found, found.len()) && (
                    found.len() == 1 ==> r is Borrowed),
                    None => found.len() == 0,
                }
            }),
    {
        let pid: u64 = native_pid_from_global_tid(global_tid);
        let ghost contexts = contexts_of(self.process_to_contexts@, pid);
        let ghost groups = group_views(self.groups@);
        let candidates = match self.process_to_contexts.get(&pid) {
            Some(candidates) => candidates,
            None => {
                return None;
            },
        };
        let mut found: Vec<&CorrelatedRowIds> = Vec::with_capacity(candidates.len());
        let mut i: usize = 0;
        while i < candidates.len()
            invariant
                i <= candidates.len(),
                candidates@ == contexts,
                groups == group_views(self.groups@),
                found.len() == hits(groups, contexts, raw_corr, i as nat).len(),
                forall|x: int|
                    0 <= x < found.len() ==> (#[trigger] found@[x])@ == hits(
                        groups,
                        contexts,
                        raw_corr,
                        i as nat,
                    )[x],
            decreases candidates.len() - i,
        {
            let (dev, ctx) = candidates[i];
            if let Some(g) = self.lookup(dev, ctx, raw_corr) {
                found.push(g);
            }
            i = i + 1;
        }
        let ghost want = hits(groups, contexts, raw_corr, contexts.len());
        if found.len() == 0 {
            return None;
        }
        if found.len() == 1 {
            proof {
                reveal_with_fuel(merged, 2);
                assert(merged(want, 1) =~= want[0]);
            }
            return Some(Cow::Borrowed(found[0]));
        }
        let mut rows = CorrelatedRowIds::default();
        let mut k: usize = 0;
        while k < found.len()
            invariant
                k <= found.len(),
                found.len() == want.len(),
                forall|x: int| 0 <= x < found.len() ==> (#[trigger] found@[x])@ == want[x],
                rows@ == merged(want, k as nat),
            decreases found.len() - k,
        {
            rows.append_rows(found[k]);
            k = k + 1;
        }
        Some(Cow::Owned(rows))
    }

    /// All (device, context) pairs known for a process.
    pub fn contexts_for_pid(&self, pid: u64) -> (contexts: &[(u64, u64)])
        ensures
            contexts@ == contexts_of(self.process_to_contexts@, pid),
    {
        match self.process_to_contexts.get(&pid) {
            Some(contexts) => contexts.as_slice(),
            None => &[],
        }
    }

    /// Adds the context rows of `TARGET_INFO_CUDA_CONTEXT_INFO`.
    pub fn load_context_process_maps(&mut self, rows: &Vec<ContextProcessRow>)
        ensures
            final(self).groups == old(self).groups,
            final(self).context_to_process@ == with_context_rows(
                old(self).context_to_process@,
                rows@,
                rows@.len(),
            ),
            forall|pid: u64|
                #![trigger contexts_of(final(self).process_to_contexts@, pid)]
                contexts_of(final(self).process_to_contexts@, pid) == with_contexts(
                    contexts_of(old(self).process_to_contexts@, pid),
                    rows@,
                    pid,
                    rows@.len(),
                ),
    {
        let mut i: usize = 0;
        while i < rows.len()
            invariant
                i <= rows.len(),
                self.groups == old(self).groups,
                self.context_to_process@ == with_context_rows(
                    old(self).context_to_process@,
                    rows@,
                    i as nat,
                ),
                forall|pid: u64|
                    #![trigger contexts_of(self.process_to_contexts@, pid)]
                    contexts_of(self.process_to_contexts@, pid) == with_contexts(
                        contexts_of(old(self).process_to_contexts@, pid),
                        rows@,
                        pid,
                        i as nat,
                    ),
            decreases rows.len() - i,
        {
            let row = rows[i];
            let dev: u64 = row.device as u64;
            let ctx: u64 = row.context as u64;
            let pid: u64 = row.process as u64;
            let ghost before = self.process_to_contexts@;
            assert(contexts_of(before, pid) == with_contexts(
                contexts_of(old(self).process_to_contexts@, pid),
                rows@,
                pid,
                i as nat,
            ));
            self.context_to_process.insert(context_key(dev, ctx), pid);
            let mut contexts: Vec<(u64, u64)> = match self.process_to_contexts.remove(&pid) {
                Some(contexts) => contexts,
                None => Vec::new(),
            };
            assert(contexts@ =~= contexts_of(before, pid));
            if !holds_pair(&contexts, dev, ctx) {
                contexts.push((dev, ctx));
            }
            self.process_to_contexts.insert(pid, contexts);
            i = i + 1;
            proof {
                assert(self.process_to_contexts@ =~= before.insert(pid, contexts));
                assert forall|p: u64|
                    #![trigger contexts_of(self.process_to_contexts@, p)]
                    contexts_of(self.process_to_contexts@, p) == with_contexts(
                        contexts_of(old(self).process_to_contexts@, p),
                        rows@,
                        p,
                        i as nat,
                    ) by {
                    assert(contexts_of(before, p) == with_contexts(
                        contexts_of(old(self).process_to_contexts@, p),
                        rows@,
                        p,
                        (i - 1) as nat,
                    ));
                }
            }
        }
    }

    /// Sorts the items into their groups.
    pub fn merge_items(&mut self, items: &Vec<CorrelationItem>)
        ensures
            final(self).context_to_process == old(self).context_to_process,
            final(self).process_to_contexts == old(self).process_to_contexts,
            group_views(final(self).groups@) == with_items(
                group_views(old(self).groups@),
                items@,
                items@.len(),
            ),
    {
        let mut i: usize = 0;
        while i < items.len()
            invariant
                i <= items.len(),
                self.context_to_process == old(self).context_to_process,
                self.process_to_contexts == old(self).process_to_contexts,
                group_views(self.groups@) == with_items(
                    group_views(old(self).groups@),
                    items@,
                    i as nat,
                ),
            decreases items.len() - i,
        {
            let item = items[i];
            let ghost before = self.groups@;
            let mut group: CorrelatedRowIds = match self.groups.remove(&item.syn_id) {
                Some(group) => group,
                None => CorrelatedRowIds::default(),
            };
            assert(group@ == group_at(group_views(before), item.syn_id));
            group.add_row(item.kind, item.rowid);
            self.groups.insert(item.syn_id, group);
            assert(self.groups@ =~= before.insert(item.syn_id, group));
            assert(group_views(self.groups@) =~= with_item(group_views(before), item));
            i = i + 1;
        }
    }

    /// The index over the rows of a trace.
    pub fn build(
        contexts: &Vec<ContextProcessRow>,
        gpu: &Vec<GpuCorrelationTable>,
        runtime: &Vec<RuntimeCorrelationRow>,
    ) -> (index: Self)
        ensures
            index.context_to_process@ == with_context_rows(
                Map::empty(),
                contexts@,
                contexts@.len(),
            ),
            forall|pid: u64|
                #![trigger contexts_of(index.process_to_contexts@, pid)]
                contexts_of(index.process_to_contexts@, pid) == with_contexts(
                    Seq::empty(),
                    contexts@,
                    pid,
                    contexts@.len(),
                ),
            ({
                let items = tables_items(gpu@, gpu@.len()) + runtime_items(
                    index.process_to_contexts@,
                    runtime@,
                    runtime@.len(),
                );
                group_views(index.groups@) == with_items(Map::empty(), items, items.len())
            }),
            is_built(index, contexts@, gpu@, runtime@),
    {
        let mut index = CorrelationIndex::default();
        index.load_context_process_maps(contexts);
        let mut items: Vec<CorrelationItem> = Vec::new();
        let mut t: usize = 0;
        while t < gpu.len()
            invariant
                t <= gpu.len(),
                items@ == tables_items(gpu@, t as nat),
            decreases gpu.len() - t,
        {
            collect_gpu_kind(&gpu[t].rows, gpu[t].kind, &mut items);
            t = t + 1;
        }
        collect_runtime(&index.process_to_contexts, runtime, &mut items);
        index.merge_items(&items);
        assert(group_views(Map::<u64, CorrelatedRowIds>::empty()) =~= Map::<
            u64,
            RowIdsView,
        >::empty());
        index
    }

    /// Sizes of the index; sums that exceed the machine's range stay at its
    /// end.
    pub fn stats(&self) -> (s: CorrelationIndexStats)
        ensures
            s.contexts == self.context_to_process@.len(),
            s.processes == self.process_to_contexts@.len(),
            s.unique_groups == self.groups@.len(),
            s.kernel_rows == capped(total_rows(group_views(self.groups@), ItemKind::Kernel)),
            s.memcpy_rows == capped(total_rows(group_views(self.groups@), ItemKind::Memcpy)),
            s.memset_rows == capped(total_rows(group_views(self.groups@), ItemKind::Memset)),
            s.runtime_rows == capped(total_rows(group_views(self.groups@), ItemKind::Runtime)),
            s.sync_rows == capped(total_rows(group_views(self.groups@), ItemKind::Sync)),
            s.graph_rows == capped(total_rows(group_views(self.groups@), ItemKind::Graph)),
    {
        let ghost groups = group_views(self.groups@);
        let mut s = CorrelationIndexStats {
            contexts: self.context_to_process.len(),
            processes: self.process_to_contexts.len(),
            unique_groups: self.groups.len(),
            kernel_rows: 0,
            memcpy_rows: 0,
            memset_rows: 0,
            runtime_rows: 0,
            sync_rows: 0,
            graph_rows: 0,
        };
        let ghost mut seen: Seq<u64> = Seq::empty();
        for key in it: self.groups.keys()
            invariant
                groups == group_views(self.groups@),
                seen == it.seq().unref().subrange(0, it.index() as int),
                it.seq().unref().to_set() == self.groups@.dom(),
                it.seq().no_duplicates(),
                it.index() == it.seq().len() ==> seen == it.seq().unref(),
                s.contexts == self.context_to_process@.len(),
                s.processes == self.process_to_contexts@.len(),
                s.unique_groups == self.groups@.len(),
                s.kernel_rows == capped(listed_rows(groups, seen, ItemKind::Kernel)),
                s.memcpy_rows == capped(listed_rows(groups, seen, ItemKind::Memcpy)),
                s.memset_rows == capped(listed_rows(groups, seen, ItemKind::Memset)),
                s.runtime_rows == capped(listed_rows(groups, seen, ItemKind::Runtime)),
                s.sync_rows == capped(listed_rows(groups, seen, ItemKind::Sync)),
                s.graph_rows == capped(listed_rows(groups, seen, ItemKind::Graph)),
        {
            let ghost more = seen.push(*key);
            proof {
                assert(it.seq().unref()[it.index() as int] == *key);
                assert(it.seq().unref().to_set().contains(*key));
                assert(more.drop_last() =~= seen);
                assert(it.index() + 1 == it.seq().len() ==> more =~= it.seq().unref());
            }
            if let Some(g) = self.groups.get(key) {
                assert(g@ == groups[*key]);
                s.kernel_rows = s.kernel_rows.saturating_add(g.kernel.len());
                s.memcpy_rows = s.memcpy_rows.saturating_add(g.memcpy.len());
                s.memset_rows = s.memset_rows.saturating_add(g.memset.len());
                s.runtime_rows = s.runtime_rows.saturating_add(g.runtime.len());
                s.sync_rows = s.sync_rows.saturating_add(g.sync.len());
                s.graph_rows = s.graph_rows.saturating_add(g.graph.len());
            }
            proof {
                seen = more;
            }
        }
        proof {
            assert(groups.dom() =~= self.groups@.dom());
            listing_gives_total(groups, seen, ItemKind::Kernel);
            listing_gives_total(groups, seen, ItemKind::Memcpy);
            listing_gives_total(groups, seen, ItemKind::Memset);
            listing_gives_total(groups, seen, ItemKind::Runtime);
            listing_gives_total(groups, seen, ItemKind::Sync);
            listing_gives_total(groups, seen, ItemKind::Graph);
        }
        s
    }
}

/// One row of `TARGET_INFO_CUDA_CONTEXT_INFO`.
#[derive(Debug, Clone, Copy)]
pub struct ContextProcessRow {
    pub device: i64,
    pub context: i64,
    pub process: i64,
}

/// The context map with the first `n` rows; a later row stands.
pub open spec fn with_context_rows(
    map: Map<u128, u64>,
    rows: Seq<ContextProcessRow>,
    n: nat,
) -> Map<u128, u64>
    decreases n,
{
    if n == 0 {
        map
    } else {
        let r = rows[n - 1];
        with_context_rows(map, rows, (n - 1) as nat).insert(
            context_key_of(r.device as u64, r.context as u64),
            r.process as u64,
        )
    }
}

/// The contexts of a process with those of the first `n` rows, each once.
pub open spec fn with_contexts(
    contexts: Seq<(u64, u64)>,
    rows: Seq<ContextProcessRow>,
    pid: u64,
    n: nat,
) -> Seq<(u64, u64)>
    decreases n,
{
    if n == 0 {
        contexts
    } else {
        let before = with_contexts(contexts, rows, pid, (n - 1) as nat);
        let r = rows[n - 1];
        let pair = (r.device as u64, r.context as u64);
        if r.process as u64 == pid && !before.contains(pair) {
            before.push(pair)
        } else {
            before
        }
    }
}

/// Whether `list` holds the pair.
fn holds_pair(list: &Vec<(u64, u64)>, a: u64, b: u64) -> (held: bool)
    ensures
        held == list@.contains((a, b)),
{
    let mut i: usize = 0;
    while i < list.len()
        invariant
            i <= list.len(),
            forall|x: int| 0 <= x < i ==> (#[trigger] list@[x]) != (a, b),
        decreases list.len() - i,
    {
        if list[i].0 == a && list[i].1 == b {
            assert(list@[i as int] == (a, b));
            return true;
        }
        i = i + 1;
    }
    false
}

/// One correlated row of a GPU activity table.
#[derive(Debug, Clone, Copy)]
pub struct GpuCorrelationRow {
    pub rowid: i64,
    pub correlation: i64,
    pub device: i64,
    pub context: i64,
}

/// The correlated rows of one GPU activity table.
#[derive(Debug)]
pub struct GpuCorrelationTable {
    pub kind: ItemKind,
    pub rows: Vec<GpuCorrelationRow>,
}

/// One correlated runtime call.
#[derive(Debug, Clone, Copy)]
pub struct RuntimeCorrelationRow {
    pub rowid: i64,
    pub correlation: i64,
    pub global_tid: i64,
}

/// The item of a GPU row.
pub open spec fn gpu_item(row: GpuCorrelationRow, kind: ItemKind) -> CorrelationItem {
    CorrelationItem {
        syn_id: packed(row.device as u64, row.context as u64, row.correlation as u64),
        rowid: row.rowid,
        kind,
    }
}

/// The items of GPU rows.
pub open spec fn gpu_items(rows: Seq<GpuCorrelationRow>, kind: ItemKind) -> Seq<CorrelationItem> {
    rows.map_values(|r: GpuCorrelationRow| gpu_item(r, kind))
}

/// The items of the first `n` tables.
pub open spec fn tables_items(tables: Seq<GpuCorrelationTable>, n: nat) -> Seq<CorrelationItem>
    decreases n,
{
    if n == 0 {
        Seq::empty()
    } else {
        tables_items(tables, (n - 1) as nat) + gpu_items(tables[n - 1].rows@, tables[n - 1].kind)
    }
}

/// The items of a runtime call: one under each context of its process, so that
/// it is found from any of them; one under the process itself where no context
/// is known.
pub open spec fn call_items(
    processes: Map<u64, Vec<(u64, u64)>>,
    row: RuntimeCorrelationRow,
) -> Seq<CorrelationItem> {
    let pid = native_pid(row.global_tid) as u64;
    let contexts = contexts_of(processes, pid);
    if contexts.len() > 0 {
        contexts.map_values(
            |c: (u64, u64)|
                CorrelationItem {
                    syn_id: packed(c.0, c.1, row.correlation as u64),
                    rowid: row.rowid,
                    kind: ItemKind::Runtime,
                },
        )
    } else {
        seq![
            CorrelationItem {
                syn_id: packed(0, pid, row.correlation as u64),
                rowid: row.rowid,
                kind: ItemKind::Runtime,
            },
        ]
    }
}

/// The items of the first `n` runtime calls.
pub open spec fn runtime_items(
    processes: Map<u64, Vec<(u64, u64)>>,
    rows: Seq<RuntimeCorrelationRow>,
    n: nat,
) -> Seq<CorrelationItem>
    decreases n,
{
    if n == 0 {
        Seq::empty()
    } else {
        runtime_items(processes, rows, (n - 1) as nat) + call_items(processes, rows[n - 1])
    }
}

/// Adds the items of GPU rows, which carry device and context themselves.
fn collect_gpu_kind(rows: &Vec<GpuCorrelationRow>, kind: ItemKind, out: &mut Vec<CorrelationItem>)
    ensures
        final(out)@ == old(out)@ + gpu_items(rows@, kind),
{
    let mut i: usize = 0;
    while i < rows.len()
        invariant
            i <= rows.len(),
            out@ =~= old(out)@ + gpu_items(rows@, kind).subrange(0, i as int),
        decreases rows.len() - i,
    {
        let r = rows[i];
        out.push(
            CorrelationItem {
                syn_id: synthetic_id(r.device as u64, r.context as u64, r.correlation as u64),
                rowid: r.rowid,
                kind,
            },
        );
        i = i + 1;
    }
}

/// Adds the items of runtime calls, resolved through their process.
fn collect_runtime(
    process_to_contexts: &HashMap<u64, Vec<(u64, u64)>>,
    rows: &Vec<RuntimeCorrelationRow>,
    out: &mut Vec<CorrelationItem>,
)
    ensures
        final(out)@ == old(out)@ + runtime_items(process_to_contexts@, rows@, rows@.len()),
{
    let ghost processes = process_to_contexts@;
    let mut i: usize = 0;
    assert(out@ =~= old(out)@ + runtime_items(processes, rows@, 0));
    while i < rows.len()
        invariant
            i <= rows.len(),
            processes == process_to_contexts@,
            out@ == old(out)@ + runtime_items(processes, rows@, i as nat),
        decreases rows.len() - i,
    {
        let row = rows[i];
        let pid: u64 = native_pid_from_global_tid(row.global_tid);
        let ghost before = out@;
        let ghost want = call_items(processes, row);
        match process_to_contexts.get(&pid) {
            Some(contexts) if contexts.len() > 0 => {
                let mut k: usize = 0;
                while k < contexts.len()
                    invariant
                        k <= contexts.len(),
                        contexts.len() > 0,
                        contexts@ == contexts_of(processes, native_pid(row.global_tid) as u64),
                        want == call_items(processes, row),
                        out@ =~= before + want.subrange(0, k as int),
                    decreases contexts.len() - k,
                {
                    let (dev, ctx) = contexts[k];
                    out.push(
                        CorrelationItem {
                            syn_id: synthetic_id(dev, ctx, row.correlation as u64),
                            rowid: row.rowid,
                            kind: ItemKind::Runtime,
                        },
                    );
                    k = k + 1;
                }
                assert(want.subrange(0, want.len() as int) =~= want);
            },
            _ => {
                out.push(
                    CorrelationItem {
                        syn_id: synthetic_id(0, pid, row.correlation as u64),
                        rowid: row.rowid,
                        kind: ItemKind::Runtime,
                    },
                );
                assert(out@ =~= before + want);
            },
        }
        i = i + 1;
        assert(out@ =~= old(out)@ + runtime_items(processes, rows@, i as nat));
    }
}

/// A natural number, or the largest machine integer where it is larger.
pub open spec fn capped(n: nat) -> usize {
    if n <= usize::MAX {
        n as usize
    } else {
        usize::MAX
    }
}

/// Number of rows of a kind in the groups under the listed keys.
pub open spec fn listed_rows(
    groups: Map<u64, RowIdsView>,
    keys: Seq<u64>,
    kind: ItemKind,
) -> nat
    decreases keys.len(),
{
    if keys.len() == 0 {
        0
    } else {
        listed_rows(groups, keys.drop_last(), kind) + groups[keys.last()].of(kind).len()
    }
}

/// Number of rows of a kind in all groups.
pub open spec fn total_rows(groups: Map<u64, RowIdsView>, kind: ItemKind) -> nat
    decreases groups.dom().len(),
    when groups.dom().finite()
{
    if groups.dom().len() == 0 {
        0
    } else {
        let key = groups.dom().choose();
        groups[key].of(kind).len() + total_rows(groups.remove(key), kind)
    }
}

proof fn total_without(groups: Map<u64, RowIdsView>, key: u64, kind: ItemKind)
    requires
        groups.dom().finite(),
        groups.contains_key(key),
    ensures
        total_rows(groups, kind) == groups[key].of(kind).len() + total_rows(
            groups.remove(key),
            kind,
        ),
    decreases groups.dom().len(),
{
    let first = groups.dom().choose();
    if groups.dom().len() == 0 {
        assert(groups.dom() =~= Set::empty());
    }
    assert(groups.dom().contains(first));
    if first != key {
        total_without(groups.remove(first), key, kind);
        total_without(groups.remove(key), first, kind);
        assert(groups.remove(first).remove(key) =~= groups.remove(key).remove(first));
    }
}

proof fn listing_without(groups: Map<u64, RowIdsView>, keys: Seq<u64>, gone: u64, kind: ItemKind)
    requires
        !keys.contains(gone),
    ensures
        listed_rows(groups.remove(gone), keys, kind) == listed_rows(groups, keys, kind),
    decreases keys.len(),
{
    if keys.len() > 0 {
        assert(keys.last() != gone) by {
            assert(keys[keys.len() - 1] == keys.last());
        }
        assert(!keys.drop_last().contains(gone)) by {
            if keys.drop_last().contains(gone) {
                let i: int = choose|i: int|
                    0 <= i < keys.drop_last().len() && keys.drop_last()[i] == gone;
                assert(keys[i] == gone);
            }
        }
        listing_without(groups, keys.drop_last(), gone, kind);
    }
}

/// Number of the first `n` items that are of a kind.
pub open spec fn items_of(items: Seq<CorrelationItem>, kind: ItemKind, n: nat) -> nat
    decreases n,
{
    if n == 0 {
        0
    } else {
        items_of(items, kind, (n - 1) as nat) + if items[n - 1].kind == kind {
            1nat
        } else {
            0nat
        }
    }
}

/// Every item that is sorted into the groups is counted once, under its kind:
/// the sizes of an index grow by the number of items of each kind.
pub proof fn merged_items_are_counted(
    groups: Map<u64, RowIdsView>,
    items: Seq<CorrelationItem>,
    kind: ItemKind,
    n: nat,
)
    requires
        groups.dom().finite(),
        n <= items.len(),
    ensures
        with_items(groups, items, n).dom().finite(),
        total_rows(with_items(groups, items, n), kind) == total_rows(groups, kind) + items_of(
            items,
            kind,
            n,
        ),
    decreases n,
{
    if n > 0 {
        merged_items_are_counted(groups, items, kind, (n - 1) as nat);
        let before = with_items(groups, items, (n - 1) as nat);
        let after = with_items(groups, items, n);
        let id = items[n - 1].syn_id;
        assert(after.dom() =~= before.dom().insert(id));
        total_without(after, id, kind);
        if before.contains_key(id) {
            total_without(before, id, kind);
            assert(after.remove(id) =~= before.remove(id));
        } else {
            assert(after.remove(id) =~= before);
        }
    }
}

/// Counting along any listing of the keys gives the total.
pub proof fn listing_gives_total(groups: Map<u64, RowIdsView>, keys: Seq<u64>, kind: ItemKind)
    requires
        keys.no_duplicates(),
        keys.to_set() == groups.dom(),
    ensures
        listed_rows(groups, keys, kind) == total_rows(groups, kind),
    decreases keys.len(),
{
    keys.unique_seq_to_set();
    assert(groups.dom().finite());
    if keys.len() > 0 {
        let last = keys.last();
        let rest = keys.drop_last();
        assert(keys.to_set().contains(last)) by {
            assert(keys[keys.len() - 1] == last);
        }
        assert(!rest.contains(last)) by {
            if rest.contains(last) {
                let i: int = choose|i: int| 0 <= i < rest.len() && rest[i] == last;
                assert(keys[i] == keys[keys.len() - 1]);
            }
        }
        assert(rest.to_set() =~= groups.remove(last).dom()) by {
            assert forall|v: u64| rest.to_set().contains(v) <==> groups.remove(
                last,
            ).dom().contains(v) by {
                if rest.contains(v) {
                    let i: int = choose|i: int| 0 <= i < rest.len() && rest[i] == v;
                    assert(keys[i] == v);
                    assert(keys.to_set().contains(v));
                }
                if groups.remove(last).dom().contains(v) {
                    assert(keys.to_set().contains(v));
                    let i: int = choose|i: int| 0 <= i < keys.len() && keys[i] == v;
                    assert(rest[i] == v);
                }
            }
        }
        listing_gives_total(groups.remove(last), rest, kind);
        listing_without(groups, rest, last, kind);
        total_without(groups, last, kind);
    } else {
        assert(groups.dom() =~= Set::empty());
    }
}

/// The row ids of one kind under one key among the first `n` items.
pub open spec fn rows_for(
    items: Seq<CorrelationItem>,
    id: u64,
    kind: ItemKind,
    n: nat,
) -> Seq<i64>
    decreases n,
{
    if n == 0 {
        Seq::empty()
    } else if items[n - 1].syn_id == id && items[n - 1].kind == kind {
        rows_for(items, id, kind, (n - 1) as nat).push(items[n - 1].rowid)
    } else {
        rows_for(items, id, kind, (n - 1) as nat)
    }
}

/// Each group holds exactly the rows of its key, by kind and in the order of
/// the items.
pub proof fn groups_hold_their_items(
    groups: Map<u64, RowIdsView>,
    items: Seq<CorrelationItem>,
    id: u64,
    kind: ItemKind,
    n: nat,
)
    requires
        n <= items.len(),
    ensures
        group_at(with_items(groups, items, n), id).of(kind) == group_at(groups, id).of(kind)
            + rows_for(items, id, kind, n),
    decreases n,
{
    if n == 0 {
        assert(group_at(groups, id).of(kind) + rows_for(items, id, kind, 0) =~= group_at(
            groups,
            id,
        ).of(kind));
    } else {
        groups_hold_their_items(groups, items, id, kind, (n - 1) as nat);
        let before = with_items(groups, items, (n - 1) as nat);
        let item = items[n - 1];
        assert(group_at(with_items(groups, items, n), id).of(kind) =~= if item.syn_id == id
            && item.kind == kind {
            group_at(before, id).of(kind).push(item.rowid)
        } else {
            group_at(before, id).of(kind)
        });
        assert(group_at(groups, id).of(kind) + rows_for(items, id, kind, n) =~= if item.syn_id == id
            && item.kind == kind {
            (group_at(groups, id).of(kind) + rows_for(items, id, kind, (n - 1) as nat)).push(
                item.rowid,
            )
        } else {
            group_at(groups, id).of(kind) + rows_for(items, id, kind, (n - 1) as nat)
        });
    }
}

proof fn item_stays(items: Seq<CorrelationItem>, i: int, n: nat)
    requires
        0 <= i < n <= items.len(),
    ensures
        with_items(Map::empty(), items, n).contains_key(items[i].syn_id),
        with_items(Map::empty(), items, n)[items[i].syn_id].of(items[i].kind).contains(
            items[i].rowid,
        ),
    decreases n,
{
    let item = items[i];
    let last = items[n - 1];
    let before = with_items(Map::empty(), items, (n - 1) as nat);
    let after = with_items(Map::empty(), items, n);
    if i == n - 1 {
        let rows = after[item.syn_id].of(item.kind);
        assert(rows == group_at(before, item.syn_id).of(item.kind).push(item.rowid));
        assert(rows.last() == item.rowid);
        assert(rows[rows.len() - 1] == item.rowid);
    } else {
        item_stays(items, i, (n - 1) as nat);
        let rows = before[item.syn_id].of(item.kind);
        let x = choose|x: int| 0 <= x < rows.len() && rows[x] == item.rowid;
        if last.syn_id == item.syn_id {
            assert(after[item.syn_id].of(item.kind)[x] == item.rowid);
        }
    }
}

proof fn hit_among(
    groups: Map<u64, RowIdsView>,
    contexts: Seq<(u64, u64)>,
    raw_corr: u64,
    c: int,
    n: nat,
)
    requires
        0 <= c < n <= contexts.len(),
        groups.contains_key(packed(contexts[c].0, contexts[c].1, raw_corr)),
    ensures
        hits(groups, contexts, raw_corr, n).contains(
            groups[packed(contexts[c].0, contexts[c].1, raw_corr)],
        ),
    decreases n,
{
    let id = packed(contexts[c].0, contexts[c].1, raw_corr);
    let found = hits(groups, contexts, raw_corr, n);
    if c == n - 1 {
        assert(found[found.len() - 1] == groups[id]);
    } else {
        hit_among(groups, contexts, raw_corr, c, (n - 1) as nat);
        let rest = hits(groups, contexts, raw_corr, (n - 1) as nat);
        let x = choose|x: int| 0 <= x < rest.len() && rest[x] == groups[id];
        assert(found[x] == groups[id]);
    }
}

proof fn merged_keeps(found: Seq<RowIdsView>, x: int, kind: ItemKind, rowid: i64, n: nat)
    requires
        0 <= x < n <= found.len(),
        found[x].of(kind).contains(rowid),
    ensures
        merged(found, n).of(kind).contains(rowid),
    decreases n,
{
    let before = merged(found, (n - 1) as nat).of(kind);
    let last = found[n - 1].of(kind);
    let rows = merged(found, n).of(kind);
    assert(rows == before + last);
    if x == n - 1 {
        let i = choose|i: int| 0 <= i < last.len() && last[i] == rowid;
        assert(rows[before.len() + i] == rowid);
    } else {
        merged_keeps(found, x, kind, rowid, (n - 1) as nat);
        let i = choose|i: int| 0 <= i < before.len() && before[i] == rowid;
        assert(rows[i] == rowid);
    }
}

/// A lookup from a runtime call gives every row that has its correlation on one
/// of the contexts of its process.
pub proof fn call_finds_its_work(
    items: Seq<CorrelationItem>,
    contexts: Seq<(u64, u64)>,
    raw_corr: u64,
    c: int,
    i: int,
)
    requires
        0 <= c < contexts.len(),
        0 <= i < items.len(),
        items[i].syn_id == packed(contexts[c].0, contexts[c].1, raw_corr),
    ensures
        ({
            let groups = with_items(Map::empty(), items, items.len());
            let found = hits(groups, contexts, raw_corr, contexts.len());
            found.len() > 0 && merged(found, found.len()).of(items[i].kind).contains(items[i].rowid)
        }),
{
    let groups = with_items(Map::empty(), items, items.len());
    let found = hits(groups, contexts, raw_corr, contexts.len());
    item_stays(items, i, items.len());
    hit_among(groups, contexts, raw_corr, c, contexts.len());
    let x = choose|x: int| 0 <= x < found.len() && found[x] == groups[items[i].syn_id];
    merged_keeps(found, x, items[i].kind, items[i].rowid, found.len());
}

/// A runtime call is indexed under every context of its process, so that it is
/// found from the GPU work of each.
pub proof fn call_is_under_each_context(
    processes: Map<u64, Vec<(u64, u64)>>,
    runtime: Seq<RuntimeCorrelationRow>,
    r: int,
    c: int,
    n: nat,
)
    requires
        0 <= r < n <= runtime.len(),
        0 <= c < contexts_of(processes, native_pid(runtime[r].global_tid) as u64).len(),
    ensures
        ({
            let context = contexts_of(processes, native_pid(runtime[r].global_tid) as u64)[c];
            runtime_items(processes, runtime, n).contains(
                (CorrelationItem {
                    syn_id: packed(context.0, context.1, runtime[r].correlation as u64),
                    rowid: runtime[r].rowid,
                    kind: ItemKind::Runtime,
                }),
            )
        }),
    decreases n,
{
    let context = contexts_of(processes, native_pid(runtime[r].global_tid) as u64)[c];
    let item = CorrelationItem {
        syn_id: packed(context.0, context.1, runtime[r].correlation as u64),
        rowid: runtime[r].rowid,
        kind: ItemKind::Runtime,
    };
    let before = runtime_items(processes, runtime, (n - 1) as nat);
    let all = runtime_items(processes, runtime, n);
    if r == n - 1 {
        assert(call_items(processes, runtime[r])[c] == item);
        assert(all[before.len() + c] == item);
    } else {
        call_is_under_each_context(processes, runtime, r, c, (n - 1) as nat);
        let x = choose|x: int| 0 <= x < before.len() && before[x] == item;
        assert(all[x] == item);
    }
}

} // verus!
