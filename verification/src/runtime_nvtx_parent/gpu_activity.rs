//! Which `(device, context)` a correlated runtime call reached.
use super::parquet::tells_written;
use crate::columns::{
    batch_data, batch_of, batch_views, column_data, is_int, required_int32_column,
    required_int64_column, slot_int, Batch, BatchData, Column, ColumnData, ColumnField, ColumnType,
    Slot,
};
use crate::cuda_identity::{CudaEvidence, CudaProcessResolver};
use crate::error::{NsysDataError, NsysDataResult};
use crate::keymap::PairMap;
use crate::laws::gpu_activity::{activity_is_mapped, holds, is_tidy, sighted_in, Sighting};
use crate::parquet_file::{
    is_part, is_sidecar_table, is_split, parquet_read, parquet_returns, parquet_written, read_file,
    rows_before, rows_before_grows, same_place, stored_table, write_file, FileRead, StoredColumn,
    WriteFault, Writing,
};
use crate::sidecar::{entry_views, Entry, KeyValue};
use crate::text::{str_eq, strings};
use vstd::prelude::*;

verus! {

/// `(device_id, context_id)` pairs found for one `(native_pid,
/// correlation_id)`.
///
/// Most keys resolve to exactly one `(device, context)`, so the common-case
/// storage is `Single` (inline, no allocation). When several claim the same
/// key, a multi-context clash, the entry promotes to `Many` and the merge step
/// fans out: one sidecar entry per candidate.
#[derive(Debug, PartialEq, Eq)]
pub enum DevCtxValue {
    Single((i32, i64)),
    Many(Vec<(i32, i64)>),
}

/// What a [`DevCtxValue`] holds.
#[verifier::ext_equal]
pub enum DevCtxView {
    Single((i32, i64)),
    Many(Seq<(i32, i64)>),
}

impl View for DevCtxValue {
    type V = DevCtxView;

    open spec fn view(&self) -> DevCtxView {
        match *self {
            DevCtxValue::Single(dx) => DevCtxView::Single(dx),
            DevCtxValue::Many(v) => DevCtxView::Many(v@),
        }
    }
}

impl DevCtxView {
    /// The pairs, in the order in which they were found.
    pub open spec fn pairs(self) -> Seq<(i32, i64)> {
        match self {
            DevCtxView::Single(dx) => seq![dx],
            DevCtxView::Many(v) => v,
        }
    }

    /// The value with `dx` added, unless it is there already.
    pub open spec fn with(self, dx: (i32, i64)) -> DevCtxView {
        if self.pairs().contains(dx) {
            self
        } else {
            DevCtxView::Many(self.pairs().push(dx))
        }
    }
}

impl DevCtxValue {
    /// True if `dx` is already represented in this value.
    pub fn contains(&self, dx: &(i32, i64)) -> (held: bool)
        ensures
            held == self@.pairs().contains(*dx),
    {
        match self {
            DevCtxValue::Single(existing) => {
                assert(self@.pairs()[0] == *existing);
                existing.0 == dx.0 && existing.1 == dx.1
            },
            DevCtxValue::Many(v) => {
                let mut i: usize = 0;
                while i < v.len()
                    invariant
                        i <= v.len(),
                        self@.pairs() == v@,
                        forall|x: int| 0 <= x < i ==> (#[trigger] v@[x]) != *dx,
                    decreases v.len() - i,
                {
                    if v[i].0 == dx.0 && v[i].1 == dx.1 {
                        assert(v@[i as int] == *dx);
                        return true;
                    }
                    i = i + 1;
                }
                false
            },
        }
    }

    /// The value with `dx` added if not already present, promoting
    /// `Single` to `Many` on the first divergent pair.
    pub fn pushed(self, dx: (i32, i64)) -> (value: DevCtxValue)
        ensures
            value@ == self@.with(dx),
    {
        if self.contains(&dx) {
            return self;
        }
        let ghost before = self@;
        match self {
            DevCtxValue::Single(existing) => {
                let mut v: Vec<(i32, i64)> = Vec::new();
                v.push(existing);
                v.push(dx);
                assert(v@ =~= before.pairs().push(dx));
                DevCtxValue::Many(v)
            },
            DevCtxValue::Many(v) => {
                let mut v = v;
                v.push(dx);
                DevCtxValue::Many(v)
            },
        }
    }
}

/// `(native_pid, correlation_id)` to the matching `(device_id, context_id)`
/// pairs found across the GPU activity tables.
pub struct DevCtxMap {
    inner: PairMap<DevCtxValue>,
}

impl View for DevCtxMap {
    type V = Map<(i64, i64), DevCtxView>;

    closed spec fn view(&self) -> Map<(i64, i64), DevCtxView> {
        self.inner@.map_values(|v: DevCtxValue| v@)
    }
}

/// The map with one more pair for a key.
pub open spec fn with_pair(
    map: Map<(i64, i64), DevCtxView>,
    native_pid: i64,
    correlation_id: i64,
    dx: (i32, i64),
) -> Map<(i64, i64), DevCtxView> {
    let key = (native_pid, correlation_id);
    if map.contains_key(key) {
        map.insert(key, map[key].with(dx))
    } else {
        map.insert(key, DevCtxView::Single(dx))
    }
}

impl DevCtxMap {
    pub fn new() -> (map: Self)
        ensures
            map@ == Map::<(i64, i64), DevCtxView>::empty(),
    {
        let map = DevCtxMap { inner: PairMap::new() };
        assert(map@ =~= Map::<(i64, i64), DevCtxView>::empty());
        map
    }

    /// The pairs for `(native_pid, correlation_id)`.
    pub fn get(&self, native_pid: i64, correlation_id: i64) -> (value: Option<&DevCtxValue>)
        ensures
            match value {
                Some(v) => self@.contains_key((native_pid, correlation_id)) && v@ == self@[(
                    native_pid,
                    correlation_id,
                )],
                None => !self@.contains_key((native_pid, correlation_id)),
            },
    {
        self.inner.get(native_pid, correlation_id)
    }

    /// Sets the pairs for `(native_pid, correlation_id)`.
    pub fn insert(&mut self, native_pid: i64, correlation_id: i64, value: DevCtxValue)
        ensures
            final(self)@ == old(self)@.insert((native_pid, correlation_id), value@),
    {
        self.inner.insert(native_pid, correlation_id, value);
        assert(self@ =~= old(self)@.insert((native_pid, correlation_id), value@));
    }

    /// Adds a pair for `(native_pid, correlation_id)`.
    pub fn add_pair(&mut self, native_pid: i64, correlation_id: i64, dx: (i32, i64))
        ensures
            final(self)@ == with_pair(old(self)@, native_pid, correlation_id, dx),
    {
        let value = match self.inner.remove(native_pid, correlation_id) {
            Some(value) => value.pushed(dx),
            None => DevCtxValue::Single(dx),
        };
        self.inner.insert(native_pid, correlation_id, value);
        assert(self@ =~= with_pair(old(self)@, native_pid, correlation_id, dx));
    }
}

/// One correlated row of a GPU activity table.
#[derive(Debug, Clone, Copy)]
pub struct GpuActivityRow {
    pub correlation_id: i64,
    pub device_id: i32,
    pub context_id: i64,
    pub start_ns: i64,
    pub global_pid: Option<i64>,
}

impl GpuActivityRow {
    /// The process that the activity belongs to.
    pub open spec fn owner(self, evidence: CudaEvidence) -> Option<i64> {
        evidence.owner(
            self.device_id,
            self.context_id,
            Some(self.correlation_id),
            self.start_ns,
            self.global_pid,
        )
    }
}

/// The map with the first `n` rows added, all of which have an owner.
pub open spec fn with_rows(
    map: Map<(i64, i64), DevCtxView>,
    evidence: CudaEvidence,
    rows: Seq<GpuActivityRow>,
    n: nat,
) -> Map<(i64, i64), DevCtxView>
    decreases n,
{
    if n == 0 {
        map
    } else {
        let row = rows[n - 1];
        with_pair(
            with_rows(map, evidence, rows, (n - 1) as nat),
            row.owner(evidence)->0,
            row.correlation_id,
            (row.device_id, row.context_id),
        )
    }
}

/// `error` says that the owner of `row` of `table` is unknown.
pub open spec fn is_unresolved(error: NsysDataError, table: Seq<char>, row: GpuActivityRow) -> bool {
    error matches NsysDataError::CudaProcessUnresolved {
        table: t,
        device_id,
        context_id,
        correlation_id,
    } && t@ == table && device_id == row.device_id && context_id == row.context_id
        && correlation_id == Some(row.correlation_id)
}

/// Row `i` is the first without an owner.
pub open spec fn first_unresolved(
    evidence: CudaEvidence,
    rows: Seq<GpuActivityRow>,
    i: int,
) -> bool {
    &&& 0 <= i < rows.len()
    &&& rows[i].owner(evidence) is None
    &&& forall|j: int| 0 <= j < i ==> (#[trigger] rows[j]).owner(evidence) is Some
}

/// Adds the rows of one activity table to the map; fails on the first row
/// whose process cannot be resolved.
pub fn collect_table(
    resolver: &CudaProcessResolver,
    table: &str,
    rows: &Vec<GpuActivityRow>,
    out: &mut DevCtxMap,
) -> (result: NsysDataResult<()>)
    requires
        resolver.wf(),
    ensures
        match result {
            Ok(_) => {
                &&& forall|i: int|
                    0 <= i < rows.len() ==> (#[trigger] rows@[i]).owner(resolver@) is Some
                &&& final(out)@ == with_rows(old(out)@, resolver@, rows@, rows@.len())
            },
            Err(error) => exists|i: int| #[trigger]
                first_unresolved(resolver@, rows@, i) && is_unresolved(error, table@, rows@[i]),
        },
{
    let mut i: usize = 0;
    while i < rows.len()
        invariant
            i <= rows.len(),
            resolver.wf(),
            forall|j: int| 0 <= j < i ==> (#[trigger] rows@[j]).owner(resolver@) is Some,
            out@ == with_rows(old(out)@, resolver@, rows@, i as nat),
        decreases rows.len() - i,
    {
        let row = rows[i];
        let resolved = resolver.resolve_required(
            table,
            row.device_id,
            row.context_id,
            Some(row.correlation_id),
            row.start_ns,
            row.global_pid,
        );
        match resolved {
            Ok(process_id) => {
                out.add_pair(process_id, row.correlation_id, (row.device_id, row.context_id));
            },
            Err(error) => {
                assert(first_unresolved(resolver@, rows@, i as int));
                return Err(error);
            },
        }
        i = i + 1;
    }
    Ok(())
}

/// The rows of one GPU activity table.
#[derive(Debug)]
pub struct ActivityTable {
    pub table: String,
    pub rows: Vec<GpuActivityRow>,
}

/// The tables that can tell which `(device, context)` a correlated runtime
/// call reached, in the order in which they are read.
pub fn gpu_activity_tables() -> (tables: Vec<&'static str>)
    ensures
        tables@.map_values(|t: &'static str| t@) == seq![
            "CUPTI_ACTIVITY_KIND_KERNEL"@,
            "CUPTI_ACTIVITY_KIND_MEMCPY"@,
            "CUPTI_ACTIVITY_KIND_MEMSET"@,
            "CUPTI_ACTIVITY_KIND_SYNCHRONIZATION"@,
        ],
{
    let mut tables: Vec<&'static str> = Vec::new();
    tables.push("CUPTI_ACTIVITY_KIND_KERNEL");
    tables.push("CUPTI_ACTIVITY_KIND_MEMCPY");
    tables.push("CUPTI_ACTIVITY_KIND_MEMSET");
    tables.push("CUPTI_ACTIVITY_KIND_SYNCHRONIZATION");
    assert(tables@.map_values(|t: &'static str| t@) =~= seq![
        "CUPTI_ACTIVITY_KIND_KERNEL"@,
        "CUPTI_ACTIVITY_KIND_MEMCPY"@,
        "CUPTI_ACTIVITY_KIND_MEMSET"@,
        "CUPTI_ACTIVITY_KIND_SYNCHRONIZATION"@,
    ]);
    tables
}

/// The map of the first `n` tables, all of whose rows have an owner.
pub open spec fn with_tables(
    evidence: CudaEvidence,
    tables: Seq<ActivityTable>,
    n: nat,
) -> Map<(i64, i64), DevCtxView>
    decreases n,
{
    if n == 0 {
        Map::empty()
    } else {
        let rows = tables[n - 1].rows@;
        with_rows(with_tables(evidence, tables, (n - 1) as nat), evidence, rows, rows.len())
    }
}

/// Every row of the table has an owner.
pub open spec fn all_owned(evidence: CudaEvidence, table: ActivityTable) -> bool {
    forall|i: int| 0 <= i < table.rows@.len() ==> (#[trigger] table.rows@[i]).owner(evidence) is Some
}

/// Row `i` of table `t` is the first without an owner.
pub open spec fn first_unowned(
    evidence: CudaEvidence,
    tables: Seq<ActivityTable>,
    t: int,
    i: int,
) -> bool {
    &&& 0 <= t < tables.len()
    &&& first_unresolved(evidence, tables[t].rows@, i)
    &&& forall|u: int| 0 <= u < t ==> all_owned(evidence, #[trigger] tables[u])
}

/// Collects `(native_pid, correlation_id)` to `(device_id, context_id)` from
/// the activity tables that the trace has; fails on the first row whose
/// process cannot be resolved.
pub fn collect_runtime_dev_ctx(
    resolver: &CudaProcessResolver,
    tables: &Vec<ActivityTable>,
) -> (map: NsysDataResult<DevCtxMap>)
    requires
        resolver.wf(),
    ensures
        match map {
            Ok(map) => {
                &&& forall|t: int|
                    0 <= t < tables@.len() ==> all_owned(resolver@, #[trigger] tables@[t])
                &&& map@ == with_tables(resolver@, tables@, tables@.len())
                &&& forall|s: Sighting|
                    #[trigger] holds(map@, s) <==> exists|t: int, i: int| #[trigger]
                        sighted_in(tables@, resolver@, t, i, s)
                &&& is_tidy(map@)
            },
            Err(error) => exists|t: int, i: int| #[trigger]
                first_unowned(resolver@, tables@, t, i) && is_unresolved(
                    error,
                    tables@[t].table@,
                    tables@[t].rows@[i],
                ),
        },
{
    let mut map = DevCtxMap::new();
    let mut t: usize = 0;
    while t < tables.len()
        invariant
            t <= tables.len(),
            resolver.wf(),
            forall|u: int| 0 <= u < t ==> all_owned(resolver@, #[trigger] tables@[u]),
            map@ == with_tables(resolver@, tables@, t as nat),
        decreases tables.len() - t,
    {
        match collect_table(resolver, tables[t].table.as_str(), &tables[t].rows, &mut map) {
            Ok(_) => {},
            Err(error) => {
                proof {
                    let rows = tables@[t as int].rows@;
                    let i: int = choose|i: int| #[trigger]
                        first_unresolved(resolver@, rows, i) && is_unresolved(
                            error,
                            tables@[t as int].table@,
                            rows[i],
                        );
                    assert(first_unowned(resolver@, tables@, t as int, i));
                }
                return Err(error);
            },
        }
        t = t + 1;
    }
    proof {
        assert forall|s: Sighting|
            #[trigger] holds(map@, s) <==> exists|t: int, i: int| #[trigger]
                sighted_in(tables@, resolver@, t, i, s) by {
            activity_is_mapped(resolver@, tables@, map@, s);
        }
        activity_is_mapped(resolver@, tables@, map@, (0, 0, 0, 0));
    }
    Ok(map)
}

/// What reading an integer cell gives.
pub enum CellRead {
    /// The cell is null.
    Null,
    /// The cell holds an integer of 64 bits.
    Value(i64),
    /// The cell holds a larger unsigned integer.
    TooLarge(u64),
    /// The column does not hold integers.
    NotInteger,
}

/// What reading the cell at `row` as an integer gives.
pub open spec fn cell_read(c: ColumnData, row: int) -> CellRead {
    if !c.valid[row] {
        CellRead::Null
    } else if !c.kind.is_integer() {
        CellRead::NotInteger
    } else if slot_int(c.slots[row]) > i64::MAX {
        CellRead::TooLarge(slot_int(c.slots[row]) as u64)
    } else {
        CellRead::Value(slot_int(c.slots[row]) as i64)
    }
}

/// The error that reading a cell gives.
pub open spec fn tells_cell(
    error: NsysDataError,
    read: CellRead,
    c: ColumnData,
    column: Seq<char>,
    path: Seq<char>,
) -> bool {
    match read {
        CellRead::TooLarge(n) => error matches NsysDataError::NvtxParentIntegerOverflow {
            path: p,
            column: name,
            value,
        } && p@ == path && name@ == column && value == n,
        CellRead::NotInteger => error matches NsysDataError::NvtxParentUnsupportedIntegerType {
            path: p,
            column: name,
            data_type,
        } && p@ == path && name@ == column && data_type@ == c.kind_name,
        _ => false,
    }
}

/// The integer at a place of a column of any integer type; `None` where it is
/// null. Fails where the column has no integers, or the integer does not fit
/// 64 signed bits.
pub fn parquet_integer_i64(array: &Column, row: usize, column: &str, path: &str) -> (value: NsysDataResult<
    Option<i64>,
>)
    requires
        row < column_data(*array).valid.len(),
        row < column_data(*array).slots.len(),
    ensures
        ({
            let read = cell_read(column_data(*array), row as int);
            match read {
                CellRead::Null => value == Ok::<Option<i64>, NsysDataError>(None),
                CellRead::Value(n) => value == Ok::<Option<i64>, NsysDataError>(Some(n)),
                _ => value matches Err(error) && tells_cell(
                    error,
                    read,
                    column_data(*array),
                    column@,
                    path@,
                ),
            }
        }),
{
    if array.is_null(row) {
        return Ok(None);
    }
    match array.kind() {
        ColumnType::Utf8 | ColumnType::List | ColumnType::Other => Err(
            NsysDataError::nvtx_parent_unsupported_integer_type(
                path,
                column,
                array.kind_name().as_str(),
            ),
        ),
        _ => {
            let value: i128 = array.int_value(row);
            if value > 0x7fff_ffff_ffff_ffff {
                Err(NsysDataError::nvtx_parent_integer_overflow(path, column, value as u64))
            } else {
                Ok(Some(value as i64))
            }
        },
    }
}

/// The first place of `name` among `names`.
pub open spec fn place_of(names: Seq<Seq<char>>, name: Seq<char>) -> Option<int> {
    if exists|i: int| is_place(names, name, i) {
        Some(choose|i: int| is_place(names, name, i))
    } else {
        None
    }
}

/// `name` stands at `i`, and not before.
pub open spec fn is_place(names: Seq<Seq<char>>, name: Seq<char>, i: int) -> bool {
    0 <= i < names.len() && names[i] == name && forall|j: int|
        0 <= j < i ==> #[trigger] names[j] != name
}

/// Index of the column that an activity table has to have.
fn gpu_activity_column_index(names: &Vec<String>, path: &str, column: &str) -> (index: NsysDataResult<
    usize,
>)
    ensures
        match place_of(strings(names@), column@) {
            Some(i) => index == Ok::<usize, NsysDataError>(i as usize) && 0 <= i < names.len(),
            None => index matches Err(error) && is_column_missing(error, column@, path@),
        },
{
    let ghost list = strings(names@);
    let mut i: usize = 0;
    while i < names.len()
        invariant
            i <= names.len(),
            list == strings(names@),
            forall|j: int| 0 <= j < i ==> #[trigger] list[j] != column@,
        decreases names.len() - i,
    {
        if str_eq(names[i].as_str(), column) {
            proof {
                assert(list[i as int] == column@);
                assert(is_place(list, column@, i as int));
                let c: int = choose|c: int| is_place(list, column@, c);
                assert(is_place(list, column@, c));
                assert(c == i);
            }
            return Ok(i);
        }
        i = i + 1;
    }
    Err(NsysDataError::nvtx_parent_gpu_activity_column_missing(path, column))
}

/// The error says that the activity table lacks the column.
pub open spec fn is_column_missing(error: NsysDataError, column: Seq<char>, path: Seq<char>) -> bool {
    error matches NsysDataError::NvtxParentGpuActivityColumnMissing { path: p, column: c } && p@
        == path && c@ == column
}

/// Where an activity table has its correlation, device and context columns.
pub struct ActivityColumns {
    pub corr: int,
    pub dev: int,
    pub ctx: int,
}

/// What one row of an activity table gives.
pub enum ActivityRead {
    /// Nothing: one of its cells is null.
    Skip,
    /// A correlation on a device and context.
    Work(i64, i32, i64),
    /// The cell of the column cannot be read.
    BadCell(int),
    /// The device does not fit 32 bits.
    BadDevice(i64),
}

/// What row `i` of an activity table gives.
pub open spec fn activity_read(data: BatchData, at: ActivityColumns, i: int) -> ActivityRead {
    match cell_read(data.columns[at.corr], i) {
        CellRead::Null => ActivityRead::Skip,
        CellRead::Value(corr) => match cell_read(data.columns[at.dev], i) {
            CellRead::Null => ActivityRead::Skip,
            CellRead::Value(dev) => match cell_read(data.columns[at.ctx], i) {
                CellRead::Null => ActivityRead::Skip,
                CellRead::Value(ctx) => if i32::MIN <= dev <= i32::MAX {
                    ActivityRead::Work(corr, dev as i32, ctx)
                } else {
                    ActivityRead::BadDevice(dev)
                },
                _ => ActivityRead::BadCell(at.ctx),
            },
            _ => ActivityRead::BadCell(at.dev),
        },
        _ => ActivityRead::BadCell(at.corr),
    }
}

/// Row `i` of the table can be read.
pub open spec fn row_reads(data: BatchData, at: ActivityColumns, i: int) -> bool {
    match activity_read(data, at, i) {
        ActivityRead::Skip | ActivityRead::Work(_, _, _) => true,
        _ => false,
    }
}

/// The error that row `i` of the table gives.
pub open spec fn tells_row(
    error: NsysDataError,
    data: BatchData,
    at: ActivityColumns,
    i: int,
    path: Seq<char>,
) -> bool {
    match activity_read(data, at, i) {
        ActivityRead::BadCell(k) => {
            let name = if k == at.corr && cell_fails(data, at.corr, i) {
                "correlationId"@
            } else if k == at.dev && cell_fails(data, at.dev, i) {
                "deviceId"@
            } else {
                "contextId"@
            };
            tells_cell(error, cell_read(data.columns[k], i), data.columns[k], name, path)
        },
        ActivityRead::BadDevice(dev) => error matches NsysDataError::NvtxParentInt32Overflow {
            path: p,
            column,
            value,
        } && p@ == path && column@ == "deviceId"@ && value == dev,
        _ => false,
    }
}

/// The cell cannot be read.
pub open spec fn cell_fails(data: BatchData, k: int, i: int) -> bool {
    cell_read(data.columns[k], i) is TooLarge || cell_read(data.columns[k], i) is NotInteger
}

/// The map with the pair added for the first `n` of the processes.
pub open spec fn with_owners(
    map: Map<(i64, i64), DevCtxView>,
    pids: Seq<i64>,
    corr: i64,
    dx: (i32, i64),
    n: nat,
) -> Map<(i64, i64), DevCtxView>
    decreases n,
{
    if n == 0 {
        map
    } else {
        with_pair(with_owners(map, pids, corr, dx, (n - 1) as nat), pids[n - 1], corr, dx)
    }
}

/// The processes of a `(device, context)`.
pub open spec fn pids_of(
    ctx_for_pid: Map<(i64, i64), Vec<i64>>,
    dev: i32,
    ctx: i64,
) -> Seq<i64> {
    if ctx_for_pid.contains_key((dev as i64, ctx)) {
        ctx_for_pid[(dev as i64, ctx)]@
    } else {
        Seq::empty()
    }
}

/// The map with the first `n` rows of a table added.
pub open spec fn with_table(
    map: Map<(i64, i64), DevCtxView>,
    data: BatchData,
    at: ActivityColumns,
    ctx_for_pid: Map<(i64, i64), Vec<i64>>,
    n: nat,
) -> Map<(i64, i64), DevCtxView>
    decreases n,
{
    if n == 0 {
        map
    } else {
        let before = with_table(map, data, at, ctx_for_pid, (n - 1) as nat);
        match activity_read(data, at, n - 1) {
            ActivityRead::Work(corr, dev, ctx) => {
                let pids = pids_of(ctx_for_pid, dev, ctx);
                with_owners(before, pids, corr, (dev, ctx), pids.len())
            },
            _ => before,
        }
    }
}

/// The map of the first `n` tables.
pub open spec fn of_tables(
    batches: Seq<BatchData>,
    at: ActivityColumns,
    ctx_for_pid: Map<(i64, i64), Vec<i64>>,
    n: nat,
) -> Map<(i64, i64), DevCtxView>
    decreases n,
{
    if n == 0 {
        Map::empty()
    } else {
        let data = batches[n - 1];
        with_table(of_tables(batches, at, ctx_for_pid, (n - 1) as nat), data, at, ctx_for_pid, data.rows)
    }
}

/// All rows of the table can be read.
pub open spec fn table_reads(data: BatchData, at: ActivityColumns) -> bool {
    forall|i: int| 0 <= i < data.rows ==> #[trigger] row_reads(data, at, i)
}

/// All rows of the tables can be read.
pub open spec fn tables_read(batches: Seq<BatchData>, at: ActivityColumns) -> bool {
    forall|t: int| 0 <= t < batches.len() ==> table_reads(#[trigger] batches[t], at)
}

/// Row `i` of table `t` is the first that cannot be read.
pub open spec fn first_bad_row(
    batches: Seq<BatchData>,
    at: ActivityColumns,
    t: int,
    i: int,
) -> bool {
    &&& 0 <= t < batches.len()
    &&& 0 <= i < batches[t].rows
    &&& !row_reads(batches[t], at, i)
    &&& forall|j: int| 0 <= j < i ==> #[trigger] row_reads(batches[t], at, j)
    &&& forall|u: int| 0 <= u < t ==> table_reads(#[trigger] batches[u], at)
}

/// The error tells the first row that cannot be read.
pub open spec fn tells_bad_row(
    error: NsysDataError,
    batches: Seq<BatchData>,
    at: ActivityColumns,
    path: Seq<char>,
) -> bool {
    exists|t: int, i: int| #[trigger]
        first_bad_row(batches, at, t, i) && tells_row(error, batches[t], at, i, path)
}

/// Adds the pair for every process of the `(device, context)`.
fn add_for_owners(
    out: &mut DevCtxMap,
    ctx_for_pid: &PairMap<Vec<i64>>,
    corr: i64,
    dev: i32,
    ctx: i64,
)
    ensures
        final(out)@ == with_owners(
            old(out)@,
            pids_of(ctx_for_pid@, dev, ctx),
            corr,
            (dev, ctx),
            pids_of(ctx_for_pid@, dev, ctx).len(),
        ),
{
    if let Some(pids) = ctx_for_pid.get(dev as i64, ctx) {
        let mut k: usize = 0;
        while k < pids.len()
            invariant
                k <= pids.len(),
                out@ == with_owners(old(out)@, pids@, corr, (dev, ctx), k as nat),
            decreases pids.len() - k,
        {
            out.add_pair(pids[k], corr, (dev, ctx));
            k = k + 1;
        }
    }
}

/// Adds the rows of one table; fails on the first that cannot be read.
fn add_table(
    batch: &Batch,
    corr_idx: usize,
    dev_idx: usize,
    ctx_idx: usize,
    path: &str,
    ctx_for_pid: &PairMap<Vec<i64>>,
    out: &mut DevCtxMap,
) -> (result: NsysDataResult<()>)
    requires
        corr_idx < batch_data(*batch).columns.len(),
        dev_idx < batch_data(*batch).columns.len(),
        ctx_idx < batch_data(*batch).columns.len(),
    ensures
        ({
            let data = batch_data(*batch);
            let at = ActivityColumns {
                corr: corr_idx as int,
                dev: dev_idx as int,
                ctx: ctx_idx as int,
            };
            match result {
                Ok(_) => table_reads(data, at) && final(out)@ == with_table(
                    old(out)@,
                    data,
                    at,
                    ctx_for_pid@,
                    data.rows,
                ),
                Err(error) => exists|i: int|
                    {
                        &&& 0 <= i < data.rows
                        &&& !row_reads(data, at, i)
                        &&& forall|j: int| 0 <= j < i ==> #[trigger] row_reads(data, at, j)
                        &&& #[trigger] tells_row(error, data, at, i, path@)
                    },
            }
        }),
{
    let ghost data = batch_data(*batch);
    let ghost at = ActivityColumns {
        corr: corr_idx as int,
        dev: dev_idx as int,
        ctx: ctx_idx as int,
    };
    let corrs = batch.column(corr_idx);
    let devs = batch.column(dev_idx);
    let ctxs = batch.column(ctx_idx);
    let n: usize = batch.num_rows();
    let mut i: usize = 0;
    while i < n
        invariant
            i <= n,
            n == data.rows,
            data == batch_data(*batch),
            at == (ActivityColumns {
                corr: corr_idx as int,
                dev: dev_idx as int,
                ctx: ctx_idx as int,
            }),
            column_data(corrs) == data.columns[corr_idx as int],
            column_data(devs) == data.columns[dev_idx as int],
            column_data(ctxs) == data.columns[ctx_idx as int],
            column_data(corrs).valid.len() == n,
            column_data(corrs).slots.len() == n,
            column_data(devs).valid.len() == n,
            column_data(devs).slots.len() == n,
            column_data(ctxs).valid.len() == n,
            column_data(ctxs).slots.len() == n,
            forall|j: int| 0 <= j < i ==> #[trigger] row_reads(data, at, j),
            out@ == with_table(old(out)@, data, at, ctx_for_pid@, i as nat),
        decreases n - i,
    {
        let corr = match parquet_integer_i64(&corrs, i, "correlationId", path) {
            Ok(value) => value,
            Err(error) => {
                assert(tells_row(error, data, at, i as int, path@));
                return Err(error);
            },
        };
        if let Some(corr) = corr {
            let dev = match parquet_integer_i64(&devs, i, "deviceId", path) {
                Ok(value) => value,
                Err(error) => {
                    assert(tells_row(error, data, at, i as int, path@));
                    return Err(error);
                },
            };
            if let Some(dev) = dev {
                let ctx = match parquet_integer_i64(&ctxs, i, "contextId", path) {
                    Ok(value) => value,
                    Err(error) => {
                        assert(tells_row(error, data, at, i as int, path@));
                        return Err(error);
                    },
                };
                if let Some(ctx) = ctx {
                    if dev < -0x8000_0000 || dev > 0x7fff_ffff {
                        let error = NsysDataError::nvtx_parent_int32_overflow(path, "deviceId", dev);
                        assert(tells_row(error, data, at, i as int, path@));
                        return Err(error);
                    }
                    add_for_owners(out, ctx_for_pid, corr, dev as i32, ctx);
                }
            }
        }
        assert(row_reads(data, at, i as int));
        i = i + 1;
    }
    Ok(())
}

/// The first column that an activity table has to have and this one lacks.
pub open spec fn missing_column(names: Seq<Seq<char>>) -> Option<Seq<char>> {
    if place_of(names, "correlationId"@) is None {
        Some("correlationId"@)
    } else if place_of(names, "deviceId"@) is None {
        Some("deviceId"@)
    } else if place_of(names, "contextId"@) is None {
        Some("contextId"@)
    } else {
        None
    }
}

/// Where a table with these column names has the columns that are read.
pub open spec fn columns_at(names: Seq<Seq<char>>) -> ActivityColumns {
    ActivityColumns {
        corr: place_of(names, "correlationId"@)->0,
        dev: place_of(names, "deviceId"@)->0,
        ctx: place_of(names, "contextId"@)->0,
    }
}

/// Indices of the correlation, device and context columns.
fn activity_columns(names: &Vec<String>, path: &str) -> (at: NsysDataResult<(usize, usize, usize)>)
    ensures
        match missing_column(strings(names@)) {
            Some(column) => at matches Err(error) && is_column_missing(error, column, path@),
            None => {
                let want = columns_at(strings(names@));
                at matches Ok(got) && got.0 == want.corr && got.1 == want.dev && got.2 == want.ctx
                    && got.0 < names.len() && got.1 < names.len() && got.2 < names.len()
            },
        },
{
    let corr: usize = match gpu_activity_column_index(names, path, "correlationId") {
        Ok(index) => index,
        Err(error) => {
            return Err(error);
        },
    };
    let dev: usize = match gpu_activity_column_index(names, path, "deviceId") {
        Ok(index) => index,
        Err(error) => {
            return Err(error);
        },
    };
    let ctx: usize = match gpu_activity_column_index(names, path, "contextId") {
        Ok(index) => index,
        Err(error) => {
            return Err(error);
        },
    };
    Ok((corr, dev, ctx))
}

/// The map of the tables; fails on the first row that cannot be read.
fn map_tables(
    batches: &Vec<Batch>,
    columns: (usize, usize, usize),
    path: &str,
    ctx_for_pid: &PairMap<Vec<i64>>,
) -> (map: NsysDataResult<DevCtxMap>)
    requires
        forall|t: int|
            0 <= t < batches.len() ==> {
                let n = batch_data(#[trigger] batches@[t]).columns.len();
                columns.0 < n && columns.1 < n && columns.2 < n
            },
    ensures
        ({
            let tables = batch_views(batches@);
            let at = ActivityColumns {
                corr: columns.0 as int,
                dev: columns.1 as int,
                ctx: columns.2 as int,
            };
            match map {
                Ok(m) => tables_read(tables, at) && m@ == of_tables(
                    tables,
                    at,
                    ctx_for_pid@,
                    tables.len(),
                ),
                Err(error) => tells_bad_row(error, tables, at, path@),
            }
        }),
{
    let ghost tables = batch_views(batches@);
    let ghost at = ActivityColumns {
        corr: columns.0 as int,
        dev: columns.1 as int,
        ctx: columns.2 as int,
    };
    let mut out = DevCtxMap::new();
    let mut t: usize = 0;
    while t < batches.len()
        invariant
            t <= batches.len(),
            tables == batch_views(batches@),
            at == (ActivityColumns {
                corr: columns.0 as int,
                dev: columns.1 as int,
                ctx: columns.2 as int,
            }),
            forall|u: int|
                0 <= u < batches.len() ==> {
                    let n = batch_data(#[trigger] batches@[u]).columns.len();
                    columns.0 < n && columns.1 < n && columns.2 < n
                },
            forall|u: int| 0 <= u < t ==> table_reads(#[trigger] tables[u], at),
            out@ == of_tables(tables, at, ctx_for_pid@, t as nat),
        decreases batches.len() - t,
    {
        assert(tables[t as int] == batch_data(batches@[t as int]));
        match add_table(&batches[t], columns.0, columns.1, columns.2, path, ctx_for_pid, &mut out) {
            Ok(_) => {},
            Err(error) => {
                proof {
                    let data = tables[t as int];
                    let i: int = choose|i: int|
                        {
                            &&& 0 <= i < data.rows
                            &&& !row_reads(data, at, i)
                            &&& forall|j: int| 0 <= j < i ==> #[trigger] row_reads(data, at, j)
                            &&& #[trigger] tells_row(error, data, at, i, path@)
                        };
                    assert(tells_row(error, data, at, i, path@));
                    assert(first_bad_row(tables, at, t as int, i));
                }
                return Err(error);
            },
        }
        t = t + 1;
    }
    Ok(out)
}

/// What the tables of one GPU activity file come to: the map, or why there is
/// none.
pub open spec fn tells_tables(
    map: NsysDataResult<DevCtxMap>,
    names: Seq<Seq<char>>,
    batches: Seq<BatchData>,
    path: Seq<char>,
    ctx_for_pid: Map<(i64, i64), Vec<i64>>,
) -> bool {
    match missing_column(names) {
        Some(column) => map matches Err(error) && is_column_missing(error, column, path),
        None => match map {
            Ok(m) => tables_read(batches, columns_at(names)) && m@ == of_tables(
                batches,
                columns_at(names),
                ctx_for_pid,
                batches.len(),
            ),
            Err(error) => tells_bad_row(error, batches, columns_at(names), path),
        },
    }
}

/// Reads the tables of one GPU activity file and projects each row through
/// `ctx_for_pid` to a `(native_pid, correlation_id)` to
/// `(device_id, context_id)` entry.
///
/// `names` are the names of the file's columns.
pub fn read_gpu_dev_ctx(
    names: &Vec<String>,
    batches: &Vec<Batch>,
    path: &str,
    ctx_for_pid: &PairMap<Vec<i64>>,
) -> (map: NsysDataResult<DevCtxMap>)
    requires
        forall|t: int|
            0 <= t < batches.len() ==> batch_data(#[trigger] batches@[t]).columns.len()
                == names.len(),
    ensures
        tells_tables(map, strings(names@), batch_views(batches@), path@, ctx_for_pid@),
{
    match activity_columns(names, path) {
        Ok(columns) => map_tables(batches, columns, path, ctx_for_pid),
        Err(error) => Err(error),
    }
}

/// What reading one GPU activity file comes to.
pub open spec fn tells_activity(
    map: NsysDataResult<DevCtxMap>,
    read: FileRead,
    path: Seq<char>,
    ctx_for_pid: Map<(i64, i64), Vec<i64>>,
) -> bool {
    match read {
        FileRead::Refused(why) => map matches Err(NsysDataError::NvtxParentGpuActivityReaderOpen {
            path: p,
            source,
        }) && p@ == path && source@ == why,
        FileRead::Opened(c) => if missing_column(c.names) is Some {
            map matches Err(error) && is_column_missing(error, missing_column(c.names)->0, path)
        } else if c.unbuilt is Some {
            map matches Err(NsysDataError::NvtxParentGpuActivityReaderBuild { path: p, source })
                && p@ == path && source@ == c.unbuilt->0
        } else if c.failure is Some && tables_read(c.batches, columns_at(c.names)) {
            map matches Err(NsysDataError::NvtxParentGpuActivityBatchRead { path: p, source })
                && p@ == path && source@ == c.failure->0
        } else {
            tells_tables(map, c.names, c.batches, path, ctx_for_pid)
        },
    }
}

/// Reads the bytes of the GPU activity file at `path` and projects each row
/// through `ctx_for_pid`, as [`read_gpu_dev_ctx`] does.
///
/// The bytes have to be such that reading them comes to an end.
pub fn read_gpu_dev_ctx_parquet(
    bytes: Vec<u8>,
    path: &str,
    ctx_for_pid: &PairMap<Vec<i64>>,
) -> (map: NsysDataResult<DevCtxMap>)
    requires
        parquet_returns(bytes@),
    ensures
        tells_activity(map, parquet_read(bytes@), path@, ctx_for_pid@),
{
    let file = match read_file(bytes) {
        Ok(file) => file,
        Err(why) => {
            return Err(NsysDataError::nvtx_parent_gpu_activity_reader_open(path, why.as_str()));
        },
    };
    let columns = match activity_columns(&file.names, path) {
        Ok(columns) => columns,
        Err(error) => {
            return Err(error);
        },
    };
    if let Some(why) = &file.unbuilt {
        return Err(NsysDataError::nvtx_parent_gpu_activity_reader_build(path, why.as_str()));
    }
    let map = match map_tables(&file.batches, columns, path, ctx_for_pid) {
        Ok(map) => map,
        Err(error) => {
            proof {
                let tables = batch_views(file.batches@);
                let at = columns_at(strings(file.names@));
                let (t, i) = choose|t: int, i: int| #[trigger]
                    first_bad_row(tables, at, t, i) && tells_row(error, tables[t], at, i, path@);
                assert(!table_reads(tables[t], at)) by {
                    assert(!row_reads(tables[t], at, i));
                }
            }
            return Err(error);
        },
    };
    match &file.failure {
        Some(why) => Err(
            NsysDataError::nvtx_parent_gpu_activity_batch_read(path, why.as_str()),
        ),
        None => Ok(map),
    }
}

/// The map with the first `n` pieces of work added, each a correlation, a device
/// and a context.
pub open spec fn with_work(
    work: Seq<(i64, i32, i64)>,
    ctx_for_pid: Map<(i64, i64), Vec<i64>>,
    n: nat,
) -> Map<(i64, i64), DevCtxView>
    decreases n,
{
    if n == 0 {
        Map::empty()
    } else {
        let (corr, dev, ctx) = work[n - 1];
        let pids = pids_of(ctx_for_pid, dev, ctx);
        with_owners(
            with_work(work, ctx_for_pid, (n - 1) as nat),
            pids,
            corr,
            (dev, ctx),
            pids.len(),
        )
    }
}

/// The columns of an activity file as they are written.
pub open spec fn stored_work(work: Seq<(i64, i32, i64)>) -> Seq<StoredColumn> {
    let column = |name: Seq<char>, kind: ColumnType, cells: Seq<Option<Slot>>|
        StoredColumn { name, kind, items: None, nullable: false, cells };
    seq![
        column(
            "correlationId"@,
            ColumnType::Int64,
            work.map_values(|w: (i64, i32, i64)| Some(Slot::Int(w.0 as int))),
        ),
        column(
            "deviceId"@,
            ColumnType::Int32,
            work.map_values(|w: (i64, i32, i64)| Some(Slot::Int(w.1 as int))),
        ),
        column(
            "contextId"@,
            ColumnType::Int64,
            work.map_values(|w: (i64, i32, i64)| Some(Slot::Int(w.2 as int))),
        ),
    ]
}

/// The table holds the work, row by row.
spec fn holds_work(data: BatchData, work: Seq<(i64, i32, i64)>) -> bool {
    &&& data.names == seq!["correlationId"@, "deviceId"@, "contextId"@]
    &&& data.columns.len() == 3
    &&& data.columns[0].kind == ColumnType::Int64
    &&& data.columns[1].kind == ColumnType::Int32
    &&& data.columns[2].kind == ColumnType::Int64
    &&& data.rows == work.len()
    &&& forall|i: int|
        0 <= i < work.len() ==> {
            let w = #[trigger] work[i];
            &&& is_int(data.columns[0], i, w.0 as int)
            &&& is_int(data.columns[1], i, w.1 as int)
            &&& is_int(data.columns[2], i, w.2 as int)
        }
}

/// Where a table of work has its columns.
spec fn work_columns() -> ActivityColumns {
    ActivityColumns { corr: 0, dev: 1, ctx: 2 }
}

proof fn work_names(names: Seq<Seq<char>>)
    requires
        names == seq!["correlationId"@, "deviceId"@, "contextId"@],
    ensures
        names.no_duplicates(),
        missing_column(names) is None,
        columns_at(names) == work_columns(),
{
    reveal_strlit("correlationId");
    reveal_strlit("deviceId");
    reveal_strlit("contextId");
    assert("correlationId"@.len() == 13 && "deviceId"@.len() == 8 && "contextId"@.len() == 9);
    assert(is_place(names, "correlationId"@, 0));
    assert(is_place(names, "deviceId"@, 1));
    assert(is_place(names, "contextId"@, 2));
    let a: int = choose|i: int| is_place(names, "correlationId"@, i);
    let b: int = choose|i: int| is_place(names, "deviceId"@, i);
    let c: int = choose|i: int| is_place(names, "contextId"@, i);
    assert(is_place(names, "correlationId"@, a) && is_place(names, "deviceId"@, b) && is_place(
        names,
        "contextId"@,
        c,
    ));
}

/// The work as a table.
fn encode_work(work: &Vec<(i64, i32, i64)>) -> (batch: NsysDataResult<Batch>)
    ensures
        batch matches Ok(b) && holds_work(batch_data(b), work@) && is_sidecar_table(
            batch_data(b),
        ) && stored_table(batch_data(b)) == stored_work(work@),
{
    let n: usize = work.len();
    let mut corrs: Vec<i64> = Vec::with_capacity(n);
    let mut devs: Vec<i32> = Vec::with_capacity(n);
    let mut ctxs: Vec<i64> = Vec::with_capacity(n);
    let mut i: usize = 0;
    while i < n
        invariant
            i <= n,
            n == work.len(),
            corrs.len() == i,
            devs.len() == i,
            ctxs.len() == i,
            forall|x: int| 0 <= x < i ==> (#[trigger] corrs@[x]) == work@[x].0,
            forall|x: int| 0 <= x < i ==> (#[trigger] devs@[x]) == work@[x].1,
            forall|x: int| 0 <= x < i ==> (#[trigger] ctxs@[x]) == work@[x].2,
        decreases n - i,
    {
        corrs.push(work[i].0);
        devs.push(work[i].1);
        ctxs.push(work[i].2);
        i = i + 1;
    }
    let mut columns: Vec<Column> = Vec::new();
    columns.push(required_int64_column(&corrs));
    columns.push(required_int32_column(&devs));
    columns.push(required_int64_column(&ctxs));
    let mut fields: Vec<ColumnField> = Vec::new();
    fields.push(plain_field("correlationId", ColumnType::Int64));
    fields.push(plain_field("deviceId", ColumnType::Int32));
    fields.push(plain_field("contextId", ColumnType::Int64));
    let ghost data = columns@.map_values(|c: Column| column_data(c));
    assert forall|x: int| 0 <= x < n implies {
        let w = #[trigger] work@[x];
        &&& is_int(data[0], x, w.0 as int)
        &&& is_int(data[1], x, w.1 as int)
        &&& is_int(data[2], x, w.2 as int)
    } by {
        assert(is_int(data[0], x, corrs@[x] as int));
        assert(is_int(data[1], x, devs@[x] as int));
        assert(is_int(data[2], x, ctxs@[x] as int));
    }
    assert forall|k: int| 0 <= k < columns@.len() implies column_data(
        #[trigger] columns@[k],
    ).valid.len() == n && fields@[k].admits(column_data(columns@[k])) by {
        let c = column_data(columns@[k]);
        assert(c == data[k]);
        assert forall|x: int| 0 <= x < c.valid.len() implies #[trigger] c.valid[x] by {
            let w = work@[x];
        }
    }
    match batch_of(&fields, columns) {
        Ok(batch) => {
            proof {
                let b = batch_data(batch);
                assert(b.columns =~= data);
                assert(b.names =~= seq!["correlationId"@, "deviceId"@, "contextId"@]);
                assert(b.nullable =~= seq![false, false, false]);
                work_names(b.names);
                assert(holds_work(b, work@));
                let got = stored_table(b);
                let want = stored_work(work@);
                assert(got[0].cells =~= want[0].cells);
                assert(got[1].cells =~= want[1].cells);
                assert(got[2].cells =~= want[2].cells);
                assert(got =~= want);
            }
            Ok(batch)
        },
        Err(message) => Err(NsysDataError::nvtx_parent_record_batch(message.as_str())),
    }
}

/// A column of integers that holds no nulls.
fn plain_field(name: &str, kind: ColumnType) -> (field: ColumnField)
    ensures
        field.name@ == name@,
        field.kind == kind,
        !field.nullable,
{
    ColumnField {
        name: name.to_owned(),
        kind,
        item_kind: ColumnType::Other,
        nullable: false,
    }
}

/// A row of a part gives what the row of the whole gives.
proof fn part_read(part: BatchData, whole: BatchData, from: nat, i: int)
    requires
        is_part(part, whole, from),
        whole.columns.len() == 3,
        0 <= i < part.rows,
    ensures
        activity_read(part, work_columns(), i) == activity_read(whole, work_columns(), from + i),
        row_reads(part, work_columns(), i) == row_reads(whole, work_columns(), from + i),
{
    assert forall|k: int| 0 <= k < 3 implies #[trigger] cell_read(part.columns[k], i) == cell_read(
        whole.columns[k],
        from + i,
    ) by {
        let v = part.columns[k].valid[i];
        assert(same_place(part.columns[k], i, whole.columns[k], from + i));
        assert(part.columns[k].kind == whole.columns[k].kind);
    }
    assert(cell_read(part.columns[0], i) == cell_read(whole.columns[0], from + i));
    assert(cell_read(part.columns[1], i) == cell_read(whole.columns[1], from + i));
    assert(cell_read(part.columns[2], i) == cell_read(whole.columns[2], from + i));
}

/// The rows of a part carry the map on from where the part starts.
proof fn part_maps(
    part: BatchData,
    whole: BatchData,
    from: nat,
    ctx_for_pid: Map<(i64, i64), Vec<i64>>,
    n: nat,
)
    requires
        is_part(part, whole, from),
        whole.columns.len() == 3,
        n <= part.rows,
    ensures
        with_table(
            with_table(Map::empty(), whole, work_columns(), ctx_for_pid, from),
            part,
            work_columns(),
            ctx_for_pid,
            n,
        ) == with_table(Map::empty(), whole, work_columns(), ctx_for_pid, from + n),
    decreases n,
{
    if n > 0 {
        part_maps(part, whole, from, ctx_for_pid, (n - 1) as nat);
        part_read(part, whole, from, n - 1);
        assert((from + n - 1) as nat == from + (n - 1) as nat);
    }
}

/// The parts of a table come to the map of the whole.
proof fn split_maps(
    batches: Seq<BatchData>,
    whole: BatchData,
    ctx_for_pid: Map<(i64, i64), Vec<i64>>,
    n: nat,
)
    requires
        is_split(batches, whole),
        whole.columns.len() == 3,
        table_reads(whole, work_columns()),
        n <= batches.len(),
    ensures
        forall|t: int| 0 <= t < n ==> table_reads(#[trigger] batches[t], work_columns()),
        of_tables(batches, work_columns(), ctx_for_pid, n) == with_table(
            Map::empty(),
            whole,
            work_columns(),
            ctx_for_pid,
            rows_before(batches, n),
        ),
    decreases n,
{
    if n > 0 {
        split_maps(batches, whole, ctx_for_pid, (n - 1) as nat);
        let from = rows_before(batches, (n - 1) as nat);
        let part = batches[n - 1];
        rows_before_grows(batches, n);
        part_maps(part, whole, from, ctx_for_pid, part.rows);
        assert forall|i: int| 0 <= i < part.rows implies #[trigger] row_reads(
            part,
            work_columns(),
            i,
        ) by {
            part_read(part, whole, from, i);
            assert(row_reads(whole, work_columns(), from + i));
        }
    }
}

/// A table of work comes to the map of the work.
proof fn work_maps(
    whole: BatchData,
    work: Seq<(i64, i32, i64)>,
    ctx_for_pid: Map<(i64, i64), Vec<i64>>,
    n: nat,
)
    requires
        holds_work(whole, work),
        n <= work.len(),
    ensures
        forall|i: int| 0 <= i < n ==> #[trigger] row_reads(whole, work_columns(), i),
        with_table(Map::empty(), whole, work_columns(), ctx_for_pid, n) == with_work(
            work,
            ctx_for_pid,
            n,
        ),
    decreases n,
{
    if n > 0 {
        work_maps(whole, work, ctx_for_pid, (n - 1) as nat);
        let w = work[n - 1];
        assert(activity_read(whole, work_columns(), n - 1) == ActivityRead::Work(w.0, w.1, w.2));
    }
}

/// What storing the work and reading it comes to.
pub open spec fn tells_work(
    map: NsysDataResult<DevCtxMap>,
    work: Seq<(i64, i32, i64)>,
    path: Seq<char>,
    ctx_for_pid: Map<(i64, i64), Vec<i64>>,
) -> bool {
    match (parquet_written(stored_work(work), Seq::empty()), map) {
        (Writing::Written(_), Ok(m)) => m@ == with_work(work, ctx_for_pid, work.len()),
        (Writing::Written(_), Err(_)) => false,
        (_, Ok(_)) => false,
        (failed, Err(error)) => tells_written(Err(error), failed, path),
    }
}

/// Writes an activity file of the work, each piece a correlation, a device and a
/// context, and reads it back as [`read_gpu_dev_ctx_parquet`] does.
pub fn stored_gpu_dev_ctx(
    work: &Vec<(i64, i32, i64)>,
    path: &str,
    ctx_for_pid: &PairMap<Vec<i64>>,
) -> (map: NsysDataResult<DevCtxMap>)
    ensures
        tells_work(map, work@, path@, ctx_for_pid@),
{
    let batch = match encode_work(work) {
        Ok(batch) => batch,
        Err(error) => {
            return Err(error);
        },
    };
    let ghost whole = batch_data(batch);
    let entries: Vec<KeyValue> = Vec::new();
    assert(entry_views(entries@) =~= Seq::<Entry>::empty());
    match write_file(&batch, entries) {
        Ok(bytes) => {
            let ghost c = parquet_read(bytes@)->Opened_0;
            let map = read_gpu_dev_ctx_parquet(bytes, path, ctx_for_pid);
            proof {
                work_names(c.names);
                work_maps(whole, work@, ctx_for_pid@, work@.len());
                split_maps(c.batches, whole, ctx_for_pid@, c.batches.len());
                if map is Err {
                    let (t, i) = choose|t: int, i: int| #[trigger]
                        first_bad_row(c.batches, work_columns(), t, i) && tells_row(
                            map->Err_0,
                            c.batches[t],
                            work_columns(),
                            i,
                            path@,
                        );
                    assert(table_reads(c.batches[t], work_columns()));
                    assert(row_reads(c.batches[t], work_columns(), i));
                }
            }
            map
        },
        Err(WriteFault::Open(why)) => Err(
            NsysDataError::nvtx_parent_writer_open(path, why.as_str()),
        ),
        Err(WriteFault::Write(why)) => Err(
            NsysDataError::nvtx_parent_writer_write(path, why.as_str()),
        ),
        Err(WriteFault::Close(why)) => Err(
            NsysDataError::nvtx_parent_writer_close(path, why.as_str()),
        ),
    }
}

} // verus!
