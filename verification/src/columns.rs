//! Arrow columns and record batches.
//!
//! The sidecars are tables of Arrow columns. [`Column`] and [`Batch`] hold an
//! Arrow array and an Arrow record batch; [`column_data`] and [`batch_data`]
//! name what they hold, and the functions of this module are the calls into
//! the `arrow` crate that the rest of the library makes.
use arrow::array::{
    Array, ArrayRef, AsArray, Int32Array, Int64Array, ListArray, StringArray,
};
use arrow::buffer::OffsetBuffer;
use arrow::datatypes::{
    DataType, Field, Int16Type, Int32Type, Int64Type, Int8Type, Schema, UInt16Type, UInt32Type,
    UInt64Type, UInt8Type,
};
use arrow::record_batch::RecordBatch;
use std::sync::Arc;
use vstd::prelude::*;
use vstd::utf8::encode_utf8;

verus! {

/// The Arrow data types that the library tells apart.
#[derive(Debug, Clone, Copy, PartialEq, Eq, Structural)]
pub enum ColumnType {
    Int8,
    Int16,
    Int32,
    Int64,
    UInt8,
    UInt16,
    UInt32,
    UInt64,
    Utf8,
    List,
    Other,
}

impl ColumnType {
    /// A type whose values are integers of at most 64 bits.
    pub open spec fn is_integer(self) -> bool {
        match self {
            ColumnType::Utf8 | ColumnType::List | ColumnType::Other => false,
            _ => true,
        }
    }
}

/// What one place of a column holds.
pub enum Slot {
    Int(int),
    Text(Seq<char>),
    List(Seq<Slot>),
    Other,
}

/// What a column holds.
pub struct ColumnData {
    /// Its data type.
    pub kind: ColumnType,
    /// Its data type as Arrow prints it.
    pub kind_name: Seq<char>,
    /// Data type of the items, where the column holds lists.
    pub item_kind: ColumnType,
    /// That type as Arrow prints it.
    pub item_kind_name: Seq<char>,
    /// The list items are described by the field that `Field::new_list_field`
    /// makes: nullable, and named `item`.
    pub plain_items: bool,
    /// No list item is null.
    pub full_items: bool,
    /// It was made of its values by one of the functions of this module, so
    /// that they fix how it is laid out.
    pub built: bool,
    /// Which places are not null.
    pub valid: Seq<bool>,
    /// What the places hold. The value behind a null is arbitrary.
    pub slots: Seq<Slot>,
}

/// What a record batch holds.
pub struct BatchData {
    /// Column names.
    pub names: Seq<Seq<char>>,
    /// Columns, all of the same length.
    pub columns: Seq<ColumnData>,
    /// That length.
    pub rows: nat,
    /// Which columns may hold nulls.
    pub nullable: Seq<bool>,
    /// It was made of columns that were built, and neither its schema nor a
    /// field of it carries metadata.
    pub built: bool,
}

/// An Arrow array.
#[verifier::external_body]
pub struct Column {
    pub inner: ArrayRef,
}

/// An Arrow record batch.
#[verifier::external_body]
pub struct Batch {
    pub inner: RecordBatch,
}

/// What an Arrow array holds.
pub uninterp spec fn column_data(c: Column) -> ColumnData;

/// What an Arrow record batch holds.
pub uninterp spec fn batch_data(b: Batch) -> BatchData;

/// What record batches hold.
pub open spec fn batch_views(batches: Seq<Batch>) -> Seq<BatchData> {
    batches.map_values(|b: Batch| batch_data(b))
}

/// Number of bytes of the strings in UTF-8.
pub open spec fn text_bytes(texts: Seq<String>) -> nat
    decreases texts.len(),
{
    if texts.len() == 0 {
        0
    } else {
        text_bytes(texts.drop_last()) + encode_utf8(texts.last()@).len()
    }
}

/// Whether the strings fit a column with 32-bit offsets.
pub fn texts_fit(texts: &Vec<String>) -> (fit: bool)
    ensures
        fit == (text_bytes(texts@) <= i32::MAX),
{
    let mut total: u64 = 0;
    let mut i: usize = 0;
    while i < texts.len()
        invariant
            i <= texts.len(),
            total == text_bytes(texts@.subrange(0, i as int)),
            total <= i32::MAX,
        decreases texts.len() - i,
    {
        let n: u64 = texts[i].as_str().as_bytes().len() as u64;
        proof {
            let more = texts@.subrange(0, i + 1);
            assert(more.drop_last() =~= texts@.subrange(0, i as int));
            assert(more.last() == texts@[i as int]);
        }
        if n > 0x7fff_ffff || total + n > 0x7fff_ffff {
            proof {
                text_bytes_grow(texts@, i + 1);
            }
            return false;
        }
        total = total + n;
        i = i + 1;
    }
    assert(texts@.subrange(0, texts.len() as int) =~= texts@);
    true
}

proof fn text_bytes_grow(texts: Seq<String>, n: int)
    requires
        0 <= n <= texts.len(),
    ensures
        text_bytes(texts.subrange(0, n)) <= text_bytes(texts),
    decreases texts.len() - n,
{
    if n < texts.len() {
        text_bytes_grow(texts, n + 1);
        assert(texts.subrange(0, n + 1).drop_last() =~= texts.subrange(0, n));
    } else {
        assert(texts.subrange(0, n) =~= texts);
    }
}

/// The offsets delimit lists over `items` values.
pub open spec fn delimits(offsets: Seq<i32>, items: nat) -> bool {
    &&& offsets.len() > 0
    &&& offsets[0] == 0
    &&& offsets.last() <= items
    &&& forall|i: int, j: int|
        #![trigger offsets[i], offsets[j]]
        0 <= i <= j < offsets.len() ==> offsets[i] <= offsets[j]
}

/// One column of a schema.
#[derive(Debug)]
pub struct ColumnField {
    pub name: String,
    pub kind: ColumnType,
    /// Type of the items of a list column.
    pub item_kind: ColumnType,
    pub nullable: bool,
}

impl ColumnField {
    /// The column can stand under the field: same type, and no nulls unless
    /// the field is nullable.
    pub open spec fn admits(self, c: ColumnData) -> bool {
        &&& self.kind == c.kind
        &&& self.kind == ColumnType::List ==> self.item_kind == c.item_kind && c.plain_items
        &&& !self.nullable ==> forall|i: int| 0 <= i < c.valid.len() ==> #[trigger] c.valid[i]
    }

    /// The types that the sidecars use.
    pub open spec fn is_sidecar_field(self) -> bool {
        match self.kind {
            ColumnType::Int32 | ColumnType::Int64 | ColumnType::Utf8 => true,
            ColumnType::List => self.item_kind == ColumnType::Int64 || self.item_kind
                == ColumnType::Utf8,
            _ => false,
        }
    }
}

/// An `Int64Array` with the given values: `Int64Array::from(Vec<Option<i64>>)`
/// makes a place for each value, null where it is `None`.
#[verifier::external_body]
pub(crate) fn int64_column(values: Vec<Option<i64>>) -> (c: Column)
    ensures
        column_data(c).kind == ColumnType::Int64,
        column_data(c).built,
        column_data(c).valid.len() == values@.len(),
        column_data(c).slots.len() == values@.len(),
        forall|i: int|
            0 <= i < values@.len() ==> (#[trigger] column_data(c).valid[i]) == (values@[i] is Some),
        forall|i: int|
            0 <= i < values@.len() && values@[i] is Some ==> (#[trigger] column_data(c).slots[i])
                == Slot::Int(values@[i]->0 as int),
{
    Column { inner: Arc::new(Int64Array::from(values)) }
}

/// An `Int32Array` with the given values: `Int32Array::from(Vec<Option<i32>>)`
/// makes a place for each value, null where it is `None`.
#[verifier::external_body]
pub(crate) fn int32_column(values: Vec<Option<i32>>) -> (c: Column)
    ensures
        column_data(c).kind == ColumnType::Int32,
        column_data(c).built,
        column_data(c).valid.len() == values@.len(),
        column_data(c).slots.len() == values@.len(),
        forall|i: int|
            0 <= i < values@.len() ==> (#[trigger] column_data(c).valid[i]) == (values@[i] is Some),
        forall|i: int|
            0 <= i < values@.len() && values@[i] is Some ==> (#[trigger] column_data(c).slots[i])
                == Slot::Int(values@[i]->0 as int),
{
    Column { inner: Arc::new(Int32Array::from(values)) }
}

/// A `StringArray` with the given values: `StringArray::from(Vec<String>)`
/// makes a place for each string, none of them null. It panics where the
/// strings together have more bytes than a 32-bit offset can count.
#[verifier::external_body]
pub(crate) fn utf8_column(values: Vec<String>) -> (c: Column)
    requires
        text_bytes(values@) <= i32::MAX,
    ensures
        column_data(c).kind == ColumnType::Utf8,
        column_data(c).built,
        column_data(c).valid.len() == values@.len(),
        column_data(c).slots.len() == values@.len(),
        forall|i: int| 0 <= i < values@.len() ==> #[trigger] column_data(c).valid[i],
        forall|i: int|
            0 <= i < values@.len() ==> (#[trigger] column_data(c).slots[i]) == Slot::Text(
                values@[i]@,
            ),
{
    Column { inner: Arc::new(StringArray::from(values)) }
}

/// A `ListArray` over `values`: `ListArray::new` makes one list of each pair of
/// neighbouring offsets, none of them null, under the list item field that
/// `Field::new_list_field` makes: nullable, and named `item`. It panics on
/// offsets that do not delimit lists over the values.
#[verifier::external_body]
pub(crate) fn list_column(offsets: Vec<i32>, values: Column) -> (c: Column)
    requires
        delimits(offsets@, column_data(values).slots.len()),
    ensures
        column_data(c).kind == ColumnType::List,
        column_data(c).item_kind == column_data(values).kind,
        column_data(c).plain_items,
        (forall|i: int|
            0 <= i < column_data(values).valid.len() ==> #[trigger] column_data(values).valid[i])
            ==> column_data(c).full_items,
        column_data(values).built && offsets@.last() == column_data(values).slots.len()
            ==> column_data(c).built,
        column_data(c).valid.len() == offsets@.len() - 1,
        column_data(c).slots.len() == offsets@.len() - 1,
        forall|i: int| 0 <= i < offsets@.len() - 1 ==> #[trigger] column_data(c).valid[i],
        forall|i: int|
            0 <= i < offsets@.len() - 1 ==> (#[trigger] column_data(c).slots[i]) == Slot::List(
                column_data(values).slots.subrange(offsets@[i] as int, offsets@[i + 1] as int),
            ),
{
    let field = Arc::new(Field::new_list_field(values.inner.data_type().clone(), true));
    let offsets = OffsetBuffer::new(offsets.into());
    Column { inner: Arc::new(ListArray::new(field, offsets, values.inner, None)) }
}

/// A `RecordBatch` of the columns: `RecordBatch::try_new` succeeds exactly when
/// there is a column, there is a field for each, all columns have the length
/// of the first, and each has its field's type and, where the field is not
/// nullable, no nulls. `Schema::new` and `Field::new` give neither any metadata.
/// On failure it gives the text of the Arrow error.
#[verifier::external_body]
pub(crate) fn batch_of(fields: &Vec<ColumnField>, columns: Vec<Column>) -> (batch: Result<
    Batch,
    String,
>)
    requires
        forall|i: int| 0 <= i < fields@.len() ==> (#[trigger] fields@[i]).is_sidecar_field(),
    ensures
        batch is Ok <==> {
            &&& fields@.len() == columns@.len()
            &&& columns@.len() > 0
            &&& forall|i: int|
                0 <= i < columns@.len() ==> column_data(#[trigger] columns@[i]).valid.len()
                    == column_data(columns@[0]).valid.len() && fields@[i].admits(
                    column_data(columns@[i]),
                )
        },
        batch matches Ok(b) ==> {
            &&& batch_data(b).rows == column_data(columns@[0]).valid.len()
            &&& batch_data(b).names == fields@.map_values(|f: ColumnField| f.name@)
            &&& batch_data(b).columns == columns@.map_values(|c: Column| column_data(c))
            &&& batch_data(b).nullable == fields@.map_values(|f: ColumnField| f.nullable)
            &&& (forall|i: int|
                0 <= i < columns@.len() ==> column_data(#[trigger] columns@[i]).built)
                ==> batch_data(b).built
        },
{
    let kind = |k: ColumnType| match k {
        ColumnType::Int32 => DataType::Int32,
        ColumnType::Int64 => DataType::Int64,
        _ => DataType::Utf8,
    };
    let field = |f: &ColumnField| match f.kind {
        ColumnType::List => Field::new_list(&f.name, Field::new_list_field(kind(f.item_kind), true), f.nullable),
        other => Field::new(&f.name, kind(other), f.nullable),
    };
    let schema = Schema::new(fields.iter().map(field).collect::<Vec<Field>>());
    let arrays = columns.into_iter().map(|c| c.inner).collect();
    RecordBatch::try_new(Arc::new(schema), arrays).map(|inner| Batch { inner }).map_err(|e| e.to_string())
}

impl Batch {
    /// `RecordBatch::num_rows` is the length of the columns.
    #[verifier::external_body]
    pub(crate) fn num_rows(&self) -> (n: usize)
        ensures
            n == batch_data(*self).rows,
    {
        self.inner.num_rows()
    }

    /// `RecordBatch::num_columns` is the number of columns.
    #[verifier::external_body]
    pub(crate) fn num_columns(&self) -> (n: usize)
        ensures
            n == batch_data(*self).columns.len(),
    {
        self.inner.num_columns()
    }

    /// `RecordBatch::column` is the column at an index; every column of a batch
    /// is as long as the batch has rows. It panics on an index that is too
    /// large.
    #[verifier::external_body]
    pub(crate) fn column(&self, index: usize) -> (c: Column)
        requires
            index < batch_data(*self).columns.len(),
        ensures
            column_data(c) == batch_data(*self).columns[index as int],
            column_data(c).valid.len() == batch_data(*self).rows,
            column_data(c).slots.len() == batch_data(*self).rows,
    {
        Column { inner: self.inner.column(index).clone() }
    }
}

impl Column {
    /// `Array::data_type` is the type of the column.
    #[verifier::external_body]
    pub(crate) fn kind(&self) -> (kind: ColumnType)
        ensures
            kind == column_data(*self).kind,
    {
        match self.inner.data_type() {
            DataType::Int8 => ColumnType::Int8,
            DataType::Int16 => ColumnType::Int16,
            DataType::Int32 => ColumnType::Int32,
            DataType::Int64 => ColumnType::Int64,
            DataType::UInt8 => ColumnType::UInt8,
            DataType::UInt16 => ColumnType::UInt16,
            DataType::UInt32 => ColumnType::UInt32,
            DataType::UInt64 => ColumnType::UInt64,
            DataType::Utf8 => ColumnType::Utf8,
            DataType::List(_) => ColumnType::List,
            _ => ColumnType::Other,
        }
    }

    /// The `Debug` text of `Array::data_type`.
    #[verifier::external_body]
    pub(crate) fn kind_name(&self) -> (name: String)
        ensures
            name@ == column_data(*self).kind_name,
    {
        format!("{:?}", self.inner.data_type())
    }

    /// `Array::len` is the number of places.
    #[verifier::external_body]
    pub(crate) fn len(&self) -> (n: usize)
        ensures
            n == column_data(*self).valid.len(),
            n == column_data(*self).slots.len(),
    {
        self.inner.len()
    }

    /// `Array::is_null` says whether a place is null. It can panic on a place
    /// that is not there.
    #[verifier::external_body]
    pub(crate) fn is_null(&self, row: usize) -> (null: bool)
        requires
            row < column_data(*self).valid.len(),
        ensures
            null == !column_data(*self).valid[row as int],
    {
        self.inner.is_null(row)
    }

    /// `PrimitiveArray::value` is the integer at a place, here widened to 128
    /// bits. It panics on a place that is not there.
    #[verifier::external_body]
    pub(crate) fn int_value(&self, row: usize) -> (value: i128)
        requires
            column_data(*self).kind.is_integer(),
            row < column_data(*self).slots.len(),
        ensures
            column_data(*self).slots[row as int] == Slot::Int(value as int),
            int_range(column_data(*self).kind, value as int),
    {
        let a = &self.inner;
        match a.data_type() {
            DataType::Int8 => a.as_primitive::<Int8Type>().value(row) as i128,
            DataType::Int16 => a.as_primitive::<Int16Type>().value(row) as i128,
            DataType::Int32 => a.as_primitive::<Int32Type>().value(row) as i128,
            DataType::Int64 => a.as_primitive::<Int64Type>().value(row) as i128,
            DataType::UInt8 => a.as_primitive::<UInt8Type>().value(row) as i128,
            DataType::UInt16 => a.as_primitive::<UInt16Type>().value(row) as i128,
            DataType::UInt32 => a.as_primitive::<UInt32Type>().value(row) as i128,
            _ => a.as_primitive::<UInt64Type>().value(row) as i128,
        }
    }

    /// `StringArray::value` is the string at a place. It panics on a place that
    /// is not there.
    #[verifier::external_body]
    pub(crate) fn text_value(&self, row: usize) -> (value: String)
        requires
            column_data(*self).kind == ColumnType::Utf8,
            row < column_data(*self).slots.len(),
        ensures
            column_data(*self).slots[row as int] == Slot::Text(value@),
    {
        self.inner.as_string::<i32>().value(row).to_string()
    }

    /// `ListArray::value` is the list at a place, as a column of its items. It
    /// panics on a place that is not there.
    #[verifier::external_body]
    pub(crate) fn list_value(&self, row: usize) -> (items: Column)
        requires
            column_data(*self).kind == ColumnType::List,
            row < column_data(*self).slots.len(),
        ensures
            column_data(*self).slots[row as int] == Slot::List(column_data(items).slots),
            column_data(items).kind == column_data(*self).item_kind,
            column_data(items).kind_name == column_data(*self).item_kind_name,
    {
        Column { inner: self.inner.as_list::<i32>().value(row) }
    }
}

/// `value` is one of the integers of the type.
pub open spec fn int_range(kind: ColumnType, value: int) -> bool {
    match kind {
        ColumnType::Int8 => i8::MIN <= value <= i8::MAX,
        ColumnType::Int16 => i16::MIN <= value <= i16::MAX,
        ColumnType::Int32 => i32::MIN <= value <= i32::MAX,
        ColumnType::Int64 => i64::MIN <= value <= i64::MAX,
        ColumnType::UInt8 => 0 <= value <= u8::MAX,
        ColumnType::UInt16 => 0 <= value <= u16::MAX,
        ColumnType::UInt32 => 0 <= value <= u32::MAX,
        ColumnType::UInt64 => 0 <= value <= u64::MAX,
        _ => false,
    }
}

/// What a place of a column holds; `None` where it is null.
pub open spec fn cell(c: ColumnData, i: int) -> Option<Slot> {
    if c.valid[i] {
        Some(c.slots[i])
    } else {
        None
    }
}

/// An optional integer as a cell.
pub open spec fn int_cell(value: Option<int>) -> Option<Slot> {
    match value {
        Some(v) => Some(Slot::Int(v)),
        None => None,
    }
}

/// The integer in a slot.
pub open spec fn slot_int(s: Slot) -> int {
    s->Int_0
}

/// The value at a place of an integer column; `None` where it is null.
pub open spec fn optional_int(c: ColumnData, i: int) -> Option<int> {
    if c.valid[i] {
        Some(slot_int(c.slots[i]))
    } else {
        None
    }
}

/// The place is not null and holds the integer.
pub open spec fn is_int(c: ColumnData, i: int, value: int) -> bool {
    c.valid[i] && c.slots[i] == Slot::Int(value)
}

/// The place is null where there is no value, and holds the value otherwise.
pub open spec fn is_optional_int(c: ColumnData, i: int, value: Option<int>) -> bool {
    match value {
        Some(v) => is_int(c, i, v),
        None => !c.valid[i],
    }
}

/// The place is not null and holds the text.
pub open spec fn is_text(c: ColumnData, i: int, value: Seq<char>) -> bool {
    c.valid[i] && c.slots[i] == Slot::Text(value)
}

/// An optional machine integer as a mathematical one.
pub open spec fn wide64(v: Option<i64>) -> Option<int> {
    match v {
        Some(n) => Some(n as int),
        None => None,
    }
}

/// An optional machine integer as a mathematical one.
pub open spec fn wide32(v: Option<i32>) -> Option<int> {
    match v {
        Some(n) => Some(n as int),
        None => None,
    }
}

/// A column of integers, none of them null.
pub(crate) fn required_int64_column(values: &Vec<i64>) -> (c: Column)
    ensures
        column_data(c).kind == ColumnType::Int64,
        column_data(c).built,
        column_data(c).valid.len() == values@.len(),
        column_data(c).slots.len() == values@.len(),
        forall|i: int|
            0 <= i < values@.len() ==> is_int(column_data(c), i, #[trigger] values@[i] as int),
{
    let mut some: Vec<Option<i64>> = Vec::with_capacity(values.len());
    let mut i: usize = 0;
    while i < values.len()
        invariant
            i <= values.len(),
            some.len() == i,
            forall|x: int| 0 <= x < i ==> (#[trigger] some@[x]) == Some(values@[x]),
        decreases values.len() - i,
    {
        some.push(Some(values[i]));
        i = i + 1;
    }
    let c = int64_column(some);
    assert forall|i: int| 0 <= i < values@.len() implies is_int(
        column_data(c),
        i,
        #[trigger] values@[i] as int,
    ) by {
        assert(column_data(c).valid[i] == (some@[i] is Some));
        assert(column_data(c).slots[i] == Slot::Int(some@[i]->0 as int));
    }
    c
}

/// A column of 32-bit integers, none of them null.
pub(crate) fn required_int32_column(values: &Vec<i32>) -> (c: Column)
    ensures
        column_data(c).kind == ColumnType::Int32,
        column_data(c).built,
        column_data(c).valid.len() == values@.len(),
        column_data(c).slots.len() == values@.len(),
        forall|i: int|
            0 <= i < values@.len() ==> is_int(column_data(c), i, #[trigger] values@[i] as int),
{
    let mut some: Vec<Option<i32>> = Vec::with_capacity(values.len());
    let mut i: usize = 0;
    while i < values.len()
        invariant
            i <= values.len(),
            some.len() == i,
            forall|x: int| 0 <= x < i ==> (#[trigger] some@[x]) == Some(values@[x]),
        decreases values.len() - i,
    {
        some.push(Some(values[i]));
        i = i + 1;
    }
    let c = int32_column(some);
    assert forall|i: int| 0 <= i < values@.len() implies is_int(
        column_data(c),
        i,
        #[trigger] values@[i] as int,
    ) by {
        assert(column_data(c).valid[i] == (some@[i] is Some));
        assert(column_data(c).slots[i] == Slot::Int(some@[i]->0 as int));
    }
    c
}

/// The integers of a column, nulls read as whatever lies behind them.
pub(crate) fn int64_values(c: &Column) -> (values: Vec<i64>)
    requires
        column_data(*c).kind == ColumnType::Int64,
    ensures
        values@.len() == column_data(*c).slots.len(),
        forall|i: int|
            0 <= i < values@.len() ==> (#[trigger] values@[i]) as int == slot_int(
                column_data(*c).slots[i],
            ),
{
    let n: usize = c.len();
    let mut values: Vec<i64> = Vec::with_capacity(n);
    let mut i: usize = 0;
    while i < n
        invariant
            i <= n,
            n == column_data(*c).slots.len(),
            column_data(*c).kind == ColumnType::Int64,
            values.len() == i,
            forall|x: int|
                0 <= x < i ==> (#[trigger] values@[x]) as int == slot_int(column_data(*c).slots[x]),
        decreases n - i,
    {
        let value: i128 = c.int_value(i);
        values.push(value as i64);
        i = i + 1;
    }
    values
}

/// The integers of a column, `None` for nulls.
pub(crate) fn int64_options(c: &Column) -> (values: Vec<Option<i64>>)
    requires
        column_data(*c).kind == ColumnType::Int64,
    ensures
        values@.len() == column_data(*c).slots.len(),
        forall|i: int|
            0 <= i < values@.len() ==> wide64(#[trigger] values@[i]) == optional_int(
                column_data(*c),
                i,
            ),
{
    let n: usize = c.len();
    let mut values: Vec<Option<i64>> = Vec::with_capacity(n);
    let mut i: usize = 0;
    while i < n
        invariant
            i <= n,
            n == column_data(*c).slots.len(),
            n == column_data(*c).valid.len(),
            column_data(*c).kind == ColumnType::Int64,
            values.len() == i,
            forall|x: int|
                0 <= x < i ==> wide64(#[trigger] values@[x]) == optional_int(column_data(*c), x),
        decreases n - i,
    {
        if c.is_null(i) {
            values.push(None);
        } else {
            let value: i128 = c.int_value(i);
            values.push(Some(value as i64));
        }
        i = i + 1;
    }
    values
}

/// The 32-bit integers of a column, nulls read as whatever lies behind them.
pub(crate) fn int32_values(c: &Column) -> (values: Vec<i32>)
    requires
        column_data(*c).kind == ColumnType::Int32,
    ensures
        values@.len() == column_data(*c).slots.len(),
        forall|i: int|
            0 <= i < values@.len() ==> (#[trigger] values@[i]) as int == slot_int(
                column_data(*c).slots[i],
            ),
{
    let n: usize = c.len();
    let mut values: Vec<i32> = Vec::with_capacity(n);
    let mut i: usize = 0;
    while i < n
        invariant
            i <= n,
            n == column_data(*c).slots.len(),
            column_data(*c).kind == ColumnType::Int32,
            values.len() == i,
            forall|x: int|
                0 <= x < i ==> (#[trigger] values@[x]) as int == slot_int(column_data(*c).slots[x]),
        decreases n - i,
    {
        let value: i128 = c.int_value(i);
        values.push(value as i32);
        i = i + 1;
    }
    values
}

/// The 32-bit integers of a column, `None` for nulls.
pub(crate) fn int32_options(c: &Column) -> (values: Vec<Option<i32>>)
    requires
        column_data(*c).kind == ColumnType::Int32,
    ensures
        values@.len() == column_data(*c).slots.len(),
        forall|i: int|
            0 <= i < values@.len() ==> wide32(#[trigger] values@[i]) == optional_int(
                column_data(*c),
                i,
            ),
{
    let n: usize = c.len();
    let mut values: Vec<Option<i32>> = Vec::with_capacity(n);
    let mut i: usize = 0;
    while i < n
        invariant
            i <= n,
            n == column_data(*c).slots.len(),
            n == column_data(*c).valid.len(),
            column_data(*c).kind == ColumnType::Int32,
            values.len() == i,
            forall|x: int|
                0 <= x < i ==> wide32(#[trigger] values@[x]) == optional_int(column_data(*c), x),
        decreases n - i,
    {
        if c.is_null(i) {
            values.push(None);
        } else {
            let value: i128 = c.int_value(i);
            values.push(Some(value as i32));
        }
        i = i + 1;
    }
    values
}

/// The texts of a column, nulls read as whatever lies behind them.
pub(crate) fn text_values(c: &Column) -> (values: Vec<String>)
    requires
        column_data(*c).kind == ColumnType::Utf8,
    ensures
        values@.len() == column_data(*c).slots.len(),
        forall|i: int|
            0 <= i < values@.len() ==> column_data(*c).slots[i] == Slot::Text(
                (#[trigger] values@[i])@,
            ),
{
    let n: usize = c.len();
    let mut values: Vec<String> = Vec::with_capacity(n);
    let mut i: usize = 0;
    while i < n
        invariant
            i <= n,
            n == column_data(*c).slots.len(),
            column_data(*c).kind == ColumnType::Utf8,
            values.len() == i,
            forall|x: int|
                0 <= x < i ==> column_data(*c).slots[x] == Slot::Text((#[trigger] values@[x])@),
        decreases n - i,
    {
        values.push(c.text_value(i));
        i = i + 1;
    }
    values
}

/// What is wrong with the column at an index of a batch.
pub(crate) enum ColumnFault {
    Missing,
    Mismatch { actual: String },
}

/// The batch has no column at `index`, or one of another type.
pub open spec fn is_faulty(data: BatchData, index: int, kind: ColumnType) -> bool {
    index >= data.columns.len() || data.columns[index].kind != kind
}

/// The column at `index`, if it is there and has the type.
pub(crate) fn checked_column(batch: &Batch, index: usize, kind: ColumnType) -> (column: Result<
    Column,
    ColumnFault,
>)
    ensures
        ({
            let data = batch_data(*batch);
            match column {
                Ok(c) => {
                    &&& !is_faulty(data, index as int, kind)
                    &&& column_data(c) == data.columns[index as int]
                    &&& column_data(c).kind == kind
                    &&& column_data(c).valid.len() == data.rows
                    &&& column_data(c).slots.len() == data.rows
                },
                Err(ColumnFault::Missing) => index >= data.columns.len(),
                Err(ColumnFault::Mismatch { actual }) => {
                    &&& index < data.columns.len()
                    &&& data.columns[index as int].kind != kind
                    &&& actual@ == data.columns[index as int].kind_name
                },
            }
        }),
{
    if index >= batch.num_columns() {
        return Err(ColumnFault::Missing);
    }
    let c = batch.column(index);
    if c.kind() == kind {
        Ok(c)
    } else {
        Err(ColumnFault::Mismatch { actual: c.kind_name() })
    }
}

} // verus!
