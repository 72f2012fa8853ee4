//! Parquet files as bytes.
//!
//! [`parquet_read`] names what reading a file gives, [`parquet_returns`] says
//! whether reading it comes to an end, and [`parquet_written`] names what writing
//! one comes to; the functions of this module are the calls into the `parquet`
//! crate that the rest of the library makes.
use crate::columns::{
    batch_data, batch_views, cell, Batch, BatchData, ColumnData, ColumnType, Slot,
};
use crate::paths::text_of;
use crate::sidecar::{entry_views, Entry, KeyValue};
use crate::text::strings;
use bytes::Bytes;
use parquet::arrow::arrow_reader::ParquetRecordBatchReaderBuilder;
use parquet::arrow::ArrowWriter;
use parquet::basic::Compression;
use parquet::file::metadata::KeyValue as StoredKeyValue;
use parquet::file::properties::WriterProperties;
use vstd::prelude::*;

verus! {

/// What reading a parquet file gives.
pub enum FileRead {
    /// It is no parquet file; why.
    Refused(Seq<char>),
    /// What is in it.
    Opened(FileContent),
}

/// What is in a parquet file.
pub struct FileContent {
    /// Column names.
    pub names: Seq<Seq<char>>,
    /// Key-value metadata.
    pub entries: Seq<Entry>,
    /// Why its rows cannot be read at all; they are read where this is `None`.
    pub unbuilt: Option<Seq<char>>,
    /// The rows, table by table, up to the first failure.
    pub batches: Seq<BatchData>,
    /// The first failure; `None` where all rows were read.
    pub failure: Option<Seq<char>>,
}

/// What reading a file with these bytes gives: `ParquetRecordBatchReaderBuilder`
/// opened on them, built with its defaults and read to its end or to its first
/// failure.
pub uninterp spec fn parquet_read(bytes: Seq<u8>) -> FileRead;

/// Reading a file with these bytes comes to an end: nothing in them makes
/// `ParquetRecordBatchReaderBuilder` or its reader panic or overflow the stack.
/// Damaged pages and schemas of boundless depth can.
pub uninterp spec fn parquet_returns(bytes: Seq<u8>) -> bool;

/// Columns and rows of a parquet file.
pub struct ParquetFile {
    pub names: Vec<String>,
    pub unbuilt: Option<String>,
    pub batches: Vec<Batch>,
    pub failure: Option<String>,
}

impl ParquetFile {
    /// These are the columns and rows of the file.
    pub open spec fn is_read_of(&self, content: FileContent) -> bool {
        &&& strings(self.names@) == content.names
        &&& text_of(self.unbuilt) == content.unbuilt
        &&& batch_views(self.batches@) == content.batches
        &&& text_of(self.failure) == content.failure
    }
}

/// Reads the columns and rows of a parquet file:
/// `ParquetRecordBatchReaderBuilder::try_new` on its bytes, the names of its
/// schema's fields, and the record batches of the reader that `build` makes.
/// Every batch has the columns of the schema. A file that cannot be opened gives
/// the text of the error. Files on which the crate does not return are left out.
#[verifier::external_body]
pub(crate) fn read_file(bytes: Vec<u8>) -> (file: Result<ParquetFile, String>)
    requires
        parquet_returns(bytes@),
    ensures
        match file {
            Ok(f) => parquet_read(bytes@) matches FileRead::Opened(c) && f.is_read_of(c),
            Err(why) => parquet_read(bytes@) == FileRead::Refused(why@),
        },
        file matches Ok(f) ==> forall|t: int|
            0 <= t < f.batches@.len() ==> batch_data(#[trigger] f.batches@[t]).columns.len()
                == f.names@.len(),
{
    let builder = ParquetRecordBatchReaderBuilder::try_new(Bytes::from(bytes))
        .map_err(|e| e.to_string())?;
    let names = builder.schema().fields().iter().map(|f| f.name().clone()).collect();
    let mut failure = None;
    let (unbuilt, batches) = match builder.build() {
        Ok(reader) => {
            let read = reader.map_while(|b| b.map_err(|e| failure = Some(e.to_string())).ok());
            (None, read.map(|inner| Batch { inner }).collect())
        },
        Err(e) => (Some(e.to_string()), Vec::new()),
    };
    Ok(ParquetFile { names, unbuilt, batches, failure })
}

/// Reads the key-value metadata of a parquet file:
/// `FileMetaData::key_value_metadata` of what
/// `ParquetRecordBatchReaderBuilder::try_new` found in its bytes, empty where
/// there is none. A file that cannot be opened gives the text of the error.
/// Files on which the crate does not return are left out.
#[verifier::external_body]
pub(crate) fn read_entries(bytes: Vec<u8>) -> (entries: Result<Vec<KeyValue>, String>)
    requires
        parquet_returns(bytes@),
    ensures
        match entries {
            Ok(e) => parquet_read(bytes@) matches FileRead::Opened(c) && entry_views(e@)
                == c.entries,
            Err(why) => parquet_read(bytes@) == FileRead::Refused(why@),
        },
{
    let builder = ParquetRecordBatchReaderBuilder::try_new(Bytes::from(bytes))
        .map_err(|e| e.to_string())?;
    let stored = builder.metadata().file_metadata().key_value_metadata().cloned();
    let stored = stored.unwrap_or_default().into_iter();
    Ok(stored.map(|kv| KeyValue { key: kv.key, value: kv.value }).collect())
}

/// At which step a file could not be written, and why.
pub(crate) enum WriteFault {
    Open(String),
    Write(String),
    Close(String),
}

/// The column is one that the sidecars use: integers, text, or lists of either,
/// without nulls in the lists.
pub open spec fn is_sidecar_column(c: ColumnData) -> bool {
    match c.kind {
        ColumnType::Int32 | ColumnType::Int64 | ColumnType::Utf8 => true,
        ColumnType::List => (c.item_kind == ColumnType::Int64 || c.item_kind == ColumnType::Utf8)
            && c.plain_items && c.full_items,
        _ => false,
    }
}

/// The table was built of columns of sidecars, under names of their own.
pub open spec fn is_sidecar_table(data: BatchData) -> bool {
    &&& data.built
    &&& data.columns.len() > 0
    &&& data.nullable.len() == data.columns.len()
    &&& data.names.len() == data.columns.len()
    &&& data.names.no_duplicates()
    &&& forall|k: int|
        0 <= k < data.columns.len() ==> is_sidecar_column(#[trigger] data.columns[k])
}

/// Number of rows of the first `n` tables.
pub open spec fn rows_before(batches: Seq<BatchData>, n: nat) -> nat
    decreases n,
{
    if n == 0 {
        0
    } else {
        rows_before(batches, (n - 1) as nat) + batches[n - 1].rows
    }
}

/// Place `i` of the one column and place `j` of the other are both null or hold
/// the same.
pub open spec fn same_place(a: ColumnData, i: int, b: ColumnData, j: int) -> bool {
    a.valid[i] == b.valid[j] && (b.valid[j] ==> a.slots[i] == b.slots[j])
}

/// The table has the columns of the whole, and its rows are those of the whole
/// from row `from` on.
pub open spec fn is_part(part: BatchData, whole: BatchData, from: nat) -> bool {
    &&& part.names == whole.names
    &&& part.columns.len() == whole.columns.len()
    &&& forall|k: int|
        0 <= k < whole.columns.len() ==> {
            let c = #[trigger] part.columns[k];
            c.kind == whole.columns[k].kind && c.item_kind == whole.columns[k].item_kind
        }
    &&& forall|k: int, i: int|
        #![trigger part.columns[k].slots[i]]
        #![trigger part.columns[k].valid[i]]
        0 <= k < whole.columns.len() && 0 <= i < part.rows ==> same_place(
            part.columns[k],
            i,
            whole.columns[k],
            from + i,
        )
}

/// The tables are the whole, cut into parts one after the other.
pub open spec fn is_split(batches: Seq<BatchData>, whole: BatchData) -> bool {
    &&& rows_before(batches, batches.len()) == whole.rows
    &&& forall|t: int|
        0 <= t < batches.len() ==> is_part(
            #[trigger] batches[t],
            whole,
            rows_before(batches, t as nat),
        )
}

/// The file holds the table and starts its metadata with the entries.
pub open spec fn file_has(read: FileRead, whole: BatchData, entries: Seq<Entry>) -> bool {
    read matches FileRead::Opened(c) && c.unbuilt is None && c.failure is None && c.names
        == whole.names && is_split(c.batches, whole) && c.entries.len() >= entries.len()
        && c.entries.take(entries.len() as int) == entries
}

/// One column as it is written.
pub struct StoredColumn {
    pub name: Seq<char>,
    pub kind: ColumnType,
    /// Type of the items of a list column.
    pub items: Option<ColumnType>,
    pub nullable: bool,
    /// What the places hold; `None` for nulls.
    pub cells: Seq<Option<Slot>>,
}

/// The columns of a table as they are written.
pub open spec fn stored_table(data: BatchData) -> Seq<StoredColumn> {
    Seq::new(
        data.columns.len(),
        |k: int|
            StoredColumn {
                name: data.names[k],
                kind: data.columns[k].kind,
                items: if data.columns[k].kind == ColumnType::List {
                    Some(data.columns[k].item_kind)
                } else {
                    None
                },
                nullable: data.nullable[k],
                cells: Seq::new(data.rows, |i: int| cell(data.columns[k], i)),
            },
    )
}

/// What writing a file comes to.
pub enum Writing {
    /// The bytes of the file.
    Written(Seq<u8>),
    /// The writer could not be made; why.
    OpenFailed(Seq<char>),
    /// The table could not be written; why.
    WriteFailed(Seq<char>),
    /// The file could not be closed; why.
    CloseFailed(Seq<char>),
}

/// What writing a table with these columns and this key-value metadata comes to:
/// `ArrowWriter` over a buffer, with SNAPPY compression.
pub uninterp spec fn parquet_written(table: Seq<StoredColumn>, entries: Seq<Entry>) -> Writing;

/// Writes a parquet file: `ArrowWriter` over a buffer, with SNAPPY compression
/// and the entries as key-value metadata, behind which it puts its own
/// `ARROW:schema` entry. What comes of it follows from the columns and the
/// entries alone. Reading what was written comes to an end and gives the columns
/// and rows of the batch back, cut into batches as the reader cuts them; what
/// lies behind a null is not kept. Which tables can be written, and the bytes of
/// a file, are named and not described.
#[verifier::external_body]
pub(crate) fn write_file(
    batch: &Batch,
    entries: Vec<KeyValue>,
) -> (bytes: Result<Vec<u8>, WriteFault>)
    requires
        is_sidecar_table(batch_data(*batch)),
        forall|i: int| 0 <= i < entries@.len() ==> (#[trigger] entries@[i]).key@ != "ARROW:schema"@,
    ensures
        parquet_written(stored_table(batch_data(*batch)), entry_views(entries@)) == match bytes {
            Ok(b) => Writing::Written(b@),
            Err(WriteFault::Open(why)) => Writing::OpenFailed(why@),
            Err(WriteFault::Write(why)) => Writing::WriteFailed(why@),
            Err(WriteFault::Close(why)) => Writing::CloseFailed(why@),
        },
        bytes matches Ok(b) ==> parquet_returns(b@) && file_has(
            parquet_read(b@),
            batch_data(*batch),
            entry_views(entries@),
        ),
{
    let stored = entries.into_iter().map(|kv| StoredKeyValue::new(kv.key, kv.value)).collect();
    let props = WriterProperties::builder()
        .set_compression(Compression::SNAPPY)
        .set_key_value_metadata(Some(stored))
        .build();
    let mut writer = ArrowWriter::try_new(Vec::new(), batch.inner.schema(), Some(props))
        .map_err(|e| WriteFault::Open(e.to_string()))?;
    writer.write(&batch.inner).map_err(|e| WriteFault::Write(e.to_string()))?;
    writer.into_inner().map_err(|e| WriteFault::Close(e.to_string()))
}

/// The tables of a split have no more rows than the whole.
pub proof fn rows_before_grows(batches: Seq<BatchData>, n: nat)
    requires
        n <= batches.len(),
    ensures
        rows_before(batches, n) <= rows_before(batches, batches.len()),
    decreases batches.len() - n,
{
    if n < batches.len() {
        rows_before_grows(batches, n + 1);
    }
}

} // verus!
