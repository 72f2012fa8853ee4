//! Shared scaffold of per-trace parquet sidecars.
//!
//! A sidecar carries, as key-value metadata, its format version and the
//! fingerprint of the source that it was built from. It is fresh where all
//! three are those that the reader expects. The texts of the keys are this
//! library's own.
use crate::error::{NsysDataError, NsysDataResult};
use crate::fingerprint::SourceFingerprint;
use crate::parquet_file::{parquet_read, parquet_returns, read_entries, FileRead};
use crate::paths::text_of;
use crate::text::{
    decimal, decimal_is_injective, i64_text, number_reads_back, parse_unsigned, parsed_unsigned,
    str_eq, u64_text,
};
use vstd::prelude::*;

verus! {

/// Key of the source's time.
pub const KV_MTIME: &'static str = "veloq.source.mtime_secs";

/// Key of the source's size.
pub const KV_SIZE: &'static str = "veloq.source.size";

/// One entry of a parquet file's key-value metadata.
#[derive(Debug, Clone)]
pub struct KeyValue {
    pub key: String,
    pub value: Option<String>,
}

/// A key and its value.
pub type Entry = (Seq<char>, Option<Seq<char>>);

/// The keys and values of the entries.
pub open spec fn entry_views(entries: Seq<KeyValue>) -> Seq<Entry> {
    entries.map_values(|e: KeyValue| (e.key@, text_of(e.value)))
}

/// The value of the first entry with the key.
pub open spec fn value_of(entries: Seq<Entry>, key: Seq<char>) -> Option<Seq<char>>
    decreases entries.len(),
{
    if entries.len() == 0 {
        None
    } else if entries[0].0 == key {
        entries[0].1
    } else {
        value_of(entries.skip(1), key)
    }
}

/// The entries say that the sidecar has the version and was built from the
/// source with the fingerprint.
pub open spec fn says_fresh(
    entries: Seq<Entry>,
    version_key: Seq<char>,
    version: u32,
    fingerprint: SourceFingerprint,
) -> bool {
    &&& value_of(entries, version_key) == Some(decimal(version as int))
    &&& value_of(entries, KV_MTIME@) == Some(decimal(fingerprint.mtime_secs as int))
    &&& value_of(entries, KV_SIZE@) == Some(decimal(fingerprint.size as int))
}

/// The entries start with those of a sidecar with the version that was built
/// from the source with the fingerprint.
pub open spec fn is_freshness_kv(
    entries: Seq<Entry>,
    version_key: Seq<char>,
    version: u32,
    fingerprint: SourceFingerprint,
) -> bool {
    &&& entries.len() >= 3
    &&& entries[0] == (version_key, Some(decimal(version as int)))
    &&& entries[1] == (KV_MTIME@, Some(decimal(fingerprint.mtime_secs as int)))
    &&& entries[2] == (KV_SIZE@, Some(decimal(fingerprint.size as int)))
}

/// The entries that a sidecar is written with.
pub open spec fn freshness_entries(
    version_key: Seq<char>,
    version: u32,
    fingerprint: SourceFingerprint,
) -> Seq<Entry> {
    seq![
        (version_key, Some(decimal(version as int))),
        (KV_MTIME@, Some(decimal(fingerprint.mtime_secs as int))),
        (KV_SIZE@, Some(decimal(fingerprint.size as int))),
    ]
}

/// The entries that a sidecar is written with.
pub fn freshness_kv(version_key: &str, version: u32, fingerprint: SourceFingerprint) -> (entries:
    Vec<KeyValue>)
    ensures
        entry_views(entries@) == freshness_entries(version_key@, version, fingerprint),
        is_freshness_kv(entry_views(entries@), version_key@, version, fingerprint),
{
    let mut entries: Vec<KeyValue> = Vec::new();
    entries.push(
        KeyValue { key: version_key.to_owned(), value: Some(u64_text(version as u64)) },
    );
    entries.push(
        KeyValue { key: KV_MTIME.to_owned(), value: Some(i64_text(fingerprint.mtime_secs)) },
    );
    entries.push(KeyValue { key: KV_SIZE.to_owned(), value: Some(u64_text(fingerprint.size)) });
    assert(entry_views(entries@) =~= freshness_entries(version_key@, version, fingerprint));
    entries
}

/// The value of the first entry with the key.
pub fn find_value<'a>(entries: &'a Vec<KeyValue>, key: &str) -> (value: Option<&'a str>)
    ensures
        match value {
            Some(v) => value_of(entry_views(entries@), key@) == Some(v@),
            None => value_of(entry_views(entries@), key@) is None,
        },
{
    let ghost all = entry_views(entries@);
    let mut i: usize = 0;
    assert(all.skip(0) =~= all);
    while i < entries.len()
        invariant
            i <= entries.len(),
            all == entry_views(entries@),
            value_of(all, key@) == value_of(all.skip(i as int), key@),
        decreases entries.len() - i,
    {
        let ghost entry = entries@[i as int];
        assert(all.skip(i as int)[0] == (entry.key@, text_of(entry.value)));
        assert(all.skip(i as int).skip(1) =~= all.skip(i + 1));
        if str_eq(entries[i].key.as_str(), key) {
            return match &entries[i].value {
                Some(v) => Some(v.as_str()),
                None => None,
            };
        }
        i = i + 1;
    }
    None
}

fn holds(entries: &Vec<KeyValue>, key: &str, value: &str) -> (b: bool)
    ensures
        b == (value_of(entry_views(entries@), key@) == Some(value@)),
{
    match find_value(entries, key) {
        Some(v) => str_eq(v, value),
        None => false,
    }
}

/// Whether the entries say that the sidecar has the version and was built from
/// the source with the fingerprint.
pub fn is_fresh(
    entries: &Vec<KeyValue>,
    version_key: &str,
    version: u32,
    fingerprint: SourceFingerprint,
) -> (fresh: bool)
    ensures
        fresh == says_fresh(entry_views(entries@), version_key@, version, fingerprint),
{
    holds(entries, version_key, u64_text(version as u64).as_str()) && holds(
        entries,
        KV_MTIME,
        i64_text(fingerprint.mtime_secs).as_str(),
    ) && holds(entries, KV_SIZE, u64_text(fingerprint.size).as_str())
}

/// The file can be read and says that it has the version and was built from the
/// source with the fingerprint.
pub open spec fn file_says_fresh(
    read: FileRead,
    version_key: Seq<char>,
    version: u32,
    fingerprint: SourceFingerprint,
) -> bool {
    read matches FileRead::Opened(c) && says_fresh(c.entries, version_key, version, fingerprint)
}

/// Whether the sidecar with these bytes has the version and was built from the
/// source with the fingerprint. One that cannot be read is not fresh.
pub fn file_is_fresh(
    bytes: Vec<u8>,
    version_key: &str,
    version: u32,
    fingerprint: SourceFingerprint,
) -> (fresh: bool)
    requires
        parquet_returns(bytes@),
    ensures
        fresh == file_says_fresh(parquet_read(bytes@), version_key@, version, fingerprint),
{
    match read_entries(bytes) {
        Ok(entries) => is_fresh(&entries, version_key, version, fingerprint),
        Err(_) => false,
    }
}

/// The format version that the entries name.
pub open spec fn version_in(entries: Seq<Entry>, version_key: Seq<char>) -> Option<u32> {
    match value_of(entries, version_key) {
        Some(text) => match parsed_unsigned(text, u32::MAX as nat) {
            Some(n) => Some(n as u32),
            None => None,
        },
        None => None,
    }
}

/// The format version that the entries name.
pub fn find_version(entries: &Vec<KeyValue>, version_key: &str) -> (version: Option<u32>)
    ensures
        version == version_in(entry_views(entries@), version_key@),
{
    match find_value(entries, version_key) {
        Some(text) => match parse_unsigned(text, 0xffff_ffff) {
            Ok(n) => Some(n as u32),
            Err(_) => None,
        },
        None => None,
    }
}

/// A sidecar is fresh exactly for the version that it was written with and for
/// the source that it was built from.
pub proof fn fresh_only_for_its_source(
    entries: Seq<Entry>,
    version_key: Seq<char>,
    written: u32,
    source: SourceFingerprint,
    expected: u32,
    current: SourceFingerprint,
)
    requires
        is_freshness_kv(entries, version_key, written, source),
        version_key != KV_MTIME@,
        version_key != KV_SIZE@,
    ensures
        says_fresh(entries, version_key, expected, current) <==> written == expected && source
            == current,
{
    reveal_strlit("veloq.source.mtime_secs");
    reveal_strlit("veloq.source.size");
    assert(KV_MTIME@.len() != KV_SIZE@.len());
    entries_by_key(entries, version_key, written, source);
    if says_fresh(entries, version_key, expected, current) {
        decimal_is_injective(written as int, expected as int);
        decimal_is_injective(source.mtime_secs as int, current.mtime_secs as int);
        decimal_is_injective(source.size as int, current.size as int);
    }
}

proof fn entries_by_key(
    entries: Seq<Entry>,
    version_key: Seq<char>,
    written: u32,
    source: SourceFingerprint,
)
    requires
        is_freshness_kv(entries, version_key, written, source),
        version_key != KV_MTIME@,
        version_key != KV_SIZE@,
        KV_MTIME@ != KV_SIZE@,
    ensures
        value_of(entries, version_key) == Some(decimal(written as int)),
        value_of(entries, KV_MTIME@) == Some(decimal(source.mtime_secs as int)),
        value_of(entries, KV_SIZE@) == Some(decimal(source.size as int)),
{
    assert(entries.skip(1)[0] == entries[1]);
    assert(entries.skip(1).skip(1)[0] == entries[2]);
    reveal_with_fuel(value_of, 4);
}

/// The version that a sidecar was written with is the one that is found in it.
pub proof fn written_version_is_found(
    entries: Seq<Entry>,
    version_key: Seq<char>,
    written: u32,
    source: SourceFingerprint,
)
    requires
        is_freshness_kv(entries, version_key, written, source),
    ensures
        version_in(entries, version_key) == Some(written),
{
    number_reads_back(written as nat, u32::MAX as nat);
}

/// A file that was just written, and what reading it gives.
#[derive(Debug)]
pub struct StoredSidecar<T> {
    pub bytes: Vec<u8>,
    /// Whether it is fresh for the source that it was built from.
    pub fresh: bool,
    pub records: T,
}

/// A sidecar that is there and fresh. `rebuilt_records` is there only where it
/// was built just now.
#[derive(Debug)]
pub struct FreshSidecar<T> {
    pub path: String,
    pub rebuilt_records: Option<T>,
}

/// Makes sure that the sidecar is there and fresh: one that is fresh is left
/// alone, another is computed and written. The first failure ends the attempt.
pub fn ensure_fresh_sidecar<
    T,
    F: FnOnce(&str, SourceFingerprint) -> NsysDataResult<bool>,
    C: FnOnce() -> NsysDataResult<T>,
    W: FnOnce(&str, SourceFingerprint, &T) -> NsysDataResult<()>,
>(
    path: String,
    fingerprint: SourceFingerprint,
    is_sidecar_fresh: F,
    compute: C,
    write: W,
) -> (done: NsysDataResult<FreshSidecar<T>>)
    requires
        forall|p: &str| p@ == path@ ==> call_requires(is_sidecar_fresh, (p, fingerprint)),
        call_requires(compute, ()),
        forall|p: &str, t: &T| p@ == path@ ==> call_requires(write, (p, fingerprint, t)),
    ensures
        exists|p: &str, fresh: NsysDataResult<bool>|
            p@ == path@ && #[trigger] call_ensures(is_sidecar_fresh, (p, fingerprint), fresh)
                && match fresh {
                Err(error) => done == Err::<FreshSidecar<T>, NsysDataError>(error),
                Ok(true) => done matches Ok(s) && s.path == path && s.rebuilt_records is None,
                Ok(false) => is_rebuild(path, fingerprint, compute, write, done),
            },
{
    let fresh = is_sidecar_fresh(path.as_str(), fingerprint);
    match fresh {
        Err(error) => Err(error),
        Ok(true) => Ok(FreshSidecar { path, rebuilt_records: None }),
        Ok(false) => {
            let computed = compute();
            match computed {
                Err(error) => Err(error),
                Ok(records) => {
                    let written = write(path.as_str(), fingerprint, &records);
                    match written {
                        Err(error) => Err(error),
                        Ok(_) => Ok(FreshSidecar { path, rebuilt_records: Some(records) }),
                    }
                },
            }
        },
    }
}

/// The outcome of a rebuild: the records are computed, then written.
pub open spec fn is_rebuild<
    T,
    C: FnOnce() -> NsysDataResult<T>,
    W: FnOnce(&str, SourceFingerprint, &T) -> NsysDataResult<()>,
>(
    path: String,
    fingerprint: SourceFingerprint,
    compute: C,
    write: W,
    done: NsysDataResult<FreshSidecar<T>>,
) -> bool {
    exists|computed: NsysDataResult<T>|
        #[trigger] call_ensures(compute, (), computed) && match computed {
            Err(error) => done == Err::<FreshSidecar<T>, NsysDataError>(error),
            Ok(records) => exists|p: &str, written: NsysDataResult<()>|
                p@ == path@ && #[trigger] call_ensures(write, (p, fingerprint, &records), written)
                    && match written {
                    Err(error) => done == Err::<FreshSidecar<T>, NsysDataError>(error),
                    Ok(_) => done matches Ok(s) && s.path == path && s.rebuilt_records == Some(
                        records,
                    ),
                },
        }
}

/// Loads the sidecar where it is fresh, and only there.
pub fn load_if_fresh<
    T,
    F: FnOnce(&str, SourceFingerprint) -> NsysDataResult<bool>,
    L: FnOnce(&str) -> NsysDataResult<T>,
>(path: &str, fingerprint: SourceFingerprint, is_sidecar_fresh: F, load: L) -> (loaded:
    NsysDataResult<Option<T>>)
    requires
        call_requires(is_sidecar_fresh, (path, fingerprint)),
        call_requires(load, (path,)),
    ensures
        exists|fresh: NsysDataResult<bool>|
            #[trigger] call_ensures(is_sidecar_fresh, (path, fingerprint), fresh) && match fresh {
                Err(error) => loaded == Err::<Option<T>, NsysDataError>(error),
                Ok(false) => loaded == Ok::<Option<T>, NsysDataError>(None),
                Ok(true) => exists|read: NsysDataResult<T>|
                    #[trigger] call_ensures(load, (path,), read) && match read {
                        Err(error) => loaded == Err::<Option<T>, NsysDataError>(error),
                        Ok(t) => loaded == Ok::<Option<T>, NsysDataError>(Some(t)),
                    },
            },
{
    let fresh = is_sidecar_fresh(path, fingerprint);
    match fresh {
        Err(error) => Err(error),
        Ok(false) => Ok(None),
        Ok(true) => {
            let read = load(path);
            match read {
                Err(error) => Err(error),
                Ok(t) => Ok(Some(t)),
            }
        },
    }
}

} // verus!
