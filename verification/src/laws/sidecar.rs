//! What sidecars say of themselves.
use crate::adapter::traits::MetaDataRow;
use crate::fingerprint::SourceFingerprint;
use crate::meta_cache::{first_value, product_version_of};
use crate::resident_identity::source_of;
use crate::sidecar::{freshness_entries, says_fresh, value_of, version_in, Entry};
use crate::sidecar_registry::{are_statuses, NsysSidecarStatus, SidecarProbe};
use crate::text::{decimal, decimal_is_injective, parsed_unsigned};
use vstd::prelude::*;

verus! {

/// The entry is the first with the key.
pub open spec fn is_first_entry(entries: Seq<Entry>, key: Seq<char>, i: int) -> bool {
    &&& 0 <= i < entries.len()
    &&& entries[i].0 == key
    &&& forall|j: int| 0 <= j < i ==> (#[trigger] entries[j]).0 != key
}

/// The value of a key is that of the first entry with the key; there is none where
/// no entry has it.
pub proof fn first_entries_count(entries: Seq<Entry>, key: Seq<char>)
    ensures
        (exists|i: int| is_first_entry(entries, key, i)) ==> exists|i: int| #[trigger]
            is_first_entry(entries, key, i) && value_of(entries, key) == entries[i].1,
        !(exists|i: int| is_first_entry(entries, key, i)) ==> value_of(entries, key) is None && forall|
            j: int,
        |
            0 <= j < entries.len() ==> (#[trigger] entries[j]).0 != key,
    decreases entries.len(),
{
    if entries.len() > 0 {
        if entries[0].0 == key {
            assert(is_first_entry(entries, key, 0));
        } else {
            let rest = entries.skip(1);
            first_entries_count(rest, key);
            assert forall|i: int| is_first_entry(entries, key, i) implies #[trigger] is_first_entry(
                rest,
                key,
                i - 1,
            ) by {
                assert forall|j: int| 0 <= j < i - 1 implies (#[trigger] rest[j]).0 != key by {
                    assert(entries[j + 1].0 != key);
                }
            }
            assert forall|i: int| is_first_entry(rest, key, i) implies #[trigger] is_first_entry(
                entries,
                key,
                i + 1,
            ) && entries[i + 1] == rest[i] by {
                assert forall|j: int| 0 <= j < i + 1 implies (#[trigger] entries[j]).0 != key by {
                    if j > 0 {
                        assert(rest[j - 1].0 != key);
                    }
                }
            }
            if exists|i: int| is_first_entry(rest, key, i) {
                let i: int = choose|i: int| #[trigger]
                    is_first_entry(rest, key, i) && value_of(rest, key) == rest[i].1;
                assert(is_first_entry(entries, key, i + 1));
            } else {
                assert forall|j: int| 0 <= j < entries.len() implies (#[trigger] entries[j]).0 != key by {
                    if j > 0 {
                        assert(rest[j - 1].0 != key);
                    }
                }
                if exists|i: int| is_first_entry(entries, key, i) {
                    let i: int = choose|i: int| is_first_entry(entries, key, i);
                    assert(is_first_entry(rest, key, i - 1));
                }
            }
        }
    }
}

/// The key has this text.
pub open spec fn says(entries: Seq<Entry>, key: Seq<char>, text: Seq<char>) -> bool {
    exists|i: int| #[trigger] is_first_entry(entries, key, i) && entries[i].1 == Some(text)
}

proof fn value_is_said(entries: Seq<Entry>, key: Seq<char>, text: Seq<char>)
    ensures
        value_of(entries, key) == Some(text) <==> says(entries, key, text),
{
    first_entries_count(entries, key);
    if value_of(entries, key) == Some(text) {
        let i: int = choose|i: int| #[trigger]
            is_first_entry(entries, key, i) && value_of(entries, key) == entries[i].1;
        assert(is_first_entry(entries, key, i) && entries[i].1 == Some(text));
    }
    if says(entries, key, text) {
        let i: int = choose|i: int| #[trigger]
            is_first_entry(entries, key, i) && entries[i].1 == Some(text);
        let k: int = choose|k: int| #[trigger]
            is_first_entry(entries, key, k) && value_of(entries, key) == entries[k].1;
        if i < k {
            assert(entries[i].0 != key);
        }
        if k < i {
            assert(entries[k].0 != key);
        }
    }
}

/// A sidecar is fresh exactly where it names the version, the second and the size
/// that are expected, and it is fresh for one version and one source at most.
pub proof fn fresh_sidecars_name_their_source(
    entries: Seq<Entry>,
    key: Seq<char>,
    version: u32,
    source: SourceFingerprint,
    other_version: u32,
    other: SourceFingerprint,
)
    ensures
        says_fresh(entries, key, version, source) <==> says(entries, key, decimal(version as int))
            && says(entries, "veloq.source.mtime_secs"@, decimal(source.mtime_secs as int)) && says(
            entries,
            "veloq.source.size"@,
            decimal(source.size as int),
        ),
        says_fresh(entries, key, version, source) && says_fresh(entries, key, other_version, other)
            ==> version == other_version && source == other,
{
    value_is_said(entries, key, decimal(version as int));
    value_is_said(entries, "veloq.source.mtime_secs"@, decimal(source.mtime_secs as int));
    value_is_said(entries, "veloq.source.size"@, decimal(source.size as int));
    if says_fresh(entries, key, version, source) && says_fresh(entries, key, other_version, other) {
        decimal_is_injective(version as int, other_version as int);
        decimal_is_injective(source.mtime_secs as int, other.mtime_secs as int);
        decimal_is_injective(source.size as int, other.size as int);
    }
}

/// The entries that are written are the version, the second and the size of the
/// source, and nothing else.
pub proof fn written_entries(key: Seq<char>, version: u32, source: SourceFingerprint)
    ensures
        ({
            let e = freshness_entries(key, version, source);
            &&& e.len() == 3
            &&& e[0] == (key, Some(decimal(version as int)))
            &&& e[1] == ("veloq.source.mtime_secs"@, Some(decimal(source.mtime_secs as int)))
            &&& e[2] == ("veloq.source.size"@, Some(decimal(source.size as int)))
        }),
{
}

/// The version of a sidecar is what its key spells; a text that spells no number of
/// 32 bits gives none.
pub proof fn versions_are_read(entries: Seq<Entry>, key: Seq<char>, text: Seq<char>)
    requires
        says(entries, key, text),
    ensures
        match version_in(entries, key) {
            Some(version) => parsed_unsigned(text, u32::MAX as nat) == Some(version as nat),
            None => parsed_unsigned(text, u32::MAX as nat) is None,
        },
{
    value_is_said(entries, key, text);
    if let Some(n) = parsed_unsigned(text, u32::MAX as nat) {
        assert(n <= u32::MAX);
    }
}

/// The status of a sidecar tells its file where there is one, and nothing of it
/// otherwise.
pub open spec fn tells_file(status: NsysSidecarStatus, probe: SidecarProbe) -> bool {
    match probe.file {
        Some((size, time)) => {
            &&& status.present
            &&& status.size_bytes == Some(size)
            &&& status.mtime_secs == time
            &&& status.format_version_on_disk == probe.format_version_on_disk
            &&& status.fingerprint_match == probe.fingerprint_match
        },
        None => {
            &&& !status.present
            &&& status.size_bytes is None
            &&& status.mtime_secs is None
            &&& status.format_version_on_disk is None
            &&& !status.fingerprint_match
        },
    }
}

/// The statuses of a trace are those of its metadata and of its GPU work, in this
/// order, each with its key, name and version and what is known of its file.
pub proof fn statuses_tell_files(
    statuses: Seq<NsysSidecarStatus>,
    trace_path: Seq<char>,
    meta_cache: SidecarProbe,
    gpu_work_events: SidecarProbe,
)
    requires
        are_statuses(statuses, trace_path, meta_cache, gpu_work_events),
    ensures
        statuses.len() == 2,
        tells_file(statuses[0], meta_cache),
        statuses[0].key@ == "sidecar|"@ + "meta-cache"@,
        statuses[0].id@ == "meta-cache"@,
        statuses[0].name@ == "meta.bin"@,
        statuses[0].format_version_expected == 1,
        statuses[0].path@ == source_of(source_of(trace_path)) + ".veloq"@ + "/"@ + "meta.bin"@,
        tells_file(statuses[1], gpu_work_events),
        statuses[1].key@ == "sidecar|"@ + "gpu-work-events"@,
        statuses[1].id@ == "gpu-work-events"@,
        statuses[1].name@ == "gpu-work-events.parquet"@,
        statuses[1].format_version_expected == 1,
        statuses[1].path@ == source_of(trace_path) + ".veloq"@ + "/"@ + "gpu-work-events.parquet"@,
{
    reveal_strlit(".veloq");
    assert((source_of(trace_path) + ".veloq"@).last() == 'q');
    assert((source_of(source_of(trace_path)) + ".veloq"@).last() == 'q');
}

/// The row is the first that names the product version.
pub open spec fn is_first_version(rows: Seq<MetaDataRow>, i: int) -> bool {
    &&& 0 <= i < rows.len()
    &&& rows[i].name@ == "EXPORT_PRODUCT_VERSION"@
    &&& forall|j: int| 0 <= j < i ==> (#[trigger] rows[j]).name@ != "EXPORT_PRODUCT_VERSION"@
}

proof fn first_row_counts(rows: Seq<MetaDataRow>, name: Seq<char>)
    ensures
        match first_value(rows, name) {
            Some(value) => exists|i: int|
                0 <= i < rows.len() && (#[trigger] rows[i]).name@ == name && rows[i].value@ == value
                    && forall|j: int| 0 <= j < i ==> (#[trigger] rows[j]).name@ != name,
            None => forall|j: int| 0 <= j < rows.len() ==> (#[trigger] rows[j]).name@ != name,
        },
    decreases rows.len(),
{
    if rows.len() > 0 && rows[0].name@ != name {
        let rest = rows.skip(1);
        first_row_counts(rest, name);
        match first_value(rest, name) {
            Some(value) => {
                let i: int = choose|i: int|
                    0 <= i < rest.len() && (#[trigger] rest[i]).name@ == name && rest[i].value@ == value
                        && forall|j: int| 0 <= j < i ==> (#[trigger] rest[j]).name@ != name;
                assert(rows[i + 1] == rest[i]);
                assert forall|j: int| 0 <= j < i + 1 implies (#[trigger] rows[j]).name@ != name by {
                    if j > 0 {
                        assert(rest[j - 1].name@ != name);
                    }
                }
            },
            None => {
                assert forall|j: int| 0 <= j < rows.len() implies (#[trigger] rows[j]).name@ != name by {
                    if j > 0 {
                        assert(rest[j - 1].name@ != name);
                    }
                }
            },
        }
    }
}

/// The product version is what the first row of that name says, unless that is
/// empty; without such a row there is none.
pub proof fn product_versions_are_read(rows: Seq<MetaDataRow>, i: int)
    ensures
        is_first_version(rows, i) && rows[i].value@.len() > 0 ==> product_version_of(rows) == Some(
            rows[i].value@,
        ),
        is_first_version(rows, i) && rows[i].value@.len() == 0 ==> product_version_of(rows) is None,
        (forall|j: int|
            0 <= j < rows.len() ==> (#[trigger] rows[j]).name@ != "EXPORT_PRODUCT_VERSION"@)
            ==> product_version_of(rows) is None,
{
    let name = "EXPORT_PRODUCT_VERSION"@;
    first_row_counts(rows, name);
    if is_first_version(rows, i) {
        let value = first_value(rows, name)->0;
        let k: int = choose|k: int|
            0 <= k < rows.len() && (#[trigger] rows[k]).name@ == name && rows[k].value@ == value
                && forall|j: int| 0 <= j < k ==> (#[trigger] rows[j]).name@ != name;
        if k < i {
            assert(rows[k].name@ != name);
        }
        if i < k {
            assert(rows[i].name@ != name);
        }
    }
}

} // verus!
