use std::cell::Cell;
use veloq_nsys_data::fingerprint::{
    fingerprints_by_tables, hash_bytes, hash_i64, hash_u32, hash_u64, parquetdir_fingerprint,
    DirFile, FileState, ModifiedTime, SourceFingerprint, HASH_SEED,
};
use veloq_nsys_data::resident_identity::{
    freshness_key, identity_paths, resident_structure_estimate, resident_trace_identity,
    TableState,
};
use veloq_nsys_data::sidecar::{
    ensure_fresh_sidecar, find_value, find_version, freshness_kv, is_fresh, load_if_fresh,
    KeyValue,
};
use veloq_nsys_data::sidecar_registry::{prep_sidecars, sidecar_statuses, SidecarProbe};
use veloq_nsys_data::views::TableFile;
use veloq_nsys_data::{NsysDataError, NsysDataResult, NsysSidecar};

const FP: SourceFingerprint = SourceFingerprint { mtime_secs: 100, size: 200 };

#[test]
fn freshness_is_bound_to_version_and_source() {
    let entries = freshness_kv("x.version", 3, FP);
    assert!(is_fresh(&entries, "x.version", 3, FP));
    assert!(!is_fresh(&entries, "x.version", 4, FP));
    assert!(!is_fresh(&entries, "y.version", 3, FP));
    assert!(!is_fresh(&entries, "x.version", 3, SourceFingerprint { mtime_secs: -100, size: 200 }));
    assert!(!is_fresh(&Vec::new(), "x.version", 3, FP));
    assert_eq!(find_version(&entries, "x.version"), Some(3));
}

#[test]
fn the_first_entry_with_a_key_counts() {
    let entry = |key: &str, value: Option<&str>| KeyValue {
        key: key.to_string(),
        value: value.map(|v| v.to_string()),
    };
    let entries = vec![entry("a", None), entry("b", Some("7")), entry("b", Some("8"))];
    assert_eq!(find_value(&entries, "a"), None);
    assert_eq!(find_value(&entries, "b"), Some("7"));
    assert_eq!(find_version(&entries, "b"), Some(7));
    assert_eq!(find_version(&vec![entry("b", Some("x"))], "b"), None);
}

#[test]
fn fresh_sidecars_are_left_alone() {
    let done = ensure_fresh_sidecar(
        "/s".to_string(),
        FP,
        |_: &str, _: SourceFingerprint| Ok(true),
        || -> NsysDataResult<u32> { panic!("nothing to compute") },
        |_: &str, _: SourceFingerprint, _: &u32| Ok(()),
    )
    .expect("fresh");
    assert_eq!(done.path, "/s");
    assert_eq!(done.rebuilt_records, None);
}

#[test]
fn stale_sidecars_are_computed_and_written() {
    let written = Cell::new(0);
    let done = ensure_fresh_sidecar(
        "/s".to_string(),
        FP,
        |_: &str, _: SourceFingerprint| Ok(false),
        || Ok(41),
        |path: &str, fp: SourceFingerprint, records: &u32| {
            assert_eq!(path, "/s");
            assert_eq!(fp, FP);
            written.set(*records);
            Ok(())
        },
    )
    .expect("rebuilt");
    assert_eq!(done.rebuilt_records, Some(41));
    assert_eq!(written.get(), 41);
}

#[test]
fn the_first_failure_ends_a_rebuild() {
    let failure = || NsysDataError::trace_not_found("/x");
    let from_check = ensure_fresh_sidecar(
        "/s".to_string(),
        FP,
        |_: &str, _: SourceFingerprint| Err(failure()),
        || Ok(1),
        |_: &str, _: SourceFingerprint, _: &u32| Ok(()),
    );
    assert!(from_check.is_err());
    let from_compute = ensure_fresh_sidecar(
        "/s".to_string(),
        FP,
        |_: &str, _: SourceFingerprint| Ok(false),
        || -> NsysDataResult<u32> { Err(failure()) },
        |_: &str, _: SourceFingerprint, _: &u32| panic!("nothing to write"),
    );
    assert!(from_compute.is_err());
    let from_write = ensure_fresh_sidecar(
        "/s".to_string(),
        FP,
        |_: &str, _: SourceFingerprint| Ok(false),
        || Ok(1),
        |_: &str, _: SourceFingerprint, _: &u32| Err(failure()),
    );
    assert_eq!(from_write.expect_err("write").code().as_str(), "nsys.data.trace-not-found");
}

#[test]
fn only_fresh_sidecars_are_loaded() {
    let loaded =
        load_if_fresh("/s", FP, |_: &str, _: SourceFingerprint| Ok(true), |_: &str| Ok(5));
    assert_eq!(loaded.expect("fresh"), Some(5));
    let stale = load_if_fresh(
        "/s",
        FP,
        |_: &str, _: SourceFingerprint| Ok(false),
        |_: &str| -> NsysDataResult<u32> { panic!("stale") },
    );
    assert_eq!(stale.expect("stale"), None);
}

#[test]
fn hashes_are_fnv() {
    let mut hash = HASH_SEED;
    hash_bytes(&mut hash, b"a");
    assert_eq!(hash, 0xaf63dc4c8601ec8c);
    let mut hash = HASH_SEED;
    hash_bytes(&mut hash, b"foobar");
    assert_eq!(hash, 0x85944171f73967e8);
    let mut by_bytes = HASH_SEED;
    hash_bytes(&mut by_bytes, &[4, 3, 2, 1, 0, 0, 0, 0]);
    let mut by_number = HASH_SEED;
    hash_u64(&mut by_number, 0x0102_0304);
    assert_eq!(by_number, by_bytes);
    let mut signed = HASH_SEED;
    hash_i64(&mut signed, -1);
    let mut ones = HASH_SEED;
    hash_bytes(&mut ones, &[0xff; 8]);
    assert_eq!(signed, ones);
    let mut short = HASH_SEED;
    hash_u32(&mut short, 0x0102_0304);
    let mut four = HASH_SEED;
    hash_bytes(&mut four, &[4, 3, 2, 1]);
    assert_eq!(short, four);
}

fn file(name: &str, len: u64, secs: i64) -> DirFile {
    DirFile {
        name: name.as_bytes().to_vec(),
        is_text: true,
        state: FileState { len, modified: Some(ModifiedTime { secs, nanos: 7 }) },
    }
}

#[test]
fn directory_fingerprints_follow_their_tables() {
    let a = parquetdir_fingerprint(&vec![file("B.parquet", 5, 10), file("A.parquet", 6, 20)]);
    let b = parquetdir_fingerprint(&vec![
        file("A.parquet", 6, 20),
        file("notes.txt", 1, 99),
        file("B.parquet", 5, 10),
    ]);
    assert_eq!(a, b);
    assert_eq!(a.mtime_secs, 20);
    let rewritten =
        parquetdir_fingerprint(&vec![file("B.parquet", 5, 11), file("A.parquet", 6, 20)]);
    assert_ne!(a.size, rewritten.size);
    let mut empty = HASH_SEED;
    hash_u64(&mut empty, 0);
    assert_eq!(
        parquetdir_fingerprint(&Vec::new()),
        SourceFingerprint { mtime_secs: 0, size: empty }
    );
    assert!(fingerprints_by_tables("/t_pqtdir", true));
    assert!(!fingerprints_by_tables("/t_pqtdir", false));
    assert!(!fingerprints_by_tables("/t.nsys-rep", true));
}

#[test]
fn directory_fingerprint_is_exact() {
    let mut hash = HASH_SEED;
    hash_u64(&mut hash, 1);
    hash_u64(&mut hash, 9);
    hash_bytes(&mut hash, b"A.parquet");
    hash_u64(&mut hash, 6);
    hash_i64(&mut hash, 20);
    hash_u32(&mut hash, 7);
    let fp = parquetdir_fingerprint(&vec![file("A.parquet", 6, 20)]);
    assert_eq!(fp, SourceFingerprint { mtime_secs: 20, size: hash });
}

fn state(len: u64) -> Option<FileState> {
    Some(FileState { len, modified: Some(ModifiedTime { secs: 1, nanos: 2 }) })
}

#[test]
fn generated_parquetdir_alias_uses_the_report_session_identity() {
    let report = "/data/trace.nsys-rep";
    let alias = "/data/trace.nsys-rep.veloq/parquetdir";
    let by_report = identity_paths(report);
    let by_alias = identity_paths(alias);
    assert_eq!(by_alias.source, by_report.source);
    assert_eq!(by_alias.parquetdir, by_report.parquetdir);
    assert_eq!(by_alias.sidecars, by_report.sidecars);
    assert_eq!(by_report.sidecars[1], "/data/trace.nsys-rep.veloq/meta.bin");
    let key = || "0".repeat(16);
    let a = resident_trace_identity(report, None, key(), 1);
    let b = resident_trace_identity(alias, None, key(), 1);
    assert_eq!(a, b);
    let c = resident_trace_identity(alias, Some("/real/trace.nsys-rep".to_string()), key(), 1);
    assert_eq!(c.canonical_source_path, "/real/trace.nsys-rep");
}

#[test]
fn replacing_a_retained_sidecar_changes_freshness() {
    let key = |meta: Option<FileState>| {
        freshness_key(state(1), state(2), None, &vec![None, meta, None, None, None])
    };
    let identity = |meta: Option<FileState>| {
        let bytes = resident_structure_estimate(
            8,
            24,
            "/d/trace_pqtdir",
            "/d/trace_pqtdir",
            0,
            &Vec::new(),
            &Vec::new(),
        );
        resident_trace_identity("/d/trace_pqtdir", None, key(meta), bytes)
    };
    let before = identity(state(5));
    let after = identity(state(11));
    assert_ne!(after.freshness_key, before.freshness_key);
    assert_eq!(
        after.resident_memory_estimate_bytes, before.resident_memory_estimate_bytes,
        "persistent sidecar payload bytes are not daemon-resident state"
    );
    assert_ne!(key(None), before.freshness_key);
    assert_eq!(before.freshness_key.len(), 16);
}

#[test]
fn freshness_keys_are_exact() {
    let mut hash = HASH_SEED;
    hash_bytes(&mut hash, b"source");
    hash_bytes(&mut hash, b"missing");
    hash_bytes(&mut hash, b"parquetdir");
    hash_bytes(&mut hash, b"present");
    hash_u64(&mut hash, 2);
    hash_u64(&mut hash, 1);
    hash_u64(&mut hash, 2);
    hash_u64(&mut hash, 1);
    hash_bytes(&mut hash, b"A.parquet");
    hash_bytes(&mut hash, b"missing");
    for name in [
        "correlation.bin",
        "meta.bin",
        "gpu-work-events.parquet",
        "nvtx-parent.parquet",
        "nvtx-tree.parquet",
    ] {
        hash_bytes(&mut hash, name.as_bytes());
        hash_bytes(&mut hash, b"missing");
    }
    let files = vec![
        TableState { name: b"x.txt".to_vec(), label: "x.txt".to_string(), state: None },
        TableState { name: b"A.parquet".to_vec(), label: "A.parquet".to_string(), state: None },
    ];
    let key = freshness_key(None, state(2), Some(&files), &vec![None; 5]);
    assert_eq!(key, format!("{hash:016x}"));
}

#[test]
fn estimates_count_names_and_definitions() {
    let tables = vec![TableFile { file: "T.parquet".to_string(), table: "T".to_string() }];
    let sql = veloq_nsys_data::views::parquet_view_sql("T", "/p/T.parquet");
    let bytes = resident_structure_estimate(
        1000,
        24,
        "/s",
        "/p",
        2,
        &tables,
        &vec!["VIEW".to_string()],
    );
    let expected =
        1000 + 2 + 2 + 48 + "CREATE SCHEMA IF NOT EXISTS nsight".len() + 1 + sql.len() + 4;
    assert_eq!(bytes, expected as u64);
    let huge = resident_structure_estimate(1, usize::MAX, "", "", 2, &Vec::new(), &Vec::new());
    assert_eq!(huge, u64::MAX);
}

#[test]
fn statuses_report_what_was_found() {
    let found = SidecarProbe {
        file: Some((77, Some(5))),
        format_version_on_disk: Some(9),
        fingerprint_match: true,
    };
    let absent =
        SidecarProbe { file: None, format_version_on_disk: Some(9), fingerprint_match: true };
    let statuses = sidecar_statuses("/t.nsys-rep.veloq/parquetdir", found, absent);
    assert_eq!(statuses.len(), 2);
    let meta = &statuses[0];
    assert_eq!(meta.key, "sidecar|meta-cache");
    assert_eq!(meta.id, "meta-cache");
    assert_eq!(meta.name, "meta.bin");
    assert_eq!(meta.path, "/t.nsys-rep.veloq/meta.bin");
    assert!(meta.present && meta.fingerprint_match);
    assert_eq!((meta.size_bytes, meta.mtime_secs), (Some(77), Some(5)));
    assert_eq!((meta.format_version_expected, meta.format_version_on_disk), (1, Some(9)));
    let work = &statuses[1];
    assert_eq!(work.path, "/t.nsys-rep.veloq/gpu-work-events.parquet");
    assert!(!work.present && !work.fingerprint_match);
    assert_eq!(work.format_version_on_disk, None);
    assert_eq!((work.size_bytes, work.mtime_secs), (None, None));
    assert_eq!(prep_sidecars(), vec![NsysSidecar::MetaCache, NsysSidecar::GpuWorkEvents]);
    assert_eq!(NsysSidecar::GpuWorkEvents.name(), "gpu-work-events.parquet");
}

#[test]
fn a_report_and_its_directory_have_the_same_statuses() {
    let probe = SidecarProbe {
        file: Some((1, None)),
        format_version_on_disk: None,
        fingerprint_match: false,
    };
    let report = sidecar_statuses("/d/t.nsys-rep", probe, probe);
    assert_eq!(sidecar_statuses("/d/t.nsys-rep.veloq/parquetdir", probe, probe), report);
    let ids: Vec<&str> = report.iter().map(|s| s.id.as_str()).collect();
    assert_eq!(ids, vec!["meta-cache", "gpu-work-events"]);
}
