use veloq_nsys_data::adapter::traits::{get_schema_version, MetaDataRow};
use veloq_nsys_data::adapter::{
    adapter_by_id, pick_adapter, select_by_version, table_exists, AdapterStatus, DetectionMethod,
    SchemaAdapter, SchemaVersion, StandardAdapter,
};
use veloq_nsys_data::schema::{TableColumns, TraceSchema};

fn schema(tables: &[(&str, &[&str])]) -> TraceSchema {
    TraceSchema {
        tables: tables
            .iter()
            .map(|(name, columns)| TableColumns {
                name: name.to_string(),
                columns: columns.iter().map(|c| c.to_string()).collect(),
            })
            .collect(),
    }
}

fn version(major: u32, minor: u32, micro: u32, product: Option<&str>) -> SchemaVersion {
    SchemaVersion {
        major,
        minor,
        micro,
        product_version: product.map(|p| p.to_string()),
        product_date: None,
    }
}

fn row(name: &str, value: &str) -> MetaDataRow {
    MetaDataRow { name: name.to_string(), value: value.to_string() }
}

#[test]
fn adapter_by_id_round_trip() {
    let v3 = adapter_by_id("v3_standard").expect("v3_standard id is well-known");
    assert_eq!(v3.metadata().id, "v3_standard");
    assert!(adapter_by_id("bogus").is_none());
}

#[test]
fn detection_method_str_round_trip() {
    assert_eq!(DetectionMethod::VersionMatch.as_str(), "version_match");
    assert_eq!(DetectionMethod::FeatureProbe.as_str(), "feature_probe");
}

#[test]
fn schema_version_display_includes_product_when_present() {
    let v = version(3, 22, 1, Some("2025.4.1.136"));
    assert_eq!(v.to_text(), "3.22.1 (NSys 2025.4.1.136)");
}

#[test]
fn schema_version_display_omits_missing_product() {
    let v = version(3, 22, 1, None);
    assert_eq!(v.to_text(), "3.22.1");
}

#[test]
fn at_least_compares_major_first() {
    let v = version(3, 22, 0, None);
    assert!(v.at_least(3, 22));
    assert!(v.at_least(3, 0));
    assert!(v.at_least(2, 99));
    assert!(!v.at_least(3, 23));
    assert!(!v.at_least(4, 0));
}

#[test]
fn adapter_status_str_is_plain_text() {
    assert_eq!(AdapterStatus::Stable.as_str(), "stable");
    assert_eq!(AdapterStatus::Beta.as_str(), "beta");
}

#[test]
fn metadata_advertises_stable() {
    let m = StandardAdapter.metadata();
    assert_eq!(m.id, "v3_standard");
    assert_eq!(m.status, AdapterStatus::Stable);
}

#[test]
fn helper_id_is_metadata_id() {
    assert_eq!(StandardAdapter.metadata().id, "v3_standard");
}

#[test]
fn probe_signature_compiles() {
    fn check(a: &dyn SchemaAdapter, s: &TraceSchema) -> bool {
        a.probe(s)
    }
    assert!(!check(&StandardAdapter, &schema(&[])));
}

#[test]
fn probe_accepts_kernel_only_pqtdir() {
    let s = schema(&[("CUPTI_ACTIVITY_KIND_KERNEL", &["start", "end"])]);
    assert!(StandardAdapter.probe(&s));
}

#[test]
fn probe_accepts_metric_only_pqtdir() {
    let s = schema(&[("GPU_METRICS", &["timestamp", "typeId", "metricId", "value"])]);
    assert!(StandardAdapter.probe(&s));
}

#[test]
fn probe_accepts_nvtx_only_pqtdir() {
    let s = schema(&[(
        "NVTX_EVENTS",
        &["start", "end", "eventType", "globalTid", "domainId", "text", "textId"],
    )]);
    assert!(StandardAdapter.probe(&s));
}

#[test]
fn probe_rejects_nvtx_table_missing_canonical_columns() {
    let s = schema(&[(
        "NVTX_EVENTS",
        &["start", "end", "globalTid", "domainId", "text", "textId"],
    )]);
    assert!(!StandardAdapter.probe(&s));
}

#[test]
fn probe_rejects_empty_pqtdir() {
    assert!(!StandardAdapter.probe(&schema(&[])));
}

#[test]
fn probe_rejects_table_with_legacy_columns() {
    let s = schema(&[("CUPTI_ACTIVITY_KIND_KERNEL", &["timestamp", "endTimestamp"])]);
    assert!(!StandardAdapter.probe(&s));
}

#[test]
fn every_canonical_table_is_enough_alone() {
    let tables: Vec<(&str, Vec<&str>)> = vec![
        ("CUPTI_ACTIVITY_KIND_MEMCPY", vec!["start", "end"]),
        ("CUPTI_ACTIVITY_KIND_MEMSET", vec!["start", "end"]),
        ("CUPTI_ACTIVITY_KIND_RUNTIME", vec!["start", "end"]),
        ("CUPTI_ACTIVITY_KIND_SYNCHRONIZATION", vec!["start", "end"]),
        (
            "NET_NIC_METRIC",
            vec!["start", "end", "globalId", "portId", "metricsListId", "metricsIdx", "value"],
        ),
        ("COMPOSITE_EVENTS", vec!["id", "start", "cpu", "threadState", "globalTid"]),
        ("SCHED_EVENTS", vec!["start", "cpu", "globalTid", "threadState"]),
    ];
    for (name, columns) in tables {
        assert!(StandardAdapter.probe(&schema(&[(name, &columns)])), "{name}");
        let fewer = &columns[1..];
        assert!(!StandardAdapter.probe(&schema(&[(name, fewer)])), "{name}");
    }
}

#[test]
fn schema_version_needs_all_three_parts() {
    let rows = vec![
        row("EXPORT_SCHEMA_VERSION_MAJOR", "3"),
        row("EXPORT_SCHEMA_VERSION_MINOR", "22"),
        row("EXPORT_SCHEMA_VERSION_MICRO", "1"),
        row("EXPORT_PRODUCT_VERSION", "2025.4.1.136"),
        row("EXPORT_PRODUCT_DATE", ""),
        row("SOMETHING_ELSE", "7"),
    ];
    let v = get_schema_version(Some(&rows)).expect("complete");
    assert_eq!((v.major, v.minor, v.micro), (3, 22, 1));
    assert_eq!(v.product_version.as_deref(), Some("2025.4.1.136"));
    assert_eq!(v.product_date, None);

    assert!(get_schema_version(None).is_none());
    assert!(get_schema_version(Some(&rows[..2].iter().map(|r| row(&r.name, &r.value)).collect()))
        .is_none());
    let bad = vec![
        row("EXPORT_SCHEMA_VERSION_MAJOR", "3"),
        row("EXPORT_SCHEMA_VERSION_MINOR", "x"),
        row("EXPORT_SCHEMA_VERSION_MICRO", "1"),
    ];
    assert!(get_schema_version(Some(&bad)).is_none());
}

#[test]
fn later_version_rows_replace_earlier_ones() {
    let rows = vec![
        row("EXPORT_SCHEMA_VERSION_MAJOR", "2"),
        row("EXPORT_SCHEMA_VERSION_MAJOR", "3"),
        row("EXPORT_SCHEMA_VERSION_MINOR", "0"),
        row("EXPORT_SCHEMA_VERSION_MICRO", "4294967295"),
        row("EXPORT_PRODUCT_DATE", "2025.4"),
        row("EXPORT_PRODUCT_DATE", ""),
    ];
    let v = get_schema_version(Some(&rows)).expect("complete");
    assert_eq!((v.major, v.minor, v.micro), (3, 0, u32::MAX));
    assert_eq!(v.product_date.as_deref(), Some("2025.4"));
}

#[test]
fn adapter_is_picked_by_version_then_by_probe() {
    let s = schema(&[("CUPTI_ACTIVITY_KIND_KERNEL", &["start", "end"])]);
    let choice = pick_adapter(Some(version(3, 1, 0, None)), &s).expect("matches");
    assert_eq!(choice.method, DetectionMethod::VersionMatch);
    assert_eq!(choice.adapter.metadata().id, "v3_standard");
    let choice = pick_adapter(Some(version(4, 1, 0, None)), &s).expect("probed");
    assert_eq!(choice.method, DetectionMethod::FeatureProbe);
    let choice = pick_adapter(None, &s).expect("probed");
    assert_eq!(choice.method, DetectionMethod::FeatureProbe);
    assert!(choice.schema_version.is_none());
    let err = pick_adapter(Some(version(3, 1, 0, None)), &schema(&[])).expect_err("no table");
    assert_eq!(err.code().as_str(), "nsys.data.schema-adapter-unmatched");
}

#[test]
fn adapters_are_selected_by_major_version() {
    assert!(select_by_version(&version(3, 99, 0, None)).is_some());
    assert!(select_by_version(&version(2, 99, 0, None)).is_none());
    assert!(table_exists(&schema(&[("OSRT_API", &[])]), "OSRT_API"));
    assert!(!table_exists(&schema(&[("OSRT_API", &[])]), "OSRT"));
}

#[test]
fn schema_version_copies_keep_every_part() {
    let v = SchemaVersion {
        major: 3,
        minor: 2,
        micro: 1,
        product_version: Some("a".to_string()),
        product_date: Some("b".to_string()),
    };
    let copy = v.copied();
    assert_eq!((copy.major, copy.minor, copy.micro), (3, 2, 1));
    assert_eq!(copy.product_version.as_deref(), Some("a"));
    assert_eq!(copy.product_date.as_deref(), Some("b"));
}
