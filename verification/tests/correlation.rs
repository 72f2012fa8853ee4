use veloq_nsys_data::correlation::{
    context_key, native_pid_from_global_tid, path_for, synthetic_id, ContextProcessRow,
    CorrelatedRowIds, CorrelationIndex, CorrelationItem, GpuCorrelationRow, GpuCorrelationTable,
    ItemKind, RuntimeCorrelationRow, SyntheticId,
};

#[test]
fn synthetic_id_layout() {
    assert_eq!(synthetic_id(0, 0, 0), 0);
    assert_eq!(synthetic_id(1, 0, 0), 1u64 << 56);
    assert_eq!(synthetic_id(0, 1, 0), 1u64 << 40);
    assert_eq!(synthetic_id(0, 0, 1), 1);
    assert_eq!(synthetic_id(0, 0, 0xFFFF_FFFF_FFFF), 0xFF_FFFF_FFFF);
}

#[test]
fn native_pid_skips_source_domain_byte() {
    let global_tid = (1000i64 << 24) | (0x3B << 16) | 7;
    assert_eq!(native_pid_from_global_tid(global_tid), 1000);
}

#[test]
fn lookup_returns_grouped_rows() {
    let mut idx = CorrelationIndex::default();
    let syn = synthetic_id(2, 5, 999);
    idx.groups.insert(
        syn,
        CorrelatedRowIds {
            kernel: vec![100, 101],
            memcpy: vec![200],
            memset: vec![],
            runtime: vec![300],
            sync: vec![400],
            graph: vec![500],
        },
    );
    let got = idx.lookup(2, 5, 999).expect("group should exist");
    assert_eq!(got.kernel, vec![100, 101]);
    assert_eq!(got.runtime, vec![300]);
    assert_eq!(got.sync, vec![400]);
    assert_eq!(got.graph, vec![500]);
    assert!(idx.lookup(2, 5, 888).is_none());
}

#[test]
fn lookup_by_runtime_resolves_via_process_map() {
    let mut idx = CorrelationIndex::default();
    idx.process_to_contexts.insert(1000, vec![(3, 7)]);
    let syn = synthetic_id(3, 7, 42);
    idx.groups.insert(syn, CorrelatedRowIds { kernel: vec![55], ..Default::default() });
    let global_tid = 1000i64 << 24;
    let got = idx.lookup_by_runtime(global_tid, 42).expect("runtime lookup should resolve");
    assert_eq!(got.kernel, vec![55]);
}

#[test]
fn lookup_by_runtime_merges_multi_context() {
    let mut idx = CorrelationIndex::default();
    idx.process_to_contexts.insert(1000, vec![(0, 11), (1, 22)]);
    idx.groups.insert(
        synthetic_id(0, 11, 99),
        CorrelatedRowIds { kernel: vec![100], ..Default::default() },
    );
    idx.groups.insert(
        synthetic_id(1, 22, 99),
        CorrelatedRowIds { memcpy: vec![200], ..Default::default() },
    );

    let global_tid = 1000i64 << 24;
    let got =
        idx.lookup_by_runtime(global_tid, 99).expect("multi-context merge should produce a hit");
    assert_eq!(got.kernel, vec![100]);
    assert_eq!(got.memcpy, vec![200]);

    let ctxs = idx.contexts_for_pid(1000);
    assert!(ctxs.contains(&(0, 11)) && ctxs.contains(&(1, 22)));
}

fn gpu(rowid: i64, correlation: i64, device: i64, context: i64) -> GpuCorrelationRow {
    GpuCorrelationRow { rowid, correlation, device, context }
}

#[test]
fn built_index_links_calls_to_their_work() {
    let contexts = vec![
        ContextProcessRow { device: 0, context: 1, process: 1000 },
        ContextProcessRow { device: 1, context: 2, process: 1000 },
        ContextProcessRow { device: 1, context: 2, process: 1000 },
    ];
    let tables = vec![
        GpuCorrelationTable { kind: ItemKind::Kernel, rows: vec![gpu(10, 7, 0, 1), gpu(11, 7, 0, 1)] },
        GpuCorrelationTable { kind: ItemKind::Memset, rows: vec![gpu(20, 7, 1, 2)] },
        GpuCorrelationTable { kind: ItemKind::Graph, rows: vec![gpu(30, 8, 0, 1)] },
    ];
    let runtime = vec![
        RuntimeCorrelationRow { rowid: 90, correlation: 7, global_tid: 1000i64 << 24 },
        RuntimeCorrelationRow { rowid: 91, correlation: 9, global_tid: 5i64 << 24 },
    ];
    let idx = CorrelationIndex::build(&contexts, &tables, &runtime);
    assert_eq!(idx.contexts_for_pid(1000), &[(0, 1), (1, 2)]);
    assert_eq!(idx.context_to_process.get(&context_key(1, 2)), Some(&1000));
    let got = idx.lookup_by_runtime(1000i64 << 24, 7).expect("linked");
    assert_eq!(got.kernel, vec![10, 11]);
    assert_eq!(got.memset, vec![20]);
    assert_eq!(got.runtime, vec![90, 90]);
    assert_eq!(idx.lookup(0, 1, 7).expect("context").runtime, vec![90]);
    assert_eq!(idx.lookup(1, 2, 7).expect("context").runtime, vec![90]);
    assert_eq!(idx.lookup(0, 5, 9).expect("under the process").runtime, vec![91]);
    assert!(idx.lookup_by_runtime(5i64 << 24, 9).is_none());
    let stats = idx.stats();
    assert_eq!(stats.kernel_rows, 2);
    assert_eq!(stats.memset_rows, 1);
    assert_eq!(stats.graph_rows, 1);
    assert_eq!(stats.runtime_rows, 3);
}

#[test]
fn synthetic_ids_print_as_hexadecimal() {
    let id = SyntheticId::pack(1, 2, 3);
    assert_eq!(id.raw(), (1u64 << 56) | (2u64 << 40) | 3);
    assert_eq!(id.to_hex(), "0x0100020000000003");
    assert_ne!(SyntheticId::pack(1, 2, 4).raw(), id.raw());
}

#[test]
fn empty_groups_hold_nothing() {
    assert!(CorrelatedRowIds::default().is_empty());
    let group = CorrelatedRowIds { sync: vec![1], ..Default::default() };
    assert!(!group.is_empty());
    assert_eq!(path_for("/tmp/t.nsys-rep"), "/tmp/t.nsys-rep.veloq/correlation.bin");
}

#[test]
fn merged_items_are_counted_under_their_kinds() {
    let item = |syn_id, kind, rowid| CorrelationItem { syn_id, kind, rowid };
    let mut idx = CorrelationIndex::default();
    idx.groups.insert(1, CorrelatedRowIds { kernel: vec![5], ..Default::default() });
    idx.merge_items(&vec![
        item(1, ItemKind::Kernel, 5),
        item(2, ItemKind::Kernel, 6),
        item(2, ItemKind::Sync, 7),
    ]);
    let stats = idx.stats();
    assert_eq!((stats.kernel_rows, stats.sync_rows, stats.memcpy_rows), (3, 1, 0));
    assert_eq!(stats.unique_groups, 2);
}

#[test]
fn ids_agree_where_the_fields_do() {
    assert_eq!(synthetic_id(0x1_02, 0x5_0003, 1 << 40), synthetic_id(2, 3, 0));
    assert_ne!(synthetic_id(0x1_02, 0x5_0003, 1 << 40), synthetic_id(2, 4, 0));
}
