use veloq_nsys_data::nvtx_nesting::compute_from_rows;
use veloq_nsys_data::nvtx_tree::compute::NvtxRow;

fn r(rowid: i64, start: i64, end: Option<i64>, tid: i64, domain: i64, name: &str) -> NvtxRow {
    NvtxRow { rowid, start, end, global_tid: tid, domain_id: domain, name: name.to_string() }
}

#[test]
fn stack_depths_match_expected_layout() {
    let rows = vec![
        r(1, 0, Some(10), 100, 0, "outer"),
        r(2, 2, Some(5), 100, 0, "inner"),
        r(3, 4, None, 100, 0, "marker"),
        r(4, 6, Some(8), 100, 0, "inner"),
        r(5, 1, Some(3), 200, 1, "elsewhere"),
    ];

    let entries = compute_from_rows(rows);
    assert_eq!(entries.get(&1).map(|e| e.depth), Some(0));
    assert_eq!(entries.get(&2).map(|e| e.depth), Some(1));
    assert_eq!(entries.get(&3).map(|e| e.depth), Some(2));
    assert_eq!(entries.get(&4).map(|e| e.depth), Some(1));
    assert_eq!(entries.get(&5).map(|e| e.depth), Some(0));
}

#[test]
fn nvtx_nesting_touching_boundary_does_not_nest() {
    let rows = vec![r(1, 0, Some(10), 1, 0, "a"), r(2, 10, Some(20), 1, 0, "b")];
    let entries = compute_from_rows(rows);
    assert_eq!(entries.get(&1).map(|e| e.depth), Some(0));
    assert_eq!(entries.get(&2).map(|e| e.depth), Some(0));
}

#[test]
fn zero_duration_range_is_treated_as_marker() {
    let rows = vec![
        r(1, 0, Some(10), 1, 0, "a"),
        r(2, 5, Some(5), 1, 0, "b"),
        r(3, 6, Some(8), 1, 0, "c"),
    ];
    let entries = compute_from_rows(rows);
    assert_eq!(entries.get(&1).map(|e| e.depth), Some(0));
    assert_eq!(entries.get(&2).map(|e| e.depth), Some(1));
    assert_eq!(entries.get(&3).map(|e| e.depth), Some(1));
}

#[test]
fn iter_index_counts_same_name_repeats_per_thread() {
    let rows = vec![
        r(1, 0, Some(10), 1, 0, "step"),
        r(2, 20, Some(30), 1, 0, "step"),
        r(3, 40, Some(50), 1, 0, "decode"),
        r(4, 60, Some(70), 1, 0, "step"),
        r(5, 0, Some(10), 2, 0, "step"),
    ];
    let entries = compute_from_rows(rows);
    assert_eq!(entries.get(&1).map(|e| e.iter_index), Some(0));
    assert_eq!(entries.get(&2).map(|e| e.iter_index), Some(1));
    assert_eq!(entries.get(&3).map(|e| e.iter_index), Some(0));
    assert_eq!(entries.get(&4).map(|e| e.iter_index), Some(2));
    assert_eq!(entries.get(&5).map(|e| e.iter_index), Some(0));
}

#[test]
fn depth_stops_at_the_largest_byte() {
    let rows: Vec<NvtxRow> =
        (0..300).map(|i| r(i, i, Some(1000 - i), 1, 0, "deep")).collect();
    let entries = compute_from_rows(rows);
    assert_eq!(entries.len(), 300);
    assert_eq!(entries.get(&254).map(|e| e.depth), Some(254));
    assert_eq!(entries.get(&255).map(|e| e.depth), Some(255));
    assert_eq!(entries.get(&299).map(|e| e.depth), Some(255));
    assert_eq!(entries.get(&299).map(|e| e.iter_index), Some(299));
}

#[test]
fn no_rows_give_no_entries() {
    assert!(compute_from_rows(Vec::new()).is_empty());
}
