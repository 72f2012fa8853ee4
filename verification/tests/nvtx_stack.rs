use veloq_nsys_data::nvtx_stack::{scan_group, NvtxScanRow};

struct Row {
    rowid: i64,
    start: i64,
    end: Option<i64>,
}

impl NvtxScanRow for Row {
    fn scan_span(&self) -> (i64, Option<i64>, i64) {
        (self.start, self.end, self.rowid)
    }
    fn start(&self) -> i64 {
        self.start
    }
    fn end(&self) -> Option<i64> {
        self.end
    }
    fn rowid(&self) -> i64 {
        self.rowid
    }
}

fn scan(mut rows: Vec<Row>) -> Vec<(i64, Option<i64>, usize)> {
    scan_group(&mut rows, |r: &Row, parent, depth| (r.rowid, parent, depth))
}

fn row(rowid: i64, start: i64, end: Option<i64>) -> Row {
    Row { rowid, start, end }
}

#[test]
fn touching_boundary_is_sibling_not_child() {
    let out = scan(vec![row(1, 0, Some(100)), row(2, 100, Some(200))]);
    assert_eq!(out, vec![(1, None, 0), (2, None, 0)]);
}

#[test]
fn strict_nesting_reports_parent_and_depth() {
    let out = scan(vec![row(3, 40, Some(60)), row(1, 0, Some(100)), row(2, 25, Some(75))]);
    assert_eq!(out, vec![(1, None, 0), (2, Some(1), 1), (3, Some(2), 2)]);
}

#[test]
fn instant_marker_takes_depth_but_is_not_a_parent() {
    let out = scan(vec![row(1, 0, Some(100)), row(2, 50, None), row(3, 60, Some(70))]);
    assert_eq!(out, vec![(1, None, 0), (2, Some(1), 1), (3, Some(1), 1)]);
}

#[test]
fn overlapping_ranges_keep_the_sooner_end_innermost() {
    let out = scan(vec![row(1, 0, Some(100)), row(2, 10, Some(150)), row(3, 20, Some(30))]);
    assert_eq!(out, vec![(1, None, 0), (2, Some(1), 1), (3, Some(1), 2)]);
}

#[test]
fn of_ranges_that_close_together_the_younger_is_the_parent() {
    let out = scan(vec![row(1, 0, Some(100)), row(2, 10, Some(100)), row(3, 20, Some(30))]);
    assert_eq!(out, vec![(1, None, 0), (2, Some(1), 1), (3, Some(2), 2)]);
}

#[test]
fn scanned_rows_are_left_sorted_by_start() {
    let mut rows =
        vec![row(4, 7, None), row(1, 5, Some(9)), row(2, 5, Some(6)), row(3, 0, Some(1))];
    let out = scan_group(&mut rows, |r: &Row, _, _| r.rowid);
    let ids: Vec<i64> = rows.iter().map(|r| r.rowid).collect();
    assert_eq!(ids, vec![3, 1, 2, 4]);
    assert_eq!(out, ids);
}
