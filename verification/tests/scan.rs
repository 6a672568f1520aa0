use pg_debug_scan::render::ConsistencyError;
use pg_debug_scan::scan::{debug_scan, open_scan, scan_table, DebugScanError, ScanRow};
use pg_debug_scan::snapshot::{build_snapshot, select_snapshot, Snapshot, SnapshotDescriptor};
use pg_debug_scan::snapshot_spec::{parse_snapshot_spec, SnapshotSpecError};
use pg_debug_scan::table::{AttributeDescriptor, Table, TupleVersion};
use pg_debug_scan::xid::{
    FIRST_NORMAL_TRANSACTION_ID, FROZEN_TRANSACTION_ID, INVALID_TRANSACTION_ID,
};

fn attr(name: &str, ordinal: u32, relid: u32, dropped: bool) -> AttributeDescriptor {
    AttributeDescriptor {
        name: name.to_string(),
        type_id: 25,
        ordinal,
        owning_relid: relid,
        dropped,
    }
}

fn live(xmin: u32, values: Vec<Option<String>>) -> TupleVersion {
    TupleVersion { xmin, xmax: INVALID_TRANSACTION_ID, frozen: false, values }
}

fn text(v: &str) -> Option<String> {
    Some(v.to_string())
}

fn snapshot(xmin: u32, xmax: u32, xip: Vec<u32>) -> Snapshot {
    let xcnt = xip.len();
    Snapshot { xmin, xmax, xip, xcnt, copied: false }
}

fn two_column_table(relid: u32, tuples: Vec<TupleVersion>) -> Table {
    Table {
        relid,
        attributes: vec![attr("time", 1, relid, false), attr("value", 2, relid, false)],
        tuples,
    }
}

fn rows_of(r: Result<Vec<ScanRow>, DebugScanError>) -> Vec<ScanRow> {
    match r {
        Ok(rows) => rows,
        Err(e) => panic!("scan failed: {:?}", e),
    }
}

#[test]
fn scan_surfaces_visible_versions_only() {
    let table = two_column_table(
        1000,
        vec![
            live(3, vec![text("t1"), text("1")]),
            live(23, vec![text("t2"), text("2")]),
            live(30, vec![text("t3"), text("3")]),
            live(50, vec![text("t4"), text("4")]),
        ],
    );
    // 23 is listed in progress, 50 sits at or above the upper bound.
    let d = parse_snapshot_spec("4:45:23").unwrap();
    let rows = rows_of(scan_table(&table, build_snapshot(&d), 99).map_err(DebugScanError::Consistency));
    assert_eq!(rows.len(), 2);
    assert_eq!(rows[0].xmin, 3);
    assert_eq!(rows[1].xmin, 30);
    assert_eq!(rows[0].data, "{\"time\":\"t1\",\"value\":\"1\"}");
}

#[test]
fn scan_exclusion_yields_zero_rows() {
    let table = two_column_table(
        1000,
        vec![live(10, vec![text("a"), text("b")]), live(20, vec![text("c"), text("d")])],
    );
    // The upper bound lies below every creating transaction id.
    let d = parse_snapshot_spec("5:5:").unwrap();
    let rows = rows_of(scan_table(&table, build_snapshot(&d), 1).map_err(DebugScanError::Consistency));
    assert_eq!(rows.len(), 0);
}

#[test]
fn scan_equivalence_of_matching_spec_and_default() {
    let table = two_column_table(
        1000,
        vec![
            live(3, vec![text("t1"), text("1")]),
            live(23, vec![text("t2"), text("2")]),
            live(30, vec![text("t3"), text("3")]),
            live(50, vec![text("t4"), text("4")]),
            TupleVersion { xmin: 5, xmax: 30, frozen: false, values: vec![text("t5"), text("5")] },
        ],
    );
    let current = snapshot(4, 45, vec![23]);
    let with_spec = rows_of(debug_scan(&table, Some("4:45:23"), &current, 99));
    let with_default = rows_of(debug_scan(&table, None, &current, 99));
    assert_eq!(with_spec.len(), with_default.len());
    for (a, b) in with_spec.iter().zip(with_default.iter()) {
        assert_eq!(a.xmin, b.xmin);
        assert_eq!(a.xmax, b.xmax);
        assert_eq!(a.data, b.data);
    }
}

#[test]
fn scan_own_single_row_end_to_end() {
    let txid = 7;
    let table = two_column_table(1000, vec![live(txid, vec![text("2024-04-12"), text("1")])]);
    let current = snapshot(txid, txid, vec![]);
    let rows = rows_of(debug_scan(&table, Some("7:7:"), &current, txid));
    assert_eq!(rows.len(), 1);
    assert_eq!(rows[0].xmin, txid);
    assert_eq!(rows[0].xmax, 0);
    assert_eq!(rows[0].data, "{\"time\":\"2024-04-12\",\"value\":\"1\"}");
}

#[test]
fn scan_rejects_bad_spec_before_scanning() {
    let table = two_column_table(1000, vec![live(10, vec![text("a"), text("b")])]);
    let current = snapshot(0, 100, vec![]);
    assert_eq!(
        debug_scan(&table, Some("4:45"), &current, 1).err(),
        Some(DebugScanError::Snapshot(SnapshotSpecError::Format))
    );
    assert_eq!(
        debug_scan(&table, Some("4:45:50,"), &current, 1).err(),
        Some(DebugScanError::Snapshot(SnapshotSpecError::Range { value: 50, xmin: 4, xmax: 45 }))
    );
}

#[test]
fn scan_deleted_version_hidden_once_deletion_is_visible() {
    let deleted = TupleVersion { xmin: 10, xmax: 20, frozen: false, values: vec![text("x"), text("y")] };
    let table = two_column_table(1000, vec![deleted]);
    // Deletion by transaction 20 is not visible below an upper bound of 15.
    let d = parse_snapshot_spec("15:15:").unwrap();
    let rows = rows_of(scan_table(&table, build_snapshot(&d), 1).map_err(DebugScanError::Consistency));
    assert_eq!(rows.len(), 1);
    assert_eq!(rows[0].xmax, 20);
    // Under bounds that see transaction 20, the version is gone.
    let d = parse_snapshot_spec("25:25:").unwrap();
    let rows = rows_of(scan_table(&table, build_snapshot(&d), 1).map_err(DebugScanError::Consistency));
    assert_eq!(rows.len(), 0);
}

#[test]
fn scan_frozen_version_always_visible_with_sentinel_ids() {
    let frozen = TupleVersion {
        xmin: 9999,
        xmax: INVALID_TRANSACTION_ID,
        frozen: true,
        values: vec![text("old"), text("row")],
    };
    let table = two_column_table(1000, vec![frozen]);
    // Bounds that would exclude transaction 9999 entirely.
    let d = parse_snapshot_spec("5:5:").unwrap();
    let rows = rows_of(scan_table(&table, build_snapshot(&d), 1).map_err(DebugScanError::Consistency));
    assert_eq!(rows.len(), 1);
    assert_eq!(rows[0].xmin, FROZEN_TRANSACTION_ID);
    assert_eq!(rows[0].xmax, FROZEN_TRANSACTION_ID);
    // The sentinel can never collide with a real transaction id.
    assert!(FROZEN_TRANSACTION_ID < FIRST_NORMAL_TRANSACTION_ID);
}

#[test]
fn scan_consistency_error_aborts() {
    let relid = 1000;
    let table = Table {
        relid,
        attributes: vec![attr("time", 1, relid, false), attr("value", 2, 1234, false)],
        tuples: vec![live(10, vec![text("a"), text("b")])],
    };
    let d = parse_snapshot_spec("0:100:").unwrap();
    let r = scan_table(&table, build_snapshot(&d), 1);
    assert_eq!(r.err(), Some(ConsistencyError { relation: relid, attribute_relation: 1234 }));
}

#[test]
fn scan_consistency_error_surfaces_through_whole_operation() {
    let relid = 1000;
    let table = Table {
        relid,
        attributes: vec![attr("time", 1, relid, false), attr("value", 2, 1234, false)],
        tuples: vec![live(10, vec![text("a"), text("b")])],
    };
    let current = snapshot(0, 100, vec![]);
    assert_eq!(
        debug_scan(&table, Some("0:100:"), &current, 1).err(),
        Some(DebugScanError::Consistency(ConsistencyError {
            relation: relid,
            attribute_relation: 1234,
        }))
    );
}

#[test]
fn scan_consistency_not_checked_without_visible_rows() {
    let relid = 1000;
    let table = Table {
        relid,
        attributes: vec![attr("time", 1, relid, false), attr("value", 2, 1234, false)],
        tuples: vec![live(10, vec![text("a"), text("b")])],
    };
    // Nothing visible: the offending attribute is never reached.
    let d = parse_snapshot_spec("5:5:").unwrap();
    let rows = rows_of(scan_table(&table, build_snapshot(&d), 1).map_err(DebugScanError::Consistency));
    assert_eq!(rows.len(), 0);
}

#[test]
fn scan_dropped_attribute_owner_not_checked() {
    let relid = 1000;
    let table = Table {
        relid,
        attributes: vec![attr("time", 1, relid, false), attr("gone", 2, 1234, true)],
        tuples: vec![live(10, vec![text("a"), text("b")])],
    };
    let d = parse_snapshot_spec("0:100:").unwrap();
    let rows = rows_of(scan_table(&table, build_snapshot(&d), 1).map_err(DebugScanError::Consistency));
    assert_eq!(rows.len(), 1);
    assert_eq!(rows[0].data, "{\"time\":\"a\"}");
}

#[test]
fn scan_empty_table() {
    let table = two_column_table(1000, vec![]);
    let d = parse_snapshot_spec("0:100:").unwrap();
    let rows = rows_of(scan_table(&table, build_snapshot(&d), 1).map_err(DebugScanError::Consistency));
    assert_eq!(rows.len(), 0);
}

#[test]
fn scanner_state_machine_drives_by_hand() {
    let table = two_column_table(
        1000,
        vec![live(10, vec![text("a"), text("b")]), live(50, vec![text("c"), text("d")]),
            live(12, vec![text("e"), None])],
    );
    let d = parse_snapshot_spec("0:20:").unwrap();
    let mut scanner = open_scan(build_snapshot(&d), 1);
    let first = scanner.next(&table).expect("first visible version");
    assert_eq!(first.xmin, 10);
    let second = scanner.next(&table).expect("second visible version, skipping 50");
    assert_eq!(second.xmin, 12);
    assert_eq!(second.values, vec![text("e"), None]);
    assert!(scanner.next(&table).is_none());
    assert!(scanner.next(&table).is_none());
    scanner.close();
}

#[test]
fn build_snapshot_owns_its_list() {
    let d = parse_snapshot_spec("4:45:23,35").unwrap();
    let s = build_snapshot(&d);
    assert_eq!(s.xmin, 4);
    assert_eq!(s.xmax, 45);
    assert_eq!(s.xip, vec![23, 35]);
    assert_eq!(s.xcnt, 2);
    assert!(s.copied);
    // The descriptor's buffer is intact and separate.
    assert_eq!(d.xip, vec![23, 35]);
}

#[test]
fn select_snapshot_without_descriptor_keeps_current() {
    let current = snapshot(4, 45, vec![23]);
    let s = select_snapshot(&None, &current);
    assert_eq!(s.xmin, 4);
    assert_eq!(s.xmax, 45);
    assert_eq!(s.xip, vec![23]);
    assert_eq!(s.xcnt, 1);
    assert!(!s.copied);
}

#[test]
fn select_snapshot_with_descriptor_overrides() {
    let current = snapshot(4, 45, vec![23]);
    let d = SnapshotDescriptor { xmin: 7, xmax: 9, xip: vec![8] };
    let s = select_snapshot(&Some(d), &current);
    assert_eq!(s.xmin, 7);
    assert_eq!(s.xmax, 9);
    assert_eq!(s.xip, vec![8]);
    assert_eq!(s.xcnt, 1);
    assert!(s.copied);
}
