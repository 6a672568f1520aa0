use pg_debug_scan::snapshot_spec::{parse_snapshot_spec, SnapshotSpecError};

#[test]
fn parse_basic() {
    let d = parse_snapshot_spec("4:45:23,35").unwrap();
    assert_eq!(d.xmin, 4);
    assert_eq!(d.xmax, 45);
    assert_eq!(d.xip, vec![23, 35]);
}

#[test]
fn parse_empty_xip() {
    let d = parse_snapshot_spec("4:45:").unwrap();
    assert_eq!(d.xmin, 4);
    assert_eq!(d.xmax, 45);
    assert_eq!(d.xip, Vec::<u32>::new());
}

#[test]
fn parse_two_fields_rejected() {
    assert_eq!(parse_snapshot_spec("4:45"), Err(SnapshotSpecError::Format));
}

#[test]
fn parse_out_of_range_xip() {
    assert_eq!(
        parse_snapshot_spec("4:45:50,"),
        Err(SnapshotSpecError::Range { value: 50, xmin: 4, xmax: 45 })
    );
}

#[test]
fn parse_range_error_beats_later_format_error() {
    assert_eq!(
        parse_snapshot_spec("4:45:50,abc"),
        Err(SnapshotSpecError::Range { value: 50, xmin: 4, xmax: 45 })
    );
}

#[test]
fn parse_trailing_empty_token_after_valid_member() {
    assert_eq!(parse_snapshot_spec("4:45:23,"), Err(SnapshotSpecError::Format));
}

#[test]
fn parse_four_fields_rejected() {
    assert_eq!(parse_snapshot_spec("1:2:3:4"), Err(SnapshotSpecError::Format));
}

#[test]
fn parse_empty_text_rejected() {
    assert_eq!(parse_snapshot_spec(""), Err(SnapshotSpecError::Format));
}

#[test]
fn parse_non_numeric_field_rejected() {
    assert_eq!(parse_snapshot_spec("a:45:"), Err(SnapshotSpecError::Format));
    assert_eq!(parse_snapshot_spec("4:b:"), Err(SnapshotSpecError::Format));
    assert_eq!(parse_snapshot_spec("4:45:c"), Err(SnapshotSpecError::Format));
}

#[test]
fn parse_leading_plus_accepted() {
    let d = parse_snapshot_spec("+4:+45:+23").unwrap();
    assert_eq!(d.xmin, 4);
    assert_eq!(d.xmax, 45);
    assert_eq!(d.xip, vec![23]);
}

#[test]
fn parse_bare_plus_rejected() {
    assert_eq!(parse_snapshot_spec("+:45:"), Err(SnapshotSpecError::Format));
}

#[test]
fn parse_largest_value() {
    let d = parse_snapshot_spec("0:4294967295:").unwrap();
    assert_eq!(d.xmin, 0);
    assert_eq!(d.xmax, 4294967295);
}

#[test]
fn parse_overflowing_value_rejected() {
    assert_eq!(parse_snapshot_spec("0:4294967296:"), Err(SnapshotSpecError::Format));
    assert_eq!(
        parse_snapshot_spec("0:5:99999999999999999999"),
        Err(SnapshotSpecError::Format)
    );
}

#[test]
fn parse_leading_zeros() {
    let d = parse_snapshot_spec("007:0010:").unwrap();
    assert_eq!(d.xmin, 7);
    assert_eq!(d.xmax, 10);
}

#[test]
fn parse_inverted_bounds_with_empty_xip() {
    let d = parse_snapshot_spec("45:4:").unwrap();
    assert_eq!(d.xmin, 45);
    assert_eq!(d.xmax, 4);
    assert_eq!(d.xip, Vec::<u32>::new());
}

#[test]
fn parse_inverted_bounds_with_member_rejected() {
    assert_eq!(
        parse_snapshot_spec("45:4:10"),
        Err(SnapshotSpecError::Range { value: 10, xmin: 45, xmax: 4 })
    );
}

#[test]
fn parse_whitespace_rejected() {
    assert_eq!(parse_snapshot_spec(" 4:45:"), Err(SnapshotSpecError::Format));
    assert_eq!(parse_snapshot_spec("4:45: "), Err(SnapshotSpecError::Format));
}

#[test]
fn parse_negative_rejected() {
    assert_eq!(parse_snapshot_spec("-4:45:"), Err(SnapshotSpecError::Format));
}

#[test]
fn parse_bound_values_of_range() {
    let d = parse_snapshot_spec("4:45:4,44").unwrap();
    assert_eq!(d.xip, vec![4, 44]);
    assert_eq!(
        parse_snapshot_spec("4:45:45"),
        Err(SnapshotSpecError::Range { value: 45, xmin: 4, xmax: 45 })
    );
    assert_eq!(
        parse_snapshot_spec("4:45:3"),
        Err(SnapshotSpecError::Range { value: 3, xmin: 4, xmax: 45 })
    );
}

#[test]
fn parse_duplicate_and_unsorted_members_kept() {
    let d = parse_snapshot_spec("4:45:35,23,35").unwrap();
    assert_eq!(d.xip, vec![35, 23, 35]);
}
