use co2db::table::Table;
use co2db::{Measurement, MoveDB, StorageError};

const DAY: i64 = 86_400_000_000_000;

fn filled(timestamps: &[i64]) -> Table {
    let mut t = Table::new();
    for ts in timestamps {
        t.insert_at(*ts, "topic", &format!("p{}", ts)).unwrap();
    }
    t
}

fn keys(t: &Table) -> Vec<i64> {
    let mut out = Vec::new();
    let mut i = 0;
    while let Some(m) = t.get(i) {
        out.push(m.timestamp);
        i += 1;
    }
    out
}

#[test]
fn empty_table_has_no_data() {
    let t = Table::new();
    assert_eq!(t.count(), 0);
    assert_eq!(t.earliest(), Err(StorageError::NoData));
    assert_eq!(t.latest(), Err(StorageError::NoData));
    assert!(t.get(0).is_none());
}

#[test]
fn increasing_inserts_count_and_latest() {
    let mut t = Table::new();
    for n in 1..=50i64 {
        assert_eq!(t.insert_at(n * 10, "a", "x"), Ok(()));
        assert_eq!(t.count(), n);
        assert_eq!(t.latest(), Ok(n * 10));
    }
    assert_eq!(t.earliest(), Ok(10));
}

#[test]
fn insert_keeps_timestamp_order() {
    let t = filled(&[30, 10, 20, -5, 25]);
    assert_eq!(keys(&t), vec![-5, 10, 20, 25, 30]);
    assert_eq!(t.earliest(), Ok(-5));
    assert_eq!(t.latest(), Ok(30));
    assert_eq!(
        t.get(1),
        Some(&Measurement { timestamp: 10, topic: "topic".to_string(), payload: "p10".to_string() })
    );
}

#[test]
fn second_insert_under_same_timestamp_collides() {
    let mut t = filled(&[1, 2, 3]);
    assert_eq!(t.insert_at(2, "other", "value"), Err(StorageError::PrimaryKeyCollision));
    assert_eq!(t.count(), 3);
    assert_eq!(t.get(1).unwrap().payload, "p2");
}

#[test]
fn prune_removes_rows_older_than_cutoff() {
    let mut t = filled(&[0, DAY - 1, DAY, DAY + 1, 3 * DAY]);
    assert_eq!(t.prune(2), Ok(()));
    // cutoff is 3 days - 2 days = 1 day: the row at exactly one day stays
    assert_eq!(keys(&t), vec![DAY, DAY + 1, 3 * DAY]);
}

#[test]
fn prune_twice_removes_nothing_more() {
    let mut t = filled(&[0, DAY, 2 * DAY, 5 * DAY, 6 * DAY]);
    assert_eq!(t.prune(1), Ok(()));
    let once = keys(&t);
    assert_eq!(once, vec![5 * DAY, 6 * DAY]);
    assert_eq!(t.prune(1), Ok(()));
    assert_eq!(keys(&t), once);
}

#[test]
fn prune_with_zero_days_keeps_latest_only() {
    let mut t = filled(&[1, 2, 3]);
    assert_eq!(t.prune(0), Ok(()));
    assert_eq!(keys(&t), vec![3]);
}

#[test]
fn prune_with_huge_horizon_keeps_everything() {
    let mut t = filled(&[i64::MIN, -1, 0, i64::MAX]);
    assert_eq!(t.prune(u32::MAX), Ok(()));
    assert_eq!(t.count(), 4);
}

#[test]
fn prune_on_empty_table_reports_no_data() {
    let mut t = Table::new();
    assert_eq!(t.prune(7), Err(StorageError::NoData));
    assert_eq!(t.count(), 0);
}

#[test]
fn migrate_overwrite_replaces_destination() {
    let mut src = filled(&[5, 6, 7]);
    let mut dst = filled(&[1, 6, 100, 200]);
    assert_eq!(src.migrate(&mut dst, MoveDB::OVERWRITE), Ok(()));
    assert_eq!(src.count(), 0);
    assert_eq!(dst.count(), 3);
    assert_eq!(keys(&dst), vec![5, 6, 7]);
    assert_eq!(dst.get(0).unwrap().payload, "p5");
}

#[test]
fn migrate_append_adds_counts_with_overlapping_ranges() {
    let mut src = filled(&[15, 25, 35]);
    let mut dst = filled(&[10, 20, 30, 40]);
    assert_eq!(src.migrate(&mut dst, MoveDB::APPEND), Ok(()));
    assert_eq!(src.count(), 0);
    assert_eq!(dst.count(), 7);
    assert_eq!(keys(&dst), vec![10, 15, 20, 25, 30, 35, 40]);
}

#[test]
fn migrate_append_with_common_timestamp_changes_nothing() {
    let mut src = filled(&[15, 20, 35]);
    let mut dst = filled(&[10, 20, 30]);
    assert_eq!(src.migrate(&mut dst, MoveDB::APPEND), Err(StorageError::PrimaryKeyCollision));
    assert_eq!(keys(&src), vec![15, 20, 35]);
    assert_eq!(keys(&dst), vec![10, 20, 30]);
}

#[test]
fn migrate_from_empty_source() {
    let mut src = Table::new();
    let mut dst = filled(&[1, 2]);
    assert_eq!(src.migrate(&mut dst, MoveDB::APPEND), Ok(()));
    assert_eq!(dst.count(), 2);
    assert_eq!(src.migrate(&mut dst, MoveDB::OVERWRITE), Ok(()));
    assert_eq!(dst.count(), 0);
}

#[test]
fn table_from_rows_in_any_order() {
    let rows = vec![
        Measurement { timestamp: 30, topic: "a".to_string(), payload: "c".to_string() },
        Measurement { timestamp: 10, topic: "a".to_string(), payload: "a".to_string() },
        Measurement { timestamp: 20, topic: "b".to_string(), payload: "b".to_string() },
    ];
    let t = Table::from_rows(rows).unwrap();
    assert_eq!(keys(&t), vec![10, 20, 30]);
    assert_eq!(t.get(1).unwrap().topic, "b");
    assert_eq!(Table::from_rows(Vec::new()).unwrap().count(), 0);
}

#[test]
fn table_from_rows_with_repeated_timestamp_is_refused() {
    let rows = vec![
        Measurement { timestamp: 10, topic: "a".to_string(), payload: "a".to_string() },
        Measurement { timestamp: 20, topic: "a".to_string(), payload: "b".to_string() },
        Measurement { timestamp: 10, topic: "a".to_string(), payload: "c".to_string() },
    ];
    assert_eq!(Table::from_rows(rows).err(), Some(StorageError::PrimaryKeyCollision));
}
