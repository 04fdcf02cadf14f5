use co2db::instant::Instant;
use co2db::table::Table;
use co2db::{Co2db, MoveDB, StorageError};

const DAY: i64 = 86_400_000_000_000;

fn memory(name: &str) -> String {
    format!("file:{}?mode=memory&cache=shared", name)
}

fn open(name: &str, table: &str) -> Co2db {
    Co2db::new(&memory(name), table).unwrap()
}

fn keys(db: &Co2db) -> Vec<i64> {
    let sql = format!("SELECT timestamp FROM {} ORDER BY timestamp", db.table);
    let mut statement = db.connection.prepare(&sql).unwrap();
    let rows = statement.query_map([], |row| row.get::<_, i64>(0)).unwrap();
    rows.map(|r| r.unwrap()).collect()
}

fn payloads(db: &Co2db) -> Vec<String> {
    let sql = format!("SELECT payload FROM {} ORDER BY timestamp", db.table);
    let mut statement = db.connection.prepare(&sql).unwrap();
    let rows = statement.query_map([], |row| row.get::<_, String>(0)).unwrap();
    rows.map(|r| r.unwrap()).collect()
}

fn table_keys(t: &Table) -> Vec<i64> {
    let mut out = Vec::new();
    let mut i = 0;
    while let Some(m) = t.get(i) {
        out.push(m.timestamp);
        i += 1;
    }
    out
}

#[test]
fn schema_text_names_the_table() {
    assert_eq!(
        Co2db::get_schema("measurement"),
        "CREATE TABLE IF NOT EXISTS measurement (
                timestamp INTEGER PRIMARY KEY,
                topic TEXT,
                payload TEXT
            );"
    );
}

#[test]
fn new_store_is_empty_and_can_be_reopened() {
    let db = open("store_new", "test_table");
    assert_eq!(db.table, "test_table".to_string());
    assert_eq!(db.count_rows(), Ok(0));
    let again = open("store_new", "test_table");
    assert_eq!(again.table, "test_table".to_string());
    assert_eq!(again.count_rows(), Ok(0));
}

#[test]
fn new_store_in_missing_directory_fails() {
    let r = Co2db::new("/nonexistent-directory-for-co2db/x/y.db", "t");
    assert!(matches!(r, Err(StorageError::Engine(_))));
}

#[test]
fn new_with_connection_creates_the_table() {
    let connection = rusqlite::Connection::open_in_memory().unwrap();
    let db = Co2db::new_with_connection(connection, "fresh").unwrap();
    assert_eq!(db.count_rows(), Ok(0));
    assert_eq!(db.insert_at(1, "a", "b"), Ok(()));
    assert_eq!(db.count_rows(), Ok(1));
}

#[test]
fn aggregates_on_empty_store_report_no_data() {
    let db = open("store_empty", "t");
    assert_eq!(db.earliest_datetime(), Err(StorageError::NoData));
    assert_eq!(db.latest_datetime(), Err(StorageError::NoData));
    assert_eq!(db.leave_rows(3), Err(StorageError::NoData));
    assert_eq!(db.count_rows(), Ok(0));
}

#[test]
fn aggregates_on_missing_table_report_engine_failure() {
    let db = open("store_dropped", "t");
    db.connection.execute("DROP TABLE t", []).unwrap();
    assert_eq!(
        db.earliest_datetime(),
        Err(StorageError::Engine("cannot query earliest timestamp".to_string()))
    );
    assert_eq!(
        db.latest_datetime(),
        Err(StorageError::Engine("cannot query latest timestamp".to_string()))
    );
    assert_eq!(db.count_rows(), Err(StorageError::Engine("cannot count rows".to_string())));
    assert_eq!(
        db.leave_rows(1),
        Err(StorageError::Engine("cannot query latest timestamp".to_string()))
    );
    match db.insert_at(1, "a", "b") {
        Err(StorageError::Engine(text)) => assert!(text.starts_with("cannot insert a row: ")),
        other => panic!("unexpected {:?}", other),
    }
}

#[test]
fn insert_at_stores_the_row() {
    let db = open("store_insert_at", "t");
    assert_eq!(db.insert_at(1_616_041_549_333_282_765, "measurement", "400 21.5 40"), Ok(()));
    assert_eq!(db.count_rows(), Ok(1));
    let row: (i64, String, String) = db
        .connection
        .query_row("SELECT timestamp, topic, payload FROM t", [], |r| {
            Ok((r.get(0)?, r.get(1)?, r.get(2)?))
        })
        .unwrap();
    assert_eq!(row, (1_616_041_549_333_282_765, "measurement".to_string(), "400 21.5 40".to_string()));
    assert_eq!(
        db.earliest_datetime(),
        Ok(Instant { seconds: 1_616_041_549, nanos: 333_282_765 })
    );
    assert_eq!(db.latest_datetime(), Ok(Instant { seconds: 1_616_041_549, nanos: 333_282_765 }));
}

#[test]
fn insert_at_same_timestamp_collides() {
    let db = open("store_collide", "t");
    assert_eq!(db.insert_at(7, "a", "first"), Ok(()));
    assert_eq!(db.insert_at(7, "a", "second"), Err(StorageError::PrimaryKeyCollision));
    assert_eq!(payloads(&db), vec!["first".to_string()]);
}

#[test]
fn insert_stamps_the_current_instant() {
    let db = open("store_insert_now", "test_table");
    let start = chrono::Utc::now().timestamp_nanos_opt().unwrap();
    for count in 1..100 {
        db.insert("test_topic", &format!("{} 2.0 -3", count)).unwrap();
    }
    let end = chrono::Utc::now().timestamp_nanos_opt().unwrap();
    let row: (i64, String, String) = db
        .connection
        .query_row("SELECT *, max(timestamp) FROM test_table", [], |r| {
            Ok((r.get(0)?, r.get(1)?, r.get(2)?))
        })
        .unwrap();
    assert!(row.0 > start);
    assert!(row.0 < end);
    assert_eq!(row.1, "test_topic");
    assert_eq!(row.2, "99 2.0 -3".to_string());
    assert_eq!(db.count_rows(), Ok(99));
}

#[test]
fn increasing_inserts_count_and_latest_in_store() {
    let db = open("store_increasing", "t");
    for n in 1..=20i64 {
        db.insert_at(n * 1_000_000_000 + n, "a", "x").unwrap();
        assert_eq!(db.count_rows(), Ok(n));
        assert_eq!(db.latest_datetime(), Ok(Instant { seconds: n, nanos: n as u32 }));
    }
}

#[test]
fn leave_rows_agrees_with_table() {
    let db = open("store_prune", "t");
    let mut model = Table::new();
    for ts in [0, DAY - 1, DAY, DAY + 1, 2 * DAY, 3 * DAY - 1, 3 * DAY] {
        db.insert_at(ts, "a", "x").unwrap();
        model.insert_at(ts, "a", "x").unwrap();
    }
    assert_eq!(db.leave_rows(2), Ok(()));
    assert_eq!(model.prune(2), Ok(()));
    assert_eq!(keys(&db), vec![DAY, DAY + 1, 2 * DAY, 3 * DAY - 1, 3 * DAY]);
    assert_eq!(keys(&db), table_keys(&model));
    assert_eq!(db.leave_rows(2), Ok(()));
    assert_eq!(db.count_rows(), Ok(5));
    assert_eq!(db.leave_rows(0), Ok(()));
    assert_eq!(model.prune(0), Ok(()));
    assert_eq!(keys(&db), table_keys(&model));
    assert_eq!(keys(&db), vec![3 * DAY]);
}

#[test]
fn leave_rows_with_negative_timestamps_and_huge_horizon() {
    let db = open("store_prune_wide", "t");
    for ts in [i64::MIN, -5 * DAY, -1, 0, 7] {
        db.insert_at(ts, "a", "x").unwrap();
    }
    assert_eq!(db.leave_rows(u32::MAX), Ok(()));
    assert_eq!(db.count_rows(), Ok(5));
    assert_eq!(db.leave_rows(5), Ok(()));
    assert_eq!(keys(&db), vec![-1, 0, 7]);
    assert_eq!(db.earliest_datetime(), Ok(Instant { seconds: -1, nanos: 999_999_999 }));
}

#[test]
fn move_db_overwrite_into_new_destination() {
    let from = open("move_a_from", "move_database_table");
    let to = open("move_a_to", "move_database_table");
    for n in 0..100 {
        from.insert_at(n, "move_database_topic", &format!("{} 3.14 -273", n)).unwrap();
    }
    assert_eq!(from.move_db(&memory("move_a_to"), MoveDB::OVERWRITE), Ok(()));
    assert_eq!(from.count_rows().unwrap(), 0);
    assert_eq!(to.count_rows().unwrap(), 100);
    assert_eq!(keys(&to), (0..100).collect::<Vec<i64>>());
    assert_eq!(payloads(&to)[99], "99 3.14 -273");
}

#[test]
fn move_db_overwrite_replaces_previous_rows() {
    let from = open("move_b_from", "t");
    let to = open("move_b_to", "t");
    for n in [1, 50, 500] {
        to.insert_at(n, "old", "old").unwrap();
    }
    for n in [50, 60] {
        from.insert_at(n, "new", "new").unwrap();
    }
    assert_eq!(from.move_db(&memory("move_b_to"), MoveDB::OVERWRITE), Ok(()));
    assert_eq!(from.count_rows(), Ok(0));
    assert_eq!(keys(&to), vec![50, 60]);
    assert_eq!(payloads(&to), vec!["new".to_string(), "new".to_string()]);
}

#[test]
fn move_db_append_adds_counts() {
    let from = open("move_c_from", "t");
    let to = open("move_c_to", "t");
    let mut model_from = Table::new();
    let mut model_to = Table::new();
    for n in [10, 20, 30, 40] {
        to.insert_at(n, "a", "kept").unwrap();
        model_to.insert_at(n, "a", "kept").unwrap();
    }
    for n in [15, 25, 35] {
        from.insert_at(n, "a", "moved").unwrap();
        model_from.insert_at(n, "a", "moved").unwrap();
    }
    assert_eq!(from.move_db(&memory("move_c_to"), MoveDB::APPEND), Ok(()));
    assert_eq!(model_from.migrate(&mut model_to, MoveDB::APPEND), Ok(()));
    assert_eq!(from.count_rows(), Ok(0));
    assert_eq!(to.count_rows(), Ok(7));
    assert_eq!(keys(&to), table_keys(&model_to));
    assert_eq!(payloads(&to)[1], "moved");
}

#[test]
fn move_db_append_with_common_timestamp_changes_nothing() {
    let from = open("move_d_from", "t");
    let to = open("move_d_to", "t");
    for n in [10, 20, 30] {
        to.insert_at(n, "a", "kept").unwrap();
    }
    for n in [15, 20, 35] {
        from.insert_at(n, "a", "moved").unwrap();
    }
    assert_eq!(
        from.move_db(&memory("move_d_to"), MoveDB::APPEND),
        Err(StorageError::PrimaryKeyCollision)
    );
    assert_eq!(keys(&from), vec![15, 20, 35]);
    assert_eq!(keys(&to), vec![10, 20, 30]);
    assert_eq!(payloads(&to), vec!["kept".to_string(); 3]);
    // the store is usable afterwards and a second migration can succeed
    from.connection.execute("DELETE FROM t WHERE timestamp = 20", []).unwrap();
    assert_eq!(from.move_db(&memory("move_d_to"), MoveDB::APPEND), Ok(()));
    assert_eq!(keys(&to), vec![10, 15, 20, 30, 35]);
}

#[test]
fn move_db_into_unreachable_file_fails() {
    let from = open("move_e_from", "t");
    from.insert_at(1, "a", "x").unwrap();
    let r = from.move_db("/nonexistent-directory-for-co2db/archive.db", MoveDB::OVERWRITE);
    assert!(matches!(r, Err(StorageError::Engine(_))));
    assert_eq!(from.count_rows(), Ok(1));
}

#[test]
fn co2db_count_rows() {
    let db = open("fixture_count", "measurement");
    db.connection
        .execute_batch(
            "WITH RECURSIVE n(i) AS (SELECT 0 UNION ALL SELECT i + 1 FROM n WHERE i < 19160)
             INSERT INTO measurement SELECT 1616041549333282765 + i * 60000000000, 'measurement', i FROM n;",
        )
        .unwrap();
    assert_eq!(db.count_rows().unwrap(), 19161);
}

#[test]
fn co2db_earliest_datetime() {
    let db = open("fixture_earliest", "measurement");
    db.insert_at(1_617_192_407_440_059_540, "measurement", "last").unwrap();
    db.insert_at(1_616_041_549_333_282_765, "measurement", "first").unwrap();
    assert_eq!(
        db.earliest_datetime().unwrap().to_text().unwrap(),
        "2021-03-18 04:25:49.333282765 UTC".to_string()
    );
}

#[test]
fn co2db_latest_datetime() {
    let db = open("fixture_latest", "measurement");
    db.insert_at(1_617_192_407_440_059_540, "measurement", "last").unwrap();
    db.insert_at(1_616_041_549_333_282_765, "measurement", "first").unwrap();
    assert_eq!(
        db.latest_datetime().unwrap().to_text().unwrap(),
        "2021-03-31 12:06:47.440059540 UTC".to_string()
    );
}

#[test]
fn instant_splits_nanoseconds() {
    assert_eq!(Instant::from_nanos(0), Instant { seconds: 0, nanos: 0 });
    assert_eq!(Instant::from_nanos(1_999_999_999), Instant { seconds: 1, nanos: 999_999_999 });
    assert_eq!(Instant::from_nanos(-1), Instant { seconds: -1, nanos: 999_999_999 });
    assert_eq!(Instant::from_nanos(-1_000_000_000), Instant { seconds: -1, nanos: 0 });
    assert_eq!(
        Instant::from_nanos(i64::MIN),
        Instant { seconds: -9_223_372_037, nanos: 145_224_192 }
    );
    assert_eq!(
        Instant::from_nanos(i64::MAX),
        Instant { seconds: 9_223_372_036, nanos: 854_775_807 }
    );
}

#[test]
fn instant_text_is_the_utc_calendar_text() {
    assert_eq!(Instant::from_nanos(0).to_text(), Some("1970-01-01 00:00:00 UTC".to_string()));
    assert_eq!(
        Instant { seconds: 1_431_648_000, nanos: 0 }.to_text(),
        Some("2015-05-15 00:00:00 UTC".to_string())
    );
    assert_eq!(Instant { seconds: i64::MAX, nanos: 0 }.to_text(), None);
}

fn same_rows(db: &Co2db, model: &Table) -> bool {
    let snapshot = db.snapshot().unwrap();
    let mut i = 0;
    loop {
        match (snapshot.get(i), model.get(i)) {
            (None, None) => return true,
            (Some(a), Some(b)) if a == b => i += 1,
            _ => return false,
        }
    }
}

#[test]
fn snapshot_holds_the_rows_of_the_store() {
    let db = open("store_snapshot", "t");
    assert_eq!(db.snapshot().unwrap().count(), 0);
    db.insert_at(20, "b", "second").unwrap();
    db.insert_at(10, "a", "first").unwrap();
    let snapshot = db.snapshot().unwrap();
    assert_eq!(snapshot.count(), 2);
    assert_eq!(snapshot.get(0).unwrap().timestamp, 10);
    assert_eq!(snapshot.get(0).unwrap().topic, "a");
    assert_eq!(snapshot.get(1).unwrap().payload, "second");
    db.connection.execute("DROP TABLE t", []).unwrap();
    match db.snapshot() {
        Err(StorageError::Engine(text)) => assert!(text.starts_with("cannot read rows: ")),
        other => panic!("unexpected {:?}", other.map(|t| t.count())),
    }
}

#[test]
fn store_and_table_agree_step_by_step() {
    let from = open("agree_from", "t");
    let to = open("agree_to", "t");
    let mut model_from = Table::new();
    let mut model_to = Table::new();
    for (n, ts) in [5 * DAY, DAY, 3 * DAY, DAY, 9 * DAY, 0, 3 * DAY + 1].iter().enumerate() {
        let payload = format!("value {}", n);
        assert_eq!(from.insert_at(*ts, "a", &payload), model_from.insert_at(*ts, "a", &payload));
        assert!(same_rows(&from, &model_from));
    }
    for ts in [2 * DAY, 4 * DAY] {
        assert_eq!(to.insert_at(ts, "b", "kept"), model_to.insert_at(ts, "b", "kept"));
    }
    assert_eq!(from.leave_rows(6), model_from.prune(6));
    assert!(same_rows(&from, &model_from));
    assert_eq!(from.count_rows().unwrap(), model_from.count());
    assert_eq!(
        from.latest_datetime().unwrap(),
        Instant::from_nanos(model_from.latest().unwrap())
    );
    assert_eq!(
        from.earliest_datetime().unwrap(),
        Instant::from_nanos(model_from.earliest().unwrap())
    );
    assert_eq!(
        from.move_db(&memory("agree_to"), MoveDB::APPEND),
        model_from.migrate(&mut model_to, MoveDB::APPEND)
    );
    assert!(same_rows(&from, &model_from));
    assert!(same_rows(&to, &model_to));
    assert_eq!(to.count_rows(), Ok(6));
    from.insert_at(4 * DAY, "a", "collides").unwrap();
    model_from.insert_at(4 * DAY, "a", "collides").unwrap();
    assert_eq!(
        from.move_db(&memory("agree_to"), MoveDB::APPEND),
        model_from.migrate(&mut model_to, MoveDB::APPEND)
    );
    assert!(same_rows(&from, &model_from));
    assert!(same_rows(&to, &model_to));
    assert_eq!(
        from.move_db(&memory("agree_to"), MoveDB::OVERWRITE),
        model_from.migrate(&mut model_to, MoveDB::OVERWRITE)
    );
    assert!(same_rows(&from, &model_from));
    assert!(same_rows(&to, &model_to));
    assert_eq!(to.count_rows(), Ok(1));
}
