use co2db::instant::Instant;
use co2db::retention::{horizon_days, keep_in_store, keep_in_table, TimeUnit};
use co2db::store::{
    count_of, engine_error, engine_error_with, insert_failure, instant_of, prune_statement,
    statement_on, transfer_statement, PRIMARY_KEY_VIOLATION,
};
use co2db::table::{Table, NANOS_PER_DAY, WHOLE_RANGE_DAYS};
use co2db::{Co2db, MoveDB, StorageError};

const DAY: i64 = 86_400_000_000_000;

#[test]
fn horizons_in_days() {
    assert_eq!(horizon_days(3, TimeUnit::Day), 3);
    assert_eq!(horizon_days(3, TimeUnit::Week), 21);
    assert_eq!(horizon_days(3, TimeUnit::Month), 90);
    assert_eq!(horizon_days(3, TimeUnit::Year), 1095);
    assert_eq!(horizon_days(0, TimeUnit::Year), 0);
    assert_eq!(horizon_days(u32::MAX, TimeUnit::Day), u32::MAX);
    assert_eq!(horizon_days(u32::MAX, TimeUnit::Week), u32::MAX);
    assert_eq!(horizon_days(11_767_034, TimeUnit::Year), u32::MAX);
    assert_eq!(NANOS_PER_DAY, DAY);
    assert_eq!(WHOLE_RANGE_DAYS, 213_504);
}

#[test]
fn retention_policy_on_a_table() {
    let mut t = Table::new();
    for day in 0..30 {
        t.insert_at(day * DAY, "a", "x").unwrap();
    }
    assert_eq!(keep_in_table(&mut t, 2, TimeUnit::Week), Ok(()));
    assert_eq!(t.count(), 15);
    assert_eq!(t.earliest(), Ok(15 * DAY));
    assert_eq!(keep_in_table(&mut t, 1, TimeUnit::Year), Ok(()));
    assert_eq!(t.count(), 15);
    assert_eq!(keep_in_table(&mut t, u32::MAX, TimeUnit::Year), Ok(()));
    assert_eq!(t.count(), 15);
    assert_eq!(keep_in_table(&mut t, 3, TimeUnit::Day), Ok(()));
    assert_eq!(t.count(), 4);
    let mut empty = Table::new();
    assert_eq!(keep_in_table(&mut empty, 1, TimeUnit::Day), Err(StorageError::NoData));
}

#[test]
fn horizon_over_the_whole_range_removes_nothing() {
    let mut t = Table::new();
    t.insert_at(i64::MIN, "a", "oldest").unwrap();
    t.insert_at(i64::MAX, "a", "newest").unwrap();
    assert_eq!(t.prune(WHOLE_RANGE_DAYS), Ok(()));
    assert_eq!(t.count(), 2);
    assert_eq!(t.prune(WHOLE_RANGE_DAYS - 1), Ok(()));
    assert_eq!(t.count(), 1);
}

#[test]
fn retention_policy_on_a_store() {
    let db = Co2db::new("file:policy_store?mode=memory&cache=shared", "t").unwrap();
    assert_eq!(keep_in_store(&db, 1, TimeUnit::Month), Err(StorageError::NoData));
    for day in 0..100 {
        db.insert_at(day * DAY, "a", "x").unwrap();
    }
    assert_eq!(keep_in_store(&db, u32::MAX, TimeUnit::Year), Ok(()));
    assert_eq!(db.count_rows(), Ok(100));
    assert_eq!(keep_in_store(&db, 2, TimeUnit::Month), Ok(()));
    assert_eq!(db.count_rows(), Ok(61));
    assert_eq!(keep_in_store(&db, 1, TimeUnit::Week), Ok(()));
    assert_eq!(db.count_rows(), Ok(8));
    assert_eq!(db.earliest_datetime(), Ok(Instant::from_nanos(92 * DAY)));
}

#[test]
fn storage_errors_in_words() {
    assert_eq!(StorageError::NoData.message(), "the table holds no rows");
    assert_eq!(
        StorageError::PrimaryKeyCollision.message(),
        "a row with this timestamp is already stored"
    );
    assert_eq!(StorageError::Engine("disk I/O error".to_string()).message(), "disk I/O error");
    assert_eq!(engine_error("cannot count rows"), StorageError::Engine("cannot count rows".to_string()));
    assert_eq!(
        engine_error_with("cannot delete rows: ", "database is locked"),
        StorageError::Engine("cannot delete rows: database is locked".to_string())
    );
}

#[test]
fn answers_of_the_engine_to_an_aggregate() {
    let number: Result<Option<i64>, ()> = Ok(Some(1_500_000_000));
    assert_eq!(instant_of(number, "m"), Ok(Instant { seconds: 1, nanos: 500_000_000 }));
    let null: Result<Option<i64>, ()> = Ok(None);
    assert_eq!(instant_of(null, "m"), Err(StorageError::NoData));
    let failure: Result<Option<i64>, ()> = Err(());
    assert_eq!(
        instant_of(failure, "cannot query latest timestamp"),
        Err(StorageError::Engine("cannot query latest timestamp".to_string()))
    );
}

#[test]
fn answers_of_the_engine_to_a_count() {
    let number: Result<Option<i64>, ()> = Ok(Some(19161));
    assert_eq!(count_of(number), Ok(19161));
    let null: Result<Option<i64>, ()> = Ok(None);
    assert_eq!(count_of(null), Err(StorageError::Engine("cannot count rows".to_string())));
    let failure: Result<Option<i64>, ()> = Err(());
    assert_eq!(count_of(failure), Err(StorageError::Engine("cannot count rows".to_string())));
}

#[test]
fn refused_inserts_by_result_code() {
    assert_eq!(PRIMARY_KEY_VIOLATION, 1555);
    assert_eq!(insert_failure(Some(1555), "UNIQUE constraint failed"), StorageError::PrimaryKeyCollision);
    assert_eq!(
        insert_failure(Some(5), "database is locked"),
        StorageError::Engine("cannot insert a row: database is locked".to_string())
    );
    assert_eq!(
        insert_failure(None, "no such table"),
        StorageError::Engine("cannot insert a row: no such table".to_string())
    );
}

#[test]
fn statements_name_the_table() {
    assert_eq!(statement_on("SELECT count(*) FROM ", "measurement"), "SELECT count(*) FROM measurement");
    assert_eq!(
        prune_statement("measurement", 1_617_192_407_440_059_540, 2),
        "DELETE FROM measurement WHERE timestamp < 1617019607440059540"
    );
    assert_eq!(prune_statement("t", 0, 1), "DELETE FROM t WHERE timestamp < -86400000000000");
    assert_eq!(prune_statement("t", 5, 0), "DELETE FROM t WHERE timestamp < 5");
    assert_eq!(
        prune_statement("t", i64::MIN, 1),
        "DELETE FROM t WHERE timestamp < -9223372036854775808"
    );
    assert_eq!(
        prune_statement("t", i64::MAX, u32::MAX),
        "DELETE FROM t WHERE timestamp < -9223372036854775808"
    );
    assert_eq!(
        prune_statement("t", i64::MAX, 213_503),
        "DELETE FROM t WHERE timestamp < -9223287163145224193"
    );
}

#[test]
fn transfer_is_one_transaction() {
    assert_eq!(
        transfer_statement("t", MoveDB::APPEND),
        "BEGIN;\nINSERT INTO to_db.t SELECT * FROM t;\nDELETE FROM t;\nCOMMIT;"
    );
    assert_eq!(
        transfer_statement("t", MoveDB::OVERWRITE),
        "BEGIN;\nDELETE FROM to_db.t;\nINSERT INTO to_db.t SELECT * FROM t;\nDELETE FROM t;\nCOMMIT;"
    );
}
