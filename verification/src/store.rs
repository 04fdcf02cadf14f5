//! The store: one SQLite file with one table of measurements.
//!
//! The store hands statements to the storage engine and turns what comes
//! back into values of this library. What the engine holds lives on disk
//! and is shared with other processes, so the contracts here fix the
//! statements that are issued and say how each outcome of the engine is
//! reported; [`crate::table::Table`] states what the statements mean, and
//! [`Co2db::snapshot`] reads the stored rows into such a table.

use crate::instant::Instant;
use crate::migration::{migration_statement, phase_rank, reportable, Migration, MigrationPhase};
use crate::record::{Measurement, MoveDB, StorageError};
use crate::table::{distinct_keys, insert_all, prune_cutoff, rows_of, Table};
use crate::text::{decimal, push_decimal};
use vstd::prelude::*;

verus! {

#[verifier::external_type_specification]
#[verifier::external_body]
pub struct ExConnection(rusqlite::Connection);

#[verifier::external_type_specification]
#[verifier::external_body]
pub struct ExEngineError(rusqlite::Error);

/// The extended result code with which the engine refuses a second row
/// under an existing primary key.
pub const PRIMARY_KEY_VIOLATION: i32 = 1555;

/// One store: an open connection to a database file and the name of the
/// table that holds the measurements.
pub struct Co2db {
    /// The connection to the database file.
    pub connection: rusqlite::Connection,
    /// The name of the table.
    pub table: String,
}

/// The statement that creates the table unless it exists.
pub open spec fn schema_text(table: Seq<char>) -> Seq<char> {
    "CREATE TABLE IF NOT EXISTS "@ + table
        + " (
                timestamp INTEGER PRIMARY KEY,
                topic TEXT,
                payload TEXT
            );"@
}

/// A statement made of a verb phrase and the table's name.
pub open spec fn table_statement(head: Seq<char>, table: Seq<char>) -> Seq<char> {
    head + table
}

/// The statement that stores one row; the row's values are bound to it.
pub open spec fn insert_text(table: Seq<char>) -> Seq<char> {
    "INSERT INTO "@ + table + " (timestamp, topic, payload) VALUES (?1, ?2, ?3)"@
}

/// The cutoff of a prune as the engine is given it: no row is older than
/// the smallest 64-bit number, so a cutoff below it is written as that
/// number.
pub open spec fn bounded_cutoff(latest: int, retain_days: int) -> int {
    if prune_cutoff(latest, retain_days) < i64::MIN {
        i64::MIN as int
    } else {
        prune_cutoff(latest, retain_days)
    }
}

/// No 64-bit timestamp lies between the cutoff and the cutoff as the engine
/// is given it: both remove the same rows.
pub proof fn lemma_bounded_cutoff(latest: int, retain_days: int, timestamp: i64)
    ensures
        timestamp < bounded_cutoff(latest, retain_days) <==> timestamp < prune_cutoff(
            latest,
            retain_days,
        ),
{
}

/// The statement that removes every row older than the cutoff.
pub open spec fn prune_text(table: Seq<char>, latest: int, retain_days: int) -> Seq<char> {
    "DELETE FROM "@ + table + " WHERE timestamp < "@ + decimal(
        bounded_cutoff(latest, retain_days),
    )
}

/// The statements that move every row to the destination and empty the
/// source, as one transaction.
pub open spec fn transfer_text(table: Seq<char>, mode: MoveDB) -> Seq<char> {
    let clear = if mode == MoveDB::OVERWRITE {
        "DELETE FROM to_db."@ + table + ";\n"@
    } else {
        Seq::<char>::empty()
    };
    "BEGIN;\n"@ + clear + "INSERT INTO to_db."@ + table + " SELECT * FROM "@ + table
        + ";\nDELETE FROM "@ + table + ";\nCOMMIT;"@
}

/// Calls rusqlite's `Connection::open`, which opens the file for reading
/// and writing and creates it if it is missing. Nothing is claimed of the
/// outcome.
#[verifier::external_body]
fn open_connection(database: &str) -> (r: Result<rusqlite::Connection, rusqlite::Error>) {
    rusqlite::Connection::open(database)
}

/// Calls rusqlite's `Connection::execute` with one statement and no
/// values. Nothing is claimed of the outcome.
#[verifier::external_body]
fn execute(connection: &rusqlite::Connection, sql: &str) -> (r: Result<usize, rusqlite::Error>) {
    connection.execute(sql, [])
}

/// Calls rusqlite's `Connection::execute` with one statement and the three
/// values of a row bound to it. Nothing is claimed of the outcome.
#[verifier::external_body]
fn execute_row(
    connection: &rusqlite::Connection,
    sql: &str,
    timestamp: i64,
    topic: &str,
    payload: &str,
) -> (r: Result<usize, rusqlite::Error>) {
    connection.execute(sql, (timestamp, topic, payload))
}

/// Calls rusqlite's `Connection::execute_batch` with statements separated
/// by semicolons. Nothing is claimed of the outcome.
#[verifier::external_body]
fn execute_batch(connection: &rusqlite::Connection, sql: &str) -> (r: Result<(), rusqlite::Error>) {
    connection.execute_batch(sql)
}

/// Calls rusqlite's `Connection::query_row` and reads the first column of
/// the first row as an integer that may be null. Nothing is claimed of the
/// outcome.
#[verifier::external_body]
fn query_integer(connection: &rusqlite::Connection, sql: &str) -> (r: Result<
    Option<i64>,
    rusqlite::Error,
>) {
    connection.query_row(sql, [], |row| row.get(0))
}

/// Calls rusqlite's `Connection::prepare` and `Statement::query_map` and
/// gathers every row of the answer, its first three columns read as
/// timestamp, topic and payload. Nothing is claimed of the outcome.
#[verifier::external_body]
fn query_rows(connection: &rusqlite::Connection, sql: &str) -> (r: Result<
    Vec<Measurement>,
    rusqlite::Error,
>) {
    let mut statement = connection.prepare(sql)?;
    let rows = statement.query_map([], |row| {
        Ok(Measurement { timestamp: row.get(0)?, topic: row.get(1)?, payload: row.get(2)? })
    })?;
    rows.collect()
}

/// The text of an engine error, by its `Display`.
#[verifier::external_body]
fn error_text(error: &rusqlite::Error) -> (r: String) {
    error.to_string()
}

/// The extended result code of a failure that SQLite itself reported; none
/// for the other kinds of error.
#[verifier::external_body]
fn failure_code(error: &rusqlite::Error) -> (r: Option<i32>) {
    match error {
        rusqlite::Error::SqliteFailure(failure, _) => Some(failure.extended_code),
        _ => None,
    }
}

/// Reads the system clock with `SystemTime::now`, turns it into a UTC date
/// with chrono's conversion from `SystemTime`, and calls
/// `DateTime::timestamp_nanos_opt`: the nanoseconds since the Unix epoch,
/// negative before it, or none where they do not fit 64 bits. Nothing is
/// claimed of the outcome.
#[verifier::external_body]
fn now_nanos() -> (r: Option<i64>) {
    chrono::DateTime::<chrono::Utc>::from(std::time::SystemTime::now()).timestamp_nanos_opt()
}

/// The error that reports an engine failure under a fixed message.
pub fn engine_error(message: &str) -> (e: StorageError)
    ensures
        e matches StorageError::Engine(text) && text@ == message@,
{
    StorageError::Engine(String::from_str(message))
}

/// The error that reports an engine failure with the engine's own words
/// after a prefix.
pub fn engine_error_with(prefix: &str, detail: &str) -> (e: StorageError)
    ensures
        e matches StorageError::Engine(text) && text@ == prefix@ + detail@,
{
    let mut text = String::from_str(prefix);
    text.append(detail);
    StorageError::Engine(text)
}

/// What an aggregate over the timestamps yields for each answer of the
/// engine: the instant for a number, `NoData` for null, and the message
/// for a failure.
pub fn instant_of<E>(queried: Result<Option<i64>, E>, message: &str) -> (r: Result<
    Instant,
    StorageError,
>)
    ensures
        match queried {
            Ok(Some(nanos)) => r matches Ok(t) && t.wf() && t.as_nanos() == nanos,
            Ok(None) => r matches Err(StorageError::NoData),
            Err(_) => r matches Err(StorageError::Engine(text)) && text@ == message@,
        },
{
    match queried {
        Ok(Some(nanos)) => Ok(Instant::from_nanos(nanos)),
        Ok(None) => Err(StorageError::NoData),
        Err(_) => Err(engine_error(message)),
    }
}

/// What a count yields for each answer of the engine.
pub fn count_of<E>(queried: Result<Option<i64>, E>) -> (r: Result<i64, StorageError>)
    ensures
        match queried {
            Ok(Some(n)) => r matches Ok(m) && m == n,
            _ => r matches Err(StorageError::Engine(text)) && text@ == "cannot count rows"@,
        },
{
    match queried {
        Ok(Some(n)) => Ok(n),
        _ => Err(engine_error("cannot count rows")),
    }
}

/// How a refused insert is reported: a collision on the primary key under
/// its own name, anything else with the engine's words.
pub fn insert_failure(code: Option<i32>, detail: &str) -> (e: StorageError)
    ensures
        code == Some(PRIMARY_KEY_VIOLATION) ==> e matches StorageError::PrimaryKeyCollision,
        code != Some(PRIMARY_KEY_VIOLATION) ==> (e matches StorageError::Engine(text) && text@
            == "cannot insert a row: "@ + detail@),
{
    match code {
        Some(c) => if c == PRIMARY_KEY_VIOLATION {
            StorageError::PrimaryKeyCollision
        } else {
            engine_error_with("cannot insert a row: ", detail)
        },
        None => engine_error_with("cannot insert a row: ", detail),
    }
}

/// The statement that removes the rows a prune discards, given the newest
/// stored timestamp.
pub fn prune_statement(table: &str, latest: i64, retain_days: u32) -> (sql: String)
    ensures
        sql@ == prune_text(table@, latest as int, retain_days as int),
{
    let wide: i128 = latest as i128 - (retain_days as i128) * 86_400_000_000_000i128;
    let cutoff: i64 = if wide < -0x8000_0000_0000_0000i128 {
        i64::MIN
    } else {
        wide as i64
    };
    let mut sql = String::from_str("DELETE FROM ");
    sql.append(table);
    sql.append(" WHERE timestamp < ");
    push_decimal(&mut sql, cutoff);
    sql
}

/// The statements of the transaction that moves every row to the attached
/// destination.
pub fn transfer_statement(table: &str, mode: MoveDB) -> (sql: String)
    ensures
        sql@ == transfer_text(table@, mode),
{
    let mut sql = String::from_str("BEGIN;\n");
    match mode {
        MoveDB::OVERWRITE => {
            sql.append("DELETE FROM to_db.");
            sql.append(table);
            sql.append(";\n");
        },
        MoveDB::APPEND => {},
    }
    let ghost clear = if mode == MoveDB::OVERWRITE {
        "DELETE FROM to_db."@ + table@ + ";\n"@
    } else {
        Seq::<char>::empty()
    };
    assert(sql@ =~= "BEGIN;\n"@ + clear);
    sql.append("INSERT INTO to_db.");
    sql.append(table);
    sql.append(" SELECT * FROM ");
    sql.append(table);
    sql.append(";\nDELETE FROM ");
    sql.append(table);
    sql.append(";\nCOMMIT;");
    sql
}

/// A statement made of a verb phrase and the table's name.
pub fn statement_on(head: &str, table: &str) -> (sql: String)
    ensures
        sql@ == table_statement(head@, table@),
{
    let mut sql = String::from_str(head);
    sql.append(table);
    sql
}

impl Co2db {
    /// The statement that creates the table unless it exists.
    pub fn get_schema(table: &str) -> (sql: String)
        ensures
            sql@ == schema_text(table@),
    {
        let mut sql = String::from_str("CREATE TABLE IF NOT EXISTS ");
        sql.append(table);
        sql.append(
            " (
                timestamp INTEGER PRIMARY KEY,
                topic TEXT,
                payload TEXT
            );",
        );
        sql
    }

    /// Opens or creates the database file and makes sure the table exists.
    /// Only the table's presence is ensured; its shape is not examined.
    pub fn new(database: &str, table: &str) -> (r: Result<Co2db, StorageError>)
        ensures
            r matches Ok(db) ==> db.table@ == table@,
            r matches Err(e) ==> e is Engine,
    {
        match open_connection(database) {
            Ok(connection) => Co2db::new_with_connection(connection, table),
            Err(e) => Err(engine_error(error_text(&e).as_str())),
        }
    }

    /// Makes sure the table exists in a database that is already open.
    pub fn new_with_connection(connection: rusqlite::Connection, table: &str) -> (r: Result<
        Co2db,
        StorageError,
    >)
        ensures
            r matches Ok(db) ==> db.table@ == table@ && db.connection == connection,
            r matches Err(e) ==> e is Engine,
    {
        let sql = Co2db::get_schema(table);
        match execute(&connection, sql.as_str()) {
            Ok(_) => Ok(Co2db { connection, table: String::from_str(table) }),
            Err(e) => Err(engine_error(error_text(&e).as_str())),
        }
    }

    /// The oldest stored instant. A table without rows gives `NoData`.
    pub fn earliest_datetime(&self) -> (r: Result<Instant, StorageError>)
        ensures
            r matches Ok(t) ==> t.wf(),
            r matches Err(e) ==> e is NoData || (e matches StorageError::Engine(text) && text@
                == "cannot query earliest timestamp"@),
    {
        let sql = statement_on("SELECT min(timestamp) FROM ", self.table.as_str());
        instant_of(
            query_integer(&self.connection, sql.as_str()),
            "cannot query earliest timestamp",
        )
    }

    /// The newest stored instant. A table without rows gives `NoData`.
    pub fn latest_datetime(&self) -> (r: Result<Instant, StorageError>)
        ensures
            r matches Ok(t) ==> t.wf(),
            r matches Err(e) ==> e is NoData || (e matches StorageError::Engine(text) && text@
                == "cannot query latest timestamp"@),
    {
        let sql = statement_on("SELECT max(timestamp) FROM ", self.table.as_str());
        instant_of(
            query_integer(&self.connection, sql.as_str()),
            "cannot query latest timestamp",
        )
    }

    /// The number of stored rows.
    pub fn count_rows(&self) -> (r: Result<i64, StorageError>)
        ensures
            r matches Err(e) ==> (e matches StorageError::Engine(text) && text@
                == "cannot count rows"@),
    {
        let sql = statement_on("SELECT count(*) FROM ", self.table.as_str());
        count_of(query_integer(&self.connection, sql.as_str()))
    }

    /// The rows that the store holds at this moment, as a table in memory.
    pub fn snapshot(&self) -> (r: Result<Table, StorageError>)
        ensures
            r matches Ok(t) ==> t.wf(),
            r matches Err(e) ==> e is PrimaryKeyCollision || (e matches StorageError::Engine(text)
                && "cannot read rows: "@.is_prefix_of(text@)),
    {
        let sql = statement_on("SELECT timestamp, topic, payload FROM ", self.table.as_str());
        table_of(plain(query_rows(&self.connection, sql.as_str())))
    }

    /// Removes every row older than the newest row by more than `days`
    /// days. A table without rows has no newest row and gives `NoData`.
    pub fn leave_rows(&self, days: u32) -> (r: Result<(), StorageError>)
        ensures
            r matches Err(e) ==> e is NoData || (e matches StorageError::Engine(text) && (text@
                == "cannot query latest timestamp"@ || "cannot delete rows: "@.is_prefix_of(
                text@,
            ))),
    {
        let sql = statement_on("SELECT max(timestamp) FROM ", self.table.as_str());
        match newest_of(query_integer(&self.connection, sql.as_str())) {
            Ok(latest) => {
                let sql = prune_statement(self.table.as_str(), latest, days);
                reported(plain(execute(&self.connection, sql.as_str())), "cannot delete rows: ")
            },
            Err(e) => Err(e),
        }
    }

    /// Stores one row under the given timestamp. A timestamp that is
    /// already stored gives `PrimaryKeyCollision`.
    pub fn insert_at(&self, timestamp: i64, topic: &str, payload: &str) -> (r: Result<
        (),
        StorageError,
    >)
        ensures
            r matches Err(e) ==> e is PrimaryKeyCollision || (e matches StorageError::Engine(text)
                && "cannot insert a row: "@.is_prefix_of(text@)),
    {
        let sql = insert_statement(self.table.as_str());
        stored(plain(execute_row(&self.connection, sql.as_str(), timestamp, topic, payload)))
    }

    /// Stores one row under the current instant of the system clock, in
    /// nanoseconds since the Unix epoch, negative before it. Two rows within
    /// the same nanosecond collide.
    pub fn insert(&self, topic: &str, payload: &str) -> (r: Result<(), StorageError>)
        ensures
            r matches Err(e) ==> e is PrimaryKeyCollision || (e matches StorageError::Engine(text)
                && "cannot insert a row: "@.is_prefix_of(text@)),
    {
        match stamp_of(now_nanos()) {
            Ok(timestamp) => self.insert_at(timestamp, topic, payload),
            Err(e) => Err(e),
        }
    }

    /// Moves every row into the table of the same name in the database file
    /// `to_file`, which is created if it is missing, and leaves this table
    /// empty. The path may hold any character; it is handed over as data.
    ///
    /// With `APPEND` the rows that the destination table held stay. With
    /// `OVERWRITE` they are removed in the same transaction; the file itself
    /// is not removed, so a caller who wants a fresh file, whatever the old
    /// one held, removes it before the call.
    ///
    /// Copying and emptying are one transaction. When it fails, it is
    /// rolled back, neither table has changed, and the error is
    /// `PrimaryKeyCollision` or `Engine`. `Cleanup` is reported where the
    /// transaction is committed and every row has moved, but detaching the
    /// destination or reclaiming space failed afterwards.
    ///
    /// [`Migration`] decides the steps and the result from the answers of
    /// the engine, and [`migration_statement`] gives what each step hands to
    /// it.
    pub fn move_db(&self, to_file: &str, opt: MoveDB) -> (r: Result<(), StorageError>)
        ensures
            r matches Err(e) ==> e is PrimaryKeyCollision || e is Engine || e is Cleanup,
    {
        let mut migration = Migration::start();
        while !migration.finished()
            invariant
                reportable(migration.outcome),
            decreases 6 - phase_rank(migration.phase),
        {
            let sql = migration_statement(migration.phase, self.table.as_str(), to_file, opt);
            let answer = match migration.phase {
                MigrationPhase::Preparing => prepare(to_file, sql.as_str()),
                _ => plain(execute_batch(&self.connection, sql.as_str())),
            };
            migration = migration.next(answer);
        }
        migration.outcome
    }
}

/// Opens the database file, creating it if it is missing, and hands it the
/// statement that creates the table.
fn prepare(database: &str, schema: &str) -> (r: Result<(), EngineFailure>) {
    match plain(open_connection(database)) {
        Ok(connection) => match plain(execute(&connection, schema)) {
            Ok(_) => Ok(()),
            Err(failure) => Err(failure),
        },
        Err(failure) => Err(failure),
    }
}

/// The statement that stores one row; the row's values are bound to it.
pub fn insert_statement(table: &str) -> (sql: String)
    ensures
        sql@ == insert_text(table@),
{
    let mut sql = String::from_str("INSERT INTO ");
    sql.append(table);
    sql.append(" (timestamp, topic, payload) VALUES (?1, ?2, ?3)");
    sql
}

/// What the engine reported of a statement that failed, as plain values.
#[derive(Debug)]
pub struct EngineFailure {
    /// The extended result code, where SQLite itself reported the failure.
    pub code: Option<i32>,
    /// The engine's own words on the failure.
    pub detail: String,
}

/// The plain values of an engine error.
fn failure_of(error: &rusqlite::Error) -> (failure: EngineFailure) {
    EngineFailure { code: failure_code(error), detail: error_text(error) }
}

/// The answer of the engine with its error, if any, as plain values.
fn plain<T>(answer: Result<T, rusqlite::Error>) -> (r: Result<T, EngineFailure>)
    ensures
        answer matches Ok(value) ==> r == Ok::<T, EngineFailure>(value),
        answer is Err ==> r is Err,
{
    match answer {
        Ok(value) => Ok(value),
        Err(e) => Err(failure_of(&e)),
    }
}

/// A text that is made of a prefix and more begins with that prefix.
pub proof fn lemma_begins_with(prefix: Seq<char>, detail: Seq<char>)
    ensures
        prefix.is_prefix_of(prefix + detail),
{
    assert((prefix + detail).subrange(0, prefix.len() as int) =~= prefix);
}

/// What the query for the newest timestamp yields for each answer of the
/// engine: the number, `NoData` for null, and a fixed message for a
/// failure.
pub fn newest_of<E>(queried: Result<Option<i64>, E>) -> (r: Result<i64, StorageError>)
    ensures
        match queried {
            Ok(Some(nanos)) => r matches Ok(latest) && latest == nanos,
            Ok(None) => r matches Err(StorageError::NoData),
            Err(_) => r matches Err(StorageError::Engine(text)) && text@
                == "cannot query latest timestamp"@,
        },
{
    match queried {
        Ok(Some(nanos)) => Ok(nanos),
        Ok(None) => Err(StorageError::NoData),
        Err(_) => Err(engine_error("cannot query latest timestamp")),
    }
}

/// What a statement without result yields for each answer of the engine:
/// success, or the engine's words after the prefix.
pub fn reported<T>(executed: Result<T, EngineFailure>, prefix: &str) -> (r: Result<
    (),
    StorageError,
>)
    ensures
        match executed {
            Ok(_) => r is Ok,
            Err(failure) => r matches Err(StorageError::Engine(text)) && text@ == prefix@
                + failure.detail@ && prefix@.is_prefix_of(text@),
        },
{
    match executed {
        Ok(_) => Ok(()),
        Err(failure) => {
            proof {
                lemma_begins_with(prefix@, failure.detail@);
            }
            Err(engine_error_with(prefix, failure.detail.as_str()))
        },
    }
}

/// What a statement that stores rows yields for each answer of the engine:
/// success, a collision on the primary key under its own name, or the
/// engine's words.
pub fn stored<T>(executed: Result<T, EngineFailure>) -> (r: Result<(), StorageError>)
    ensures
        match executed {
            Ok(_) => r is Ok,
            Err(failure) => if failure.code == Some(PRIMARY_KEY_VIOLATION) {
                r matches Err(StorageError::PrimaryKeyCollision)
            } else {
                r matches Err(StorageError::Engine(text)) && text@ == "cannot insert a row: "@
                    + failure.detail@ && "cannot insert a row: "@.is_prefix_of(text@)
            },
        },
{
    match executed {
        Ok(_) => Ok(()),
        Err(failure) => {
            proof {
                lemma_begins_with("cannot insert a row: "@, failure.detail@);
            }
            Err(insert_failure(failure.code, failure.detail.as_str()))
        },
    }
}

/// The timestamp for a new row, for each answer of the clock: the
/// nanoseconds, or a failure where they do not fit 64 bits.
pub fn stamp_of(now: Option<i64>) -> (r: Result<i64, StorageError>)
    ensures
        match now {
            Some(nanos) => r matches Ok(timestamp) && timestamp == nanos,
            None => r matches Err(StorageError::Engine(text)) && text@
                == "cannot insert a row: the clock is out of range"@
                && "cannot insert a row: "@.is_prefix_of(text@),
        },
{
    match now {
        Some(nanos) => Ok(nanos),
        None => {
            proof {
                reveal_strlit("cannot insert a row: the clock is out of range");
                reveal_strlit("cannot insert a row: ");
                reveal_strlit("the clock is out of range");
                assert("cannot insert a row: the clock is out of range"@
                    =~= "cannot insert a row: "@ + "the clock is out of range"@);
                lemma_begins_with("cannot insert a row: "@, "the clock is out of range"@);
            }
            Err(engine_error("cannot insert a row: the clock is out of range"))
        },
    }
}

/// The table for each answer of the engine to the query for all rows: the
/// table of the rows, a collision where two rows share a timestamp, or the
/// engine's words on a failure.
pub fn table_of(queried: Result<Vec<Measurement>, EngineFailure>) -> (r: Result<
    Table,
    StorageError,
>)
    ensures
        match queried {
            Ok(rows) => if distinct_keys(rows_of(rows@)) {
                r matches Ok(t) && t.wf() && t@ == insert_all(Seq::empty(), rows_of(rows@))
            } else {
                r matches Err(StorageError::PrimaryKeyCollision)
            },
            Err(failure) => r matches Err(StorageError::Engine(text)) && text@
                == "cannot read rows: "@ + failure.detail@ && "cannot read rows: "@.is_prefix_of(
                text@,
            ),
        },
{
    match queried {
        Ok(rows) => Table::from_rows(rows),
        Err(failure) => {
            proof {
                lemma_begins_with("cannot read rows: "@, failure.detail@);
            }
            Err(engine_error_with("cannot read rows: ", failure.detail.as_str()))
        },
    }
}

} // verus!
