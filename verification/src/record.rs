//! The measurement tuple shared by every component.

use vstd::prelude::*;

verus! {

/// The mathematical content of one stored measurement.
pub struct Row {
    /// Nanoseconds since the Unix epoch; the primary key.
    pub timestamp: int,
    /// The logical channel the reading came from.
    pub topic: Seq<char>,
    /// The raw value of the reading.
    pub payload: Seq<char>,
}

/// One timestamped reading as it is stored.
#[derive(Debug, PartialEq, Eq)]
pub struct Measurement {
    /// Nanoseconds since the Unix epoch; the primary key.
    pub timestamp: i64,
    /// The logical channel the reading came from.
    pub topic: String,
    /// The raw value of the reading, opaque to the store.
    pub payload: String,
}

impl View for Measurement {
    type V = Row;

    open spec fn view(&self) -> Row {
        Row { timestamp: self.timestamp as int, topic: self.topic@, payload: self.payload@ }
    }
}

impl Measurement {
    /// Builds a measurement from borrowed text.
    pub fn new(timestamp: i64, topic: &str, payload: &str) -> (m: Measurement)
        ensures
            m@ == (Row { timestamp: timestamp as int, topic: topic@, payload: payload@ }),
    {
        Measurement {
            timestamp,
            topic: String::from_str(topic),
            payload: String::from_str(payload),
        }
    }

    /// An independent copy with the same content.
    pub fn duplicate(&self) -> (m: Measurement)
        ensures
            m@ == self@,
    {
        Measurement {
            timestamp: self.timestamp,
            topic: self.topic.clone(),
            payload: self.payload.clone(),
        }
    }
}

/// How a migration treats rows already present at the destination.
#[allow(non_camel_case_types)]
#[derive(Clone, Copy, Debug, PartialEq, Eq, Structural)]
pub enum MoveDB {
    /// Keep the destination's rows and add the source's rows to them.
    APPEND,
    /// Discard whatever the destination held before.
    OVERWRITE,
}

/// Why a store operation did not succeed.
#[derive(Debug, PartialEq, Eq)]
pub enum StorageError {
    /// An aggregate was asked of a table without rows.
    NoData,
    /// A row with the same timestamp is already stored.
    PrimaryKeyCollision,
    /// The storage engine reported a failure; the text describes it.
    Engine(String),
    /// A migration has moved every row and is committed, but the engine
    /// failed to detach the destination or to reclaim space afterwards; the
    /// text describes it.
    Cleanup(String),
}

/// What a storage error says in words.
pub open spec fn storage_error_text(e: StorageError) -> Seq<char> {
    match e {
        StorageError::NoData => "the table holds no rows"@,
        StorageError::PrimaryKeyCollision => "a row with this timestamp is already stored"@,
        StorageError::Engine(text) => text@,
        StorageError::Cleanup(text) => text@,
    }
}

impl StorageError {
    /// The error in words.
    pub fn message(&self) -> (r: String)
        ensures
            r@ == storage_error_text(*self),
    {
        match self {
            StorageError::NoData => String::from_str("the table holds no rows"),
            StorageError::PrimaryKeyCollision => String::from_str(
                "a row with this timestamp is already stored",
            ),
            StorageError::Engine(text) => text.clone(),
            StorageError::Cleanup(text) => text.clone(),
        }
    }
}

} // verus!
