//! Persistence and lifetime management for a stream of timestamped sensor
//! readings.
//!
//! * [`record`]: the measurement tuple, the migration modes and the storage
//!   errors.
//! * [`table`]: what the operations of a store mean, as one table of rows
//!   in memory: insertion under a primary key, aggregates, retention pruning
//!   and migration, with the laws that relate them.
//! * [`store`]: the store on disk, one SQLite file with one table.
//! * [`migration`]: the steps of a migration between two such files.
//! * [`rotation`]: the steps of a rotation through numbered archives and
//!   their effect on a chain of stores.
//! * [`naming`]: the names of the archive files.
//! * [`retention`]: retention horizons such as `3w`, in days.
//! * [`command`]: the maintenance command decoded from a command line.
//! * [`ingest`]: the connect, subscribe and reconnect state machine of the
//!   ingestion loop.
//! * [`config`]: the configuration and its defaults.
//! * [`instant`]: instants in seconds and nanoseconds.
//! * [`sensor`]: reading a DS18B20 temperature sensor.
//! * [`text`]: decimal numbers, searching and trimming.

pub mod command;
pub mod config;
pub mod ingest;
pub mod instant;
pub mod migration;
pub mod naming;
pub mod record;
pub mod retention;
pub mod rotation;
pub mod sensor;
pub mod store;
pub mod table;
pub mod text;

pub use crate::config::{
    Config, CONFIG_KEY, DEFAULT_CONFIG_FILE, DEFAULT_DATABASE, DEFAULT_QOS, DEFAULT_TABLE,
};
pub use crate::record::{Measurement, MoveDB, StorageError};
pub use crate::store::Co2db;
