//! The configuration of the ingestion loop and of the store.

use vstd::prelude::*;

verus! {

/// The environment variable that names the configuration file.
pub const CONFIG_KEY: &'static str = "CO2DB_CONFIG";

/// The configuration file that is read when the environment names none.
pub const DEFAULT_CONFIG_FILE: &'static str = "./co2db.json";

/// The database file that is used when the configuration names none.
pub const DEFAULT_DATABASE: &'static str = "./co2.db";

/// The table that is used when the configuration names none.
pub const DEFAULT_TABLE: &'static str = "measurement";

/// The quality of service for every topic when the configuration lists none.
pub const DEFAULT_QOS: i32 = 1;

/// A configuration as it is written down: some entries may be missing.
#[derive(Debug)]
pub struct RawConfig {
    /// The path of the database file, if named.
    pub database: Option<String>,
    /// The name of the table, if named.
    pub table: Option<String>,
    /// The address of the broker.
    pub broker_uri: String,
    /// The topics to subscribe to.
    pub topics: Vec<String>,
    /// The quality of service of each topic, if listed.
    pub qos: Option<Vec<i32>>,
    /// The identifier under which the client connects.
    pub client_id: String,
}

/// A complete configuration: every topic has its quality of service.
#[derive(Debug)]
pub struct Config {
    /// The path of the database file.
    pub database: String,
    /// The name of the table.
    pub table: String,
    /// The address of the broker.
    pub broker_uri: String,
    /// The topics to subscribe to.
    pub topics: Vec<String>,
    /// The quality of service of each topic, in the order of the topics.
    pub qos: Vec<i32>,
    /// The identifier under which the client connects.
    pub client_id: String,
}

/// The text of an entry, or the default where the entry is missing.
pub open spec fn text_or(entry: Option<String>, default: Seq<char>) -> Seq<char> {
    match entry {
        Some(text) => text@,
        None => default,
    }
}

/// The list of qualities of service is missing or as long as the list of
/// topics.
pub open spec fn qos_matches(raw: RawConfig) -> bool {
    raw.qos matches Some(list) ==> list@.len() == raw.topics@.len()
}

/// The qualities of service of a configuration: those listed, or the
/// default for every topic.
pub open spec fn qos_of(raw: RawConfig) -> Seq<i32> {
    match raw.qos {
        Some(list) => list@,
        None => Seq::new(raw.topics@.len(), |i: int| DEFAULT_QOS),
    }
}

impl Config {
    /// There is one quality of service for each topic.
    pub open spec fn wf(&self) -> bool {
        self.qos@.len() == self.topics@.len()
    }

    /// Completes a configuration with the defaults. A list of qualities of
    /// service that is not as long as the list of topics is refused.
    pub fn from_raw(raw: RawConfig) -> (r: Result<Config, String>)
        ensures
            !qos_matches(raw) ==> (r matches Err(message) && message@
                == "The QoS list must match topics"@),
            qos_matches(raw) ==> (r matches Ok(config) && config.wf() && config.broker_uri
                == raw.broker_uri && config.topics == raw.topics && config.client_id
                == raw.client_id && config.database@ == text_or(raw.database, DEFAULT_DATABASE@)
                && config.table@ == text_or(raw.table, DEFAULT_TABLE@) && config.qos@ == qos_of(
                raw,
            )),
    {
        let topic_n = raw.topics.len();
        let qos = match raw.qos {
            Some(list) => {
                if list.len() != topic_n {
                    return Err(String::from_str("The QoS list must match topics"));
                }
                list
            },
            None => {
                let mut list: Vec<i32> = Vec::new();
                while list.len() < topic_n
                    invariant
                        list@.len() <= topic_n,
                        forall|i: int| 0 <= i < list@.len() ==> list@[i] == DEFAULT_QOS,
                    decreases topic_n - list@.len(),
                {
                    list.push(DEFAULT_QOS);
                }
                assert(list@ =~= Seq::new(topic_n as nat, |i: int| DEFAULT_QOS));
                list
            },
        };
        let database = match raw.database {
            Some(text) => text,
            None => String::from_str(DEFAULT_DATABASE),
        };
        let table = match raw.table {
            Some(text) => text,
            None => String::from_str(DEFAULT_TABLE),
        };
        Ok(
            Config {
                database,
                table,
                broker_uri: raw.broker_uri,
                topics: raw.topics,
                qos,
                client_id: raw.client_id,
            },
        )
    }
}

} // verus!
