//! Reading a DS18B20 temperature sensor on the one-wire bus.
//!
//! The kernel shows each device as a directory named after its identifier;
//! the file `w1_slave` in it holds the last read-out as text. This module
//! picks the sensor's directory, builds the path of that file, and reads
//! the temperature in thousandths of a degree Celsius out of the text.

use crate::text::{
    contains_text, find, is_first_occurrence, parse_u32, parsed_u32, trim, trimmed, NumberError,
};
use vstd::prelude::*;

verus! {

#[verifier::external_type_specification]
#[verifier::external_body]
pub struct ExIoError(std::io::Error);

/// Why a sensor could not be read.
#[derive(Debug)]
pub enum SensorError {
    /// The device file could not be read.
    Io(std::io::Error),
    /// The read-out holds no temperature that is an unsigned number.
    Parse(NumberError),
    /// The read-out does not confirm the checksum.
    BadConnection,
    /// No device on the bus is a DS18B20.
    SensorNotFound,
}

impl From<std::io::Error> for SensorError {
    fn from(err: std::io::Error) -> (e: SensorError) {
        SensorError::Io(err)
    }
}

impl vstd::std_specs::convert::FromSpecImpl<std::io::Error> for SensorError {
    open spec fn obeys_from_spec() -> bool {
        true
    }

    open spec fn from_spec(err: std::io::Error) -> SensorError {
        SensorError::Io(err)
    }
}

impl From<NumberError> for SensorError {
    fn from(err: NumberError) -> (e: SensorError) {
        SensorError::Parse(err)
    }
}

impl vstd::std_specs::convert::FromSpecImpl<NumberError> for SensorError {
    open spec fn obeys_from_spec() -> bool {
        true
    }

    open spec fn from_spec(err: NumberError) -> SensorError {
        SensorError::Parse(err)
    }
}

/// A sensor that can be found and read.
pub trait Sensor<T> {
    /// Finds the sensor.
    fn new() -> Result<T, SensorError>;

    /// The temperature in thousandths of a degree Celsius.
    fn read_temp(&self) -> Result<u32, SensorError>;
}

/// The configuration of the publisher of temperatures.
#[derive(Debug)]
pub struct Config {
    /// The address of the broker.
    pub broker_uri: String,
    /// The topic under which temperatures are published.
    pub topic: String,
    /// The identifier under which the client connects.
    pub client_id: String,
    /// The seconds between two publications.
    pub interval_secs: u64,
}

/// The environment variable that names the publisher's configuration file.
pub const CONFIG_KEY: &'static str = "DS18B20_CONFIG";

/// The configuration file that is read when the environment names none.
pub const DEFAULT_CONFIG_FILE: &'static str = "./ds18b20.json";

/// The directory in which the kernel shows the devices of the bus.
pub const W1_PATH_PREFIX: &'static str = "/sys/bus/w1/devices";

/// The file that holds a device's read-out.
pub const W1_PATH_SUFFIX: &'static str = "w1_slave";

/// A DS18B20 sensor, known by its identifier on the bus.
#[derive(Debug)]
pub struct DS18B20 {
    w1_id: String,
}

/// The family code with which the identifier of a DS18B20 is marked.
pub open spec fn family_mark() -> Seq<char> {
    "28-"@
}

/// `at` is the first name in the list that carries the family mark.
pub open spec fn is_first_sensor(names: Seq<String>, at: int) -> bool {
    &&& 0 <= at < names.len()
    &&& contains_text(names[at]@, family_mark())
    &&& forall|earlier: int| 0 <= earlier < at ==> !contains_text(names[earlier]@, family_mark())
}

/// The path of the read-out of the device with this identifier.
pub open spec fn device_path_text(w1_id: Seq<char>) -> Seq<char> {
    W1_PATH_PREFIX@ + "/"@ + w1_id + "/"@ + W1_PATH_SUFFIX@
}

/// What a read-out says: the temperature if the checksum is confirmed with
/// `YES` and an unsigned number follows the first `t=`, white space apart.
pub open spec fn reading(raw: Seq<char>, r: Result<u32, SensorError>) -> bool {
    if !contains_text(raw, "YES"@) {
        r matches Err(SensorError::BadConnection)
    } else if !contains_text(raw, "t="@) {
        r matches Err(SensorError::Parse(NumberError::Empty))
    } else {
        exists|at: int|
            is_first_occurrence(raw, "t="@, at) && match parsed_u32(
                trimmed(raw.skip(at + 2)),
            ) {
                Ok(value) => r matches Ok(v) && v == value,
                Err(e) => r matches Err(SensorError::Parse(f)) && f == e,
            }
    }
}

/// Reads the temperature in thousandths of a degree Celsius out of a
/// read-out.
pub fn parse_temp(raw: &str) -> (r: Result<u32, SensorError>)
    ensures
        reading(raw@, r),
{
    if find(raw, "YES").is_none() {
        return Err(SensorError::BadConnection);
    }
    match find(raw, "t=") {
        None => Err(SensorError::Parse(NumberError::Empty)),
        Some(at) => {
            proof {
                reveal_strlit("t=");
            }
            let len = raw.unicode_len();
            let rest = raw.substring_char(at + 2, len);
            assert(rest@ =~= raw@.skip(at + 2));
            match parse_u32(trim(rest)) {
                Ok(value) => Ok(value),
                Err(e) => Err(SensorError::Parse(e)),
            }
        },
    }
}

impl DS18B20 {
    /// The identifier of the sensor on the bus.
    pub closed spec fn id(&self) -> Seq<char> {
        self.w1_id@
    }

    /// The identifier of the sensor on the bus.
    pub fn w1_id(&self) -> (r: &str)
        ensures
            r@ == self.id(),
    {
        self.w1_id.as_str()
    }

    /// Picks the sensor among the names of the devices on the bus: the
    /// first name that carries the family mark.
    pub fn select(names: &Vec<String>) -> (r: Result<DS18B20, SensorError>)
        ensures
            match r {
                Ok(sensor) => exists|at: int|
                    is_first_sensor(names@, at) && sensor.id() == names@[at]@,
                Err(e) => e is SensorNotFound && forall|at: int|
                    0 <= at < names@.len() ==> !contains_text(names@[at]@, family_mark()),
            },
    {
        let mut i: usize = 0;
        while i < names.len()
            invariant
                i <= names@.len(),
                forall|earlier: int|
                    0 <= earlier < i ==> !contains_text(names@[earlier]@, family_mark()),
            decreases names@.len() - i,
        {
            if find(names[i].as_str(), "28-").is_some() {
                assert(is_first_sensor(names@, i as int));
                return Ok(DS18B20 { w1_id: names[i].clone() });
            }
            i = i + 1;
        }
        Err(SensorError::SensorNotFound)
    }

    /// The path of the file that holds the sensor's read-out.
    pub fn device_path(&self) -> (path: String)
        ensures
            path@ == device_path_text(self.id()),
    {
        let mut path = String::from_str(W1_PATH_PREFIX);
        path.append("/");
        path.append(self.w1_id.as_str());
        path.append("/");
        path.append(W1_PATH_SUFFIX);
        path
    }
}

} // verus!
