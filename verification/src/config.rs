//! The settings of the bridge.

use vstd::prelude::*;
use vstd::string::StringExecFns;

verus! {

/// A span of time: whole seconds, and the nanoseconds of the second begun.
#[derive(Clone, Copy, Debug, PartialEq, Eq, Structural)]
pub struct Interval {
    pub secs: u64,
    pub nanos: u32,
}

/// A drive whose usage is reported.
#[derive(Debug)]
pub struct DriveConfig {
    /// The mount point of the drive.
    pub path: String,
    /// The name under which the usage is reported; it is the entity
    /// identifier too.
    pub name: String,
}

/// Where the password for the broker is found.
#[derive(Debug)]
pub enum PasswordSource {
    /// In the keyring of the system.
    Keyring,
    /// In the file with this path.
    SecretFile(String),
    /// Here.
    Plaintext(String),
}

impl Default for PasswordSource {
    fn default() -> (source: Self)
        ensures
            source is Keyring,
    {
        PasswordSource::Keyring
    }
}

/// The settings of the bridge.
#[derive(Debug)]
pub struct Config {
    /// The identifier of the device; the host name stands in where there is
    /// none.
    pub unique_id: Option<String>,
    /// The URL of the broker.
    pub mqtt_server: String,
    /// The user to log in as, if the broker asks for one.
    pub username: Option<String>,
    /// Where that user's password is found.
    pub password_source: PasswordSource,
    /// How often the state is sampled and published.
    pub update_interval: Interval,
    /// How often the entities are announced again; once an hour where
    /// nothing is set.
    pub discovery_interval: Option<Interval>,
    /// The drives whose usage is reported.
    pub drives: Vec<DriveConfig>,
    /// The path of the certificate of the authority that signed the broker's,
    /// which turns on transport encryption.
    pub ca_cert: Option<String>,
}

/// One hour.
pub open spec fn one_hour() -> Interval {
    Interval { secs: 3600, nanos: 0 }
}

impl Default for Config {
    /// The settings that are written out where none are found: a broker on
    /// this machine, no login, an update every 30 seconds, the root drive.
    fn default() -> (config: Self)
        ensures
            config.unique_id is None,
            config.mqtt_server@ == "mqtt://localhost"@,
            config.username is None,
            config.password_source is Keyring,
            config.update_interval == (Interval { secs: 30, nanos: 0 }),
            config.discovery_interval == Some(one_hour()),
            config.drives@.len() == 1,
            config.drives@[0].path@ == "/"@,
            config.drives@[0].name@ == "root"@,
            config.ca_cert is None,
    {
        let mut drives: Vec<DriveConfig> = Vec::new();
        drives.push(DriveConfig { path: String::from_str("/"), name: String::from_str("root") });
        Config {
            unique_id: None,
            mqtt_server: String::from_str("mqtt://localhost"),
            username: None,
            password_source: PasswordSource::Keyring,
            update_interval: Interval { secs: 30, nanos: 0 },
            discovery_interval: Some(Interval { secs: 60 * 60, nanos: 0 }),
            drives,
            ca_cert: None,
        }
    }
}

impl Config {
    /// How often the entities are announced again.
    pub fn discovery_period(&self) -> (period: Interval)
        ensures
            period == match self.discovery_interval {
                Some(interval) => interval,
                None => one_hour(),
            },
    {
        match self.discovery_interval {
            Some(interval) => interval,
            None => Interval { secs: 60 * 60, nanos: 0 },
        }
    }
}

} // verus!
