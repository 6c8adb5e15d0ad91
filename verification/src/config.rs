//! The configuration: how often to report, and where to.
//!
//! It is read from a text in INI form with two sections:
//!
//! ```text
//! [sys-mon]
//! dump_interval_seconds = 3600
//!
//! [influxdb]
//! bucket = ...
//! organisation = ...
//! token = ...
//! uri = ...
//! ```
//!
//! The interval may be left out; all else is needed.

use vstd::prelude::*;
use configparser::ini::Ini;
use crate::text::parsed_u64;

verus! {

/// The seconds between two reports where the configuration names none.
pub const DEFAULT_DUMP_INTERVAL_SECONDS: u64 = 3600;

/// The configuration of the collector.
#[derive(Debug)]
pub struct Config {
    /// The seconds between two reports.
    pub dump_interval_seconds: u64,
    pub influxdb_bucket: String,
    pub influxdb_org: String,
    pub influxdb_token: String,
    pub influxdb_uri: String,
}

/// Why a text gives no configuration.
#[derive(Clone, Copy, Debug, PartialEq, Eq, Structural)]
pub enum ConfigError {
    /// The text is not of INI form.
    Syntax,
    /// The section `influxdb` names no `bucket`.
    MissingBucket,
    /// The section `influxdb` names no `organisation`.
    MissingOrganisation,
    /// The section `influxdb` names no `token`.
    MissingToken,
    /// The section `influxdb` names no `uri`.
    MissingUri,
}

impl ConfigError {
    /// The error in words.
    pub fn message(&self) -> (text: String)
        ensures
            text@ == match *self {
                ConfigError::Syntax => "Could not load config path"@,
                ConfigError::MissingBucket => "InfluxDB bucket not found"@,
                ConfigError::MissingOrganisation => "InfluxDB organization not found"@,
                ConfigError::MissingToken => "InfluxDB token not found"@,
                ConfigError::MissingUri => "InfluxDB URI not found"@,
            },
    {
        match self {
            ConfigError::Syntax => String::from_str("Could not load config path"),
            ConfigError::MissingBucket => String::from_str("InfluxDB bucket not found"),
            ConfigError::MissingOrganisation => String::from_str("InfluxDB organization not found"),
            ConfigError::MissingToken => String::from_str("InfluxDB token not found"),
            ConfigError::MissingUri => String::from_str("InfluxDB URI not found"),
        }
    }
}

/// Trusted: `configparser::ini::Ini`, a configuration with its sections,
/// keys and values, as a value that cannot be looked into.
#[verifier::external_type_specification]
#[verifier::external_body]
pub struct ExIni(Ini);

/// What a text in INI form is read to; `None` where the text is refused.
pub uninterp spec fn ini_parsed(text: Seq<char>) -> Option<Ini>;

/// The value that a configuration holds for a key of a section; `None` where
/// it holds the key without a value, or not at all.
pub uninterp spec fn ini_value(ini: Ini, section: Seq<char>, key: Seq<char>) -> Option<Seq<char>>;

/// Whether a configuration is what some text was read to. Such a one has the
/// syntax and the lookup of `Ini::new`: the names of sections and keys fold
/// to lower case, and a key that its section lacks is looked for nowhere
/// else.
pub open spec fn was_read(ini: Ini) -> bool {
    exists|text: Seq<char>| ini_parsed(text) == Some(ini)
}

/// Reads a text in INI form.
///
/// Trusted: makes a configuration with `Ini::new`, which sets the syntax to
/// its defaults, and fills it with `Ini::read`. What it then holds depends on
/// the text alone.
#[verifier::external_body]
fn read_ini(text: &str) -> (r: Result<Ini, String>)
    ensures
        match r {
            Ok(ini) => ini_parsed(text@) == Some(ini),
            Err(_) => ini_parsed(text@) is None,
        },
{
    let mut ini = Ini::new();
    match ini.read(text.to_string()) {
        Ok(_) => Ok(ini),
        Err(why) => Err(why),
    }
}

/// Looks up the value of a key.
///
/// Trusted: wraps `Ini::get`, which hands out a copy of the value stored for
/// the key. This is claimed of a configuration that was read from a text,
/// not of one whose lookup was set otherwise.
#[verifier::external_body]
fn ini_get(ini: &Ini, section: &str, key: &str) -> (value: Option<String>)
    requires
        was_read(*ini),
    ensures
        match value {
            Some(text) => ini_value(*ini, section@, key@) == Some(text@),
            None => ini_value(*ini, section@, key@) is None,
        },
{
    ini.get(section, key)
}

/// Looks up the value of a key as an unsigned number.
///
/// Trusted: wraps `Ini::getuint`, which finds the value as `Ini::get` does
/// and parses it with the `FromStr` of `u64`: decimal digits, with or
/// without one `+` before them, of a number that fits. It gives `Ok(None)`
/// without a value and an error for a value of another form. This is claimed
/// of a configuration that was read from a text: with the lookup set
/// otherwise, `getuint` may look elsewhere than `get`, or not return.
#[verifier::external_body]
fn ini_getuint(ini: &Ini, section: &str, key: &str) -> (number: Result<Option<u64>, String>)
    requires
        was_read(*ini),
    ensures
        match number {
            Ok(Some(n)) => ini_value(*ini, section@, key@) matches Some(text) && parsed_u64(text)
                == Some(n),
            Ok(None) => ini_value(*ini, section@, key@) is None,
            Err(_) => ini_value(*ini, section@, key@) matches Some(text) && parsed_u64(text)
                is None,
        },
{
    ini.getuint(section, key)
}

/// The interval that a configuration names: the number under
/// `dump_interval_seconds` of the section `sys-mon`, and the default where
/// there is none or it is no number.
pub open spec fn interval_of(ini: Ini) -> u64 {
    match ini_value(ini, "sys-mon"@, "dump_interval_seconds"@) {
        Some(text) => match parsed_u64(text) {
            Some(n) => n,
            None => DEFAULT_DUMP_INTERVAL_SECONDS,
        },
        None => DEFAULT_DUMP_INTERVAL_SECONDS,
    }
}

/// The first of the needed values that a configuration lacks, in the order
/// bucket, organisation, token, URI; `None` where it has them all.
pub open spec fn missing(ini: Ini) -> Option<ConfigError> {
    if ini_value(ini, "influxdb"@, "bucket"@) is None {
        Some(ConfigError::MissingBucket)
    } else if ini_value(ini, "influxdb"@, "organisation"@) is None {
        Some(ConfigError::MissingOrganisation)
    } else if ini_value(ini, "influxdb"@, "token"@) is None {
        Some(ConfigError::MissingToken)
    } else if ini_value(ini, "influxdb"@, "uri"@) is None {
        Some(ConfigError::MissingUri)
    } else {
        None
    }
}

/// Whether `config` holds each value as `ini` holds it, and the interval
/// that `ini` names.
pub open spec fn holds(ini: Ini, config: Config) -> bool {
    &&& config.dump_interval_seconds == interval_of(ini)
    &&& ini_value(ini, "influxdb"@, "bucket"@) == Some(config.influxdb_bucket@)
    &&& ini_value(ini, "influxdb"@, "organisation"@) == Some(config.influxdb_org@)
    &&& ini_value(ini, "influxdb"@, "token"@) == Some(config.influxdb_token@)
    &&& ini_value(ini, "influxdb"@, "uri"@) == Some(config.influxdb_uri@)
}

/// Whether a text gives a configuration: it is of INI form and names every
/// needed value.
pub open spec fn complete(text: Seq<char>) -> bool {
    ini_parsed(text) matches Some(ini) && missing(ini) is None
}

/// Whether `r` is what `ini` gives: the configuration with each value as
/// `ini` holds it, or the error for the first value that `ini` lacks.
pub open spec fn reads_as(ini: Ini, r: Result<Config, ConfigError>) -> bool {
    match r {
        Ok(config) => missing(ini) is None && holds(ini, config),
        Err(e) => missing(ini) == Some(e),
    }
}

/// The first of the needed values that a configuration lacks.
fn first_missing(ini: &Ini) -> (r: Option<ConfigError>)
    requires
        was_read(*ini),
    ensures
        r == missing(*ini),
{
    if ini_get(ini, "influxdb", "bucket").is_none() {
        Some(ConfigError::MissingBucket)
    } else if ini_get(ini, "influxdb", "organisation").is_none() {
        Some(ConfigError::MissingOrganisation)
    } else if ini_get(ini, "influxdb", "token").is_none() {
        Some(ConfigError::MissingToken)
    } else if ini_get(ini, "influxdb", "uri").is_none() {
        Some(ConfigError::MissingUri)
    } else {
        None
    }
}

/// Takes the configuration from what was read.
fn from_ini(ini: &Ini) -> (config: Config)
    requires
        was_read(*ini),
        missing(*ini) is None,
    ensures
        holds(*ini, config),
{
    let dump_interval_seconds = match ini_getuint(ini, "sys-mon", "dump_interval_seconds") {
        Ok(Some(n)) => n,
        _ => DEFAULT_DUMP_INTERVAL_SECONDS,
    };
    Config {
        dump_interval_seconds,
        influxdb_bucket: ini_get(ini, "influxdb", "bucket").unwrap(),
        influxdb_org: ini_get(ini, "influxdb", "organisation").unwrap(),
        influxdb_token: ini_get(ini, "influxdb", "token").unwrap(),
        influxdb_uri: ini_get(ini, "influxdb", "uri").unwrap(),
    }
}

impl Config {
    /// Reads the configuration from a text in INI form.
    ///
    /// The text is of INI form and names bucket, organisation, token and URI
    /// in its section `influxdb`. The interval may be missing, or no number:
    /// the default then stands.
    pub fn new(text: &str) -> (config: Self)
        requires
            complete(text@),
        ensures
            holds(ini_parsed(text@)->0, config),
    {
        let ini = read_ini(text).unwrap();
        from_ini(&ini)
    }

    /// Reads the configuration from a text where the text gives one: sees
    /// first whether it is of INI form and names every needed value, and
    /// reads only then.
    pub fn try_new(text: &str) -> (r: Result<Self, ConfigError>)
        ensures
            match ini_parsed(text@) {
                Some(ini) => reads_as(ini, r),
                None => r matches Err(e) && e == ConfigError::Syntax,
            },
    {
        match read_ini(text) {
            Ok(ini) => match first_missing(&ini) {
                Some(e) => Err(e),
                None => Ok(Self::new(text)),
            },
            Err(_) => Err(ConfigError::Syntax),
        }
    }
}

} // verus!
