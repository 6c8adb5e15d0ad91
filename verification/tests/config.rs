use sysmon::config::{Config, ConfigError, DEFAULT_DUMP_INTERVAL_SECONDS};

const FULL: &str = "[sys-mon]\n\
dump_interval_seconds = 60\n\
\n\
[influxdb]\n\
bucket = metrics\n\
organisation = home\n\
token = secret\n\
uri = http://localhost:8086/api/v2/write\n";

fn without(key: &str) -> String {
    FULL.lines().filter(|l| !l.starts_with(key)).collect::<Vec<_>>().join("\n")
}

#[test]
fn configuration_is_read_in_full() {
    let config = Config::new(FULL);
    assert_eq!(config.dump_interval_seconds, 60);
    assert_eq!(config.influxdb_bucket, "metrics");
    assert_eq!(config.influxdb_org, "home");
    assert_eq!(config.influxdb_token, "secret");
    assert_eq!(config.influxdb_uri, "http://localhost:8086/api/v2/write");
}

#[test]
fn interval_defaults_to_an_hour() {
    assert_eq!(DEFAULT_DUMP_INTERVAL_SECONDS, 3600);
    let config = Config::try_new(&without("dump_interval_seconds")).unwrap();
    assert_eq!(config.dump_interval_seconds, 3600);
    let config = Config::try_new("[influxdb]\nbucket=b\norganisation=o\ntoken=t\nuri=u\n").unwrap();
    assert_eq!(config.dump_interval_seconds, 3600);
    assert_eq!(config.influxdb_uri, "u");
}

#[test]
fn interval_that_is_no_number_defaults_too() {
    for value in ["soon", "-5", "1.5", "", "99999999999999999999999", "6 0", "+"] {
        let text = FULL.replace("= 60", &format!("= {}", value));
        assert_eq!(Config::try_new(&text).unwrap().dump_interval_seconds, 3600, "{:?}", value);
    }
}

#[test]
fn interval_may_carry_a_plus_and_zeros() {
    assert_eq!(Config::try_new(&FULL.replace("= 60", "= +60")).unwrap().dump_interval_seconds, 60);
    assert_eq!(Config::try_new(&FULL.replace("= 60", "= 0060")).unwrap().dump_interval_seconds, 60);
    assert_eq!(Config::try_new(&FULL.replace("= 60", "= 0")).unwrap().dump_interval_seconds, 0);
    assert_eq!(
        Config::try_new(&FULL.replace("= 60", "= 18446744073709551615")).unwrap().dump_interval_seconds,
        u64::MAX
    );
    assert_eq!(
        Config::try_new(&FULL.replace("= 60", "= 18446744073709551616")).unwrap().dump_interval_seconds,
        3600
    );
}

#[test]
fn bucket_is_needed() {
    assert_eq!(Config::try_new(&without("bucket")).unwrap_err(), ConfigError::MissingBucket);
}

#[test]
fn organisation_is_needed() {
    assert_eq!(Config::try_new(&without("organisation")).unwrap_err(), ConfigError::MissingOrganisation);
}

#[test]
fn token_is_needed() {
    assert_eq!(Config::try_new(&without("token")).unwrap_err(), ConfigError::MissingToken);
}

#[test]
fn uri_is_needed() {
    assert_eq!(Config::try_new(&without("uri")).unwrap_err(), ConfigError::MissingUri);
}

#[test]
fn first_missing_value_is_reported() {
    assert_eq!(Config::try_new("").unwrap_err(), ConfigError::MissingBucket);
    assert_eq!(Config::try_new("[influxdb]\nbucket=b\n").unwrap_err(), ConfigError::MissingOrganisation);
    assert_eq!(
        Config::try_new("[influxdb]\nuri=u\norganisation=o\n").unwrap_err(),
        ConfigError::MissingBucket
    );
}

#[test]
fn key_without_a_value_is_missing() {
    assert_eq!(
        Config::try_new(&FULL.replace("token = secret", "token")).unwrap_err(),
        ConfigError::MissingToken
    );
}

#[test]
fn text_that_is_no_ini_is_refused() {
    assert_eq!(Config::try_new("[influxdb\nbucket = b\n").unwrap_err(), ConfigError::Syntax);
    assert_eq!(Config::try_new("= value\n").unwrap_err(), ConfigError::Syntax);
}

#[test]
fn config_errors_say_what_is_missing() {
    assert_eq!(ConfigError::Syntax.message(), "Could not load config path");
    assert_eq!(ConfigError::MissingBucket.message(), "InfluxDB bucket not found");
    assert_eq!(ConfigError::MissingOrganisation.message(), "InfluxDB organization not found");
    assert_eq!(ConfigError::MissingToken.message(), "InfluxDB token not found");
    assert_eq!(ConfigError::MissingUri.message(), "InfluxDB URI not found");
}

#[test]
fn complete_text_is_read_either_way() {
    let checked = Config::try_new(FULL).unwrap();
    let plain = Config::new(FULL);
    assert_eq!(checked.dump_interval_seconds, plain.dump_interval_seconds);
    assert_eq!(checked.influxdb_bucket, plain.influxdb_bucket);
    assert_eq!(checked.influxdb_org, plain.influxdb_org);
    assert_eq!(checked.influxdb_token, plain.influxdb_token);
    assert_eq!(checked.influxdb_uri, plain.influxdb_uri);
    assert_eq!(Config::new(&without("dump_interval_seconds")).dump_interval_seconds, 3600);
}
