use system_mqtt::config::{Config, Interval, PasswordSource};
use system_mqtt::error::{PasswordError, SetupError};
use system_mqtt::mqtt::{
    client_url, mqtt_loop, setup_mqtt_client, setup_plan, ConnectionState, PollOutcome,
    SecretSource, MAX_URL_TEXT, REQUEST_CAPACITY,
};
use system_mqtt::password::{set_password, KEYRING_SERVICE_NAME};

fn config() -> Config {
    Config::default()
}

fn with_user(source: PasswordSource) -> Config {
    let mut config = config();
    config.username = Some(String::from("alice"));
    config.password_source = source;
    config
}

#[test]
fn the_default_settings_point_at_this_machine() {
    let config = Config::default();
    assert_eq!(config.unique_id, None);
    assert_eq!(config.mqtt_server, "mqtt://localhost");
    assert_eq!(config.username, None);
    assert!(matches!(config.password_source, PasswordSource::Keyring));
    assert_eq!(config.update_interval, Interval { secs: 30, nanos: 0 });
    assert_eq!(config.discovery_interval, Some(Interval { secs: 3600, nanos: 0 }));
    assert_eq!(config.drives.len(), 1);
    assert_eq!(config.drives[0].path, "/");
    assert_eq!(config.drives[0].name, "root");
    assert_eq!(config.ca_cert, None);
    assert!(matches!(PasswordSource::default(), PasswordSource::Keyring));
}

#[test]
fn discovery_is_repeated_once_an_hour_unless_set() {
    let mut config = config();
    assert_eq!(config.discovery_period(), Interval { secs: 3600, nanos: 0 });
    config.discovery_interval = None;
    assert_eq!(config.discovery_period(), Interval { secs: 3600, nanos: 0 });
    config.discovery_interval = Some(Interval { secs: 5, nanos: 7 });
    assert_eq!(config.discovery_period(), Interval { secs: 5, nanos: 7 });
}

#[test]
fn the_client_identifier_goes_into_the_url() {
    assert_eq!(
        client_url(&config(), "host").unwrap(),
        "mqtt://localhost?client_id=system-mqtt-host"
    );
    let mut config = config();
    config.mqtt_server = String::from("mqtts://broker.example:8883/?keep_alive_secs=5");
    assert_eq!(
        client_url(&config, "living room").unwrap(),
        "mqtts://broker.example:8883/?keep_alive_secs=5&client_id=system-mqtt-living+room"
    );
}

#[test]
fn what_is_no_url_is_refused() {
    let mut config = config();
    config.mqtt_server = String::from("not a url");
    assert!(matches!(client_url(&config, "host"), Err(SetupError::InvalidUrl(_))));
    config.mqtt_server = String::new();
    assert!(matches!(
        setup_mqtt_client(&config, "host", None, None),
        Err(SetupError::InvalidUrl(_))
    ));
}

#[test]
fn texts_beyond_the_limit_are_refused() {
    let long = "a".repeat(MAX_URL_TEXT + 1);
    assert!(matches!(client_url(&config(), &long), Err(SetupError::TooLong)));
    let mut config = config();
    config.mqtt_server = format!("mqtt://localhost/{}", long);
    assert!(matches!(client_url(&config, "host"), Err(SetupError::TooLong)));
    assert!(matches!(
        setup_mqtt_client(&config, "host", None, None),
        Err(SetupError::TooLong)
    ));
}

#[test]
fn without_a_user_nothing_has_to_be_fetched() {
    let mut config = config();
    config.password_source = PasswordSource::SecretFile(String::from("/etc/secret"));
    let plan = setup_plan(&config);
    assert_eq!(plan.ca_cert, None);
    assert!(matches!(plan.secret, SecretSource::Nothing));
    let settings = setup_mqtt_client(&config, "host", None, None).unwrap();
    assert_eq!(settings.url, "mqtt://localhost?client_id=system-mqtt-host");
    assert_eq!(settings.ca_cert, None);
    assert_eq!(settings.credentials, None);
    assert_eq!(settings.capacity, 10);
    assert_eq!(REQUEST_CAPACITY, 10);
}

#[test]
fn the_certificate_is_asked_for_and_handed_on() {
    let mut config = config();
    config.ca_cert = Some(String::from("/etc/ca.pem"));
    assert_eq!(setup_plan(&config).ca_cert.as_deref(), Some("/etc/ca.pem"));
    let settings = setup_mqtt_client(&config, "host", Some(vec![1, 2, 3]), None).unwrap();
    assert_eq!(settings.ca_cert, Some(vec![1, 2, 3]));
}

#[test]
fn the_keyring_password_is_taken_as_it_is() {
    let config = with_user(PasswordSource::Keyring);
    match setup_plan(&config).secret {
        SecretSource::Keyring { service, username } => {
            assert_eq!(service, "system-mqtt");
            assert_eq!(username, "alice");
        }
        other => panic!("unexpected {:?}", other),
    }
    let settings =
        setup_mqtt_client(&config, "host", None, Some(String::from(" secret \n"))).unwrap();
    assert_eq!(settings.credentials, Some((String::from("alice"), String::from(" secret \n"))));
}

#[test]
fn the_file_password_loses_the_white_space_at_its_end() {
    let config = with_user(PasswordSource::SecretFile(String::from("/etc/secret")));
    match setup_plan(&config).secret {
        SecretSource::File(path) => assert_eq!(path, "/etc/secret"),
        other => panic!("unexpected {:?}", other),
    }
    let settings =
        setup_mqtt_client(&config, "host", None, Some(String::from("  se cret \t\r\n\n")))
            .unwrap();
    assert_eq!(settings.credentials, Some((String::from("alice"), String::from("  se cret"))));
    let blank = setup_mqtt_client(&config, "host", None, Some(String::from(" \n"))).unwrap();
    assert_eq!(blank.credentials, Some((String::from("alice"), String::new())));
}

#[test]
fn the_plain_password_needs_no_secret() {
    let config = with_user(PasswordSource::Plaintext(String::from("hunter2 ")));
    assert!(matches!(setup_plan(&config).secret, SecretSource::Nothing));
    let settings = setup_mqtt_client(&config, "host", None, None).unwrap();
    assert_eq!(settings.credentials, Some((String::from("alice"), String::from("hunter2 "))));
    let ignored =
        setup_mqtt_client(&config, "host", None, Some(String::from("other"))).unwrap();
    assert_eq!(ignored.credentials, Some((String::from("alice"), String::from("hunter2 "))));
}

#[test]
fn a_secret_that_was_not_fetched_is_missed() {
    for source in [PasswordSource::Keyring, PasswordSource::SecretFile(String::from("/x"))] {
        let config = with_user(source);
        assert!(matches!(
            setup_mqtt_client(&config, "host", None, None),
            Err(SetupError::MissingSecret)
        ));
    }
}

#[test]
fn a_bad_url_is_reported_before_a_missing_secret() {
    let mut config = with_user(PasswordSource::Keyring);
    config.mqtt_server = String::from("::");
    assert!(matches!(
        setup_mqtt_client(&config, "host", None, None),
        Err(SetupError::InvalidUrl(_))
    ));
}

#[test]
fn an_acknowledgement_connects() {
    assert_eq!(
        mqtt_loop(ConnectionState::Connecting, PollOutcome::ConnAck).unwrap(),
        ConnectionState::Connected
    );
    assert_eq!(
        mqtt_loop(ConnectionState::Connected, PollOutcome::ConnAck).unwrap(),
        ConnectionState::Connected
    );
}

#[test]
fn other_traffic_changes_nothing() {
    assert_eq!(
        mqtt_loop(ConnectionState::Connecting, PollOutcome::Other).unwrap(),
        ConnectionState::Connecting
    );
    assert_eq!(
        mqtt_loop(ConnectionState::Connected, PollOutcome::Other).unwrap(),
        ConnectionState::Connected
    );
}

#[test]
fn an_error_ends_the_watch() {
    for state in [ConnectionState::Connecting, ConnectionState::Connected] {
        let error = mqtt_loop(state, PollOutcome::Error(String::from("refused"))).unwrap_err();
        assert_eq!(error.reason, "refused");
    }
}

#[test]
fn the_watch_runs_until_the_first_error() {
    let polls = vec![
        PollOutcome::Other,
        PollOutcome::ConnAck,
        PollOutcome::Other,
        PollOutcome::Error(String::from("first")),
        PollOutcome::Error(String::from("second")),
    ];
    let mut state = ConnectionState::Connecting;
    let mut seen = 0;
    let mut ended = None;
    for poll in polls {
        seen += 1;
        match mqtt_loop(state, poll) {
            Ok(next) => state = next,
            Err(error) => {
                ended = Some(error.reason);
                break;
            }
        }
    }
    assert_eq!(seen, 4);
    assert_eq!(state, ConnectionState::Connected);
    assert_eq!(ended.as_deref(), Some("first"));
}

#[test]
fn the_password_belongs_to_the_configured_user() {
    let entry = set_password(&with_user(PasswordSource::Keyring)).unwrap();
    assert_eq!(entry.service, "system-mqtt");
    assert_eq!(entry.username, "alice");
    assert_eq!(KEYRING_SERVICE_NAME, "system-mqtt");
}

#[test]
fn without_a_user_no_password_is_stored() {
    let error = set_password(&config()).unwrap_err();
    assert!(matches!(error, PasswordError::NoUsername));
    assert_eq!(
        error.message(),
        "You must set the username for login with the mqtt server before you can set the \
         user's password"
    );
}
