use system_mqtt::error::{DiscoveryError, PublishError};
use system_mqtt::home_assistant::{
    DiscoveryStep, EntityRegistrationBuilder, HomeAssistant, Publication, QoS,
};
use system_mqtt::json::{array, join, member, object, string_literal, string_member};

fn registry_of(ids: &[&str]) -> HomeAssistant {
    let mut registry = HomeAssistant::new(String::from("host"));
    for id in ids {
        registry
            .register_entity_with_builder(EntityRegistrationBuilder::new("sensor", id))
            .unwrap();
    }
    registry
}

/// Drives one pass; `refused` is the index of the publication that the
/// broker does not take, if any. Gives the messages that were attempted and
/// how the pass ended.
fn pass(
    registry: &HomeAssistant,
    refused: Option<usize>,
) -> (Vec<Publication>, Result<(), DiscoveryError>) {
    let mut attempted = Vec::new();
    let mut pass = registry.publish_discovery();
    loop {
        match pass.next(registry) {
            DiscoveryStep::Publish(message, pending) => {
                let outcome = if refused == Some(attempted.len()) {
                    Err(PublishError { reason: String::from("broker gone") })
                } else {
                    Ok(())
                };
                attempted.push(message);
                match pending.delivered(outcome) {
                    Ok(rest) => pass = rest,
                    Err(error) => return (attempted, Err(error)),
                }
            }
            DiscoveryStep::Finished(result) => return (attempted, result),
        }
    }
}

#[test]
fn a_string_literal_is_quoted_and_escaped() {
    assert_eq!(string_literal("cpu").unwrap(), "\"cpu\"");
    assert_eq!(string_literal("").unwrap(), "\"\"");
    assert_eq!(string_literal("a\"b\\c").unwrap(), "\"a\\\"b\\\\c\"");
    assert_eq!(string_literal("line\nbreak\ttab").unwrap(), "\"line\\nbreak\\ttab\"");
    assert_eq!(string_literal("°C").unwrap(), "\"°C\"");
    assert_eq!(string_literal("\u{1}").unwrap(), "\"\\u0001\"");
}

#[test]
fn members_are_framed() {
    assert_eq!(member("key", "1").unwrap(), "\"key\":1");
    assert_eq!(string_member("key", "value").unwrap(), "\"key\":\"value\"");
    let parts = vec![String::from("\"a\":1"), String::from("\"b\":2")];
    assert_eq!(join(&parts, ","), "\"a\":1,\"b\":2");
    assert_eq!(object(&parts), "{\"a\":1,\"b\":2}");
    assert_eq!(array(&parts), "[\"a\":1,\"b\":2]");
    assert_eq!(object(&Vec::new()), "{}");
    assert_eq!(array(&Vec::new()), "[]");
    assert_eq!(join(&vec![String::from("x")], ", "), "x");
    assert_eq!(join(&Vec::new(), ","), "");
}

#[test]
fn a_bare_payload_is_written_without_a_device_class() {
    let registry = registry_of(&["cpu"]);
    assert_eq!(
        registry.discovery_entries()[0].1.to_json().unwrap(),
        "{\"unique_id\":\"host-cpu\",\"name\":\"host-cpu\",\"state_class\":null,\
         \"state_topic\":\"system-mqtt/host/state\",\
         \"value_template\":\"{{ value_json['cpu'] }}\",\"unit_of_measurement\":null,\
         \"icon\":null,\"device\":{\"identifiers\":[\"host\"],\"name\":\"host\"}}"
    );
}

#[test]
fn a_full_payload_is_written_in_order() {
    let mut registry = HomeAssistant::new(String::from("host"));
    registry
        .register_entity_with_builder(
            EntityRegistrationBuilder::new("sensor", "vcore")
                .device_class("voltage")
                .state_class("measurement")
                .unit_of_measurement("V")
                .icon("mdi:flash"),
        )
        .unwrap();
    assert_eq!(
        registry.discovery_entries()[0].1.to_json().unwrap(),
        "{\"unique_id\":\"host-vcore\",\"name\":\"host-vcore\",\"device_class\":\"voltage\",\
         \"state_class\":\"measurement\",\"state_topic\":\"system-mqtt/host/state\",\
         \"value_template\":\"{{ value_json['vcore'] }}\",\"unit_of_measurement\":\"V\",\
         \"icon\":\"mdi:flash\",\"device\":{\"identifiers\":[\"host\"],\"name\":\"host\"}}"
    );
}

#[test]
fn a_payload_reads_back_as_json() {
    let mut registry = HomeAssistant::new(String::from("my \"host\""));
    registry
        .register_entity_with_builder(
            EntityRegistrationBuilder::new("sensor", "temp").unit_of_measurement("°C"),
        )
        .unwrap();
    let text = registry.discovery_entries()[0].1.to_json().unwrap();
    let value: serde_json::Value = serde_json::from_str(&text).unwrap();
    assert_eq!(value["unique_id"], "my \"host\"-temp");
    assert_eq!(value["name"], "my \"host\"-temp");
    assert_eq!(value["state_topic"], "system-mqtt/my \"host\"/state");
    assert_eq!(value["value_template"], "{{ value_json['temp'] }}");
    assert_eq!(value["unit_of_measurement"], "°C");
    assert!(value["state_class"].is_null());
    assert!(value["icon"].is_null());
    assert!(value.get("device_class").is_none());
    assert_eq!(value["device"]["name"], "my \"host\"");
    assert_eq!(value["device"]["identifiers"].as_array().unwrap().len(), 1);
    assert_eq!(value["device"]["identifiers"][0], "my \"host\"");
}

#[test]
fn a_pass_publishes_every_entry_in_order() {
    let registry = registry_of(&["cpu", "memory", "swap"]);
    let (attempted, result) = pass(&registry, None);
    assert!(result.is_ok());
    assert_eq!(attempted.len(), 3);
    for (message, entry) in attempted.iter().zip(registry.discovery_entries()) {
        assert_eq!(message.topic, entry.0);
        assert_eq!(message.payload, entry.1.to_json().unwrap());
        assert_eq!(message.qos, QoS::AtLeastOnce);
        assert!(message.retain);
    }
    assert_eq!(attempted[0].topic, "homeassistant/sensor/system-mqtt-host/cpu/config");
    assert_eq!(attempted[2].topic, "homeassistant/sensor/system-mqtt-host/swap/config");
}

#[test]
fn a_pass_over_nothing_ends_well() {
    let registry = registry_of(&[]);
    let (attempted, result) = pass(&registry, None);
    assert!(attempted.is_empty());
    assert!(result.is_ok());
}

#[test]
fn a_pass_stops_at_the_first_refusal() {
    let registry = registry_of(&["a", "b", "c", "d"]);
    let (attempted, result) = pass(&registry, Some(1));
    assert_eq!(attempted.len(), 2);
    assert_eq!(attempted[0].topic, "homeassistant/sensor/system-mqtt-host/a/config");
    assert_eq!(attempted[1].topic, "homeassistant/sensor/system-mqtt-host/b/config");
    match result {
        Err(DiscoveryError::Publish { index, error }) => {
            assert_eq!(index, 1);
            assert_eq!(error.reason, "broker gone");
        }
        other => panic!("unexpected {:?}", other),
    }
}

#[test]
fn a_refusal_of_the_first_entry_ends_the_pass_at_once() {
    let registry = registry_of(&["a", "b"]);
    let (attempted, result) = pass(&registry, Some(0));
    assert_eq!(attempted.len(), 1);
    assert!(matches!(result, Err(DiscoveryError::Publish { index: 0, .. })));
}

#[test]
fn a_refusal_of_the_last_entry_is_an_error_too() {
    let registry = registry_of(&["a", "b"]);
    let (attempted, result) = pass(&registry, Some(1));
    assert_eq!(attempted.len(), 2);
    assert!(matches!(result, Err(DiscoveryError::Publish { index: 1, .. })));
}

#[test]
fn the_pass_after_a_failed_one_publishes_everything_again() {
    let registry = registry_of(&["a", "b", "c"]);
    let (first, failed) = pass(&registry, Some(1));
    assert_eq!(first.len(), 2);
    assert!(failed.is_err());
    let (second, result) = pass(&registry, None);
    assert!(result.is_ok());
    assert_eq!(second.len(), 3);
    assert_eq!(second[0].topic, "homeassistant/sensor/system-mqtt-host/a/config");
    assert_eq!(second[1].topic, "homeassistant/sensor/system-mqtt-host/b/config");
    assert_eq!(second[2].topic, "homeassistant/sensor/system-mqtt-host/c/config");
}
