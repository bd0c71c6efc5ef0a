use system_mqtt::error::ValidationError;
use system_mqtt::home_assistant::{
    selected_field, validate_entity_id, EntityRegistrationBuilder, HomeAssistant, QoS,
};

fn registry() -> HomeAssistant {
    HomeAssistant::new(String::from("host"))
}

#[test]
fn lower_case_identifiers_are_accepted() {
    assert!(validate_entity_id("cpu").is_ok());
    assert!(validate_entity_id("battery_level").is_ok());
    assert!(validate_entity_id("gpu-0_temp").is_ok());
    assert!(validate_entity_id("0").is_ok());
    assert!(validate_entity_id("_").is_ok());
    assert!(validate_entity_id("-").is_ok());
    assert!(validate_entity_id("az09").is_ok());
}

#[test]
fn an_empty_identifier_is_refused() {
    assert!(matches!(validate_entity_id(""), Err(ValidationError::Empty)));
}

#[test]
fn upper_case_is_refused() {
    match validate_entity_id("Cpu") {
        Err(ValidationError::InvalidCharacters(id)) => assert_eq!(id, "Cpu"),
        other => panic!("unexpected {:?}", other),
    }
    assert!(validate_entity_id("cpU").is_err());
}

#[test]
fn spaces_and_symbols_are_refused() {
    let refused =
        ["cpu load", " cpu", "cpu ", "cpu.load", "cpu/load", "cpu'", "cpu%", "çpu", "cpu\n"];
    for id in refused {
        match validate_entity_id(id) {
            Err(ValidationError::InvalidCharacters(told)) => assert_eq!(told, id),
            other => panic!("{:?} gave {:?}", id, other),
        }
    }
}

#[test]
fn characters_next_to_the_allowed_ranges_are_refused() {
    for id in ["`", "{", "/", ":", "@", "[", "A", "Z"] {
        assert!(validate_entity_id(id).is_err(), "{:?}", id);
    }
}

#[test]
fn a_refusal_says_what_is_wrong() {
    assert_eq!(validate_entity_id("").unwrap_err().message(), "Entity ID cannot be empty");
    assert_eq!(
        validate_entity_id("CPU 1").unwrap_err().message(),
        "Entity ID 'CPU 1' contains invalid characters"
    );
}

#[test]
fn a_new_registry_is_empty() {
    let registry = registry();
    assert!(registry.discovery_entries().is_empty());
    assert!(!registry.is_registered("state"));
}

#[test]
fn registered_entities_are_announced_in_order() {
    let mut registry = registry();
    registry
        .register_entity_with_builder(EntityRegistrationBuilder::new("sensor", "cpu"))
        .unwrap();
    registry
        .register_entity_with_builder(EntityRegistrationBuilder::new("sensor", "memory"))
        .unwrap();
    let entries = registry.discovery_entries();
    assert_eq!(entries.len(), 2);
    assert_eq!(entries[0].1.unique_id, "host-cpu");
    assert_eq!(entries[1].1.unique_id, "host-memory");
    assert_eq!(entries[0].0, "homeassistant/sensor/system-mqtt-host/cpu/config");
    assert_eq!(entries[1].0, "homeassistant/sensor/system-mqtt-host/memory/config");
}

#[test]
fn a_registration_fills_the_payload() {
    let mut registry = registry();
    registry
        .register_entity_with_builder(
            EntityRegistrationBuilder::new("binary_sensor", "door")
                .device_class("opening")
                .state_class("measurement")
                .unit_of_measurement("%")
                .icon("mdi:door"),
        )
        .unwrap();
    let (topic, payload) = &registry.discovery_entries()[0];
    assert_eq!(topic, "homeassistant/binary_sensor/system-mqtt-host/door/config");
    assert_eq!(payload.unique_id, "host-door");
    assert_eq!(payload.name, "host-door");
    assert_eq!(payload.device_class.as_deref(), Some("opening"));
    assert_eq!(payload.state_class.as_deref(), Some("measurement"));
    assert_eq!(payload.state_topic, "system-mqtt/host/state");
    assert_eq!(payload.value_template, "{{ value_json['door'] }}");
    assert_eq!(payload.unit_of_measurement.as_deref(), Some("%"));
    assert_eq!(payload.icon.as_deref(), Some("mdi:door"));
    assert_eq!(payload.device.identifiers, vec![String::from("host")]);
    assert_eq!(payload.device.name, "host");
}

#[test]
fn a_bare_registration_leaves_the_metadata_out() {
    let mut registry = registry();
    registry
        .register_entity_with_builder(EntityRegistrationBuilder::new("sensor", "cpu"))
        .unwrap();
    let payload = &registry.discovery_entries()[0].1;
    assert_eq!(payload.device_class, None);
    assert_eq!(payload.state_class, None);
    assert_eq!(payload.unit_of_measurement, None);
    assert_eq!(payload.icon, None);
}

#[test]
fn a_later_setting_of_the_builder_wins() {
    let mut registry = registry();
    registry
        .register_entity_with_builder(
            EntityRegistrationBuilder::new("sensor", "cpu").icon("mdi:a").icon("mdi:b"),
        )
        .unwrap();
    assert_eq!(registry.discovery_entries()[0].1.icon.as_deref(), Some("mdi:b"));
}

#[test]
fn a_refused_registration_changes_nothing() {
    let mut registry = registry();
    registry
        .register_entity_with_builder(EntityRegistrationBuilder::new("sensor", "cpu"))
        .unwrap();
    let refused =
        registry.register_entity_with_builder(EntityRegistrationBuilder::new("sensor", "CPU 2"));
    match refused {
        Err(ValidationError::InvalidCharacters(id)) => assert_eq!(id, "CPU 2"),
        other => panic!("unexpected {:?}", other),
    }
    let empty = registry.register_entity_with_builder(EntityRegistrationBuilder::new("sensor", ""));
    assert!(matches!(empty, Err(ValidationError::Empty)));
    assert_eq!(registry.discovery_entries().len(), 1);
}

#[test]
fn a_refused_registration_does_not_open_the_state_topic() {
    let mut registry = registry();
    assert!(registry
        .register_entity_with_builder(EntityRegistrationBuilder::new("sensor", "Bad"))
        .is_err());
    assert!(!registry.is_registered("state"));
    assert!(registry.publish("state", String::from("{}")).is_none());
}

#[test]
fn register_all_stops_at_the_first_refusal() {
    let mut registry = registry();
    let builders = vec![
        EntityRegistrationBuilder::new("sensor", "one"),
        EntityRegistrationBuilder::new("sensor", "Two"),
        EntityRegistrationBuilder::new("sensor", "three"),
    ];
    match registry.register_all(&builders) {
        Err(ValidationError::InvalidCharacters(id)) => assert_eq!(id, "Two"),
        other => panic!("unexpected {:?}", other),
    }
    let entries = registry.discovery_entries();
    assert_eq!(entries.len(), 1);
    assert_eq!(entries[0].1.unique_id, "host-one");
}

#[test]
fn register_all_registers_everything_that_is_valid() {
    let mut registry = registry();
    let builders = vec![
        EntityRegistrationBuilder::new("sensor", "one"),
        EntityRegistrationBuilder::new("sensor", "two"),
    ];
    assert!(registry.register_all(&builders).is_ok());
    assert_eq!(registry.discovery_entries().len(), 2);
    assert!(registry.register_all(&Vec::new()).is_ok());
    assert_eq!(registry.discovery_entries().len(), 2);
}

#[test]
fn only_the_state_topic_is_opened() {
    let mut registry = registry();
    registry
        .register_entity_with_builder(EntityRegistrationBuilder::new("sensor", "cpu"))
        .unwrap();
    assert!(registry.is_registered("state"));
    assert!(!registry.is_registered("cpu"));
    assert!(!registry.is_registered("availability"));
    assert!(!registry.is_registered(""));
}

#[test]
fn a_value_is_published_on_an_open_topic_only() {
    let mut registry = registry();
    registry
        .register_entity_with_builder(EntityRegistrationBuilder::new("sensor", "cpu"))
        .unwrap();
    let message = registry.publish("state", String::from("{\"cpu\":1}")).unwrap();
    assert_eq!(message.topic, "system-mqtt/host/state");
    assert_eq!(message.qos, QoS::AtLeastOnce);
    assert!(!message.retain);
    assert_eq!(message.payload, "{\"cpu\":1}");
    assert!(registry.publish("cpu", String::from("1")).is_none());
}

#[test]
fn availability_is_retained() {
    let registry = registry();
    let online = registry.set_available(true);
    assert_eq!(online.topic, "system-mqtt/host/availability");
    assert_eq!(online.qos, QoS::AtLeastOnce);
    assert!(online.retain);
    assert_eq!(online.payload, "online");
    let offline = registry.set_available(false);
    assert_eq!(offline.topic, "system-mqtt/host/availability");
    assert!(offline.retain);
    assert_eq!(offline.payload, "offline");
}

#[test]
fn disconnect_says_offline() {
    let farewell = registry().disconnect();
    assert_eq!(farewell.topic, "system-mqtt/host/availability");
    assert_eq!(farewell.qos, QoS::AtLeastOnce);
    assert!(farewell.retain);
    assert_eq!(farewell.payload, "offline");
}

#[test]
fn the_device_identifier_goes_into_every_topic() {
    let mut registry = HomeAssistant::new(String::from("living-room"));
    registry
        .register_entity_with_builder(EntityRegistrationBuilder::new("sensor", "cpu"))
        .unwrap();
    assert_eq!(registry.set_available(true).topic, "system-mqtt/living-room/availability");
    assert_eq!(
        registry.discovery_entries()[0].0,
        "homeassistant/sensor/system-mqtt-living-room/cpu/config"
    );
    assert_eq!(registry.discovery_entries()[0].1.state_topic, "system-mqtt/living-room/state");
    assert_eq!(registry.discovery_entries()[0].1.unique_id, "living-room-cpu");
}

#[test]
fn a_value_template_selects_its_entity() {
    assert_eq!(selected_field("{{ value_json['cpu'] }}").as_deref(), Some("cpu"));
    assert_eq!(selected_field("{{ value_json[''] }}").as_deref(), Some(""));
    assert_eq!(selected_field("{{ value_json['a'] }} "), None);
    assert_eq!(selected_field("{{ value_json.cpu }}"), None);
    assert_eq!(selected_field(""), None);
    assert_eq!(selected_field("{{ value_json['"), None);
    assert_eq!(selected_field("'] }}"), None);
}

#[test]
fn every_registered_template_selects_the_registered_identifier() {
    let mut registry = registry();
    for id in ["cpu", "memory", "gpu_0-temp"] {
        registry
            .register_entity_with_builder(EntityRegistrationBuilder::new("sensor", id))
            .unwrap();
    }
    let selected: Vec<Option<String>> = registry
        .discovery_entries()
        .iter()
        .map(|(_, payload)| selected_field(&payload.value_template))
        .collect();
    assert_eq!(
        selected,
        vec![
            Some(String::from("cpu")),
            Some(String::from("memory")),
            Some(String::from("gpu_0-temp"))
        ]
    );
}
